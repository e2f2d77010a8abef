use std::str::FromStr;

use bitcoin::bip32::{ChildNumber, Xpub};
use bitcoin::key::Secp256k1;
use bitcoin::{Address, KnownHrp};
use xpub_scan::address::Network;
use xpub_scan::json::{read_u64, Json, JsonNumber};
use xpub_scan::key::ExtendedPublicKey;
use xpub_scan::path::{ChildIndex, DerivationPath};
use xpub_scan::scan::scan_addresses;
use xpub_scan::script_type::ScriptPubKeyType;

const VECTOR_2_MASTER: &str = "xpub661MyMwAqRbcFW31YEwpkMuc5THy2PSt5bDMsktWQcFF8syAmRUapSCGu8ED9W6oDMSgv6Zz8idoc4a6mr8BDzTJY47LJhkJ8UB7WEGuduB";
const TEST_NETWORK_KEY: &str = "tpubD6NzVbkrYhZ4XgiXtGrdW5XDAPFCL9h7we1vwNCpn8tGbBcgfVYjXyhWo4E1xkh56hjod1RhGjxbaTLV3X4FyWuejifB9jusQ46QzG87VKp";

fn outside_children(text: &str, parent: &str, start: u32, count: u32) -> Vec<Xpub> {
    let secp = Secp256k1::new();
    let xpub = Xpub::from_str(text).unwrap();
    let parent = bitcoin::bip32::DerivationPath::from_str(parent).unwrap();
    (start..start + count)
        .map(|i| xpub.derive_pub(&secp, &parent.child(ChildNumber::from(i))).unwrap())
        .collect()
}

#[test]
fn keys_agree_with_the_bitcoin_crate() {
    let key = ExtendedPublicKey::parse(VECTOR_2_MASTER).unwrap();
    let children = outside_children(VECTOR_2_MASTER, "0/7", 3, 4);
    for (j, want) in children.iter().enumerate() {
        let path = DerivationPath::parse("0/7").unwrap().child(ChildIndex::normal(3 + j as u32).unwrap());
        let got = key.derive(&path).unwrap();
        assert_eq!(got.to_bytes(), want.encode());
        assert_eq!(got.to_pub().to_bytes(), want.to_pub().to_bytes());
        assert_eq!(got.to_x_only_pub().to_bytes(), want.to_x_only_pub().serialize());
    }
}

#[test]
fn scan_agrees_with_the_bitcoin_crate() {
    let secp = Secp256k1::new();
    let key = ExtendedPublicKey::parse(VECTOR_2_MASTER).unwrap();
    let path = DerivationPath::parse("1/20").unwrap();
    let entries = scan_addresses(&key, &path, 5, &vec![], Network::Bitcoin).unwrap();
    let children = outside_children(VECTOR_2_MASTER, "1", 20, 5);
    let mut want: Vec<(ScriptPubKeyType, u32, String)> = Vec::new();
    for (j, pk) in children.iter().enumerate() {
        let addr = Address::p2pkh(&pk.to_pub(), bitcoin::Network::Bitcoin);
        want.push((ScriptPubKeyType::P2PKH, 20 + j as u32, addr.to_string()));
    }
    for (j, pk) in children.iter().enumerate() {
        let addr = Address::p2shwpkh(&pk.to_pub(), bitcoin::Network::Bitcoin);
        want.push((ScriptPubKeyType::P2SHWPKH, 20 + j as u32, addr.to_string()));
    }
    for (j, pk) in children.iter().enumerate() {
        let addr = Address::p2wpkh(&pk.to_pub(), KnownHrp::Mainnet);
        want.push((ScriptPubKeyType::P2WPKH, 20 + j as u32, addr.to_string()));
    }
    for (j, pk) in children.iter().enumerate() {
        let addr = Address::p2tr(&secp, pk.to_x_only_pub(), None, KnownHrp::Mainnet);
        want.push((ScriptPubKeyType::P2TR, 20 + j as u32, addr.to_string()));
    }
    let got: Vec<(ScriptPubKeyType, u32, String)> =
        entries.into_iter().map(|e| (e.kind, e.index.to_raw(), e.address)).collect();
    assert_eq!(got, want);
}

#[test]
fn a_key_of_the_test_networks_is_read() {
    let key = ExtendedPublicKey::parse(TEST_NETWORK_KEY).unwrap();
    assert_eq!(key.to_bytes(), Xpub::from_str(TEST_NETWORK_KEY).unwrap().encode());
    assert_eq!(&key.to_bytes()[0..4], &[0x04, 0x35, 0x87, 0xcf]);
    let child = key.derive(&DerivationPath::parse("0/0").unwrap()).unwrap();
    assert_eq!(&child.to_bytes()[0..4], &[0x04, 0x35, 0x87, 0xcf]);
}

#[test]
fn paths_agree_with_the_bitcoin_crate() {
    for text in ["0/0", "m/44'/0h/0'/1/2147483647", "", "m", "17", "0/+5", "00/01"] {
        let want: Vec<u32> = bitcoin::bip32::DerivationPath::from_str(text).unwrap().to_u32_vec();
        let got: Vec<u32> =
            DerivationPath::parse(text).unwrap().indices.iter().map(|c| c.to_raw()).collect();
        assert_eq!(got, want);
    }
}

#[test]
fn numbers_agree_with_serde() {
    for n in [0u64, 1, 4_294_967_295, 4_294_967_296, 5_000_000_000, u64::MAX] {
        let want = serde_json::from_value::<u64>(serde_json::Value::from(n)).ok();
        assert_eq!(read_u64(&Json::Number(JsonNumber::Unsigned(n)), "p").ok(), want);
    }
    let negative = serde_json::from_value::<u64>(serde_json::Value::from(-1i64));
    assert!(negative.is_err());
    assert!(read_u64(&Json::Number(JsonNumber::Negative(-1)), "p").is_err());
    let text = serde_json::from_value::<u64>(serde_json::Value::from("12"));
    assert!(text.is_err());
}
