use xpub_scan::address::{encode_address, encode_p2pkh, encode_p2shwpkh, encode_p2tr, encode_p2wpkh, Network};
use xpub_scan::error::ScanError;
use xpub_scan::key::{ExtendedPublicKey, PublicKey, XOnlyPublicKey};
use xpub_scan::path::DerivationPath;
use xpub_scan::script_type::ScriptPubKeyType;

const VECTOR_1_MASTER: &str = "xpub661MyMwAqRbcFtXgS5sYJABqqG9YLmC4Q1Rdap9gSE8NqtwybGhePY2gZ29ESFjqJoCu1Rupje8YtGqsefD265TMg7usUDFdp6W1EGMcet8";
const VECTOR_2_MASTER: &str = "xpub661MyMwAqRbcFW31YEwpkMuc5THy2PSt5bDMsktWQcFF8syAmRUapSCGu8ED9W6oDMSgv6Zz8idoc4a6mr8BDzTJY47LJhkJ8UB7WEGuduB";

fn hex(text: &str) -> Vec<u8> {
    (0..text.len() / 2).map(|i| u8::from_str_radix(&text[2 * i..2 * i + 2], 16).unwrap()).collect()
}

fn public_key(text: &str) -> PublicKey {
    let mut bytes = [0u8; 33];
    bytes.copy_from_slice(&hex(text));
    PublicKey::from_bytes(bytes)
}

fn x_only(text: &str) -> XOnlyPublicKey {
    let mut bytes = [0u8; 32];
    bytes.copy_from_slice(&hex(text));
    XOnlyPublicKey::from_bytes(bytes)
}

fn child(xpub: &str, path: &str) -> ExtendedPublicKey {
    ExtendedPublicKey::parse(xpub).unwrap().derive(&DerivationPath::parse(path).unwrap()).unwrap()
}

#[test]
fn p2pkh_of_the_master_keys() {
    let first = ExtendedPublicKey::parse(VECTOR_1_MASTER).unwrap();
    assert_eq!(
        encode_p2pkh(&first.to_pub(), Network::Bitcoin),
        Ok("15mKKb2eos1hWa6tisdPwwDC1a5J1y9nma".to_string())
    );
    let second = ExtendedPublicKey::parse(VECTOR_2_MASTER).unwrap();
    assert_eq!(
        encode_p2pkh(&second.to_pub(), Network::Bitcoin),
        Ok("1JEoxevbLLG8cVqeoGKQiAwoWbNYSUyYjg".to_string())
    );
}

#[test]
fn p2pkh_of_a_derived_key() {
    let key = child(VECTOR_2_MASTER, "0");
    assert_eq!(
        encode_p2pkh(&key.to_pub(), Network::Bitcoin),
        Ok("19EuDJdgfRkwCmRzbzVBHZWQG9QNWhftbZ".to_string())
    );
}

#[test]
fn p2wpkh_of_a_known_key() {
    let key = public_key("0330d54fd0dd420a6e5f8d3624f5f3482cae350f79d5f0753bf5beef9c2d91af3c");
    assert_eq!(
        encode_p2wpkh(&key, Network::Bitcoin),
        Ok("bc1qcr8te4kr609gcawutmrza0j4xv80jy8z306fyu".to_string())
    );
}

#[test]
fn p2wpkh_of_the_generator_point() {
    let key = public_key("0279be667ef9dcbbac55a06295ce870b07029bfcdb2dce28d959f2815b16f81798");
    assert_eq!(
        encode_p2wpkh(&key, Network::Bitcoin),
        Ok("bc1qw508d6qejxtdg4y5r3zarvary0c5xw7kv8f3t4".to_string())
    );
    assert_eq!(
        encode_p2wpkh(&key, Network::Testnet),
        Ok("tb1qw508d6qejxtdg4y5r3zarvary0c5xw7kxpjzsx".to_string())
    );
}

#[test]
fn p2shwpkh_of_a_known_key() {
    let key = public_key("03a1af804ac108a8a51782198c2d034b28bf90c8803f5a53f76276fa69a4eae77f");
    assert_eq!(
        encode_p2shwpkh(&key, Network::Testnet),
        Ok("2Mww8dCYPUpKHofjgcXcBCEGmniw9CoaiD2".to_string())
    );
}

#[test]
fn p2tr_of_a_known_key() {
    let key = x_only("cc8a4bc64d897bddc5fbc2f670f7a8ba0b386779106cf1223c6fc5d7cd6fc115");
    assert_eq!(
        encode_p2tr(&key, Network::Bitcoin),
        Ok("bc1p5cyxnuxmeuwuvkwfem96lqzszd02n6xdcjrs20cac6yqjjwudpxqkedrcr".to_string())
    );
}

#[test]
fn addresses_of_the_first_child() {
    let key = child(VECTOR_1_MASTER, "0/0");
    assert_eq!(
        encode_address(ScriptPubKeyType::P2PKH, &key, Network::Bitcoin),
        Ok("12CL4K2eVqj7hQTix7dM7CVHCkpP17Pry3".to_string())
    );
    assert_eq!(
        encode_address(ScriptPubKeyType::P2SHWPKH, &key, Network::Bitcoin),
        Ok("3AfyxhpBVVLmBR4ZYX2onGzRqjv5QZ7FqD".to_string())
    );
    assert_eq!(
        encode_address(ScriptPubKeyType::P2WPKH, &key, Network::Bitcoin),
        Ok("bc1qp5wfcq48h6d63wyy9qz0awtpfqwwv4sma86mhz".to_string())
    );
    assert_eq!(
        encode_address(ScriptPubKeyType::P2TR, &key, Network::Bitcoin),
        Ok("bc1pgfhzycz8pckwsdspf04hn6rps5tpapgrchtzx5f3k8wlvqhmxu6qrdt83a".to_string())
    );
}

#[test]
fn encode_address_takes_the_form_of_key_that_the_kind_asks_for() {
    let key = child(VECTOR_1_MASTER, "0/1");
    assert_eq!(
        encode_address(ScriptPubKeyType::P2PKH, &key, Network::Bitcoin),
        encode_p2pkh(&key.to_pub(), Network::Bitcoin)
    );
    assert_eq!(
        encode_address(ScriptPubKeyType::P2SHWPKH, &key, Network::Bitcoin),
        encode_p2shwpkh(&key.to_pub(), Network::Bitcoin)
    );
    assert_eq!(
        encode_address(ScriptPubKeyType::P2WPKH, &key, Network::Bitcoin),
        encode_p2wpkh(&key.to_pub(), Network::Bitcoin)
    );
    assert_eq!(
        encode_address(ScriptPubKeyType::P2TR, &key, Network::Bitcoin),
        encode_p2tr(&key.to_x_only_pub(), Network::Bitcoin)
    );
}

#[test]
fn addresses_for_the_test_networks() {
    let key = child(VECTOR_1_MASTER, "0/0");
    assert_eq!(
        encode_address(ScriptPubKeyType::P2PKH, &key, Network::Testnet),
        Ok("mgiHMN7dJsANUWwLfgbiw7hc4kR5xMjPhw".to_string())
    );
    assert_eq!(
        encode_address(ScriptPubKeyType::P2SHWPKH, &key, Network::Signet),
        Ok("2N2EC2SkD6wr7PCh7DeegQDyh468FA7TK3a".to_string())
    );
    assert_eq!(
        encode_address(ScriptPubKeyType::P2WPKH, &key, Network::Testnet4),
        Ok("tb1qp5wfcq48h6d63wyy9qz0awtpfqwwv4smhppgv3".to_string())
    );
    assert_eq!(
        encode_address(ScriptPubKeyType::P2TR, &key, Network::Testnet),
        Ok("tb1pgfhzycz8pckwsdspf04hn6rps5tpapgrchtzx5f3k8wlvqhmxu6q59agtj".to_string())
    );
    let regtest = encode_address(ScriptPubKeyType::P2WPKH, &key, Network::Regtest).unwrap();
    assert!(regtest.starts_with("bcrt1q"));
}

#[test]
fn encoding_is_deterministic() {
    let key = child(VECTOR_1_MASTER, "0/0");
    for kind in [
        ScriptPubKeyType::P2PKH,
        ScriptPubKeyType::P2SHWPKH,
        ScriptPubKeyType::P2WPKH,
        ScriptPubKeyType::P2TR,
    ] {
        assert_eq!(
            encode_address(kind, &key, Network::Bitcoin),
            encode_address(kind, &key, Network::Bitcoin)
        );
    }
}

#[test]
fn bytes_that_are_no_key_have_no_address() {
    let zero = PublicKey::from_bytes([0u8; 33]);
    assert_eq!(encode_p2pkh(&zero, Network::Bitcoin), Err(ScanError::InvalidKeyMaterial));
    assert_eq!(encode_p2shwpkh(&zero, Network::Bitcoin), Err(ScanError::InvalidKeyMaterial));
    assert_eq!(encode_p2wpkh(&zero, Network::Bitcoin), Err(ScanError::InvalidKeyMaterial));
    let mut bad_sign = [1u8; 33];
    bad_sign[0] = 5;
    assert_eq!(
        encode_p2pkh(&PublicKey::from_bytes(bad_sign), Network::Bitcoin),
        Err(ScanError::InvalidKeyMaterial)
    );
    let off_curve = XOnlyPublicKey::from_bytes([0u8; 32]);
    assert_eq!(encode_p2tr(&off_curve, Network::Bitcoin), Err(ScanError::InvalidKeyMaterial));
}
