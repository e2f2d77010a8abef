//! The addresses of a public key.

use vstd::prelude::*;
use crate::error::ScanError;
use crate::key::{ExtendedPublicKey, PublicKey, XOnlyPublicKey};
use crate::script_type::ScriptPubKeyType;

verus! {

/// The network that an address is for.
#[derive(Clone, Copy, Debug, PartialEq, Eq, Structural)]
pub enum Network {
    Bitcoin,
    Testnet,
    Testnet4,
    Signet,
    Regtest,
}

/// The address that pays to the hash of the public key with the bytes
/// `pubkey`; `None` where the bytes are no public key.
pub uninterp spec fn p2pkh_text(pubkey: Seq<u8>, network: Network) -> Option<Seq<char>>;

/// The address that pays to the script hash of the version 0 witness
/// program for the public key with the bytes `pubkey`; `None` where the
/// bytes are no public key.
pub uninterp spec fn p2shwpkh_text(pubkey: Seq<u8>, network: Network) -> Option<Seq<char>>;

/// The address of the version 0 witness program for the public key with
/// the bytes `pubkey`; `None` where the bytes are no public key.
pub uninterp spec fn p2wpkh_text(pubkey: Seq<u8>, network: Network) -> Option<Seq<char>>;

/// The address of the Taproot output that has the key with the x
/// coordinate `xonly` as its internal key and commits to no script;
/// `None` where the bytes are the x coordinate of no public key.
pub uninterp spec fn p2tr_text(xonly: Seq<u8>, network: Network) -> Option<Seq<char>>;

/// `Address::p2pkh` of the `bitcoin` crate, on the key that
/// `CompressedPublicKey::from_slice` reads from `pubkey`, written out by
/// `to_string`. The contract gives the text the name `p2pkh_text` and
/// claims nothing else of it; bytes that are refused as a key have none.
#[verifier::external_body]
fn p2pkh(pubkey: &[u8; 33], network: Network) -> (r: Option<String>)
    ensures
        r.deep_view() == p2pkh_text(pubkey@, network),
{
    let key = bitcoin::CompressedPublicKey::from_slice(pubkey).ok()?;
    let network = match network {
        Network::Bitcoin => bitcoin::Network::Bitcoin,
        Network::Testnet => bitcoin::Network::Testnet,
        Network::Testnet4 => bitcoin::Network::Testnet4,
        Network::Signet => bitcoin::Network::Signet,
        Network::Regtest => bitcoin::Network::Regtest,
    };
    Some(bitcoin::Address::p2pkh(&key, network).to_string())
}

/// `Address::p2shwpkh` of the `bitcoin` crate, on the key that
/// `CompressedPublicKey::from_slice` reads from `pubkey`, written out by
/// `to_string`. The contract gives the text the name `p2shwpkh_text` and
/// claims nothing else of it; bytes that are refused as a key have none.
#[verifier::external_body]
fn p2shwpkh(pubkey: &[u8; 33], network: Network) -> (r: Option<String>)
    ensures
        r.deep_view() == p2shwpkh_text(pubkey@, network),
{
    let key = bitcoin::CompressedPublicKey::from_slice(pubkey).ok()?;
    let network = match network {
        Network::Bitcoin => bitcoin::Network::Bitcoin,
        Network::Testnet => bitcoin::Network::Testnet,
        Network::Testnet4 => bitcoin::Network::Testnet4,
        Network::Signet => bitcoin::Network::Signet,
        Network::Regtest => bitcoin::Network::Regtest,
    };
    Some(bitcoin::Address::p2shwpkh(&key, network).to_string())
}

/// `Address::p2wpkh` of the `bitcoin` crate, on the key that
/// `CompressedPublicKey::from_slice` reads from `pubkey`, written out by
/// `to_string`. The contract gives the text the name `p2wpkh_text` and
/// claims nothing else of it; bytes that are refused as a key have none.
#[verifier::external_body]
fn p2wpkh(pubkey: &[u8; 33], network: Network) -> (r: Option<String>)
    ensures
        r.deep_view() == p2wpkh_text(pubkey@, network),
{
    let key = bitcoin::CompressedPublicKey::from_slice(pubkey).ok()?;
    let network = match network {
        Network::Bitcoin => bitcoin::Network::Bitcoin,
        Network::Testnet => bitcoin::Network::Testnet,
        Network::Testnet4 => bitcoin::Network::Testnet4,
        Network::Signet => bitcoin::Network::Signet,
        Network::Regtest => bitcoin::Network::Regtest,
    };
    Some(bitcoin::Address::p2wpkh(&key, network).to_string())
}

/// `Address::p2tr` of the `bitcoin` crate, with no Merkle root, on the key
/// that `XOnlyPublicKey::from_slice` reads from `xonly`, written out by
/// `to_string`. The contract gives the text the name `p2tr_text` and
/// claims nothing else of it; bytes that are refused as a key have none.
/// The crate tweaks the key by a hash of the key itself and expects the
/// sum to be a point of the curve.
#[verifier::external_body]
fn p2tr(xonly: &[u8; 32], network: Network) -> (r: Option<String>)
    ensures
        r.deep_view() == p2tr_text(xonly@, network),
{
    let secp = bitcoin::secp256k1::Secp256k1::verification_only();
    let key = bitcoin::XOnlyPublicKey::from_slice(xonly).ok()?;
    let network = match network {
        Network::Bitcoin => bitcoin::Network::Bitcoin,
        Network::Testnet => bitcoin::Network::Testnet,
        Network::Testnet4 => bitcoin::Network::Testnet4,
        Network::Signet => bitcoin::Network::Signet,
        Network::Regtest => bitcoin::Network::Regtest,
    };
    Some(bitcoin::Address::p2tr(&secp, key, None, network).to_string())
}

/// An address that was encoded, as its text, or the failure.
pub open spec fn address_view(r: Result<String, ScanError>) -> Result<Seq<char>, ScanError> {
    match r {
        Ok(address) => Ok(address@),
        Err(e) => Err(e),
    }
}

/// The address that an encoding gave, or the one failure that an encoding
/// has: the key is no key.
pub open spec fn encoded(text: Option<Seq<char>>) -> Result<Seq<char>, ScanError> {
    match text {
        Some(address) => Ok(address),
        None => Err(ScanError::InvalidKeyMaterial),
    }
}

/// The address of the kind `kind` for the public key of the extended key
/// with the bytes `key`. The three kinds that hash the key take its
/// compressed form, Taproot its x coordinate alone; the key is the last 33
/// bytes of the extended key, the x coordinate the last 32.
pub open spec fn address_of(kind: ScriptPubKeyType, key: Seq<u8>, network: Network) -> Result<
    Seq<char>,
    ScanError,
> {
    match kind {
        ScriptPubKeyType::P2PKH => encoded(p2pkh_text(key.subrange(45, 78), network)),
        ScriptPubKeyType::P2SHWPKH => encoded(p2shwpkh_text(key.subrange(45, 78), network)),
        ScriptPubKeyType::P2WPKH => encoded(p2wpkh_text(key.subrange(45, 78), network)),
        ScriptPubKeyType::P2TR => encoded(p2tr_text(key.subrange(46, 78), network)),
    }
}

/// The legacy address of a public key: Base58Check of the key's hash.
pub fn encode_p2pkh(pubkey: &PublicKey, network: Network) -> (r: Result<String, ScanError>)
    ensures
        address_view(r) == encoded(p2pkh_text(pubkey@, network)),
{
    match p2pkh(&pubkey.to_bytes(), network) {
        Some(address) => Ok(address),
        None => Err(ScanError::InvalidKeyMaterial),
    }
}

/// The address of a public key's version 0 witness program, wrapped in a
/// script hash.
pub fn encode_p2shwpkh(pubkey: &PublicKey, network: Network) -> (r: Result<String, ScanError>)
    ensures
        address_view(r) == encoded(p2shwpkh_text(pubkey@, network)),
{
    match p2shwpkh(&pubkey.to_bytes(), network) {
        Some(address) => Ok(address),
        None => Err(ScanError::InvalidKeyMaterial),
    }
}

/// The native address of a public key's version 0 witness program, in
/// Bech32.
pub fn encode_p2wpkh(pubkey: &PublicKey, network: Network) -> (r: Result<String, ScanError>)
    ensures
        address_view(r) == encoded(p2wpkh_text(pubkey@, network)),
{
    match p2wpkh(&pubkey.to_bytes(), network) {
        Some(address) => Ok(address),
        None => Err(ScanError::InvalidKeyMaterial),
    }
}

/// The Taproot address of a key, in Bech32m: the key is the internal key
/// of an output that can be spent by the key alone, with no script tree.
pub fn encode_p2tr(xonly: &XOnlyPublicKey, network: Network) -> (r: Result<String, ScanError>)
    ensures
        address_view(r) == encoded(p2tr_text(xonly@, network)),
{
    match p2tr(&xonly.to_bytes(), network) {
        Some(address) => Ok(address),
        None => Err(ScanError::InvalidKeyMaterial),
    }
}

/// The address of the kind `kind` for the public key of `key`.
pub fn encode_address(kind: ScriptPubKeyType, key: &ExtendedPublicKey, network: Network) -> (r:
    Result<String, ScanError>)
    ensures
        address_view(r) == address_of(kind, key@, network),
{
    match kind {
        ScriptPubKeyType::P2PKH => encode_p2pkh(&key.to_pub(), network),
        ScriptPubKeyType::P2SHWPKH => encode_p2shwpkh(&key.to_pub(), network),
        ScriptPubKeyType::P2WPKH => encode_p2wpkh(&key.to_pub(), network),
        ScriptPubKeyType::P2TR => encode_p2tr(&key.to_x_only_pub(), network),
    }
}

/// Encoding is a function of the kind, the key and the network: whatever
/// two encodings of one key give, it is the same address, character for
/// character, or the same failure.
pub proof fn lemma_encoding_is_deterministic(
    kind: ScriptPubKeyType,
    key: ExtendedPublicKey,
    network: Network,
    first: Result<String, ScanError>,
    second: Result<String, ScanError>,
)
    requires
        address_view(first) == address_of(kind, key@, network),
        address_view(second) == address_of(kind, key@, network),
    ensures
        address_view(first) == address_view(second),
{
}

} // verus!
