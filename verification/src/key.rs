//! Extended public keys and the keys that are derived from them.

use vstd::prelude::*;
use crate::error::ScanError;
use crate::path::{ChildIndex, DerivationPath, HARDENED_BASE};

verus! {

/// An extended public key: a public key with the chain code that its
/// children are derived with and the place that it has among the
/// descendants of a master key. It is kept as the 78 bytes that such a key
/// is serialised to: four bytes of version, the depth, four bytes of the
/// parent's fingerprint, four of the key's own component, 32 of chain code
/// and 33 of public key.
#[derive(Clone, Copy, Debug, PartialEq, Eq)]
pub struct ExtendedPublicKey {
    bytes: [u8; 78],
}

/// A public key in its compressed form: a byte for the sign, then the 32
/// bytes of the x coordinate.
#[derive(Clone, Copy, Debug, PartialEq, Eq)]
pub struct PublicKey {
    bytes: [u8; 33],
}

/// A public key as its x coordinate alone.
#[derive(Clone, Copy, Debug, PartialEq, Eq)]
pub struct XOnlyPublicKey {
    bytes: [u8; 32],
}

impl View for ExtendedPublicKey {
    type V = Seq<u8>;

    closed spec fn view(&self) -> Seq<u8> {
        self.bytes@
    }
}

impl View for PublicKey {
    type V = Seq<u8>;

    closed spec fn view(&self) -> Seq<u8> {
        self.bytes@
    }
}

impl View for XOnlyPublicKey {
    type V = Seq<u8>;

    closed spec fn view(&self) -> Seq<u8> {
        self.bytes@
    }
}

/// The serialisation of the extended public key that a text is the
/// Base58Check writing of; `None` where the text is no such key.
pub uninterp spec fn xpub_bytes(text: Seq<char>) -> Option<Seq<u8>>;

/// The serialisation of the child that the extended public key with the
/// serialisation `parent` has under the component with the raw number
/// `number`; `None` where it has none.
pub uninterp spec fn child_key_bytes(parent: Seq<u8>, number: u32) -> Option<Seq<u8>>;

/// `Xpub::from_str` of the `bitcoin` crate, its result handed out through
/// `Xpub::encode`. The contract gives the bytes of the key that it reads
/// the name `xpub_bytes` and claims nothing else of them; a text that it
/// refuses has none.
#[verifier::external_body]
fn decode_xpub(text: &str) -> (r: Option<[u8; 78]>)
    ensures
        match r {
            Some(bytes) => xpub_bytes(text@) == Some(bytes@),
            None => xpub_bytes(text@).is_none(),
        },
{
    match text.parse::<bitcoin::bip32::Xpub>() {
        Ok(key) => Some(key.encode()),
        Err(_) => None,
    }
}

/// `Xpub::ckd_pub` of the `bitcoin` crate, on the key that `Xpub::decode`
/// reads from `parent` and the component that `ChildNumber::from` makes of
/// `number`; its result is handed out through `Xpub::encode`. The contract
/// gives the bytes of the child the name `child_key_bytes` and claims
/// nothing else of them. There is no child where the bytes are no key,
/// where the component is hardened, where the child's key would be no
/// point of the curve, and where the parent's depth is 255 already.
#[verifier::external_body]
fn ckd_pub(parent: &[u8; 78], number: u32) -> (r: Option<[u8; 78]>)
    ensures
        match r {
            Some(bytes) => child_key_bytes(parent@, number) == Some(bytes@),
            None => child_key_bytes(parent@, number).is_none(),
        },
{
    let secp = bitcoin::secp256k1::Secp256k1::verification_only();
    let key = bitcoin::bip32::Xpub::decode(parent).ok()?;
    let child = key.ckd_pub(&secp, bitcoin::bip32::ChildNumber::from(number)).ok()?;
    Some(child.encode())
}

/// The child of the key `key` under the component `cn`. A public key has
/// no hardened children; and the derivation itself can fail.
pub open spec fn derive_child_spec(key: Seq<u8>, cn: ChildIndex) -> Result<Seq<u8>, ScanError> {
    if cn.is_hardened() {
        Err(ScanError::HardenedDerivationUnsupported)
    } else {
        match child_key_bytes(key, cn.raw) {
            Some(child) => Ok(child),
            None => Err(ScanError::InvalidKeyMaterial),
        }
    }
}

/// The descendant of the key `key` at the end of `path`: the components of
/// the path are gone through from the first to the last, each deriving a
/// child of the key that the one before it gave. The first step that fails
/// ends the derivation with its failure.
pub open spec fn derive_spec(key: Seq<u8>, path: Seq<ChildIndex>) -> Result<Seq<u8>, ScanError>
    decreases path.len(),
{
    if path.len() == 0 {
        Ok(key)
    } else {
        match derive_spec(key, path.drop_last()) {
            Ok(parent) => derive_child_spec(parent, path.last()),
            Err(e) => Err(e),
        }
    }
}

/// The bytes of a key that was derived, or the failure.
pub open spec fn key_view(r: Result<ExtendedPublicKey, ScanError>) -> Result<Seq<u8>, ScanError> {
    match r {
        Ok(key) => Ok(key@),
        Err(e) => Err(e),
    }
}

/// Deriving along a path that goes on by one component is deriving along
/// the path and then deriving the child under that component.
pub proof fn lemma_derive_child_of_path(key: Seq<u8>, path: Seq<ChildIndex>, cn: ChildIndex)
    ensures
        derive_spec(key, path.push(cn)) == match derive_spec(key, path) {
            Ok(parent) => derive_child_spec(parent, cn),
            Err(e) => Err(e),
        },
{
    assert(path.push(cn).drop_last() == path);
}

/// Deriving along two paths, one after the other, is deriving along the
/// two put together.
pub proof fn lemma_derive_concat(key: Seq<u8>, first: Seq<ChildIndex>, second: Seq<ChildIndex>)
    ensures
        derive_spec(key, first + second) == match derive_spec(key, first) {
            Ok(middle) => derive_spec(middle, second),
            Err(e) => Err(e),
        },
    decreases second.len(),
{
    if second.len() > 0 {
        lemma_derive_concat(key, first, second.drop_last());
        assert((first + second).drop_last() == first + second.drop_last());
    }
}

/// Derivation is a function of the key and the path: whatever two
/// derivations from one key along one path give, it is the same
/// descendant, byte for byte, or the same failure.
pub proof fn lemma_derivation_is_deterministic(
    key: ExtendedPublicKey,
    path: DerivationPath,
    first: Result<ExtendedPublicKey, ScanError>,
    second: Result<ExtendedPublicKey, ScanError>,
)
    requires
        key_view(first) == derive_spec(key@, path@),
        key_view(second) == derive_spec(key@, path@),
    ensures
        key_view(first) == key_view(second),
{
}

impl ExtendedPublicKey {
    /// Reads a key from its Base58Check writing, the text that begins with
    /// `xpub` or `tpub`.
    pub fn parse(text: &str) -> (r: Result<ExtendedPublicKey, ScanError>)
        ensures
            key_view(r) == match xpub_bytes(text@) {
                Some(bytes) => Ok::<Seq<u8>, ScanError>(bytes),
                None => Err(ScanError::InvalidXpub),
            },
    {
        match decode_xpub(text) {
            Some(bytes) => Ok(ExtendedPublicKey { bytes }),
            None => Err(ScanError::InvalidXpub),
        }
    }

    /// The 78 bytes of the key.
    pub fn to_bytes(&self) -> (r: [u8; 78])
        ensures
            r@ == self@,
    {
        self.bytes
    }

    /// The child of the key under the component `cn`.
    pub fn derive_child(&self, cn: ChildIndex) -> (r: Result<ExtendedPublicKey, ScanError>)
        ensures
            key_view(r) == derive_child_spec(self@, cn),
    {
        if cn.raw >= HARDENED_BASE {
            Err(ScanError::HardenedDerivationUnsupported)
        } else {
            match ckd_pub(&self.bytes, cn.raw) {
                Some(bytes) => Ok(ExtendedPublicKey { bytes }),
                None => Err(ScanError::InvalidKeyMaterial),
            }
        }
    }

    /// The descendant of the key at the end of `path`.
    pub fn derive(&self, path: &DerivationPath) -> (r: Result<ExtendedPublicKey, ScanError>)
        ensures
            key_view(r) == derive_spec(self@, path@),
    {
        let mut key = *self;
        let mut i: usize = 0;
        while i < path.indices.len()
            invariant
                i <= path@.len(),
                derive_spec(self@, path@.take(i as int)) == Ok::<Seq<u8>, ScanError>(key@),
            decreases path@.len() - i,
        {
            proof {
                assert(path@.take(i + 1) == path@.take(i as int).push(path@[i as int]));
                lemma_derive_child_of_path(self@, path@.take(i as int), path@[i as int]);
            }
            match key.derive_child(path.indices[i]) {
                Ok(child) => {
                    key = child;
                },
                Err(e) => {
                    proof {
                        assert(path@.take(i + 1) + path@.skip(i + 1) == path@);
                        lemma_derive_fails_on(self@, path@.take(i + 1), path@.skip(i + 1), e);
                    }
                    return Err(e);
                },
            }
            i = i + 1;
        }
        assert(path@.take(path@.len() as int) == path@);
        Ok(key)
    }

    /// The public key of the extended key, in its compressed form.
    pub fn to_pub(&self) -> (r: PublicKey)
        ensures
            r@ == self@.subrange(45, 78),
    {
        let mut bytes = [0u8; 33];
        let mut i: usize = 0;
        while i < 33
            invariant
                i <= 33,
                forall|k: int| 0 <= k < i ==> bytes@[k] == self.bytes@[45 + k],
            decreases 33 - i,
        {
            bytes[i] = self.bytes[45 + i];
            i = i + 1;
        }
        PublicKey { bytes }
    }

    /// The public key of the extended key as its x coordinate alone.
    pub fn to_x_only_pub(&self) -> (r: XOnlyPublicKey)
        ensures
            r@ == self@.subrange(46, 78),
    {
        let mut bytes = [0u8; 32];
        let mut i: usize = 0;
        while i < 32
            invariant
                i <= 32,
                forall|k: int| 0 <= k < i ==> bytes@[k] == self.bytes@[46 + k],
            decreases 32 - i,
        {
            bytes[i] = self.bytes[46 + i];
            i = i + 1;
        }
        XOnlyPublicKey { bytes }
    }

    /// How many derivations the key is away from its master key.
    pub fn depth(&self) -> (r: u8)
        ensures
            r == self@[4],
    {
        self.bytes[4]
    }
}

/// Where deriving along the beginning of a path fails, deriving along the
/// whole path fails in the same way.
pub proof fn lemma_derive_fails_on(
    key: Seq<u8>,
    first: Seq<ChildIndex>,
    second: Seq<ChildIndex>,
    e: ScanError,
)
    requires
        derive_spec(key, first) == Err::<Seq<u8>, ScanError>(e),
    ensures
        derive_spec(key, first + second) == Err::<Seq<u8>, ScanError>(e),
{
    lemma_derive_concat(key, first, second);
}

impl PublicKey {
    /// The key with the given bytes.
    pub fn from_bytes(bytes: [u8; 33]) -> (r: PublicKey)
        ensures
            r@ == bytes@,
    {
        PublicKey { bytes }
    }

    /// The 33 bytes of the key.
    pub fn to_bytes(&self) -> (r: [u8; 33])
        ensures
            r@ == self@,
    {
        self.bytes
    }

    /// The key as its x coordinate alone: the key without its first byte.
    pub fn to_x_only(&self) -> (r: XOnlyPublicKey)
        ensures
            r@ == self@.subrange(1, 33),
    {
        let mut bytes = [0u8; 32];
        let mut i: usize = 0;
        while i < 32
            invariant
                i <= 32,
                forall|k: int| 0 <= k < i ==> bytes@[k] == self.bytes@[1 + k],
            decreases 32 - i,
        {
            bytes[i] = self.bytes[1 + i];
            i = i + 1;
        }
        XOnlyPublicKey { bytes }
    }
}

impl XOnlyPublicKey {
    /// The key with the given bytes.
    pub fn from_bytes(bytes: [u8; 32]) -> (r: XOnlyPublicKey)
        ensures
            r@ == bytes@,
    {
        XOnlyPublicKey { bytes }
    }

    /// The 32 bytes of the key.
    pub fn to_bytes(&self) -> (r: [u8; 32])
        ensures
            r@ == self@,
    {
        self.bytes
    }
}

} // verus!
