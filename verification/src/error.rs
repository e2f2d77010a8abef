//! The ways in which a scan can fail.

use vstd::prelude::*;
use vstd::string::StringExecFns;

verus! {

/// Why a scan, or one step of it, was given up. No failure is recovered
/// from: the first one ends the scan. A failure that comes of one piece of
/// text among several holds that piece.
#[derive(Clone, Debug, PartialEq, Eq)]
pub enum ScanError {
    /// The text of a derivation path is not a path.
    MalformedPath,
    /// The derivation path has no component to count from.
    EmptyPath,
    /// The index after the largest one was asked for.
    IndexOverflow,
    /// A hardened child was asked of a public key.
    HardenedDerivationUnsupported,
    /// A key is not a point of the curve, or has no child.
    InvalidKeyMaterial,
    /// The balance unit is neither `btc` nor `sat`.
    InvalidUnit,
    /// A segment of the balance path names no member. It holds the
    /// segment.
    PathNotFound(String),
    /// The balance path leads through, or ends at, a value of the wrong
    /// type. It holds the segment that met a value that is no object, or
    /// the whole path where the value at its end is no balance.
    TypeMismatch(String),
    /// The balance service could not be reached or did not answer in JSON.
    NetworkFailure,
    /// The text of an extended public key is not one.
    InvalidXpub,
    /// A script type was named that is not known. It holds the name.
    InvalidAddressType(String),
}

/// A failure as contracts speak of it: its kind, and the text that it
/// holds as the characters of that text.
pub enum Failure {
    MalformedPath,
    EmptyPath,
    IndexOverflow,
    HardenedDerivationUnsupported,
    InvalidKeyMaterial,
    InvalidUnit,
    PathNotFound(Seq<char>),
    TypeMismatch(Seq<char>),
    NetworkFailure,
    InvalidXpub,
    InvalidAddressType(Seq<char>),
}

impl View for ScanError {
    type V = Failure;

    open spec fn view(&self) -> Failure {
        match self {
            ScanError::MalformedPath => Failure::MalformedPath,
            ScanError::EmptyPath => Failure::EmptyPath,
            ScanError::IndexOverflow => Failure::IndexOverflow,
            ScanError::HardenedDerivationUnsupported => Failure::HardenedDerivationUnsupported,
            ScanError::InvalidKeyMaterial => Failure::InvalidKeyMaterial,
            ScanError::InvalidUnit => Failure::InvalidUnit,
            ScanError::PathNotFound(key) => Failure::PathNotFound(key@),
            ScanError::TypeMismatch(place) => Failure::TypeMismatch(place@),
            ScanError::NetworkFailure => Failure::NetworkFailure,
            ScanError::InvalidXpub => Failure::InvalidXpub,
            ScanError::InvalidAddressType(name) => Failure::InvalidAddressType(name@),
        }
    }
}

/// A result with its failure as contracts speak of it.
pub open spec fn failure_view<T>(r: Result<T, ScanError>) -> Result<T, Failure> {
    match r {
        Ok(value) => Ok(value),
        Err(e) => Err(e@),
    }
}

impl Failure {
    /// The sentence that `message` gives for each failure.
    pub open spec fn message_text(self) -> Seq<char> {
        match self {
            Failure::MalformedPath => "the derivation path is malformed"@,
            Failure::EmptyPath => "the derivation path is empty"@,
            Failure::IndexOverflow => "the child index is out of range"@,
            Failure::HardenedDerivationUnsupported => "a public key has no hardened children"@,
            Failure::InvalidKeyMaterial => "the key material is invalid"@,
            Failure::InvalidUnit => "Unit must be btc or sat"@,
            Failure::PathNotFound(key) => "Key '"@ + key + "' not found in JSON path"@,
            Failure::TypeMismatch(place) => "Unexpected type of value at '"@ + place + "'"@,
            Failure::NetworkFailure => "the balance service failed"@,
            Failure::InvalidXpub => "the extended public key is invalid"@,
            Failure::InvalidAddressType(name) => "Invalid enum value: "@ + name,
        }
    }
}

impl ScanError {
    /// A sentence for the person who started the scan. It names the text
    /// that the failure holds.
    pub fn message(&self) -> (text: String)
        ensures
            text@ == self@.message_text(),
    {
        match self {
            ScanError::MalformedPath => String::from_str("the derivation path is malformed"),
            ScanError::EmptyPath => String::from_str("the derivation path is empty"),
            ScanError::IndexOverflow => String::from_str("the child index is out of range"),
            ScanError::HardenedDerivationUnsupported => String::from_str(
                "a public key has no hardened children",
            ),
            ScanError::InvalidKeyMaterial => String::from_str("the key material is invalid"),
            ScanError::InvalidUnit => String::from_str("Unit must be btc or sat"),
            ScanError::PathNotFound(key) => String::from_str("Key '").concat(key.as_str()).concat(
                "' not found in JSON path",
            ),
            ScanError::TypeMismatch(place) => String::from_str(
                "Unexpected type of value at '",
            ).concat(place.as_str()).concat("'"),
            ScanError::NetworkFailure => String::from_str("the balance service failed"),
            ScanError::InvalidXpub => String::from_str("the extended public key is invalid"),
            ScanError::InvalidAddressType(name) => String::from_str("Invalid enum value: ").concat(
                name.as_str(),
            ),
        }
    }
}

} // verus!
