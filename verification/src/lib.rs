//! Scanning the addresses of an extended public key.
//!
//! From an extended public key and a derivation path the library derives a
//! run of child keys, encodes each of them as an address of every requested
//! script type, and reads a balance out of the answer that a balance service
//! gave for an address. Fetching that answer and printing are left to the
//! caller.

pub mod address;
pub mod balance;
pub mod config;
pub mod error;
pub mod json;
pub mod key;
pub mod path;
pub mod scan;
pub mod scan_laws;
pub mod script_type;
pub mod text;
