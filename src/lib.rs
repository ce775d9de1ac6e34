//! Vanity onion-service address generation: base32 encoding, address
//! derivation from a key seed, prefix search and the secret-key file layout.

pub mod base32;
pub mod bytes;
pub mod address;
pub mod search;
pub mod key_file;
