//! Searches a byte stream for a secp256k1 private key whose public key is known.
pub mod curve;
pub mod window;
pub mod matcher;
