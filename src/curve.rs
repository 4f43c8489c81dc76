use vstd::prelude::*;

verus! {

/// Width in bytes of a secp256k1 scalar, and so of every window scanned.
pub const SECRET_KEY_SIZE: usize = 32;

/// Width in bytes of a compressed public-key encoding.
pub const PUBLIC_KEY_SIZE: usize = 33;

/// The order n of the secp256k1 group generated by G.
pub open spec fn curve_order() -> nat {
    // FFFFFFFF FFFFFFFF FFFFFFFF FFFFFFFE BAAEDCE6 AF48A03B BFD25E8C D0364141
    0xFFFFFFFFFFFFFFFFFFFFFFFFFFFFFFFEnat * 0x10000000000000000nat * 0x10000000000000000nat
        + 0xBAAEDCE6AF48A03BBFD25E8CD0364141nat
}

/// The unsigned integer that `b` encodes, most significant byte first.
pub open spec fn be_value(b: Seq<u8>) -> nat
    decreases b.len(),
{
    if b.len() == 0 {
        0
    } else {
        be_value(b.drop_last()) * 256 + b.last() as nat
    }
}

/// `b` is a secp256k1 private key: 32 bytes encoding a scalar in `[1, n - 1]`.
pub open spec fn is_valid_scalar(b: Seq<u8>) -> bool {
    &&& b.len() == SECRET_KEY_SIZE
    &&& 0 < be_value(b)
    &&& be_value(b) < curve_order()
}

/// The compressed SEC1 encoding of `secret * G`.
pub uninterp spec fn public_key_of(secret: Seq<u8>) -> Seq<u8>;

/// The compressed SEC1 encoding of the point that the hex text `text` encodes
/// (compressed or uncompressed), or `None` when the text encodes no valid point.
pub uninterp spec fn public_key_from_hex(text: Seq<char>) -> Option<Seq<u8>>;

/// Relies on `secp256k1::SecretKey::from_secret_bytes`, which accepts the bytes
/// exactly when they are not all zero and, read big-endian, are below the curve order.
#[verifier::external_body]
pub(crate) fn is_valid_secret(bytes: [u8; 32]) -> (r: bool)
    ensures
        r == is_valid_scalar(bytes@),
{
    secp256k1::SecretKey::from_secret_bytes(bytes).is_ok()
}

/// Relies on `secp256k1::PublicKey::from_secret_key` for the point `secret * G`, and on
/// `PublicKey::serialize` for its compressed encoding; the bytes are first turned into a
/// `SecretKey`, which cannot fail on a valid scalar.
#[verifier::external_body]
pub(crate) fn derive_public_key(bytes: [u8; 32]) -> (r: [u8; 33])
    requires
        is_valid_scalar(bytes@),
    ensures
        r@ == public_key_of(bytes@),
{
    let secret = secp256k1::SecretKey::from_secret_bytes(bytes).unwrap();
    secp256k1::PublicKey::from_secret_key(&secret).serialize()
}

/// Relies on `secp256k1::PublicKey::from_str` to parse a hex-encoded point, and on
/// `PublicKey::serialize` for its compressed encoding.
#[verifier::external_body]
pub(crate) fn parse_public_key_hex(text: &str) -> (r: Option<[u8; 33]>)
    ensures
        match r {
            Some(key) => public_key_from_hex(text@) == Some(key@),
            None => public_key_from_hex(text@) is None,
        },
{
    match <secp256k1::PublicKey as std::str::FromStr>::from_str(text) {
        Ok(key) => Some(key.serialize()),
        Err(_) => None,
    }
}

/// The public key of `secret`, compressed, or `None` when `secret` is not a valid scalar.
pub fn public_key_for(secret: [u8; 32]) -> (r: Option<[u8; 33]>)
    ensures
        match r {
            Some(key) => is_valid_scalar(secret@) && key@ == public_key_of(secret@),
            None => !is_valid_scalar(secret@),
        },
{
    if is_valid_secret(secret) {
        Some(derive_public_key(secret))
    } else {
        None
    }
}

/// Parses a target public key from its hex text, compressed or uncompressed, into its
/// compressed encoding; `None` when the text is not a valid point.
pub fn parse_target(text: &str) -> (r: Option<[u8; 33]>)
    ensures
        match r {
            Some(key) => public_key_from_hex(text@) == Some(key@),
            None => public_key_from_hex(text@) is None,
        },
{
    parse_public_key_hex(text)
}

} // verus!
