//! Keyed fingerprints: a session-scoped HMAC-SHA-256 digest of a value,
//! rendered as lowercase hex. The digest itself comes from outside crates;
//! the hex rendering is stated exactly.

use hmac::{Hmac, Mac};
use sha2::Sha256;
use vstd::prelude::*;

verus! {

/// The HMAC-SHA-256 digest of `msg` under `key`: a fixed function of its
/// arguments alone, left unspecified here.
pub uninterp spec fn hmac_sha256_of(key: Seq<u8>, msg: Seq<u8>) -> Seq<u8>;

/// The lowercase hex digit for a nibble.
pub open spec fn hex_digit(d: u8) -> u8 {
    if d < 10 {
        (48 + d) as u8
    } else {
        (87 + d) as u8
    }
}

/// Lowercase hex rendering: two digits per byte, high nibble first.
pub open spec fn spec_hex(bs: Seq<u8>) -> Seq<u8> {
    Seq::new(
        2 * bs.len(),
        |i: int|
            if i % 2 == 0 {
                hex_digit((bs[i / 2] / 16) as u8)
            } else {
                hex_digit((bs[i / 2] % 16) as u8)
            },
    )
}

/// The keyed fingerprint of a value: the session digest in lowercase hex.
pub open spec fn fingerprint_of(secret: Seq<u8>, value: Seq<u8>) -> Seq<u8> {
    spec_hex(hmac_sha256_of(secret, value))
}

/// Relies on getrandom::getrandom to fill the buffer from the operating
/// system's entropy source. Nothing is assumed of the bytes but their count;
/// aborts if the system has no entropy source to offer.
#[verifier::external_body]
pub(crate) fn fresh_session_secret() -> (r: Vec<u8>)
    ensures
        r@.len() == 32,
{
    let mut buf = vec![0u8; 32];
    getrandom::getrandom(&mut buf).expect("no entropy source available");
    buf
}

/// Relies on the hmac crate's `Hmac::<Sha256>::new_from_slice`, `update` and
/// `finalize`: the result is a function of key and message alone, 32 bytes
/// long (the SHA-256 output size). HMAC accepts keys of any length, so
/// construction cannot fail.
#[verifier::external_body]
pub(crate) fn hmac_sha256(key: &[u8], msg: &[u8]) -> (r: Vec<u8>)
    ensures
        r@ == hmac_sha256_of(key@, msg@),
        r@.len() == 32,
{
    let mut mac = <Hmac<Sha256> as Mac>::new_from_slice(key).expect("any key length is valid");
    mac.update(msg);
    mac.finalize().into_bytes().to_vec()
}

/// Relies on hex::encode: two lowercase digits per input byte, high nibble
/// first.
#[verifier::external_body]
pub(crate) fn hex_lower(data: &[u8]) -> (r: Vec<u8>)
    ensures
        r@ == spec_hex(data@),
{
    hex::encode(data).into_bytes()
}

/// Computes the keyed fingerprint of `value` under `secret`.
pub fn fingerprint(secret: &[u8], value: &[u8]) -> (r: Vec<u8>)
    ensures
        r@ == fingerprint_of(secret@, value@),
{
    let mac = hmac_sha256(secret, value);
    hex_lower(mac.as_slice())
}

} // verus!
