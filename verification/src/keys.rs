//! Key material at the boundary of the secp256k1 and keccak libraries.
//!
//! Keys cross this boundary as plain text and bytes: a secret key as its
//! 64-digit hex form, a public key as its 66-digit compressed hex form.
//! What the curve library computes is named, not restated: the named
//! results below stand for its outputs, and the wrappers' contracts say
//! how the library's functions relate them. The address assembly on top
//! of the digest is verified here.

use vstd::prelude::*;
use std::str::FromStr;
use rand::RngCore;
use crate::text::{spec_hex_str, all_hex_digits};

verus! {

/// The keccak-256 digest of a byte string, as tiny-keccak computes it.
pub uninterp spec fn keccak256_of(data: Seq<u8>) -> Seq<u8>;

/// The compressed hex form of the public key belonging to the secret key
/// written in `sk_hex`, as secp256k1 derives and prints it.
pub uninterp spec fn pubkey_hex_of(sk_hex: Seq<char>) -> Seq<char>;

/// The 65-byte uncompressed point encoding of the public key written in
/// `pk_hex`, as secp256k1 parses and serializes it.
pub uninterp spec fn pubkey_uncompressed_of(pk_hex: Seq<char>) -> Seq<u8>;

/// Whether secp256k1's secret-key parser accepts `s`: 64 hex digits
/// encoding a scalar in the valid curve range.
pub uninterp spec fn is_secret_key_hex(s: Seq<char>) -> bool;

/// Whether secp256k1's public-key parser accepts `s`: hex digits encoding
/// a point on the curve.
pub uninterp spec fn is_public_key_hex(s: Seq<char>) -> bool;

/// Relies on tiny_keccak's `Keccak::v256` with `update` and `finalize`:
/// the 32-byte keccak-256 digest, a function of the input bytes alone.
#[verifier::external_body]
pub(crate) fn keccak256_digest(data: &[u8]) -> (r: Vec<u8>)
    ensures
        r@ == keccak256_of(data@),
        r@.len() == 32,
{
    let mut hasher = tiny_keccak::Keccak::v256();
    let mut out = [0u8; 32];
    tiny_keccak::Hasher::update(&mut hasher, data);
    tiny_keccak::Hasher::finalize(hasher, &mut out);
    out.to_vec()
}

/// Relies on rand's `OsRng::try_fill_bytes` for the secret scalar and on
/// secp256k1's `SecretKey::from_secret_bytes`, `PublicKey::from_secret_key`,
/// `display_secret` and the `Display` of `PublicKey`. A failure of the
/// operating system's randomness source is reported, never masked. Both
/// printed forms are plain lower-case hex, they round-trip through the same
/// library's parsers, and the printed public key is the one derived from
/// the printed secret key.
#[verifier::external_body]
pub(crate) fn generate_keypair_hex() -> (r: Result<(String, String), String>)
    ensures
        r matches Ok(kp) ==> {
            &&& is_secret_key_hex(kp.0@)
            &&& kp.0@.len() == 64
            &&& all_hex_digits(kp.0@)
            &&& kp.1@ == pubkey_hex_of(kp.0@)
            &&& is_public_key_hex(kp.1@)
            &&& kp.1@.len() == 66
            &&& all_hex_digits(kp.1@)
        },
{
    let mut buf = [0u8; 32];
    if let Err(e) = rand::rngs::OsRng.try_fill_bytes(&mut buf) {
        return Err(e.to_string());
    }
    let sk = match secp256k1::SecretKey::from_secret_bytes(buf) {
        Ok(k) => k,
        Err(e) => return Err(e.to_string()),
    };
    let pk = secp256k1::PublicKey::from_secret_key(&sk);
    Ok((sk.display_secret().to_string(), pk.to_string()))
}

/// Relies on secp256k1's `SecretKey::from_str`: whether the text is a
/// well-formed secret key.
#[verifier::external_body]
pub(crate) fn check_secret_key(s: &str) -> (b: bool)
    ensures
        b == is_secret_key_hex(s@),
{
    secp256k1::SecretKey::from_str(s).is_ok()
}

/// Relies on secp256k1's `PublicKey::from_str`: whether the text is a
/// well-formed public key.
#[verifier::external_body]
pub(crate) fn check_public_key(s: &str) -> (b: bool)
    ensures
        b == is_public_key_hex(s@),
{
    secp256k1::PublicKey::from_str(s).is_ok()
}

/// Relies on secp256k1's `SecretKey::from_str`, `PublicKey::from_secret_key`
/// and the `Display` of `PublicKey`: recomputes the public key of a secret
/// key given in hex. Parsing succeeds exactly on well-formed secret keys,
/// and printing a derived key yields text its own parser accepts.
#[verifier::external_body]
pub(crate) fn derive_public_hex(sk_hex: &str) -> (r: Option<String>)
    ensures
        r is Some <==> is_secret_key_hex(sk_hex@),
        r matches Some(pk) ==> {
            &&& pk@ == pubkey_hex_of(sk_hex@)
            &&& is_public_key_hex(pk@)
            &&& pk@.len() == 66
            &&& all_hex_digits(pk@)
        },
{
    let sk = match secp256k1::SecretKey::from_str(sk_hex) {
        Ok(k) => k,
        Err(_) => return None,
    };
    Some(secp256k1::PublicKey::from_secret_key(&sk).to_string())
}

/// Relies on secp256k1's `PublicKey::from_str` and `serialize_uncompressed`:
/// the 65-byte uncompressed encoding, whose first byte is the fixed tag 4.
#[verifier::external_body]
pub(crate) fn pubkey_uncompressed_bytes(pk_hex: &str) -> (r: Option<Vec<u8>>)
    ensures
        r is Some <==> is_public_key_hex(pk_hex@),
        r matches Some(v) ==> {
            &&& v@ == pubkey_uncompressed_of(pk_hex@)
            &&& v@.len() == 65
            &&& v@[0] == 4u8
        },
{
    let pk = match secp256k1::PublicKey::from_str(pk_hex) {
        Ok(k) => k,
        Err(_) => return None,
    };
    Some(pk.serialize_uncompressed().to_vec())
}

/// The address derived from a public key: drop the one-byte tag of the
/// uncompressed encoding, hash the remaining 64 bytes with keccak-256, and
/// keep the low-order 20 bytes of the digest, written as 0x-prefixed hex.
pub open spec fn spec_address_of(pk_hex: Seq<char>) -> Seq<char> {
    seq!['0', 'x'] + spec_hex_str(
        keccak256_of(pubkey_uncompressed_of(pk_hex).subrange(1, 65)).subrange(12, 32),
    )
}

/// Derivation is deterministic in the public key: whichever way the public
/// key is obtained — recomputed from the secret key or read from storage —
/// equal public keys yield equal addresses.
pub proof fn lemma_address_is_function_of_public_key(sk_hex: Seq<char>, pk_hex: Seq<char>)
    requires
        pk_hex == pubkey_hex_of(sk_hex),
    ensures
        spec_address_of(pubkey_hex_of(sk_hex)) == spec_address_of(pk_hex),
{
}

} // verus!
