//! Hex decoding and the textual form of ed25519 public keys.
//!
//! Both operations are performed by outside crates; the functions that
//! call them are trusted at their stated contracts.

use vstd::prelude::*;

verus! {

/// A hexadecimal digit, upper or lower case.
pub open spec fn is_hex_digit(c: char) -> bool {
    ('0' <= c && c <= '9') || ('a' <= c && c <= 'f') || ('A' <= c && c <= 'F')
}

/// Numeric value of one hex digit.
pub open spec fn hex_digit_value(c: char) -> int {
    if '0' <= c && c <= '9' {
        c as u32 - '0' as u32
    } else if 'a' <= c && c <= 'f' {
        c as u32 - 'a' as u32 + 10
    } else {
        c as u32 - 'A' as u32 + 10
    }
}

/// A well-formed hex encoding: even length, hex digits throughout.
pub open spec fn is_hex_string(s: Seq<char>) -> bool {
    s.len() % 2 == 0 && (forall|i: int| 0 <= i < s.len() ==> is_hex_digit(s[i]))
}

/// The bytes a well-formed hex string encodes, two digits per byte,
/// high digit first.
pub open spec fn hex_bytes(s: Seq<char>) -> Seq<u8>
    decreases s.len(),
{
    if s.len() < 2 {
        Seq::empty()
    } else {
        seq![(hex_digit_value(s[0]) * 16 + hex_digit_value(s[1])) as u8] + hex_bytes(s.skip(2))
    }
}

pub proof fn lemma_hex_bytes_len(s: Seq<char>)
    requires
        s.len() % 2 == 0,
    ensures
        hex_bytes(s).len() == s.len() / 2,
    decreases s.len(),
{
    if s.len() >= 2 {
        lemma_hex_bytes_len(s.skip(2));
    }
}

/// Relies on hex::decode: it succeeds exactly on even-length, all-hex
/// input, and reads each byte from one pair of digits, high digit first.
#[verifier::external_body]
pub(crate) fn hex_decode(s: &String) -> (r: Option<Vec<u8>>)
    ensures
        r is Some <==> is_hex_string(s@),
        r is Some ==> r->0@ == hex_bytes(s@),
{
    hex::decode(s.as_str()).ok()
}

/// Textual form of the ed25519 public key with the given 32 raw bytes;
/// it depends on the bytes alone.
pub uninterp spec fn ed25519_display_of(bytes: Seq<u8>) -> Seq<char>;

/// Relies on near_crypto::ED25519PublicKey::try_from, which accepts
/// exactly the 32-byte slices, and on the Display of
/// near_crypto::PublicKey, whose text is a function of the key bytes
/// alone.
#[verifier::external_body]
pub(crate) fn ed25519_key_display(bytes: &Vec<u8>) -> (r: Option<String>)
    ensures
        r is Some <==> bytes@.len() == 32,
        r is Some ==> r->0@ == ed25519_display_of(bytes@),
{
    match near_crypto::ED25519PublicKey::try_from(bytes.as_slice()) {
        Ok(key) => Some(near_crypto::PublicKey::from(key).to_string()),
        Err(_) => None,
    }
}

} // verus!
