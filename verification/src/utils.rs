//! The SHA-256 digest of a text, in hexadecimal.

use vstd::prelude::*;
use vstd::string::StringSliceAdditionalSpecFns;
use crate::text::digit_char;

verus! {

/// The SHA-256 digest of `bytes`.
pub uninterp spec fn sha256(bytes: Seq<u8>) -> Seq<u8>;

/// `ring::digest::digest` with `SHA256`: the digest of the bytes, which
/// depends on the bytes alone.
#[verifier::external_body]
fn sha256_digest(bytes: &[u8]) -> (digest: Vec<u8>)
    ensures
        digest@ == sha256(bytes@),
{
    ring::digest::digest(&ring::digest::SHA256, bytes).as_ref().to_vec()
}

/// The character of a hexadecimal digit, in upper case.
pub open spec fn hex_digit(d: nat) -> char {
    if d < 10 {
        digit_char(d)
    } else if d == 10 {
        'A'
    } else if d == 11 {
        'B'
    } else if d == 12 {
        'C'
    } else if d == 13 {
        'D'
    } else if d == 14 {
        'E'
    } else {
        'F'
    }
}

/// The bytes in hexadecimal, two upper-case digits each.
pub open spec fn hex_text(bytes: Seq<u8>) -> Seq<char>
    decreases bytes.len(),
{
    if bytes.len() == 0 {
        Seq::empty()
    } else {
        hex_text(bytes.drop_last()) + seq![
            hex_digit(bytes.last() as nat / 16),
            hex_digit(bytes.last() as nat % 16),
        ]
    }
}

/// `data_encoding::HEXUPPER.encode`: each byte as two hexadecimal
/// digits in upper case, the high one first.
#[verifier::external_body]
fn hex_upper(bytes: &[u8]) -> (text: String)
    ensures
        text@ == hex_text(bytes@),
{
    data_encoding::HEXUPPER.encode(bytes)
}

/// The SHA-256 digest of a text's bytes, in upper-case hexadecimal.
pub fn sha256_hash(str: &str) -> (text: String)
    ensures
        text@ == hex_text(sha256(str.spec_bytes())),
{
    let digest = sha256_digest(str.as_bytes());
    hex_upper(digest.as_slice())
}

} // verus!
