//! The hashlock primitive: SHA-256 commitments and their text encodings.

use base64::Engine;
use sha2::Digest;
use vstd::prelude::*;

verus! {

/// Length in bytes of a hashlock commitment.
pub const HASHLOCK_LEN: usize = 32;

/// The SHA-256 digest of `data`.
pub uninterp spec fn sha256_digest(data: Seq<u8>) -> Seq<u8>;

/// The standard (padded) base64 text of `data`.
pub uninterp spec fn base64_text(data: Seq<u8>) -> Seq<char>;

/// The bytes that standard (padded) base64 `text` decodes to, if it is
/// well-formed.
pub uninterp spec fn base64_bytes(text: Seq<char>) -> Option<Seq<u8>>;

/// `hex::FromHexError`, the error of `hex::decode`. Nothing is known of
/// its content; it is turned into an error of this library where it
/// arises.
#[verifier::external_type_specification]
#[verifier::external_body]
pub struct ExFromHexError(hex::FromHexError);

/// `base64::DecodeError`, the error of the base64 engine's `decode`.
/// Nothing is known of its content; it is turned into an error of this
/// library where it arises.
#[verifier::external_type_specification]
#[verifier::external_body]
pub struct ExDecodeError(base64::DecodeError);

/// Whether `c` is one of `0-9`, `a-f`, `A-F`.
pub open spec fn is_hex_digit(c: char) -> bool {
    ('0' <= c <= '9') || ('a' <= c <= 'f') || ('A' <= c <= 'F')
}

/// The value of a hexadecimal digit.
pub open spec fn hex_digit_value(c: char) -> int {
    if '0' <= c <= '9' {
        c as int - '0' as int
    } else if 'a' <= c <= 'f' {
        c as int - 'a' as int + 10
    } else {
        c as int - 'A' as int + 10
    }
}

/// Whether `text` is an even number of hexadecimal digits.
pub open spec fn is_hex_text(text: Seq<char>) -> bool {
    &&& text.len() % 2 == 0
    &&& forall|i: int| 0 <= i < text.len() ==> is_hex_digit(#[trigger] text[i])
}

/// The bytes written by the digit pairs of `text`.
pub open spec fn hex_bytes(text: Seq<char>) -> Seq<u8> {
    Seq::new(
        text.len() / 2,
        |i: int| (16 * hex_digit_value(text[2 * i]) + hex_digit_value(text[2 * i + 1])) as u8,
    )
}

/// Hashes `data` with `sha2::Sha256::digest`.
///
/// Trusted: the result is the SHA-256 digest of the input, which is always
/// 32 bytes long.
#[verifier::external_body]
pub(crate) fn sha256(data: &[u8]) -> (digest: Vec<u8>)
    ensures
        digest@ == sha256_digest(data@),
        digest@.len() == HASHLOCK_LEN,
{
    sha2::Sha256::digest(data).to_vec()
}

/// Decodes hexadecimal text with `hex::decode`.
///
/// Trusted: decoding succeeds exactly on an even number of hexadecimal
/// digits of either case, and each pair of digits gives one byte, high
/// digit first.
#[verifier::external_body]
pub(crate) fn hex_decode(text: &String) -> (r: Result<Vec<u8>, hex::FromHexError>)
    ensures
        r is Ok <==> is_hex_text(text@),
        r matches Ok(bytes) ==> bytes@ == hex_bytes(text@),
{
    hex::decode(text)
}

/// Encodes bytes with `base64::engine::general_purpose::STANDARD.encode`.
///
/// Trusted: the result is the standard padded base64 text of the input.
/// The bound keeps the length of the text within `usize`.
#[verifier::external_body]
pub(crate) fn base64_encode(data: &[u8]) -> (text: String)
    requires
        data@.len() <= 0x1000_0000,
    ensures
        text@ == base64_text(data@),
{
    base64::engine::general_purpose::STANDARD.encode(data)
}

/// Decodes text with `base64::engine::general_purpose::STANDARD.decode`.
///
/// Trusted: the outcome depends on the text alone; on success the bytes
/// are those the text stands for.
#[verifier::external_body]
pub(crate) fn base64_decode(text: &String) -> (r: Result<Vec<u8>, base64::DecodeError>)
    ensures
        r is Ok <==> base64_bytes(text@) is Some,
        r matches Ok(bytes) ==> base64_bytes(text@) == Some(bytes@),
{
    base64::engine::general_purpose::STANDARD.decode(text)
}

/// The hashlock that commits to `preimage`: its SHA-256 digest.
pub fn commitment(preimage: &[u8]) -> (digest: Vec<u8>)
    ensures
        digest@ == sha256_digest(preimage@),
        digest@.len() == HASHLOCK_LEN,
{
    sha256(preimage)
}

/// Whether two byte strings are equal.
pub fn bytes_equal(a: &[u8], b: &[u8]) -> (same: bool)
    ensures
        same == (a@ == b@),
{
    if a.len() != b.len() {
        return false;
    }
    let mut i: usize = 0;
    while i < a.len()
        invariant
            i <= a.len(),
            a.len() == b.len(),
            forall|j: int| 0 <= j < i ==> a@[j] == b@[j],
        decreases a.len() - i,
    {
        if a[i] != b[i] {
            return false;
        }
        i += 1;
    }
    assert(a@ =~= b@);
    true
}

/// The content of an optional byte string.
pub open spec fn bytes_view(bytes: Option<Vec<u8>>) -> Option<Seq<u8>> {
    match bytes {
        Some(b) => Some(b@),
        None => None,
    }
}

/// Copies an optional byte string.
pub fn clone_bytes(bytes: &Option<Vec<u8>>) -> (r: Option<Vec<u8>>)
    ensures
        bytes_view(r) == bytes_view(*bytes),
{
    match bytes {
        Some(b) => Some(b.clone()),
        None => None,
    }
}

} // verus!
