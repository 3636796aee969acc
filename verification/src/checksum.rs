//! SHA-256 checksums of downloaded archives.
use vstd::prelude::*;
use crate::text::str_equal;

verus! {

/// A lowercase hexadecimal digit.
pub open spec fn is_lower_hex_digit(c: char) -> bool {
    ('0' <= c && c <= '9') || ('a' <= c && c <= 'f')
}

/// Text in the shape of a SHA-256 digest as `sha256::digest` writes it: 64
/// lowercase hexadecimal digits.
pub open spec fn is_lower_hex_digest(s: Seq<char>) -> bool {
    s.len() == 64 && forall|i: int| 0 <= i < s.len() ==> is_lower_hex_digit(#[trigger] s[i])
}

/// The SHA-256 digest of `data` in lowercase hexadecimal, as `sha256::digest` writes it.
pub uninterp spec fn sha256_hex(data: Seq<u8>) -> Seq<char>;

/// Calls `sha256::digest` on the bytes. The contract claims that the result is
/// `sha256_hex(data)`, and, as the crate's source shows (`hex::encode` of the
/// 32-byte digest), 64 lowercase hexadecimal digits; which digest it is, is not stated.
#[verifier::external_body]
fn digest_bytes(data: &[u8]) -> (hex: String)
    ensures
        hex@ == sha256_hex(data@),
        is_lower_hex_digest(hex@),
{
    sha256::digest(data)
}

/// The SHA-256 digest of an archive's bytes, in lowercase hexadecimal.
pub fn archive_digest(data: &[u8]) -> (hex: String)
    ensures
        hex@ == sha256_hex(data@),
        is_lower_hex_digest(hex@),
{
    digest_bytes(data)
}

/// Whether a computed digest is the checksum that the mirror published; the two
/// texts are compared exactly, so case matters.
pub fn checksum_matches(digest: &str, expected: &str) -> (r: bool)
    ensures
        r == (digest@ == expected@),
{
    str_equal(digest, expected)
}

/// The outcome of checking a downloaded archive: its digest and whether that is
/// the published checksum.
pub struct ChecksumCheck {
    pub digest: String,
    pub matches: bool,
}

/// Checks an archive's bytes against the published checksum. Only a checksum of
/// 64 lowercase hexadecimal digits can match.
pub fn check_archive(data: &[u8], expected: &str) -> (check: ChecksumCheck)
    ensures
        check.digest@ == sha256_hex(data@),
        check.matches == (sha256_hex(data@) == expected@),
        check.matches ==> is_lower_hex_digest(expected@),
{
    let digest = archive_digest(data);
    let matches = checksum_matches(digest.as_str(), expected);
    ChecksumCheck { digest, matches }
}

} // verus!
