//! Checksums of downloaded artifacts: MD5, SHA-1 and SHA-256 digests as
//! lowercase hexadecimal text, compared with expected values.

use vstd::prelude::*;
use vstd::string::StringSliceAdditionalSpecFns;
use crate::text::{chars_of, slice_chars, string_of};

verus! {

/// The lowercase hexadecimal MD5 digest of `data`.
pub uninterp spec fn md5_hex(data: Seq<u8>) -> Seq<char>;

/// The lowercase hexadecimal SHA-1 digest of `data`.
pub uninterp spec fn sha1_hex(data: Seq<u8>) -> Seq<char>;

/// The lowercase hexadecimal SHA-256 digest of `data`.
pub uninterp spec fn sha256_hex(data: Seq<u8>) -> Seq<char>;

/// Relies on `md5::compute` and the `LowerHex` impl of `md5::Digest`, which
/// writes each of the 16 digest bytes as two hex digits.
#[verifier::external_body]
fn md5_digest(data: &[u8]) -> (r: String)
    ensures
        r@ == md5_hex(data@),
        r@.len() == 32,
{
    format!("{:x}", md5::compute(data))
}

/// Relies on `sha1_smol::Sha1::from` and the `Display` impl of
/// `sha1_smol::Digest`: the hex digest of the data.
#[verifier::external_body]
fn sha1_digest(data: &[u8]) -> (r: String)
    ensures
        r@ == sha1_hex(data@),
{
    sha1_smol::Sha1::from(data).digest().to_string()
}

/// Relies on `sha256::digest` for byte slices: the hex digest of the data.
#[verifier::external_body]
fn sha256_digest(data: &[u8]) -> (r: String)
    ensures
        r@ == sha256_hex(data@),
{
    sha256::digest(data)
}

/// The hashing methods that artifacts are checked with.
#[derive(PartialEq, Eq, Structural, Clone, Copy, Debug)]
pub enum HashType {
    MD5,
    SHA1,
    SHA256,
}

/// The hex digest of `data` by the given method.
pub open spec fn digest_hex(t: HashType, data: Seq<u8>) -> Seq<char> {
    match t {
        HashType::MD5 => md5_hex(data),
        HashType::SHA1 => sha1_hex(data),
        HashType::SHA256 => sha256_hex(data),
    }
}

impl HashType {
    /// Whether the hex digest of `data` by this method is `hash`.
    pub fn is_match(&self, hash: &str, data: &[u8]) -> (r: bool)
        ensures
            r == (digest_hex(*self, data@) == hash@),
    {
        let result = match self {
            HashType::MD5 => md5_digest(data),
            HashType::SHA1 => sha1_digest(data),
            HashType::SHA256 => sha256_digest(data),
        };
        let expected = hash.to_owned();
        result == expected
    }
}

/// The hex digits of a digest from index 24 on.
pub fn digest_tail(digest: &str) -> (r: String)
    requires
        digest@.len() >= 24,
    ensures
        r@ == digest@.subrange(24, digest@.len() as int),
{
    let chars = chars_of(digest);
    let tail = slice_chars(&chars, 24, chars.len());
    string_of(&tail)
}

/// The short hash that names the files of one mappings revision: the last
/// eight hex digits of the MD5 digest of the revision's commit id.
pub fn mappings_hash(reference: &str) -> (r: String)
    ensures
        r@ == md5_hex(reference.spec_bytes()).subrange(24, 32),
{
    let digest = md5_digest(reference.as_bytes());
    digest_tail(digest.as_str())
}

} // verus!
