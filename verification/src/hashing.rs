//! File hashing for indexing/dedup/thumbnail-cache keying.
//!
//! The fast hash reads only the file size plus the first and last 64 KB, but
//! rejects files smaller than 128 KB. Those files fall back to a full-content
//! md5, which is cheap precisely because the file is small.

use vstd::prelude::*;
use vstd::string::*;

verus! {

/// What the fast hash of a file gave.
#[derive(Debug, Clone)]
pub enum FastHash {
    /// The hash, as 16 hexadecimal digits.
    Hash(String),
    /// The file is too small for it.
    TooSmall,
    /// The file could not be read.
    Failed,
}

/// Why a file has no hash.
#[derive(Debug, Clone, Copy, PartialEq, Eq, Structural)]
pub enum HashError {
    /// The file could not be read.
    Unreadable,
}

/// A lower-case hexadecimal digit.
pub open spec fn is_hex(c: char) -> bool {
    ('0' <= c && c <= '9') || ('a' <= c && c <= 'f')
}

/// The MD5 digest of some bytes, written as `{:x}` writes it.
pub uninterp spec fn md5_hex(bytes: Seq<u8>) -> Seq<char>;

/// Trusted: `md5::compute` and its `LowerHex` formatting. The digest is
/// written as 32 lower-case hexadecimal digits, and depends on the bytes alone.
#[verifier::external_body]
fn md5_text(bytes: &[u8]) -> (r: String)
    ensures
        r@ == md5_hex(bytes@),
        r@.len() == 32,
        forall|i: int| 0 <= i < 32 ==> is_hex(#[trigger] r@[i]),
{
    format!("{:x}", md5::compute(bytes))
}

/// The hash of a file that is too small for the fast hash: the MD5 digest of
/// all of its contents, 32 lower-case hexadecimal digits.
pub fn hash_contents(bytes: &[u8]) -> (r: String)
    ensures
        r@ == md5_hex(bytes@),
        r@.len() == 32,
        forall|i: int| 0 <= i < 32 ==> is_hex(#[trigger] r@[i]),
{
    md5_text(bytes)
}

/// Whether the file's contents are needed for its hash.
pub fn needs_contents(fast: &FastHash) -> (r: bool)
    ensures
        r == (fast is TooSmall),
{
    match fast {
        FastHash::TooSmall => true,
        _ => false,
    }
}

/// The hash of a file, where it has one.
pub open spec fn file_hash(fast: FastHash, contents: Option<Seq<u8>>) -> Option<Seq<char>> {
    match (fast, contents) {
        (FastHash::Hash(h), _) => Some(h@),
        (FastHash::TooSmall, Some(bytes)) => Some(md5_hex(bytes)),
        _ => None,
    }
}

/// A file has the fast hash where there is one, whatever its contents; the
/// digest of its contents where it is too small and can be read; and none
/// where it cannot be read.
pub proof fn small_files_are_hashed_by_their_contents(fast: FastHash, bytes: Seq<u8>)
    ensures
        fast matches FastHash::Hash(h) ==> file_hash(fast, Some(bytes)) == Some(h@) && file_hash(
            fast,
            None,
        ) == Some(h@),
        fast is TooSmall ==> file_hash(fast, Some(bytes)) == Some(md5_hex(bytes)),
        fast is TooSmall ==> file_hash(fast, None) is None,
        fast is Failed ==> file_hash(fast, Some(bytes)) is None && file_hash(fast, None) is None,
{
}

/// Hash a file for indexing: the fast hash where there is one; the MD5 digest
/// of the contents where the file is too small for it. The two never collide,
/// because their widths differ. A failure to read stays a failure.
///
/// `contents` are the bytes of a file that is too small, where they could be
/// read; see [`needs_contents`].
pub fn hash_file(fast: FastHash, contents: Option<&[u8]>) -> (r: Result<String, HashError>)
    ensures
        r is Ok <==> file_hash(
            fast,
            match contents {
                Some(b) => Some(b@),
                None => None,
            },
        ) is Some,
        r matches Ok(x) ==> file_hash(
            fast,
            match contents {
                Some(b) => Some(b@),
                None => None,
            },
        ) == Some(x@),
        match fast {
            FastHash::Hash(h) => r matches Ok(x) && x@ == h@,
            FastHash::TooSmall => match contents {
                Some(bytes) => r matches Ok(x) && x@ == md5_hex(bytes@) && x@.len() == 32,
                None => r == Err::<String, HashError>(HashError::Unreadable),
            },
            FastHash::Failed => r == Err::<String, HashError>(HashError::Unreadable),
        },
{
    match fast {
        FastHash::Hash(h) => Ok(h),
        FastHash::TooSmall => match contents {
            Some(bytes) => Ok(hash_contents(bytes)),
            None => Err(HashError::Unreadable),
        },
        FastHash::Failed => Err(HashError::Unreadable),
    }
}

} // verus!
