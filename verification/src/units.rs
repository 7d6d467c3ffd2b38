//! Domain value newtypes (non-id). `FileSize` is bytes.

use vstd::prelude::*;

verus! {

/// A file's length in bytes.
#[derive(Debug, Clone, Copy, PartialEq, Eq, PartialOrd, Ord, Structural)]
pub struct FileSize(pub i64);

impl FileSize {
    pub fn bytes(self) -> (r: i64)
        ensures
            r == self.0,
    {
        self.0
    }
}

/// Upper bound on the brute-force KNN `k` value (result-set ceiling). A distinct
/// newtype so the search cap can't be transposed with the per-page `limit`.
#[derive(Debug, Clone, Copy, PartialEq, Eq, Structural)]
pub struct MaxK(pub usize);

impl MaxK {
    pub fn get(self) -> (r: usize)
        ensures
            r == self.0,
    {
        self.0
    }
}

/// A maximum cosine distance, held as the bits of an IEEE single-precision
/// number: the library stores and checks it, and never calculates with it.
#[derive(Debug, Clone, Copy, PartialEq, Eq, Structural)]
pub struct DistanceThreshold {
    pub bits: u32,
}

/// Why a threshold was refused.
#[derive(Debug, Clone, Copy, PartialEq, Eq, Structural)]
pub enum ThresholdError {
    /// The text is no number.
    InvalidNumber,
    /// The number is infinite, not a number at all, or below zero.
    OutOfRange,
}

/// Whether single-precision bits stand for a finite number: the exponent is
/// not all ones.
pub open spec fn finite_bits(bits: u32) -> bool {
    bits % 0x8000_0000 < 0x7f80_0000
}

/// Whether single-precision bits stand for a number below zero: the sign is
/// set, and the rest is not that of a zero or of something that is no number.
pub open spec fn negative_bits(bits: u32) -> bool {
    0x8000_0000 < bits <= 0xff80_0000
}

impl DistanceThreshold {
    /// Checks a parsed `--threshold` value, given as the bits of the number
    /// or nothing where the text was none. Infinite and negative numbers, and
    /// what is not a number, would render invalid or nonsensical SQL.
    pub fn checked(bits: Option<u32>) -> (r: Result<DistanceThreshold, ThresholdError>)
        ensures
            match bits {
                None => r == Err::<DistanceThreshold, ThresholdError>(
                    ThresholdError::InvalidNumber,
                ),
                Some(b) => if finite_bits(b) && !negative_bits(b) {
                    r == Ok::<DistanceThreshold, ThresholdError>(DistanceThreshold { bits: b })
                } else {
                    r == Err::<DistanceThreshold, ThresholdError>(ThresholdError::OutOfRange)
                },
            },
    {
        match bits {
            None => Err(ThresholdError::InvalidNumber),
            Some(b) => {
                if b % 0x8000_0000 >= 0x7f80_0000 || (0x8000_0000 < b && b <= 0xff80_0000) {
                    Err(ThresholdError::OutOfRange)
                } else {
                    Ok(DistanceThreshold { bits: b })
                }
            },
        }
    }
}

/// The dimensionality of a CLIP model's embedding vectors (512 for the default
/// `openai/clip-vit-base-patch32`, 768 for the LAION ViT-L/14). A newtype so the
/// per-model dimension can't be confused with other bare `usize` counts (limits,
/// indices) when threaded into the `F32_BLOB({dim})` schema SQL.
#[derive(Debug, Clone, Copy, PartialEq, Eq, Structural)]
pub struct EmbeddingDim(pub usize);

impl EmbeddingDim {
    pub fn get(self) -> (r: usize)
        ensures
            r == self.0,
    {
        self.0
    }
}

/// A thumbnail's long-edge target in pixels (e.g. the GUI grid/detail/lightbox
/// sizes 300/512/2048). A newtype so a pixel size can't be transposed with the
/// batch `count`/`limit` or any other bare `u32` threaded through the thumbnail
/// cache and the `thumbnails (image_hash, size)` table.
#[derive(Debug, Clone, Copy, PartialEq, Eq, Hash, Structural)]
pub struct ThumbnailSize(pub u32);

impl ThumbnailSize {
    pub fn get(self) -> (r: u32)
        ensures
            r == self.0,
    {
        self.0
    }
}

/// Which rendition of an image to fetch / generate / store. The DB
/// `thumbnails.size` column encodes a `ScaleSize` as its pixel value and
/// `FullSize` as the sentinel `0`. That encoding lives only in
/// `to_db_size`/`from_db_size`, so the `0` can never leak into application
/// logic: callers always pass and match on the enum.
#[derive(Debug, Clone, Copy, PartialEq, Eq, Hash, Structural)]
pub enum ThumbnailSpec {
    /// A scaled thumbnail with the given long-edge target (e.g. 300/512/2048).
    ScaleSize(ThumbnailSize),
    /// The original, full-resolution rendition.
    FullSize,
}

impl ThumbnailSpec {
    /// The stored number that stands for this rendition.
    pub open spec fn db_size(self) -> u32 {
        match self {
            ThumbnailSpec::ScaleSize(px) => px.0,
            ThumbnailSpec::FullSize => 0,
        }
    }

    /// The rendition that a stored number stands for.
    pub open spec fn of_db_size(n: u32) -> ThumbnailSpec {
        if n == 0 {
            ThumbnailSpec::FullSize
        } else {
            ThumbnailSpec::ScaleSize(ThumbnailSize(n))
        }
    }

    /// On-disk `thumbnails.size` value. `FullSize` is 0; `ScaleSize(px)` is px.
    pub fn to_db_size(self) -> (r: u32)
        ensures
            r == self.db_size(),
    {
        match self {
            ThumbnailSpec::ScaleSize(px) => px.get(),
            ThumbnailSpec::FullSize => 0,
        }
    }

    /// Inverse of [`to_db_size`](Self::to_db_size). `0` is `FullSize`, any
    /// other number a `ScaleSize`.
    pub fn from_db_size(n: u32) -> (r: Self)
        ensures
            r == ThumbnailSpec::of_db_size(n),
    {
        if n == 0 {
            ThumbnailSpec::FullSize
        } else {
            ThumbnailSpec::ScaleSize(ThumbnailSize(n))
        }
    }
}

impl From<ThumbnailSize> for ThumbnailSpec {
    fn from(size: ThumbnailSize) -> (r: Self) {
        ThumbnailSpec::ScaleSize(size)
    }
}

impl vstd::std_specs::convert::FromSpecImpl<ThumbnailSize> for ThumbnailSpec {
    open spec fn obeys_from_spec() -> bool {
        true
    }

    open spec fn from_spec(size: ThumbnailSize) -> ThumbnailSpec {
        ThumbnailSpec::ScaleSize(size)
    }
}

/// Storing a rendition and reading it back gives the same rendition, except
/// that a scaled one of zero pixels (which is never generated) has no stored
/// form of its own.
pub proof fn stored_size_round_trips(spec: ThumbnailSpec, n: u32)
    requires
        spec != ThumbnailSpec::ScaleSize(ThumbnailSize(0)),
    ensures
        ThumbnailSpec::of_db_size(spec.db_size()) == spec,
        ThumbnailSpec::of_db_size(n).db_size() == n,
        spec.db_size() == 0 <==> spec == ThumbnailSpec::FullSize,
{
}

/// The thresholds that can be used are zero, of either sign, and the positive
/// finite numbers: in single precision, the bits below those of infinity, and
/// those of negative zero.
pub proof fn usable_thresholds_are_finite_and_not_negative(bits: u32)
    ensures
        finite_bits(bits) && !negative_bits(bits) <==> bits < 0x7f80_0000 || bits == 0x8000_0000,
{
}

} // verus!
