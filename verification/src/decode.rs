//! Which files are decoded, and how: the rules of the single decode seam.
//!
//! RAW files (by extension) are read through their largest embedded preview
//! first, with a full demosaic of the sensor data as a fallback; all other
//! extensions are read as still images. The decoders themselves are run by
//! the caller, because they may panic on malformed files and their panics
//! have to be contained; this module says which one to run next and what to
//! make of its result.

use vstd::prelude::*;
use vstd::string::*;
use crate::exif::{exif_orientation, exif_orientation_value};
use crate::path_model::{is_name, joined_path};
use crate::paths::{extension, extension_of, extensions_stand_behind_the_last_dot};
use crate::picture::{
    image_height, image_width, orient, oriented_picture, picture, picture_height, picture_width,
};
use crate::text::{ascii_lower, ascii_lowered, same, to_ascii_lowercase};

verus! {

/// Lowercased extensions of the still image formats.
pub const STILL_EXTENSIONS: [&'static str; 7] = [
    "jpg",
    "jpeg",
    "png",
    "gif",
    "bmp",
    "tiff",
    "webp",
];

/// Lowercased extensions of the RAW formats. This is the single, explicit
/// place where RAW format coverage is declared.
pub const RAW_EXTENSIONS: [&'static str; 25] = [
    // Nikon
    "nef",
    "nrw",
    // Adobe / generic
    "dng",
    // Olympus
    "orf",
    // Canon
    "cr2",
    "cr3",
    "crw",
    // Sony
    "arw",
    "sr2",
    "srf",
    // Fujifilm
    "raf",
    // Panasonic
    "rw2",
    // Pentax
    "pef",
    // Samsung
    "srw",
    // Epson
    "erf",
    // Minolta
    "mrw",
    // Leica / misc
    "raw",
    "rwl",
    // Phase One / Hasselblad
    "iiq",
    "3fr",
    "fff",
    // Mamiya / Leaf / Kodak
    "mef",
    "mos",
    "kdc",
    "dcr",
];

/// Whether `s` is one of the texts in `list`.
pub open spec fn listed(list: Seq<&str>, s: Seq<char>) -> bool {
    exists|i: int| 0 <= i < list.len() && (#[trigger] list[i])@ == s
}

/// A RAW extension, in small letters or capitals.
pub open spec fn raw_extension(ext: Seq<char>) -> bool {
    listed(RAW_EXTENSIONS@, ascii_lowered(ext))
}

/// A still image or RAW extension, in small letters or capitals.
pub open spec fn supported_extension(ext: Seq<char>) -> bool {
    listed(STILL_EXTENSIONS@, ascii_lowered(ext)) || raw_extension(ext)
}

fn is_listed(list: &[&'static str], s: &str) -> (r: bool)
    ensures
        r == listed(list@, s@),
{
    let mut i: usize = 0;
    while i < list.len()
        invariant
            i <= list@.len(),
            forall|k: int| 0 <= k < i ==> (#[trigger] list@[k])@ != s@,
        decreases list@.len() - i,
    {
        if same(list[i], s) {
            assert(list@[i as int]@ == s@);
            return true;
        }
        i = i + 1;
    }
    false
}

/// True if `ext` (with or without case) is a RAW format.
pub fn is_raw_extension(ext: &str) -> (r: bool)
    ensures
        r == raw_extension(ext@),
        r == exists|i: int|
            0 <= i < RAW_EXTENSIONS@.len() && (#[trigger] RAW_EXTENSIONS@[i])@ == ascii_lowered(
                ext@,
            ),
{
    let low: String = to_ascii_lowercase(ext);
    is_listed(RAW_EXTENSIONS.as_slice(), low.as_str())
}

/// True if `ext` is any image format the scanner should pick up (still or RAW).
pub fn is_supported_extension(ext: &str) -> (r: bool)
    ensures
        r == supported_extension(ext@),
        r == ((exists|i: int|
            0 <= i < STILL_EXTENSIONS@.len() && (#[trigger] STILL_EXTENSIONS@[i])@ == ascii_lowered(
                ext@,
            )) || (exists|i: int|
            0 <= i < RAW_EXTENSIONS@.len() && (#[trigger] RAW_EXTENSIONS@[i])@ == ascii_lowered(
                ext@,
            ))),
{
    let low: String = to_ascii_lowercase(ext);
    is_listed(STILL_EXTENSIONS.as_slice(), low.as_str()) || is_listed(
        RAW_EXTENSIONS.as_slice(),
        low.as_str(),
    )
}

/// Whether the extension of a path is a RAW one.
pub open spec fn raw_path(path: Seq<char>) -> bool {
    extension_of(path) matches Some(e) && raw_extension(e)
}

/// Whether a file is to be decoded as RAW, by its extension.
pub fn is_raw_path(path: &str) -> (r: bool)
    ensures
        r == raw_path(path@),
{
    match extension(path) {
        Some(e) => is_raw_extension(e.as_str()),
        None => false,
    }
}

/// Long-edge pixel floor for a RAW embedded preview to be used as-is for full-screen
/// viewing; below this we demosaic the sensor for full native resolution.
pub const FULL_RAW_MIN_LONG_EDGE: u32 = 2000;

/// True when an image of these dimensions is large enough to use as-is for full view.
pub fn preview_meets_full_threshold(width: u32, height: u32) -> (r: bool)
    ensures
        r == (width >= FULL_RAW_MIN_LONG_EDGE || height >= FULL_RAW_MIN_LONG_EDGE),
{
    let long: u32 = if width > height { width } else { height };
    long >= FULL_RAW_MIN_LONG_EDGE
}

/// What a RAW file is decoded for.
#[derive(Debug, Clone, Copy, PartialEq, Eq, Structural)]
pub enum RawPurpose {
    /// Thumbnails and embeddings: the first embedded picture will do.
    Fast,
    /// Full-screen viewing: a small embedded picture is only a last resort.
    FullView,
}

/// A way to get a picture out of a RAW file.
#[derive(Debug, Clone, Copy, PartialEq, Eq, Structural)]
pub enum RawRead {
    /// The embedded full-size picture (camera-rendered).
    FullImage,
    /// The embedded preview.
    Preview,
    /// The sensor data, developed.
    Demosaic,
}

/// What a reading attempt gave: a picture, nothing, or a failure.
pub enum RawResult {
    Picture(image::DynamicImage),
    Absent,
    Failed,
}

/// What to do next with a RAW file.
pub enum RawNext {
    /// Try this reading.
    Read(RawRead),
    /// This is the picture.
    Done(image::DynamicImage),
    /// Give up: this reading failed.
    Fail(RawRead),
}

/// A RAW file being decoded: the reading under way, and the embedded picture
/// that was found too small, if any.
pub struct RawDecode {
    pub purpose: RawPurpose,
    pub reading: RawRead,
    pub kept: Option<image::DynamicImage>,
}

/// Whether a picture may be used as it is for a purpose.
pub open spec fn good_enough(purpose: RawPurpose, img: image::DynamicImage) -> bool {
    ||| purpose == RawPurpose::Fast
    ||| picture_width(picture(img)) >= FULL_RAW_MIN_LONG_EDGE
    ||| picture_height(picture(img)) >= FULL_RAW_MIN_LONG_EDGE
}

/// The reaction to what the current reading gave. Embedded pictures come
/// first, the larger kind before the smaller; the sensor data is developed
/// when there is none, or none that is good enough; and a picture that is
/// not good enough still beats none when the development fails.
pub open spec fn raw_step(d: RawDecode, result: RawResult) -> (RawDecode, RawNext) {
    match (d.reading, result) {
        (RawRead::Demosaic, RawResult::Picture(img)) => (d, RawNext::Done(img)),
        (RawRead::Demosaic, _) => match d.kept {
            Some(small) => (RawDecode { kept: None, ..d }, RawNext::Done(small)),
            None => (d, RawNext::Fail(RawRead::Demosaic)),
        },
        (_, RawResult::Picture(img)) => if good_enough(d.purpose, img) {
            (d, RawNext::Done(img))
        } else {
            (
                RawDecode { reading: RawRead::Demosaic, kept: Some(img), ..d },
                RawNext::Read(RawRead::Demosaic),
            )
        },
        (RawRead::FullImage, RawResult::Absent) => (
            RawDecode { reading: RawRead::Preview, ..d },
            RawNext::Read(RawRead::Preview),
        ),
        (RawRead::Preview, RawResult::Absent) => (
            RawDecode { reading: RawRead::Demosaic, ..d },
            RawNext::Read(RawRead::Demosaic),
        ),
        (reading, RawResult::Failed) => (d, RawNext::Fail(reading)),
    }
}

impl RawDecode {
    /// A decode about to read the embedded full-size picture.
    pub fn start(purpose: RawPurpose) -> (r: Self)
        ensures
            r == (RawDecode { purpose, reading: RawRead::FullImage, kept: None }),
    {
        RawDecode { purpose, reading: RawRead::FullImage, kept: None }
    }

    /// Takes in what the current reading gave, and says what to do next.
    pub fn on_result(&mut self, result: RawResult) -> (next: RawNext)
        ensures
            (*final(self), next) == raw_step(*old(self), result),
    {
        match result {
            RawResult::Picture(img) => {
                if self.reading == RawRead::Demosaic || self.purpose == RawPurpose::Fast
                    || preview_meets_full_threshold(image_width(&img), image_height(&img)) {
                    RawNext::Done(img)
                } else {
                    self.kept = Some(img);
                    self.reading = RawRead::Demosaic;
                    RawNext::Read(RawRead::Demosaic)
                }
            },
            RawResult::Absent => match self.reading {
                RawRead::FullImage => {
                    self.reading = RawRead::Preview;
                    RawNext::Read(RawRead::Preview)
                },
                RawRead::Preview => {
                    self.reading = RawRead::Demosaic;
                    RawNext::Read(RawRead::Demosaic)
                },
                RawRead::Demosaic => self.fall_back(),
            },
            RawResult::Failed => match self.reading {
                RawRead::Demosaic => self.fall_back(),
                other => RawNext::Fail(other),
            },
        }
    }

    fn fall_back(&mut self) -> (next: RawNext)
        requires
            old(self).reading == RawRead::Demosaic,
        ensures
            (*final(self), next) == raw_step(*old(self), RawResult::Failed),
    {
        match self.kept.take() {
            Some(small) => RawNext::Done(small),
            None => RawNext::Fail(RawRead::Demosaic),
        }
    }
}

/// How far a decode has come.
pub open spec fn readings_left(reading: RawRead) -> nat {
    match reading {
        RawRead::FullImage => 2,
        RawRead::Preview => 1,
        RawRead::Demosaic => 0,
    }
}

/// Decoding a RAW file ends: each further reading is one that was not tried
/// before, and there are three.
pub proof fn raw_decoding_ends(d: RawDecode, result: RawResult)
    ensures
        raw_step(d, result).1 matches RawNext::Read(next) ==> {
            &&& raw_step(d, result).0.reading == next
            &&& readings_left(next) < readings_left(d.reading)
        },
{
}

/// A RAW file that holds some embedded picture and whose embedded pictures
/// can be read is always shown, whatever happens to its sensor data.
pub proof fn an_embedded_picture_is_never_lost(
    d: RawDecode,
    img: image::DynamicImage,
    sensor: RawResult,
)
    requires
        d.reading != RawRead::Demosaic,
    ensures
        ({
            let (d1, next) = raw_step(d, RawResult::Picture(img));
            ||| next == RawNext::Done(img)
            ||| next == RawNext::Read(RawRead::Demosaic) && raw_step(d1, sensor).1 is Done
        }),
{
}

/// The orientation to apply: the file's own where it is one of the eight
/// that EXIF knows.
pub open spec fn known_orientation(value: Option<u32>) -> Option<u8> {
    match value {
        Some(v) => if 1 <= v <= 8 {
            Some(v as u8)
        } else {
            None
        },
        None => None,
    }
}

/// Apply an orientation value as read from a file (best-effort; a missing or
/// unknown one leaves the picture alone).
pub fn apply_orientation(img: &mut image::DynamicImage, value: Option<u32>)
    ensures
        picture(*final(img)) == match known_orientation(value) {
            Some(o) => oriented_picture(picture(*old(img)), o),
            None => picture(*old(img)),
        },
{
    if let Some(v) = value {
        if 1 <= v && v <= 8 {
            orient(img, v as u8);
        }
    }
}

/// Apply the orientation in the EXIF block of a file's bytes to `img` in
/// place (best-effort; no-op if absent).
pub fn apply_exif_orientation(img: &mut image::DynamicImage, bytes: &[u8])
    ensures
        picture(*final(img)) == match known_orientation(exif_orientation_value(bytes@)) {
            Some(o) => oriented_picture(picture(*old(img)), o),
            None => picture(*old(img)),
        },
{
    let value: Option<u32> = exif_orientation(bytes);
    apply_orientation(img, value);
}

/// The message of a contained decoder panic, naming the file.
pub fn decoder_panic_message(path: &str, message: &str) -> (r: String)
    ensures
        r@ == "image decoder panicked on "@ + path@ + ": "@ + message@,
{
    "image decoder panicked on ".to_owned().concat(path).concat(": ").concat(message)
}

/// Best-effort human-readable text from a panic payload, which is a string or
/// something else.
pub fn panic_message(payload: Option<String>) -> (r: String)
    ensures
        r@ == match payload {
            Some(s) => s@,
            None => "non-string panic payload"@,
        },
{
    match payload {
        Some(s) => s,
        None => "non-string panic payload".to_owned(),
    }
}

/// The formats that are picked up, one by one: seven of still images and
/// twenty-five RAW ones, each in small letters, in capitals or in a mixture
/// of the two; and nothing else.
pub proof fn these_formats_are_supported(ext: Seq<char>)
    ensures
        raw_extension(ext) <==> ({
            let low = ascii_lowered(ext);
            ||| low == "nef"@
            ||| low == "nrw"@
            ||| low == "dng"@
            ||| low == "orf"@
            ||| low == "cr2"@
            ||| low == "cr3"@
            ||| low == "crw"@
            ||| low == "arw"@
            ||| low == "sr2"@
            ||| low == "srf"@
            ||| low == "raf"@
            ||| low == "rw2"@
            ||| low == "pef"@
            ||| low == "srw"@
            ||| low == "erf"@
            ||| low == "mrw"@
            ||| low == "raw"@
            ||| low == "rwl"@
            ||| low == "iiq"@
            ||| low == "3fr"@
            ||| low == "fff"@
            ||| low == "mef"@
            ||| low == "mos"@
            ||| low == "kdc"@
            ||| low == "dcr"@
        }),
        supported_extension(ext) <==> ({
            let low = ascii_lowered(ext);
            ||| raw_extension(ext)
            ||| low == "jpg"@
            ||| low == "jpeg"@
            ||| low == "png"@
            ||| low == "gif"@
            ||| low == "bmp"@
            ||| low == "tiff"@
            ||| low == "webp"@
        }),
{
    let low = ascii_lowered(ext);
    assert(RAW_EXTENSIONS@[0] == "nef");
    assert(RAW_EXTENSIONS@[1] == "nrw");
    assert(RAW_EXTENSIONS@[2] == "dng");
    assert(RAW_EXTENSIONS@[3] == "orf");
    assert(RAW_EXTENSIONS@[4] == "cr2");
    assert(RAW_EXTENSIONS@[5] == "cr3");
    assert(RAW_EXTENSIONS@[6] == "crw");
    assert(RAW_EXTENSIONS@[7] == "arw");
    assert(RAW_EXTENSIONS@[8] == "sr2");
    assert(RAW_EXTENSIONS@[9] == "srf");
    assert(RAW_EXTENSIONS@[10] == "raf");
    assert(RAW_EXTENSIONS@[11] == "rw2");
    assert(RAW_EXTENSIONS@[12] == "pef");
    assert(RAW_EXTENSIONS@[13] == "srw");
    assert(RAW_EXTENSIONS@[14] == "erf");
    assert(RAW_EXTENSIONS@[15] == "mrw");
    assert(RAW_EXTENSIONS@[16] == "raw");
    assert(RAW_EXTENSIONS@[17] == "rwl");
    assert(RAW_EXTENSIONS@[18] == "iiq");
    assert(RAW_EXTENSIONS@[19] == "3fr");
    assert(RAW_EXTENSIONS@[20] == "fff");
    assert(RAW_EXTENSIONS@[21] == "mef");
    assert(RAW_EXTENSIONS@[22] == "mos");
    assert(RAW_EXTENSIONS@[23] == "kdc");
    assert(RAW_EXTENSIONS@[24] == "dcr");
    assert(STILL_EXTENSIONS@[0] == "jpg");
    assert(STILL_EXTENSIONS@[1] == "jpeg");
    assert(STILL_EXTENSIONS@[2] == "png");
    assert(STILL_EXTENSIONS@[3] == "gif");
    assert(STILL_EXTENSIONS@[4] == "bmp");
    assert(STILL_EXTENSIONS@[5] == "tiff");
    assert(STILL_EXTENSIONS@[6] == "webp");
}

proof fn listed_formats_are_small()
    ensures
        forall|i: int|
            0 <= i < 7 ==> ascii_lowered((#[trigger] STILL_EXTENSIONS@[i])@)
                == STILL_EXTENSIONS@[i]@,
        forall|i: int|
            0 <= i < 25 ==> ascii_lowered((#[trigger] RAW_EXTENSIONS@[i])@) == RAW_EXTENSIONS@[i]@,
{
    reveal_strlit("jpg");
    reveal_strlit("jpeg");
    reveal_strlit("png");
    reveal_strlit("gif");
    reveal_strlit("bmp");
    reveal_strlit("tiff");
    reveal_strlit("webp");
    reveal_strlit("nef");
    reveal_strlit("nrw");
    reveal_strlit("dng");
    reveal_strlit("orf");
    reveal_strlit("cr2");
    reveal_strlit("cr3");
    reveal_strlit("crw");
    reveal_strlit("arw");
    reveal_strlit("sr2");
    reveal_strlit("srf");
    reveal_strlit("raf");
    reveal_strlit("rw2");
    reveal_strlit("pef");
    reveal_strlit("srw");
    reveal_strlit("erf");
    reveal_strlit("mrw");
    reveal_strlit("raw");
    reveal_strlit("rwl");
    reveal_strlit("iiq");
    reveal_strlit("3fr");
    reveal_strlit("fff");
    reveal_strlit("mef");
    reveal_strlit("mos");
    reveal_strlit("kdc");
    reveal_strlit("dcr");
    assert forall|i: int| 0 <= i < 7 implies ascii_lowered((#[trigger] STILL_EXTENSIONS@[i])@)
        == STILL_EXTENSIONS@[i]@ by {
        let t = STILL_EXTENSIONS@[i]@;
        assert(forall|k: int| 0 <= k < t.len() ==> ascii_lower(#[trigger] t[k]) == t[k]);
        assert(ascii_lowered(t) == t);
    }
    assert forall|i: int| 0 <= i < 25 implies ascii_lowered((#[trigger] RAW_EXTENSIONS@[i])@)
        == RAW_EXTENSIONS@[i]@ by {
        let t = RAW_EXTENSIONS@[i]@;
        assert(forall|k: int| 0 <= k < t.len() ==> ascii_lower(#[trigger] t[k]) == t[k]);
        assert(ascii_lowered(t) == t);
    }
}

/// No listed format holds a dot.
pub proof fn listed_formats_have_no_dot()
    ensures
        forall|i: int, k: int|
            0 <= i < STILL_EXTENSIONS@.len() && 0 <= k < STILL_EXTENSIONS@[i]@.len()
                ==> #[trigger] STILL_EXTENSIONS@[i]@[k] != '.',
        forall|i: int, k: int|
            0 <= i < RAW_EXTENSIONS@.len() && 0 <= k < RAW_EXTENSIONS@[i]@.len()
                ==> #[trigger] RAW_EXTENSIONS@[i]@[k] != '.',
{
    reveal_strlit("jpg");
    reveal_strlit("jpeg");
    reveal_strlit("png");
    reveal_strlit("gif");
    reveal_strlit("bmp");
    reveal_strlit("tiff");
    reveal_strlit("webp");
    reveal_strlit("nef");
    reveal_strlit("nrw");
    reveal_strlit("dng");
    reveal_strlit("orf");
    reveal_strlit("cr2");
    reveal_strlit("cr3");
    reveal_strlit("crw");
    reveal_strlit("arw");
    reveal_strlit("sr2");
    reveal_strlit("srf");
    reveal_strlit("raf");
    reveal_strlit("rw2");
    reveal_strlit("pef");
    reveal_strlit("srw");
    reveal_strlit("erf");
    reveal_strlit("mrw");
    reveal_strlit("raw");
    reveal_strlit("rwl");
    reveal_strlit("iiq");
    reveal_strlit("3fr");
    reveal_strlit("fff");
    reveal_strlit("mef");
    reveal_strlit("mos");
    reveal_strlit("kdc");
    reveal_strlit("dcr");
}

/// Every listed format is supported, as it is listed and in any mixture of
/// small letters and capitals, and nothing but the listed formats is. A RAW
/// format is one of the RAW list.
pub proof fn every_listed_format_is_supported(ext: Seq<char>)
    ensures
        forall|i: int|
            0 <= i < STILL_EXTENSIONS@.len() ==> supported_extension(
                (#[trigger] STILL_EXTENSIONS@[i])@,
            ),
        forall|i: int|
            0 <= i < RAW_EXTENSIONS@.len() ==> supported_extension((#[trigger] RAW_EXTENSIONS@[i])@)
                && raw_extension(RAW_EXTENSIONS@[i]@),
        supported_extension(ext) <==> {
            ||| exists|i: int|
                0 <= i < STILL_EXTENSIONS@.len() && (#[trigger] STILL_EXTENSIONS@[i])@
                    == ascii_lowered(ext)
            ||| exists|i: int|
                0 <= i < RAW_EXTENSIONS@.len() && (#[trigger] RAW_EXTENSIONS@[i])@
                    == ascii_lowered(ext)
        },
        raw_extension(ext) <==> exists|i: int|
            0 <= i < RAW_EXTENSIONS@.len() && (#[trigger] RAW_EXTENSIONS@[i])@ == ascii_lowered(
                ext,
            ),
{
    listed_formats_are_small();
}

/// Capitals make no difference to whether a format is supported, or RAW.
pub proof fn capitals_make_no_difference(ext: Seq<char>, other: Seq<char>)
    requires
        ext.len() == other.len(),
        forall|i: int|
            0 <= i < ext.len() ==> #[trigger] ext[i] == other[i] || ('A' <= ext[i] && ext[i] <= 'Z'
                && other[i] as u32 == ext[i] as u32 + 32),
    ensures
        supported_extension(ext) == supported_extension(other),
        raw_extension(ext) == raw_extension(other),
{
    assert(ascii_lowered(ext) == ascii_lowered(other));
}

/// A still and a RAW extension are never the same.
pub proof fn still_and_raw_are_apart(ext: Seq<char>)
    ensures
        !(listed(STILL_EXTENSIONS@, ext) && listed(RAW_EXTENSIONS@, ext)),
{
    reveal_strlit("jpg");
    reveal_strlit("jpeg");
    reveal_strlit("png");
    reveal_strlit("gif");
    reveal_strlit("bmp");
    reveal_strlit("tiff");
    reveal_strlit("webp");
    reveal_strlit("nef");
    reveal_strlit("nrw");
    reveal_strlit("dng");
    reveal_strlit("orf");
    reveal_strlit("cr2");
    reveal_strlit("cr3");
    reveal_strlit("crw");
    reveal_strlit("arw");
    reveal_strlit("sr2");
    reveal_strlit("srf");
    reveal_strlit("raf");
    reveal_strlit("rw2");
    reveal_strlit("pef");
    reveal_strlit("srw");
    reveal_strlit("erf");
    reveal_strlit("mrw");
    reveal_strlit("raw");
    reveal_strlit("rwl");
    reveal_strlit("iiq");
    reveal_strlit("3fr");
    reveal_strlit("fff");
    reveal_strlit("mef");
    reveal_strlit("mos");
    reveal_strlit("kdc");
    reveal_strlit("dcr");
    if listed(STILL_EXTENSIONS@, ext) && listed(RAW_EXTENSIONS@, ext) {
        let i = choose|i: int| 0 <= i < 7 && (#[trigger] STILL_EXTENSIONS@[i])@ == ext;
        let j = choose|j: int| 0 <= j < 25 && (#[trigger] RAW_EXTENSIONS@[j])@ == ext;
        assert(STILL_EXTENSIONS@[i]@.last() == RAW_EXTENSIONS@[j]@.last());
        assert(STILL_EXTENSIONS@[i]@[0] == RAW_EXTENSIONS@[j]@[0]);
        assert(STILL_EXTENSIONS@[i]@[1] == RAW_EXTENSIONS@[j]@[1]);
    }
}

/// The ways to get a picture out of a RAW file are tried in one order: the
/// embedded full-size picture, the embedded preview, then the sensor data. An
/// embedded picture that can be used ends the search; one that is too small
/// for full view is kept, and shown only where the sensor data gives nothing.
pub proof fn raw_readings_are_tried_in_order(d: RawDecode, img: image::DynamicImage)
    ensures
        d.reading == RawRead::FullImage ==> raw_step(d, RawResult::Absent) == (
            RawDecode { reading: RawRead::Preview, ..d },
            RawNext::Read(RawRead::Preview),
        ),
        d.reading == RawRead::Preview ==> raw_step(d, RawResult::Absent) == (
            RawDecode { reading: RawRead::Demosaic, ..d },
            RawNext::Read(RawRead::Demosaic),
        ),
        d.reading != RawRead::Demosaic ==> raw_step(d, RawResult::Failed).1 == RawNext::Fail(
            d.reading,
        ),
        d.purpose == RawPurpose::Fast || d.reading == RawRead::Demosaic ==> raw_step(
            d,
            RawResult::Picture(img),
        ).1 == RawNext::Done(img),
        picture_width(picture(img)) >= 2000 || picture_height(picture(img)) >= 2000 ==> raw_step(
            d,
            RawResult::Picture(img),
        ).1 == RawNext::Done(img),
        d.purpose == RawPurpose::FullView && d.reading != RawRead::Demosaic && picture_width(
            picture(img),
        ) < 2000 && picture_height(picture(img)) < 2000 ==> raw_step(d, RawResult::Picture(img))
            == (
            RawDecode { reading: RawRead::Demosaic, kept: Some(img), ..d },
            RawNext::Read(RawRead::Demosaic),
        ),
        d.reading == RawRead::Demosaic && d.kept is None ==> raw_step(d, RawResult::Failed).1
            == RawNext::Fail(RawRead::Demosaic) && raw_step(d, RawResult::Absent).1
            == RawNext::Fail(RawRead::Demosaic),
        d.reading == RawRead::Demosaic && d.kept is Some ==> raw_step(d, RawResult::Failed).1
            == RawNext::Done(d.kept->0) && raw_step(d, RawResult::Absent).1 == RawNext::Done(
            d.kept->0,
        ),
{
}

/// The orientations that EXIF knows are applied as they are, and any other
/// value, or none, leaves a picture alone.
pub proof fn known_orientations_are_applied(v: u32)
    ensures
        1 <= v <= 8 ==> known_orientation(Some(v)) == Some(v as u8),
        v == 0 || v > 8 ==> known_orientation(Some(v)) is None,
        known_orientation(None) is None,
{
}

/// A file is read as RAW exactly where the extension of its name is a RAW
/// one, whatever directory it lies in.
pub proof fn raw_files_go_by_their_extension(dir: Seq<char>, stem: Seq<char>, ext: Seq<char>)
    requires
        stem.len() > 0,
        is_name(stem.push('.') + ext),
        forall|i: int| 0 <= i < ext.len() ==> ext[i] != '.',
    ensures
        raw_path(joined_path(dir, stem.push('.') + ext)) <==> exists|i: int|
            0 <= i < RAW_EXTENSIONS@.len() && (#[trigger] RAW_EXTENSIONS@[i])@ == ascii_lowered(
                ext,
            ),
{
    extensions_stand_behind_the_last_dot(dir, stem, ext);
}

} // verus!
