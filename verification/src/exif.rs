//! What a file's EXIF block says, read from the file's bytes.

use vstd::prelude::*;
use vstd::string::*;
use crate::text::{chars_of, same, string_of};

verus! {

/// An EXIF field that is shown as text.
#[derive(Debug, Clone, Copy, PartialEq, Eq, Structural)]
pub enum ExifField {
    Make,
    Model,
    DateTime,
    LatitudeRef,
    Latitude,
    LongitudeRef,
    Longitude,
}

impl ExifField {
    /// Whether the field lies in the GPS block of the EXIF block.
    pub open spec fn in_gps(self) -> bool {
        match self {
            ExifField::Make | ExifField::Model | ExifField::DateTime => false,
            _ => true,
        }
    }

    /// The field's tag number in the EXIF standard, within its block.
    pub open spec fn tag(self) -> u16 {
        match self {
            ExifField::Make => 0x010f,
            ExifField::Model => 0x0110,
            ExifField::DateTime => 0x0132,
            ExifField::LatitudeRef => 1,
            ExifField::Latitude => 2,
            ExifField::LongitudeRef => 3,
            ExifField::Longitude => 4,
        }
    }

    /// The block and the tag number of the field.
    fn place(self) -> (r: (bool, u16))
        ensures
            r == (self.in_gps(), self.tag()),
    {
        match self {
            ExifField::Make => (false, 0x010f),
            ExifField::Model => (false, 0x0110),
            ExifField::DateTime => (false, 0x0132),
            ExifField::LatitudeRef => (true, 1),
            ExifField::Latitude => (true, 2),
            ExifField::LongitudeRef => (true, 3),
            ExifField::Longitude => (true, 4),
        }
    }
}

/// The text that the `exif` crate displays for a field of the primary image
/// of a file with the given bytes; nothing where the file has no readable
/// EXIF block or the block lacks the field. The field is given by its tag
/// number, which counts in the GPS block or in the main one.
pub uninterp spec fn exif_display(bytes: Seq<u8>, gps: bool, tag: u16) -> Option<Seq<char>>;

/// The first unsigned number of the orientation field of the primary image of
/// a file with the given bytes, if there is one.
pub uninterp spec fn exif_orientation_value(bytes: Seq<u8>) -> Option<u32>;

/// Trusted: `Reader::read_from_container` of the `exif` crate on the bytes,
/// `Exif::get_field` for the primary image, and `Field::display_value`.
#[verifier::external_body]
fn exif_text(bytes: &[u8], gps: bool, tag: u16) -> (r: Option<String>)
    ensures
        r is Some <==> exif_display(bytes@, gps, tag) is Some,
        r matches Some(t) ==> exif_display(bytes@, gps, tag) == Some(t@),
{
    let context = if gps { exif::Context::Gps } else { exif::Context::Tiff };
    let block = exif::Reader::new().read_from_container(&mut std::io::Cursor::new(bytes)).ok()?;
    let found = block.get_field(exif::Tag(context, tag), exif::In::PRIMARY)?;
    Some(found.display_value().to_string())
}

/// Trusted: `Reader::read_from_container` of the `exif` crate on the bytes,
/// `Exif::get_field` for the orientation of the primary image, and
/// `Value::get_uint`.
#[verifier::external_body]
pub(crate) fn exif_orientation(bytes: &[u8]) -> (r: Option<u32>)
    ensures
        r == exif_orientation_value(bytes@),
{
    let block = exif::Reader::new().read_from_container(&mut std::io::Cursor::new(bytes)).ok()?;
    let found = block.get_field(exif::Tag::Orientation, exif::In::PRIMARY)?;
    found.value.get_uint(0)
}

/// A character with the Unicode property `White_Space`.
pub open spec fn is_space(c: char) -> bool {
    ||| '\u{9}' <= c && c <= '\u{d}'
    ||| c == ' ' || c == '\u{85}' || c == '\u{a0}' || c == '\u{1680}'
    ||| '\u{2000}' <= c && c <= '\u{200a}'
    ||| c == '\u{2028}' || c == '\u{2029}' || c == '\u{202f}' || c == '\u{205f}' || c
        == '\u{3000}'
}

/// Whether a character is white space.
fn whitespace(c: char) -> (r: bool)
    ensures
        r == is_space(c),
{
    ('\u{9}' <= c && c <= '\u{d}') || c == ' ' || c == '\u{85}' || c == '\u{a0}' || c
        == '\u{1680}' || ('\u{2000}' <= c && c <= '\u{200a}') || c == '\u{2028}' || c
        == '\u{2029}' || c == '\u{202f}' || c == '\u{205f}' || c == '\u{3000}'
}

/// The end of the run of characters that begins at `i` and that `space` says
/// are alike.
pub open spec fn run_end(s: Seq<char>, i: int, space: bool) -> int
    decreases s.len() - i,
{
    if i >= s.len() || is_space(s[i]) != space {
        i
    } else {
        run_end(s, i + 1, space)
    }
}

/// The words of `s` from position `i` on: its longest stretches without
/// white space.
pub open spec fn words_from(s: Seq<char>, i: int) -> Seq<Seq<char>>
    decreases s.len() - i,
{
    if i < 0 || i >= s.len() {
        Seq::empty()
    } else if is_space(s[i]) {
        words_from(s, i + 1)
    } else {
        let e = run_end(s, i, false);
        if i < e <= s.len() {
            seq![s.subrange(i, e)] + words_from(s, e)
        } else {
            Seq::empty()
        }
    }
}

proof fn run_end_props(s: Seq<char>, i: int, space: bool)
    requires
        0 <= i <= s.len(),
    ensures
        i <= run_end(s, i, space) <= s.len(),
        i < s.len() && is_space(s[i]) == space ==> run_end(s, i, space) > i,
    decreases s.len() - i,
{
    if i < s.len() && is_space(s[i]) == space {
        run_end_props(s, i + 1, space);
    }
}

/// The words of a text, split at white space.
pub fn words(text: &str) -> (r: Vec<String>)
    ensures
        crate::text::texts(r@) == words_from(text@, 0),
{
    let s: Vec<char> = chars_of(text);
    let mut out: Vec<String> = Vec::new();
    let mut i: usize = 0;
    assert(crate::text::texts(out@) + words_from(s@, 0) == words_from(s@, 0));
    while i < s.len()
        invariant
            i <= s@.len(),
            s@ == text@,
            crate::text::texts(out@) + words_from(s@, i as int) == words_from(s@, 0),
        decreases s@.len() - i,
    {
        if whitespace(s[i]) {
            i = i + 1;
        } else {
            proof {
                run_end_props(s@, i as int, false);
            }
            let start: usize = i;
            while i < s.len() && !whitespace(s[i])
                invariant
                    start <= i <= s@.len(),
                    run_end(s@, start as int, false) == run_end(s@, i as int, false),
                decreases s@.len() - i,
            {
                i = i + 1;
            }
            let ghost before = out@;
            out.push(string_of(&s, start, i));
            proof {
                let w = s@.subrange(start as int, i as int);
                assert(words_from(s@, start as int) == seq![w] + words_from(s@, i as int));
                assert(crate::text::texts(out@) == crate::text::texts(before).push(w));
                assert(crate::text::texts(before).push(w) + words_from(s@, i as int)
                    == crate::text::texts(before) + (seq![w] + words_from(s@, i as int)));
            }
        }
    }
    assert(crate::text::texts(out@) + words_from(s@, i as int) == crate::text::texts(out@));
    out
}

/// The parts of a coordinate as EXIF displays it, "deg min sec" like
/// "40 deg 42 min 51.45 sec": the three numbers still as text, and whether
/// the coordinate lies south or west.
#[derive(Debug, Clone)]
pub struct GpsParts {
    pub degrees: String,
    pub minutes: String,
    pub seconds: String,
    pub negative: bool,
}

/// A coordinate that is not in the form "deg min sec".
#[derive(Debug, Clone, Copy, PartialEq, Eq, Structural)]
pub struct GpsFormatError;

/// Whether `g` holds the parts of a coordinate displayed as `coordinate`
/// with the reference `reference`.
pub open spec fn is_gps_parts(g: GpsParts, coordinate: Seq<char>, reference: Seq<char>) -> bool {
    let w = words_from(coordinate, 0);
    &&& w.len() >= 6
    &&& g.degrees@ == w[0]
    &&& g.minutes@ == w[2]
    &&& g.seconds@ == w[4]
    &&& g.negative == (reference == "S"@ || reference == "W"@)
}

/// Take a displayed EXIF coordinate apart.
pub fn parse_gps_coordinate(coordinate: &str, reference: &str) -> (r: Result<
    GpsParts,
    GpsFormatError,
>)
    ensures
        r is Ok <==> words_from(coordinate@, 0).len() >= 6,
        r matches Ok(g) ==> is_gps_parts(g, coordinate@, reference@),
        reference@ == "N"@ || reference@ == "E"@ ==> (r matches Ok(g) ==> !g.negative),
        reference@ == "S"@ || reference@ == "W"@ ==> (r matches Ok(g) ==> g.negative),
{
    proof {
        north_is_not_south();
    }
    let w: Vec<String> = words(coordinate);
    assert(crate::text::texts(w@).len() == w@.len());
    if w.len() < 6 {
        return Err(GpsFormatError);
    }
    assert(crate::text::texts(w@)[0] == w@[0]@);
    assert(crate::text::texts(w@)[2] == w@[2]@);
    assert(crate::text::texts(w@)[4] == w@[4]@);
    Ok(
        GpsParts {
            degrees: w[0].clone(),
            minutes: w[2].clone(),
            seconds: w[4].clone(),
            negative: same(reference, "S") || same(reference, "W"),
        },
    )
}

/// North and east coordinates are not negative, south and west ones are;
/// and any other reference counts as north or east.
pub proof fn south_and_west_are_negative(g: GpsParts, coordinate: Seq<char>, reference: Seq<char>)
    requires
        is_gps_parts(g, coordinate, reference),
    ensures
        reference == "N"@ ==> !g.negative,
        reference == "E"@ ==> !g.negative,
        reference == "S"@ ==> g.negative,
        reference == "W"@ ==> g.negative,
        reference != "S"@ && reference != "W"@ ==> !g.negative,
{
    north_is_not_south();
}

proof fn north_is_not_south()
    ensures
        "N"@ != "S"@ && "N"@ != "W"@ && "E"@ != "S"@ && "E"@ != "W"@,
{
    reveal_strlit("N");
    reveal_strlit("E");
    reveal_strlit("S");
    reveal_strlit("W");
    assert("N"@[0] == 'N' && "E"@[0] == 'E' && "S"@[0] == 'S' && "W"@[0] == 'W');
}

/// A word: a text that is not empty and holds no white space.
pub open spec fn is_word(w: Seq<char>) -> bool {
    w.len() > 0 && forall|i: int| 0 <= i < w.len() ==> !is_space(#[trigger] w[i])
}

proof fn run_end_stops(a: Seq<char>, b: Seq<char>, i: int)
    requires
        0 <= i <= a.len(),
        b.len() == 0 || is_space(b[0]),
    ensures
        run_end(a + b, i, false) == run_end(a, i, false),
    decreases a.len() - i,
{
    let t = a + b;
    if i < a.len() {
        assert(t[i] == a[i]);
        if !is_space(a[i]) {
            run_end_stops(a, b, i + 1);
        }
    } else if b.len() > 0 {
        assert(t[i] == b[0]);
    }
}

proof fn words_before_space(a: Seq<char>, b: Seq<char>, i: int)
    requires
        0 <= i <= a.len(),
        b.len() == 0 || is_space(b[0]),
    ensures
        words_from(a + b, i) == words_from(a, i) + words_from(a + b, a.len() as int),
    decreases a.len() - i,
{
    let t = a + b;
    if i == a.len() {
        assert(words_from(a, i) + words_from(t, i) == words_from(t, i));
    } else {
        assert(t[i] == a[i]);
        if is_space(a[i]) {
            words_before_space(a, b, i + 1);
        } else {
            run_end_props(a, i, false);
            run_end_stops(a, b, i);
            let e = run_end(a, i, false);
            words_before_space(a, b, e);
            assert(t.subrange(i, e) == a.subrange(i, e));
            assert(seq![a.subrange(i, e)] + (words_from(a, e) + words_from(t, a.len() as int)) == (
            seq![a.subrange(i, e)] + words_from(a, e)) + words_from(t, a.len() as int));
        }
    }
}

proof fn run_end_of_word(s: Seq<char>, i: int)
    requires
        0 <= i <= s.len(),
        forall|k: int| i <= k < s.len() ==> !is_space(#[trigger] s[k]),
    ensures
        run_end(s, i, false) == s.len(),
    decreases s.len() - i,
{
    if i < s.len() {
        assert(!is_space(s[i]));
        run_end_of_word(s, i + 1);
    }
}

/// A word behind white space is one word more, at the end.
pub proof fn one_word_more(a: Seq<char>, space: char, w: Seq<char>)
    requires
        is_space(space),
        is_word(w),
    ensures
        words_from(a.push(space) + w, 0) == words_from(a, 0).push(w),
{
    let t = a.push(space) + w;
    let b = seq![space] + w;
    let n = a.len() as int;
    assert(t == a + b);
    assert(b[0] == space);
    words_before_space(a, b, 0);
    assert(t[n] == space);
    assert forall|k: int| n + 1 <= k < t.len() implies !is_space(#[trigger] t[k]) by {
        assert(t[k] == w[k - n - 1]);
    }
    run_end_of_word(t, n + 1);
    assert(t[n + 1] == w[0]);
    assert(t.subrange(n + 1, t.len() as int) == w);
    assert(words_from(t, t.len() as int) == Seq::<Seq<char>>::empty());
    assert(words_from(t, n + 1) == seq![w] + Seq::<Seq<char>>::empty());
    assert(words_from(t, n) == seq![w]);
    assert(words_from(a, 0) + seq![w] == words_from(a, 0).push(w));
}

proof fn a_single_word(w: Seq<char>)
    requires
        is_word(w),
    ensures
        words_from(w, 0) == seq![w],
{
    run_end_of_word(w, 0);
    assert(!is_space(w[0]));
    assert(w.subrange(0, w.len() as int) == w);
    assert(words_from(w, w.len() as int) == Seq::<Seq<char>>::empty());
    assert(words_from(w, 0) == seq![w]);
}

/// A coordinate as EXIF displays it.
pub open spec fn displayed(degrees: Seq<char>, minutes: Seq<char>, seconds: Seq<char>) -> Seq<
    char,
> {
    degrees + " deg "@ + minutes + " min "@ + seconds + " sec"@
}

/// A coordinate that is displayed as so many degrees, minutes and seconds is
/// in the accepted form, and is taken apart into those degrees, minutes and
/// seconds.
pub proof fn displayed_coordinates_are_taken_apart(
    degrees: Seq<char>,
    minutes: Seq<char>,
    seconds: Seq<char>,
)
    requires
        is_word(degrees),
        is_word(minutes),
        is_word(seconds),
    ensures
        words_from(displayed(degrees, minutes, seconds), 0).len() >= 6,
        forall|g: GpsParts, reference: Seq<char>|
            is_gps_parts(g, displayed(degrees, minutes, seconds), reference) ==> {
                &&& g.degrees@ == degrees
                &&& g.minutes@ == minutes
                &&& g.seconds@ == seconds
            },
{
    reveal_strlit(" deg ");
    reveal_strlit(" min ");
    reveal_strlit(" sec");
    let deg = seq!['d', 'e', 'g'];
    let min = seq!['m', 'i', 'n'];
    let sec = seq!['s', 'e', 'c'];
    let c1 = degrees.push(' ') + deg;
    let c2 = c1.push(' ') + minutes;
    let c3 = c2.push(' ') + min;
    let c4 = c3.push(' ') + seconds;
    let c5 = c4.push(' ') + sec;
    a_single_word(degrees);
    one_word_more(degrees, ' ', deg);
    one_word_more(c1, ' ', minutes);
    one_word_more(c2, ' ', min);
    one_word_more(c3, ' ', seconds);
    one_word_more(c4, ' ', sec);
    assert(" deg "@ == seq![' '] + deg + seq![' ']);
    assert(" min "@ == seq![' '] + min + seq![' ']);
    assert(" sec"@ == seq![' '] + sec);
    assert(displayed(degrees, minutes, seconds) == c5);
}

/// What is known of an image file besides its pixels. The coordinates are
/// latitude and longitude.
#[derive(Debug, Clone)]
pub struct ImageMetadata {
    pub file_size: Option<u64>,
    pub width: Option<u32>,
    pub height: Option<u32>,
    pub coords: Option<(GpsParts, GpsParts)>,
    pub camera_make: Option<String>,
    pub camera_model: Option<String>,
    pub datetime_taken: Option<String>,
}

/// The displayed text of a field of a file, where the file could be read.
pub open spec fn shown(bytes: Option<Seq<u8>>, field: ExifField) -> Option<Seq<char>> {
    match bytes {
        Some(b) => exif_display(b, field.in_gps(), field.tag()),
        None => None,
    }
}

/// Whether `t` holds the text `s`, or neither is there.
pub open spec fn is_text(t: Option<String>, s: Option<Seq<char>>) -> bool {
    match t {
        Some(x) => s == Some(x@),
        None => s is None,
    }
}

/// The four displayed fields that make up a position.
#[derive(Debug, Clone)]
pub struct GpsFields {
    pub latitude: Option<String>,
    pub latitude_ref: Option<String>,
    pub longitude: Option<String>,
    pub longitude_ref: Option<String>,
}

/// Whether `coords` is the position that four displayed fields give: all
/// four are there and both coordinates are in the form "deg min sec".
pub open spec fn is_position(
    coords: Option<(GpsParts, GpsParts)>,
    lat: Option<Seq<char>>,
    lat_ref: Option<Seq<char>>,
    lon: Option<Seq<char>>,
    lon_ref: Option<Seq<char>>,
) -> bool {
    match coords {
        Some((a, b)) => {
            &&& lat is Some && lat_ref is Some && lon is Some && lon_ref is Some
            &&& is_gps_parts(a, lat->0, lat_ref->0)
            &&& is_gps_parts(b, lon->0, lon_ref->0)
        },
        None => {
            ||| lat is None || lat_ref is None || lon is None || lon_ref is None
            ||| words_from(lat->0, 0).len() < 6
            ||| words_from(lon->0, 0).len() < 6
        },
    }
}

/// The text of an optional string.
pub open spec fn opt_text(t: Option<String>) -> Option<Seq<char>> {
    match t {
        Some(x) => Some(x@),
        None => None,
    }
}

/// The position that four displayed fields give.
pub fn position(fields: &GpsFields) -> (r: Option<(GpsParts, GpsParts)>)
    ensures
        is_position(
            r,
            opt_text(fields.latitude),
            opt_text(fields.latitude_ref),
            opt_text(fields.longitude),
            opt_text(fields.longitude_ref),
        ),
{
    match (&fields.latitude, &fields.latitude_ref, &fields.longitude, &fields.longitude_ref) {
        (Some(lat), Some(lat_ref), Some(lon), Some(lon_ref)) => {
            let a: Result<GpsParts, GpsFormatError> = parse_gps_coordinate(
                lat.as_str(),
                lat_ref.as_str(),
            );
            let b: Result<GpsParts, GpsFormatError> = parse_gps_coordinate(
                lon.as_str(),
                lon_ref.as_str(),
            );
            match (a, b) {
                (Ok(x), Ok(y)) => Some((x, y)),
                _ => None,
            }
        },
        _ => None,
    }
}

/// The first coordinate of a position is the latitude and the second one the
/// longitude, each with its own reference: south of the equator the first is
/// negative, west of Greenwich the second.
pub proof fn a_position_is_latitude_and_longitude(
    coords: Option<(GpsParts, GpsParts)>,
    lat: (Seq<char>, Seq<char>, Seq<char>),
    lat_ref: Seq<char>,
    lon: (Seq<char>, Seq<char>, Seq<char>),
    lon_ref: Seq<char>,
)
    requires
        is_word(lat.0) && is_word(lat.1) && is_word(lat.2),
        is_word(lon.0) && is_word(lon.1) && is_word(lon.2),
        lat_ref == "N"@ || lat_ref == "S"@,
        lon_ref == "E"@ || lon_ref == "W"@,
        is_position(
            coords,
            Some(displayed(lat.0, lat.1, lat.2)),
            Some(lat_ref),
            Some(displayed(lon.0, lon.1, lon.2)),
            Some(lon_ref),
        ),
    ensures
        coords is Some,
        ({
            let (a, b) = coords->0;
            &&& (a.degrees@, a.minutes@, a.seconds@) == lat
            &&& (b.degrees@, b.minutes@, b.seconds@) == lon
            &&& a.negative <==> lat_ref == "S"@
            &&& b.negative <==> lon_ref == "W"@
        }),
{
    displayed_coordinates_are_taken_apart(lat.0, lat.1, lat.2);
    displayed_coordinates_are_taken_apart(lon.0, lon.1, lon.2);
    let (a, b) = coords->0;
    south_and_west_are_negative(a, displayed(lat.0, lat.1, lat.2), lat_ref);
    south_and_west_are_negative(b, displayed(lon.0, lon.1, lon.2), lon_ref);
    north_is_not_south();
}

/// Where one of the four fields is missing there is no position.
pub proof fn half_a_position_is_none(
    coords: Option<(GpsParts, GpsParts)>,
    lat: Option<Seq<char>>,
    lat_ref: Option<Seq<char>>,
    lon: Option<Seq<char>>,
    lon_ref: Option<Seq<char>>,
)
    requires
        is_position(coords, lat, lat_ref, lon, lon_ref),
        lat is None || lat_ref is None || lon is None || lon_ref is None,
    ensures
        coords is None,
{
}

/// No two fields are read from the same place, and those of the position are
/// the ones in the GPS block.
pub proof fn fields_have_their_own_places(a: ExifField, b: ExifField)
    ensures
        a.in_gps() == b.in_gps() && a.tag() == b.tag() ==> a == b,
        a.in_gps() <==> {
            ||| a == ExifField::Latitude
            ||| a == ExifField::LatitudeRef
            ||| a == ExifField::Longitude
            ||| a == ExifField::LongitudeRef
        },
        ExifField::Latitude.tag() == ExifField::LatitudeRef.tag() + 1,
        ExifField::Longitude.tag() == ExifField::LongitudeRef.tag() + 1,
        ExifField::LatitudeRef.tag() == 1,
        ExifField::LongitudeRef.tag() == 3,
        ExifField::Make.tag() == 271,
        ExifField::Model.tag() == 272,
        ExifField::DateTime.tag() == 306,
{
}

fn field_text(bytes: Option<&[u8]>, field: ExifField) -> (r: Option<String>)
    ensures
        is_text(
            r,
            shown(
                match bytes {
                    Some(b) => Some(b@),
                    None => None,
                },
                field,
            ),
        ),
{
    match bytes {
        Some(b) => {
            let (gps, tag) = field.place();
            exif_text(b, gps, tag)
        },
        None => None,
    }
}

/// Whether `m` is the metadata of a file of the given size, dimensions and
/// contents.
pub open spec fn is_metadata(
    m: ImageMetadata,
    file_size: Option<u64>,
    dimensions: Option<(u32, u32)>,
    bytes: Option<Seq<u8>>,
) -> bool {
    &&& m.file_size == file_size
    &&& dimensions matches Some(d) ==> m.width == Some(d.0) && m.height == Some(d.1)
    &&& dimensions is None ==> m.width is None && m.height is None
    &&& is_text(m.camera_make, shown(bytes, ExifField::Make))
    &&& is_text(m.camera_model, shown(bytes, ExifField::Model))
    &&& is_text(m.datetime_taken, shown(bytes, ExifField::DateTime))
    &&& is_position(
        m.coords,
        shown(bytes, ExifField::Latitude),
        shown(bytes, ExifField::LatitudeRef),
        shown(bytes, ExifField::Longitude),
        shown(bytes, ExifField::LongitudeRef),
    )
}

/// Metadata is what the file says: its size and its dimensions as they are,
/// the make, the model and the time that the EXIF block displays under their
/// own tags, and the position that its four GPS fields make up; what the file
/// does not say is left out.
pub proof fn metadata_is_what_the_file_says(
    m: ImageMetadata,
    file_size: Option<u64>,
    width: u32,
    height: u32,
    bytes: Seq<u8>,
)
    requires
        is_metadata(m, file_size, Some((width, height)), Some(bytes)),
    ensures
        m.file_size == file_size,
        m.width == Some(width),
        m.height == Some(height),
        opt_text(m.camera_make) == exif_display(bytes, false, 0x010f),
        opt_text(m.camera_model) == exif_display(bytes, false, 0x0110),
        opt_text(m.datetime_taken) == exif_display(bytes, false, 0x0132),
        is_position(
            m.coords,
            exif_display(bytes, true, 2),
            exif_display(bytes, true, 1),
            exif_display(bytes, true, 4),
            exif_display(bytes, true, 3),
        ),
{
}

/// A file that could not be read or decoded has no metadata but its size.
pub proof fn unreadable_files_have_only_a_size(m: ImageMetadata, file_size: Option<u64>)
    requires
        is_metadata(m, file_size, None, None),
    ensures
        m.file_size == file_size,
        m.width is None && m.height is None && m.coords is None,
        m.camera_make is None && m.camera_model is None && m.datetime_taken is None,
{
}

/// Metadata of an image file: its size and its bytes where it could be read,
/// its dimensions where it could be decoded, and what its EXIF block says.
/// Whatever is missing is left out; nothing of it is an error.
pub fn extract_image_metadata(
    file_size: Option<u64>,
    dimensions: Option<(u32, u32)>,
    bytes: Option<&[u8]>,
) -> (r: ImageMetadata)
    ensures
        is_metadata(
            r,
            file_size,
            dimensions,
            match bytes {
                Some(x) => Some(x@),
                None => None,
            },
        ),
        ({
            let b = match bytes {
                Some(x) => Some(x@),
                None => None,
            };
            &&& r.file_size == file_size
            &&& r.width == match dimensions {
                Some((w, _)) => Some(w),
                None => None,
            }
            &&& r.height == match dimensions {
                Some((_, h)) => Some(h),
                None => None,
            }
            &&& is_text(r.camera_make, shown(b, ExifField::Make))
            &&& is_text(r.camera_model, shown(b, ExifField::Model))
            &&& is_text(r.datetime_taken, shown(b, ExifField::DateTime))
            &&& is_position(
                r.coords,
                shown(b, ExifField::Latitude),
                shown(b, ExifField::LatitudeRef),
                shown(b, ExifField::Longitude),
                shown(b, ExifField::LongitudeRef),
            )
        }),
{
    let fields: GpsFields = GpsFields {
        latitude: field_text(bytes, ExifField::Latitude),
        latitude_ref: field_text(bytes, ExifField::LatitudeRef),
        longitude: field_text(bytes, ExifField::Longitude),
        longitude_ref: field_text(bytes, ExifField::LongitudeRef),
    };
    ImageMetadata {
        file_size,
        width: match dimensions {
            Some((w, _)) => Some(w),
            None => None,
        },
        height: match dimensions {
            Some((_, h)) => Some(h),
            None => None,
        },
        coords: position(&fields),
        camera_make: field_text(bytes, ExifField::Make),
        camera_model: field_text(bytes, ExifField::Model),
        datetime_taken: field_text(bytes, ExifField::DateTime),
    }
}

/// What is taken from a file is what its fields say: a field's text is held
/// as it is displayed, and a field that is missing, or of a file that could
/// not be read, is left out.
pub proof fn fields_are_held_as_they_are_displayed(
    t: Option<String>,
    bytes: Option<Seq<u8>>,
    field: ExifField,
)
    requires
        is_text(t, shown(bytes, field)),
    ensures
        bytes is None ==> t is None,
        bytes matches Some(b) ==> (t is Some <==> exif_display(b, field.in_gps(), field.tag())
            is Some),
        bytes matches Some(b) ==> (t matches Some(x) ==> exif_display(
            b,
            field.in_gps(),
            field.tag(),
        ) == Some(x@)),
{
}

/// White space are the twenty-five characters that Unicode lists as such, by
/// their code points.
pub proof fn white_space_is_as_unicode_has_it(c: char)
    ensures
        is_space(c) <==> {
            let n = c as u32;
            ||| 0x09 <= n <= 0x0d
            ||| n == 0x20
            ||| n == 0x85
            ||| n == 0xa0
            ||| n == 0x1680
            ||| 0x2000 <= n <= 0x200a
            ||| 0x2028 <= n <= 0x2029
            ||| n == 0x202f
            ||| n == 0x205f
            ||| n == 0x3000
        },
{
}

} // verus!
