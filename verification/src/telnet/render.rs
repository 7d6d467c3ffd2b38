//! Render a decoded image to ANSI truecolor half-block "ASCII art".

use vstd::prelude::*;
use vstd::string::*;
use crate::picture::{
    a_crop_depends_on_its_rectangle, crop, cropped_picture, image_height, image_width, picture,
    picture_format, picture_height, picture_width, pixel_samples, rgb8, rgb8_samples, stretch,
    stretched_picture,
};
use crate::text::{
    count_absent, count_char, count_splits, decimal, decimal_is_digits, push_char, push_decimal,
};

verus! {

/// Hard cap on `cols`/`rows`, applied defensively inside `render_halfblock`
/// regardless of what the caller passes in. Guards both the pixel-buffer
/// allocation and the ANSI-art output `String` (each cell emits ~30 bytes of
/// truecolor escape codes plus the glyph, so text size dominates the raw
/// pixel buffer) against a window size chosen by the client.
pub const MAX_RENDER_DIM: u16 = 1200;

/// A requested number of cells, held between 1 and the cap.
pub open spec fn cells(n: u16) -> u32 {
    if n == 0 {
        1
    } else if n > MAX_RENDER_DIM {
        MAX_RENDER_DIM as u32
    } else {
        n as u32
    }
}

/// A centred rectangle of a picture.
#[derive(Debug, Clone, Copy, PartialEq, Eq, Structural)]
pub struct CropRect {
    pub x: u32,
    pub y: u32,
    pub width: u32,
    pub height: u32,
}

/// `n` held between 1 and `max`.
pub open spec fn at_least_one(n: int, max: int) -> int {
    if n < 1 {
        1
    } else if n > max {
        max
    } else {
        n
    }
}

/// The largest centred rectangle of an `iw` by `ih` picture whose sides are
/// in the proportion of `tw` to `th`, as near as whole pixels allow.
pub open spec fn cover_crop(iw: u32, ih: u32, tw: u32, th: u32) -> CropRect {
    let wider = iw * th > ih * tw;
    let w = if wider {
        at_least_one(ih * tw / th as int, iw as int)
    } else {
        iw as int
    };
    let h = if wider {
        ih as int
    } else {
        at_least_one(iw * th / tw as int, ih as int)
    };
    CropRect {
        x: ((iw - w) / 2) as u32,
        y: ((ih - h) / 2) as u32,
        width: w as u32,
        height: h as u32,
    }
}

/// The samples of one pixel joined as an escape sequence writes them.
pub open spec fn colour(p: (u8, u8, u8)) -> Seq<char> {
    decimal(p.0 as nat) + seq![';'] + decimal(p.1 as nat) + seq![';'] + decimal(p.2 as nat) + seq![
        'm',
    ]
}

/// One character cell: the upper half-block glyph with the top pixel as its
/// foreground and the bottom pixel as its background.
pub open spec fn cell(top: (u8, u8, u8), bottom: (u8, u8, u8)) -> Seq<char> {
    "\u{1b}[38;2;"@ + colour(top) + "\u{1b}[48;2;"@ + colour(bottom) + seq!['\u{2580}']
}

/// The pixel at column `x` and row `y` of a picture `w` pixels wide.
pub open spec fn pixel(rgb: Seq<u8>, w: int, x: int, y: int) -> (u8, u8, u8) {
    let i = 3 * (y * w + x);
    (rgb[i], rgb[i + 1], rgb[i + 2])
}

/// The first `n` cells of text row `r`.
pub open spec fn row_cells(rgb: Seq<u8>, w: int, r: int, n: nat) -> Seq<char>
    decreases n,
{
    if n == 0 {
        Seq::empty()
    } else {
        row_cells(rgb, w, r, (n - 1) as nat) + cell(
            pixel(rgb, w, n - 1, 2 * r),
            pixel(rgb, w, n - 1, 2 * r + 1),
        )
    }
}

/// What ends each text row: colours reset, then a telnet line break.
pub open spec fn row_end() -> Seq<char> {
    "\u{1b}[0m\r\n"@
}

/// The first `n` text rows of a picture `w` pixels wide.
pub open spec fn art(rgb: Seq<u8>, w: int, n: nat) -> Seq<char>
    decreases n,
{
    if n == 0 {
        Seq::empty()
    } else {
        art(rgb, w, (n - 1) as nat) + row_cells(rgb, w, n - 1, w as nat) + row_end()
    }
}

/// The whole rendering of a picture: crop, stretch to the pixel budget (two
/// pixels to a cell, one above the other), then text.
pub open spec fn rendering(p: Seq<u8>, cols: u16, rows: u16) -> Seq<char> {
    let w = cells(cols);
    let h = (2 * cells(rows)) as u32;
    let iw = if picture_width(p) == 0 {
        1
    } else {
        picture_width(p)
    };
    let ih = if picture_height(p) == 0 {
        1
    } else {
        picture_height(p)
    };
    let c = cover_crop(iw, ih, w, h);
    let fitted = stretched_picture(cropped_picture(p, c.x, c.y, c.width, c.height), w, h);
    art(rgb8_samples(fitted), w as int, cells(rows) as nat)
}

fn clamp_cells(n: u16) -> (r: u32)
    ensures
        r == cells(n),
        1 <= r <= MAX_RENDER_DIM,
{
    if n == 0 {
        1
    } else if n > MAX_RENDER_DIM {
        MAX_RENDER_DIM as u32
    } else {
        n as u32
    }
}

/// Cover fit, crop first: picks the largest centred source rectangle whose
/// aspect ratio equals the target's. Cross-multiplies (in `u64`) instead of
/// comparing floating-point ratios. Cropping before resizing keeps the
/// intermediate buffer bounded by the source picture's own size.
pub fn cover_rect(iw: u32, ih: u32, tw: u32, th: u32) -> (r: CropRect)
    requires
        iw > 0,
        ih > 0,
        tw > 0,
        th > 0,
    ensures
        r == cover_crop(iw, ih, tw, th),
        1 <= r.width,
        1 <= r.height,
        r.x + r.width <= iw,
        r.y + r.height <= ih,
{
    let a: u64 = mul_u64(iw, th);
    let b: u64 = mul_u64(ih, tw);
    let width: u32;
    let height: u32;
    if a > b {
        // Source is wider than the target aspect: height-limited.
        let q: u64 = b / th as u64;
        proof {
            // b < iw * th, so the quotient stays below iw.
            assert(b / th as u64 <= iw) by (nonlinear_arith)
                requires
                    b < iw * th,
                    th > 0,
            ;
        }
        width = if q < 1 { 1 } else if q > iw as u64 { iw } else { q as u32 };
        height = ih;
    } else {
        // Source is taller/narrower than the target aspect: width-limited.
        let q: u64 = a / tw as u64;
        proof {
            assert(a / tw as u64 <= ih) by (nonlinear_arith)
                requires
                    a <= ih * tw,
                    tw > 0,
            ;
        }
        width = iw;
        height = if q < 1 { 1 } else if q > ih as u64 { ih } else { q as u32 };
    }
    CropRect { x: (iw - width) / 2, y: (ih - height) / 2, width, height }
}

fn mul_u64(a: u32, b: u32) -> (r: u64)
    ensures
        r == a * b,
{
    assert(a * b <= 0xffff_ffff * 0xffff_ffff) by (nonlinear_arith)
        requires
            0 <= a <= 0xffff_ffff,
            0 <= b <= 0xffff_ffff,
    ;
    a as u64 * b as u64
}

fn push_colour(out: &mut String, r: u8, g: u8, b: u8)
    ensures
        final(out)@ == old(out)@ + colour((r, g, b)),
{
    let ghost start = out@;
    push_decimal(out, r as u64);
    push_char(out, ';');
    push_decimal(out, g as u64);
    push_char(out, ';');
    push_decimal(out, b as u64);
    push_char(out, 'm');
    assert(out@ == start + colour((r, g, b)));
}

/// The text of a picture given as RGB samples, `w` pixels wide and `2 * rows`
/// pixels tall.
pub fn halfblock_art(rgb: &Vec<u8>, w: u32, rows: u32) -> (out: String)
    requires
        w <= MAX_RENDER_DIM,
        rows <= MAX_RENDER_DIM,
        rgb@.len() == 6 * w * rows,
    ensures
        out@ == art(rgb@, w as int, rows as nat),
{
    let mut out: String = String::new();
    let mut r: u32 = 0;
    while r < rows
        invariant
            r <= rows <= MAX_RENDER_DIM,
            w <= MAX_RENDER_DIM,
            rgb@.len() == 6 * w * rows,
            out@ == art(rgb@, w as int, r as nat),
        decreases rows - r,
    {
        let ghost above = out@;
        let mut x: u32 = 0;
        while x < w
            invariant
                x <= w <= MAX_RENDER_DIM,
                r < rows <= MAX_RENDER_DIM,
                rgb@.len() == 6 * w * rows,
                out@ == above + row_cells(rgb@, w as int, r as int, x as nat),
            decreases w - x,
        {
            let ghost done = out@;
            proof {
                index_in_range(w as int, rows as int, x as int, r as int);
            }
            let top: usize = 3 * (2 * r as usize * w as usize + x as usize);
            let bottom: usize = 3 * ((2 * r as usize + 1) * w as usize + x as usize);
            out.append("\u{1b}[38;2;");
            push_colour(&mut out, rgb[top], rgb[top + 1], rgb[top + 2]);
            out.append("\u{1b}[48;2;");
            push_colour(&mut out, rgb[bottom], rgb[bottom + 1], rgb[bottom + 2]);
            push_char(&mut out, '\u{2580}');
            proof {
                let c = cell(
                    pixel(rgb@, w as int, x as int, 2 * r),
                    pixel(rgb@, w as int, x as int, 2 * r + 1),
                );
                assert(out@ == done + c);
                assert(out@ == above + (row_cells(rgb@, w as int, r as int, x as nat) + c));
            }
            x = x + 1;
        }
        out.append("\u{1b}[0m\r\n");
        r = r + 1;
        assert(out@ == art(rgb@, w as int, r as nat));
    }
    out
}

proof fn index_in_range(w: int, rows: int, x: int, r: int)
    requires
        0 <= x < w <= 1200,
        0 <= r < rows <= 1200,
    ensures
        0 <= 2 * r * w <= 2_880_000,
        0 <= (2 * r + 1) * w <= 2_880_000,
        3 * (2 * r * w + x) + 2 < 6 * w * rows,
        3 * ((2 * r + 1) * w + x) + 2 < 6 * w * rows,
{
    assert(2 * r * w + w == (2 * r + 1) * w) by (nonlinear_arith);
    assert((2 * r + 2) * w == (2 * r + 1) * w + w) by (nonlinear_arith);
    assert((2 * r + 2) * w <= (2 * rows) * w) by (nonlinear_arith)
        requires
            r < rows,
            w >= 0,
    ;
    assert((2 * rows) * w <= 2400 * 1200) by (nonlinear_arith)
        requires
            0 <= rows <= 1200,
            0 <= w <= 1200,
    ;
    assert(2 * r * w >= 0) by (nonlinear_arith)
        requires
            r >= 0,
            w >= 0,
    ;
    assert(6 * w * rows == 3 * ((2 * rows) * w)) by (nonlinear_arith);
}

/// Render `img` as ANSI truecolor half-blocks that fill `cols` by `rows`
/// character cells (each cell is 1px wide and 2px tall). Uses a "cover" fit:
/// the largest centered sub-rectangle of the source whose aspect ratio
/// matches the pixel budget is cropped out first, then that crop is resized to
/// exactly fill the budget, so the picture is never distorted and the output
/// never exceeds the requested bounds. Lines end with CRLF for telnet clients.
pub fn render_halfblock(img: &image::DynamicImage, cols: u16, rows: u16) -> (out: String)
    ensures
        out@ == rendering(picture(*img), cols, rows),
{
    let target_w: u32 = clamp_cells(cols);
    let text_rows: u32 = clamp_cells(rows);
    let target_h: u32 = 2 * text_rows;
    let w: u32 = image_width(img);
    let h: u32 = image_height(img);
    let iw: u32 = if w == 0 { 1 } else { w };
    let ih: u32 = if h == 0 { 1 } else { h };
    let c: CropRect = cover_rect(iw, ih, target_w, target_h);
    let fitted: image::DynamicImage = stretch(
        &crop(img, c.x, c.y, c.width, c.height),
        target_w,
        target_h,
    );
    let rgb: Vec<u8> = rgb8(&fitted);
    proof {
        assert(3 * target_w * target_h == 6 * target_w * text_rows) by (nonlinear_arith)
            requires
                target_h == 2 * text_rows,
        ;
    }
    halfblock_art(&rgb, target_w, text_rows)
}

proof fn colour_glyphs(p: (u8, u8, u8))
    ensures
        forall|i: int| 0 <= i < colour(p).len() ==> #[trigger] colour(p)[i] != '\n' && colour(p)[i]
            != '\u{2580}',
{
    decimal_is_digits(p.0 as nat);
    decimal_is_digits(p.1 as nat);
    decimal_is_digits(p.2 as nat);
}

proof fn cell_counts(top: (u8, u8, u8), bottom: (u8, u8, u8))
    ensures
        count_char(cell(top, bottom), '\n') == 0,
        count_char(cell(top, bottom), '\u{2580}') == 1,
{
    colour_glyphs(top);
    colour_glyphs(bottom);
    reveal_strlit("\u{1b}[38;2;");
    reveal_strlit("\u{1b}[48;2;");
    let front = "\u{1b}[38;2;"@ + colour(top) + "\u{1b}[48;2;"@ + colour(bottom);
    count_absent(front, '\n');
    count_absent(front, '\u{2580}');
    assert(cell(top, bottom).drop_last() == front);
}

proof fn row_counts(rgb: Seq<u8>, w: int, r: int, n: nat)
    ensures
        count_char(row_cells(rgb, w, r, n), '\n') == 0,
        count_char(row_cells(rgb, w, r, n), '\u{2580}') == n,
    decreases n,
{
    if n > 0 {
        row_counts(rgb, w, r, (n - 1) as nat);
        let c = cell(pixel(rgb, w, n - 1, 2 * r), pixel(rgb, w, n - 1, 2 * r + 1));
        cell_counts(pixel(rgb, w, n - 1, 2 * r), pixel(rgb, w, n - 1, 2 * r + 1));
        count_splits(row_cells(rgb, w, r, (n - 1) as nat), c, '\n');
        count_splits(row_cells(rgb, w, r, (n - 1) as nat), c, '\u{2580}');
    }
}

proof fn row_end_counts()
    ensures
        count_char(row_end(), '\n') == 1,
        count_char(row_end(), '\u{2580}') == 0,
{
    reveal_strlit("\u{1b}[0m\r\n");
    count_absent(row_end(), '\u{2580}');
    count_absent(row_end().drop_last(), '\n');
}

proof fn art_counts(rgb: Seq<u8>, w: nat, n: nat)
    ensures
        count_char(art(rgb, w as int, n), '\n') == n,
        count_char(art(rgb, w as int, n), '\u{2580}') == w * n,
    decreases n,
{
    if n > 0 {
        let m = (n - 1) as nat;
        art_counts(rgb, w, m);
        row_counts(rgb, w as int, n - 1, w);
        let above = art(rgb, w as int, m);
        let row = row_cells(rgb, w as int, n - 1, w);
        row_end_counts();
        count_splits(above, row, '\n');
        count_splits(above, row, '\u{2580}');
        count_splits(above + row, row_end(), '\n');
        count_splits(above + row, row_end(), '\u{2580}');
        assert(w * n == w * m + w) by (nonlinear_arith)
            requires
                n == m + 1,
        ;
    } else {
        assert(w * n == 0) by (nonlinear_arith)
            requires
                n == 0,
        ;
    }
}

/// A rendering fills its budget exactly: one line for each text row, and one
/// half-block for each cell, whatever the picture and however large the
/// requested size.
pub proof fn rendering_fills_its_cells(p: Seq<u8>, cols: u16, rows: u16)
    ensures
        count_char(rendering(p, cols, rows), '\n') == cells(rows),
        count_char(rendering(p, cols, rows), '\u{2580}') == cells(cols) * cells(rows),
        cells(cols) <= MAX_RENDER_DIM,
        cells(rows) <= MAX_RENDER_DIM,
{
    let w = cells(cols);
    let h = (2 * cells(rows)) as u32;
    let iw = if picture_width(p) == 0 {
        1
    } else {
        picture_width(p)
    };
    let ih = if picture_height(p) == 0 {
        1
    } else {
        picture_height(p)
    };
    let c = cover_crop(iw, ih, w, h);
    let fitted = stretched_picture(cropped_picture(p, c.x, c.y, c.width, c.height), w, h);
    art_counts(rgb8_samples(fitted), w as nat, cells(rows) as nat);
}

/// A rendering of at least one row ends with the colours reset.
pub proof fn rendering_ends_with_reset(p: Seq<u8>, cols: u16, rows: u16)
    ensures
        ({
            let text = rendering(p, cols, rows);
            &&& text.len() >= row_end().len()
            &&& text.skip(text.len() - row_end().len()) == row_end()
        }),
{
}

/// Only the covered part of a picture is drawn: pictures of one size and
/// format that agree on the largest centred rectangle with the proportions of
/// the pixel budget are rendered alike, whatever lies outside it.
pub proof fn only_the_covered_part_is_drawn(a: Seq<u8>, b: Seq<u8>, cols: u16, rows: u16)
    requires
        picture_format(a) == picture_format(b),
        picture_width(a) == picture_width(b) >= 1,
        picture_height(a) == picture_height(b) >= 1,
        ({
            let c = cover_crop(
                picture_width(a),
                picture_height(a),
                cells(cols),
                (2 * cells(rows)) as u32,
            );
            forall|i: u32, j: u32|
                c.x <= i < c.x + c.width && c.y <= j < c.y + c.height ==> #[trigger] pixel_samples(
                    a,
                    i,
                    j,
                ) == pixel_samples(b, i, j)
        }),
    ensures
        rendering(a, cols, rows) == rendering(b, cols, rows),
{
    let c = cover_crop(
        picture_width(a),
        picture_height(a),
        cells(cols),
        (2 * cells(rows)) as u32,
    );
    a_crop_depends_on_its_rectangle(a, b, c.x, c.y, c.width, c.height);
}

/// The crop never distorts: within one pixel, the cut rectangle has the
/// target's proportions, and one of its sides is the picture's own.
pub proof fn crop_keeps_proportions(iw: u32, ih: u32, tw: u32, th: u32)
    requires
        iw > 0,
        ih > 0,
        tw > 0,
        th > 0,
    ensures
        ({
            let c = cover_crop(iw, ih, tw, th);
            &&& c.width == iw || c.height == ih
            &&& c.height == ih && c.width < iw && c.width > 1 ==> c.width * th <= ih * tw < (
            c.width + 1) * th
            &&& c.width == iw && c.height < ih && c.height > 1 ==> c.height * tw <= iw * th < (
            c.height + 1) * tw
        }),
{
    let a = iw * th;
    let b = ih * tw;
    if a > b {
        let q = b / th as int;
        assert(q * th <= b < (q + 1) * th && 0 <= q < iw) by (nonlinear_arith)
            requires
                q == b / th as int,
                0 <= b < iw * th,
                th > 0,
        ;
    } else {
        let q = a / tw as int;
        assert(q * tw <= a < (q + 1) * tw && 0 <= q <= ih) by (nonlinear_arith)
            requires
                q == a / tw as int,
                0 <= a <= ih * tw,
                tw > 0,
        ;
    }
}

/// The part of a picture that is shown lies in its middle: what is cut off on
/// the left and on the right, above and below, differs by a pixel at most; and
/// a picture that has the proportions already is shown whole.
pub proof fn the_middle_is_shown(iw: u32, ih: u32, tw: u32, th: u32)
    requires
        iw > 0,
        ih > 0,
        tw > 0,
        th > 0,
    ensures
        ({
            let c = cover_crop(iw, ih, tw, th);
            let right = iw - c.x - c.width;
            let below = ih - c.y - c.height;
            &&& right == c.x || right == c.x + 1
            &&& below == c.y || below == c.y + 1
            &&& iw * th == ih * tw ==> c == (CropRect { x: 0, y: 0, width: iw, height: ih })
        }),
{
    let a = iw * th;
    let b = ih * tw;
    if a > b {
        let q = b / th as int;
        assert(0 <= q < iw) by (nonlinear_arith)
            requires
                q == b / th as int,
                0 <= b < iw * th,
                th > 0,
        ;
    } else {
        let q = a / tw as int;
        assert(0 <= q <= ih && (a == ih * tw ==> q == ih)) by (nonlinear_arith)
            requires
                q == a / tw as int,
                0 <= a <= ih * tw,
                tw > 0,
        ;
    }
}

/// A rendering is never empty and never larger than the cap: the number of
/// cells each way is the one asked for, but at least one and at most twelve
/// hundred.
pub proof fn cells_are_held(n: u16)
    ensures
        1 <= n <= 1200 ==> cells(n) == n,
        n == 0 ==> cells(n) == 1,
        n > 1200 ==> cells(n) == 1200,
{
}

/// The rows are drawn from top to bottom: the `r`-th text row follows on the
/// first `r` ones, and ends with the colours reset and a line break.
pub proof fn rows_come_from_top_to_bottom(rgb: Seq<u8>, w: int, n: nat, r: nat)
    requires
        r < n,
    ensures
        (art(rgb, w, r) + row_cells(rgb, w, r as int, w as nat) + row_end()).is_prefix_of(
            art(rgb, w, n),
        ),
    decreases n,
{
    if r + 1 < n {
        let m = (n - 1) as nat;
        rows_come_from_top_to_bottom(rgb, w, m, r);
        let head = art(rgb, w, r) + row_cells(rgb, w, r as int, w as nat) + row_end();
        let part = art(rgb, w, m);
        let all = art(rgb, w, n);
        assert(all == part + (row_cells(rgb, w, n - 1, w as nat) + row_end()));
        assert(all.subrange(0, head.len() as int) == part.subrange(0, head.len() as int));
    }
}

/// The cells of a text row are drawn from left to right, each from the two
/// pixels that it covers: the upper one gives the colour of the half-block,
/// the lower one its background, each as red, green and blue.
pub proof fn each_cell_shows_its_two_pixels(rgb: Seq<u8>, w: int, r: int, n: nat, x: nat)
    requires
        x < n,
    ensures
        ({
            let up = 3 * (2 * r * w + x);
            let low = 3 * ((2 * r + 1) * w + x);
            (row_cells(rgb, w, r, x) + ("\u{1b}[38;2;"@ + (decimal(rgb[up] as nat) + seq![';']
                + decimal(rgb[up + 1] as nat) + seq![';'] + decimal(rgb[up + 2] as nat) + seq![
                'm',
            ]) + "\u{1b}[48;2;"@ + (decimal(rgb[low] as nat) + seq![';'] + decimal(
                rgb[low + 1] as nat,
            ) + seq![';'] + decimal(rgb[low + 2] as nat) + seq!['m']) + seq![
                '\u{2580}',
            ])).is_prefix_of(row_cells(rgb, w, r, n))
        }),
    decreases n,
{
    let here = cell(pixel(rgb, w, x as int, 2 * r), pixel(rgb, w, x as int, 2 * r + 1));
    let head = row_cells(rgb, w, r, x) + here;
    if x + 1 < n {
        let m = (n - 1) as nat;
        each_cell_shows_its_two_pixels(rgb, w, r, m, x);
        let part = row_cells(rgb, w, r, m);
        let all = row_cells(rgb, w, r, n);
        assert(all.subrange(0, head.len() as int) == part.subrange(0, head.len() as int));
    }
}

} // verus!
