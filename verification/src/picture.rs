//! Decoded pictures. The pixels are held and transformed by the `image`
//! crate; this module states what the library relies on of those operations.

use vstd::prelude::*;

verus! {

/// An error of the `image` crate.
#[verifier::external_type_specification]
#[verifier::external_body]
pub struct ExImageError(image::ImageError);

/// A decoded picture of the `image` crate.
#[verifier::external_type_specification]
#[verifier::external_body]
pub struct ExDynamicImage(image::DynamicImage);

/// What a picture holds, in full and as plain bytes: its colour format and
/// colour space, its width and height, and its samples row by row.
pub uninterp spec fn picture(img: image::DynamicImage) -> Seq<u8>;

/// Whether the buffer behind a picture holds its samples and nothing more.
/// Every decoder makes such buffers; one that was filled by hand may be longer
/// than the picture needs.
pub uninterp spec fn tight(img: image::DynamicImage) -> bool;

/// The number of pixels in each row of a picture.
pub uninterp spec fn picture_width(p: Seq<u8>) -> u32;

/// The number of rows of a picture.
pub uninterp spec fn picture_height(p: Seq<u8>) -> u32;

/// The colour format and the colour space of a picture.
pub uninterp spec fn picture_format(p: Seq<u8>) -> Seq<u8>;

/// The samples of the pixel at column `x` and row `y` of a picture.
pub uninterp spec fn pixel_samples(p: Seq<u8>, x: u32, y: u32) -> Seq<u8>;

/// The picture that `DynamicImage::crop_imm` makes of the pixels that it cuts
/// out: a picture of this format, `w` by `h` pixels, with these pixels row by
/// row.
pub uninterp spec fn cut_picture(format: Seq<u8>, w: int, h: int, pixels: Seq<Seq<u8>>) -> Seq<u8>;

/// The pixels of a rectangle of a picture, row by row.
pub open spec fn window(p: Seq<u8>, x: int, y: int, w: int, h: int) -> Seq<Seq<u8>> {
    Seq::new((w * h) as nat, |k: int| pixel_samples(p, (x + k % w) as u32, (y + k / w) as u32))
}

/// Where a stretch that begins at `from` begins within `whole` pixels.
pub open spec fn begun(from: u32, whole: u32) -> int {
    if from < whole {
        from as int
    } else {
        whole as int
    }
}

/// How much of a stretch of `len` pixels from `from` on lies within `whole`.
pub open spec fn kept(from: u32, len: u32, whole: u32) -> int {
    if len < whole - begun(from, whole) {
        len as int
    } else {
        whole - begun(from, whole)
    }
}

/// The pixels of a picture that lie within the rectangle of `w` by `h` pixels
/// whose top left corner is at column `x` and row `y`.
pub open spec fn cut_pixels(p: Seq<u8>, x: u32, y: u32, w: u32, h: u32) -> Seq<Seq<u8>> {
    window(
        p,
        begun(x, picture_width(p)),
        begun(y, picture_height(p)),
        kept(x, w, picture_width(p)),
        kept(y, h, picture_height(p)),
    )
}

/// What is cut out of a picture for a rectangle: as much of the rectangle as
/// lies within the picture.
pub open spec fn cropped_picture(p: Seq<u8>, x: u32, y: u32, w: u32, h: u32) -> Seq<u8> {
    cut_picture(
        picture_format(p),
        kept(x, w, picture_width(p)),
        kept(y, h, picture_height(p)),
        cut_pixels(p, x, y, w, h),
    )
}

/// Which pixels a crop depends on: pictures of one size and format that agree
/// on a rectangle have the same crop there.
pub proof fn a_crop_depends_on_its_rectangle(
    a: Seq<u8>,
    b: Seq<u8>,
    x: u32,
    y: u32,
    w: u32,
    h: u32,
)
    requires
        picture_format(a) == picture_format(b),
        picture_width(a) == picture_width(b),
        picture_height(a) == picture_height(b),
        forall|i: u32, j: u32|
            x <= i < x + w && y <= j < y + h ==> #[trigger] pixel_samples(a, i, j)
                == pixel_samples(b, i, j),
    ensures
        cropped_picture(a, x, y, w, h) == cropped_picture(b, x, y, w, h),
{
    let left = begun(x, picture_width(a));
    let top = begun(y, picture_height(a));
    let width = kept(x, w, picture_width(a));
    let height = kept(y, h, picture_height(a));
    let wa = cut_pixels(a, x, y, w, h);
    let wb = cut_pixels(b, x, y, w, h);
    assert forall|k: int| 0 <= k < wa.len() implies wa[k] == wb[k] by {
        assert(0 <= k % width < width && 0 <= k / width < height) by (nonlinear_arith)
            requires
                0 <= k < width * height,
                0 <= width,
                0 <= height,
        ;
        let i = (left + k % width) as u32;
        let j = (top + k / width) as u32;
        assert(x <= i < x + w && y <= j < y + h);
        assert(pixel_samples(a, i, j) == pixel_samples(b, i, j));
    }
    assert(wa == wb);
}

/// What `DynamicImage::resize_exact` with the triangle filter makes of a
/// picture, stretched to `w` by `h` pixels.
pub uninterp spec fn stretched_picture(p: Seq<u8>, w: u32, h: u32) -> Seq<u8>;

/// The dimensions that `DynamicImage::resize` gives a picture of `w` by `h`
/// pixels: the largest ones with its proportions that fit `max_w` by `max_h`.
pub uninterp spec fn fitted_size(w: u32, h: u32, max_w: u32, max_h: u32) -> (u32, u32);

/// The bytes that `DynamicImage::write_to` writes of a picture in the JPEG
/// format.
pub uninterp spec fn jpeg_bytes(p: Seq<u8>) -> Seq<u8>;

/// The samples of the picture in 8-bit RGB as `DynamicImage::to_rgb8` gives
/// them: row by row, three bytes for each pixel.
pub uninterp spec fn rgb8_samples(p: Seq<u8>) -> Seq<u8>;

/// Whether `q` is a picture that `DynamicImage::resize` with the Lanczos
/// filter can make of the picture `p`, for at most `w` by `h` pixels. Which of
/// them it makes may differ from machine to machine: the filter is made of
/// sines, whose precision std does not fix.
pub uninterp spec fn can_scale_to(p: Seq<u8>, w: u32, h: u32, q: Seq<u8>) -> bool;

/// What `DynamicImage::apply_orientation` makes of a picture for an EXIF
/// orientation value from 1 to 8.
pub uninterp spec fn oriented_picture(p: Seq<u8>, exif: u8) -> Seq<u8>;

/// Whether a picture has dimensions that a JPEG file can have.
pub open spec fn encodable(p: Seq<u8>) -> bool {
    1 <= picture_width(p) <= 65535 && 1 <= picture_height(p) <= 65535
}

/// Trusted: `DynamicImage::width`.
#[verifier::external_body]
pub(crate) fn image_width(img: &image::DynamicImage) -> (w: u32)
    ensures
        w == picture_width(picture(*img)),
{
    img.width()
}

/// Trusted: `DynamicImage::height`.
#[verifier::external_body]
pub(crate) fn image_height(img: &image::DynamicImage) -> (h: u32)
    ensures
        h == picture_height(picture(*img)),
{
    img.height()
}

/// Trusted: `DynamicImage::crop_imm`. What lies within the picture is cut out
/// of it, pixel by pixel and in the same format, into a buffer of its own. A
/// rectangle that lies within the picture keeps its own dimensions; the
/// rectangle that is the whole picture shows the same picture.
#[verifier::external_body]
pub(crate) fn crop(img: &image::DynamicImage, x: u32, y: u32, w: u32, h: u32) -> (r:
    image::DynamicImage)
    ensures
        tight(r),
        picture(r) == cut_picture(
            picture_format(picture(*img)),
            kept(x, w, picture_width(picture(*img))),
            kept(y, h, picture_height(picture(*img))),
            cut_pixels(picture(*img), x, y, w, h),
        ),
        picture_format(picture(r)) == picture_format(picture(*img)),
        forall|i: u32, j: u32|
            i < w && x + i < picture_width(picture(*img)) && j < h && y + j < picture_height(
                picture(*img),
            ) ==> #[trigger] pixel_samples(picture(r), i, j) == pixel_samples(
                picture(*img),
                (x + i) as u32,
                (y + j) as u32,
            ),
        x == 0 && y == 0 && w == picture_width(picture(*img)) && h == picture_height(picture(*img))
            ==> picture(r) == picture(*img),
        x + w <= picture_width(picture(*img)) && y + h <= picture_height(picture(*img)) ==> {
            &&& picture_width(picture(r)) == w
            &&& picture_height(picture(r)) == h
        },
{
    img.crop_imm(x, y, w, h)
}

/// Trusted: `DynamicImage::resize_exact` with `FilterType::Triangle`. The
/// result has exactly the requested dimensions, in a buffer of its own. The
/// bound keeps the buffers that the resampling allocates addressable.
#[verifier::external_body]
pub(crate) fn stretch(img: &image::DynamicImage, w: u32, h: u32) -> (r: image::DynamicImage)
    requires
        0 < w <= 65535,
        0 < h <= 65535,
    ensures
        tight(r),
        picture(r) == stretched_picture(picture(*img), w, h),
        picture_width(picture(r)) == w,
        picture_height(picture(r)) == h,
{
    img.resize_exact(w, h, image::imageops::FilterType::Triangle)
}

/// Trusted: `DynamicImage::resize` with `FilterType::Lanczos3`. The result is
/// one of the pictures that scaling this one can give. Its dimensions follow
/// from the picture's and the requested ones, and are at least one pixel and
/// at most the requested number each way; a picture that has the requested
/// dimensions is only copied. The bound keeps the buffers that the resampling
/// allocates addressable.
#[verifier::external_body]
pub(crate) fn fit(img: &image::DynamicImage, w: u32, h: u32) -> (r: image::DynamicImage)
    requires
        0 < w <= 65535,
        0 < h <= 65535,
    ensures
        can_scale_to(picture(*img), w, h, picture(r)),
        (picture_width(picture(r)), picture_height(picture(r))) == fitted_size(
            picture_width(picture(*img)),
            picture_height(picture(*img)),
            w,
            h,
        ),
        picture_width(picture(*img)) == w && picture_height(picture(*img)) == h ==> picture(r)
            == picture(*img),
        1 <= picture_width(picture(r)) <= w,
        1 <= picture_height(picture(r)) <= h,
{
    img.resize(w, h, image::imageops::FilterType::Lanczos3)
}

/// Trusted: `DynamicImage::write_to` in the JPEG format, into memory. The
/// format holds pictures of 1 to 65535 pixels each way, and no others.
#[verifier::external_body]
pub(crate) fn jpeg(img: &image::DynamicImage) -> (r: Result<Vec<u8>, image::ImageError>)
    requires
        tight(*img),
    ensures
        r is Ok <==> encodable(picture(*img)),
        r matches Ok(bytes) ==> bytes@ == jpeg_bytes(picture(*img)),
{
    let mut bytes = Vec::new();
    img.write_to(&mut std::io::Cursor::new(&mut bytes), image::ImageFormat::Jpeg)?;
    Ok(bytes)
}

/// Trusted: `DynamicImage::to_rgb8` and `ImageBuffer::into_raw`. There are
/// three samples for each pixel.
#[verifier::external_body]
pub(crate) fn rgb8(img: &image::DynamicImage) -> (r: Vec<u8>)
    requires
        tight(*img),
    ensures
        r@ == rgb8_samples(picture(*img)),
        r@.len() == 3 * picture_width(picture(*img)) * picture_height(picture(*img)),
{
    img.to_rgb8().into_raw()
}

/// Trusted: `Orientation::from_exif` and `DynamicImage::apply_orientation`.
/// Value 1 leaves the picture as it is; 5 to 8 swap its width and height, and
/// the others keep them.
#[verifier::external_body]
pub(crate) fn orient(img: &mut image::DynamicImage, exif: u8)
    requires
        1 <= exif <= 8,
    ensures
        picture(*final(img)) == oriented_picture(picture(*old(img)), exif),
        exif == 1 ==> picture(*final(img)) == picture(*old(img)),
        exif <= 4 ==> {
            &&& picture_width(picture(*final(img))) == picture_width(picture(*old(img)))
            &&& picture_height(picture(*final(img))) == picture_height(picture(*old(img)))
        },
        exif >= 5 ==> {
            &&& picture_width(picture(*final(img))) == picture_height(picture(*old(img)))
            &&& picture_height(picture(*final(img))) == picture_width(picture(*old(img)))
        },
{
    if let Some(orientation) = image::metadata::Orientation::from_exif(exif) {
        img.apply_orientation(orientation);
    }
}

} // verus!
