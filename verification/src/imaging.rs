use vstd::prelude::*;
use crate::grid::TileError;

verus! {

#[verifier::external_type_specification]
#[verifier::external_body]
pub struct ExDynamicImage(image::DynamicImage);

/// Width in pixels of a decoded image.
pub uninterp spec fn image_width(img: image::DynamicImage) -> u32;

/// Height in pixels of a decoded image.
pub uninterp spec fn image_height(img: image::DynamicImage) -> u32;

/// Whether the decoder accepts `bytes` as a raster image; a function of the
/// bytes alone. The decoder's format guess and its default resource limits
/// are fixed, and this crate and its callers register none of the image
/// crate's process-global decoding hooks, which would otherwise be consulted
/// before the built-in formats.
pub uninterp spec fn decodes(bytes: Seq<u8>) -> bool;

/// The image that decoding `bytes` yields; decoding guesses the format from
/// the content and depends on the bytes alone (under the same no-hooks
/// assumption as `decodes`).
pub uninterp spec fn decoded_image(bytes: Seq<u8>) -> image::DynamicImage;

/// Whether the image's color representation is one of the eight integer
/// forms the PNG encoder accepts; a function of the image.
pub uninterp spec fn png_encodable(img: image::DynamicImage) -> bool;

/// The image with its colors brought to a PNG-encodable representation:
/// the identity on the integer color forms, a 16-bit integer conversion of
/// the two float-color forms; a function of the image.
pub uninterp spec fn normalized_image(img: image::DynamicImage) -> image::DynamicImage;

/// What the pipeline tiles for a given upload: the decoded image, its colors
/// normalized for the PNG encoder.
pub open spec fn pipeline_image(bytes: Seq<u8>) -> image::DynamicImage {
    normalized_image(decoded_image(bytes))
}

/// The crop of `img` delimited by the rectangle at `(x, y)` of size
/// `w`-by-`h`; a function of the source image and the rectangle alone.
pub uninterp spec fn cropped(img: image::DynamicImage, x: int, y: int, w: int, h: int) -> image::DynamicImage;

/// The PNG encoding of `img`; a function of the image alone.
pub uninterp spec fn png_bytes(img: image::DynamicImage) -> Seq<u8>;

/// Relies on image::load_from_memory: it guesses the format from the bytes
/// and decodes them, a pure function of the bytes (no decoding hooks are
/// registered in this process, and the default resource limits are a fixed
/// constant); it errors exactly on bytes it does not accept as a raster
/// image.
#[verifier::external_body]
pub(crate) fn load_image(bytes: &Vec<u8>) -> (r: Result<image::DynamicImage, TileError>)
    ensures
        r is Ok <==> decodes(bytes@),
        r matches Ok(img) ==> img == decoded_image(bytes@),
        r matches Err(e) ==> e == TileError::DecodeFailure,
{
    match image::load_from_memory(bytes.as_slice()) {
        Ok(img) => Ok(img),
        Err(_) => Err(TileError::DecodeFailure),
    }
}

/// Relies on image::DynamicImage::width.
#[verifier::external_body]
pub(crate) fn img_width(img: &image::DynamicImage) -> (w: u32)
    ensures
        w == image_width(*img),
{
    img.width()
}

/// Relies on image::DynamicImage::height.
#[verifier::external_body]
pub(crate) fn img_height(img: &image::DynamicImage) -> (h: u32)
    ensures
        h == image_height(*img),
{
    img.height()
}

/// Relies on image::DynamicImage::to_rgb16 and to_rgba16: the two
/// float-color forms (which OpenEXR and Radiance HDR uploads decode to, and
/// which the PNG encoder rejects) are converted to their 16-bit integer
/// counterparts; every other form passes through unchanged. The conversion
/// preserves the dimensions and depends on the image alone, and every form
/// it can return is in the PNG encoder's accepted list.
#[verifier::external_body]
pub(crate) fn normalize_colors(img: image::DynamicImage) -> (r: image::DynamicImage)
    ensures
        r == normalized_image(img),
        image_width(r) == image_width(img),
        image_height(r) == image_height(img),
        png_encodable(r),
{
    match img {
        image::DynamicImage::ImageRgb32F(_) => image::DynamicImage::ImageRgb16(img.to_rgb16()),
        image::DynamicImage::ImageRgba32F(_) => image::DynamicImage::ImageRgba16(img.to_rgba16()),
        other => other,
    }
}

/// Relies on image::DynamicImage::crop_imm: it reads the source image
/// without mutating it, and for a rectangle that lies inside the image it
/// returns exactly the `w`-by-`h` cut-out at `(x, y)` (its clamping at the
/// edges never fires under this precondition). The cut-out keeps the source
/// image's color form.
#[verifier::external_body]
pub(crate) fn crop_tile(img: &image::DynamicImage, x: u32, y: u32, w: u32, h: u32) -> (t: image::DynamicImage)
    requires
        x + w <= image_width(*img),
        y + h <= image_height(*img),
    ensures
        t == cropped(*img, x as int, y as int, w as int, h as int),
        image_width(t) == w,
        image_height(t) == h,
        png_encodable(t) == png_encodable(*img),
{
    img.crop_imm(x, y, w, h)
}

/// Relies on image::DynamicImage::write_to with ImageFormat::Png: the
/// encoder writes a PNG that depends on the pixel data alone. It accepts
/// exactly the integer color forms (`png_encodable`), and writing into
/// memory cannot fail, so for such an image the only failure it reports is a
/// zero dimension. The PNG it writes carries the image's dimensions, so
/// whenever the decoder accepts it again it yields an image of the same
/// width and height; and it does accept it when the raw pixel data fits the
/// decoder's fixed allocation budget with ample room — at most 2^24 pixels
/// of at most 8 bytes each is 128 MiB against a 512 MiB budget.
#[verifier::external_body]
pub(crate) fn encode_png(img: &image::DynamicImage) -> (r: Result<Vec<u8>, TileError>)
    ensures
        png_encodable(*img) && image_width(*img) > 0 && image_height(*img) > 0 ==> r is Ok,
        r matches Ok(b) ==> b@ == png_bytes(*img),
        r matches Ok(b) ==> (decodes(b@) ==> image_width(decoded_image(b@)) == image_width(*img)
            && image_height(decoded_image(b@)) == image_height(*img)),
        r matches Ok(b) ==> (image_width(*img) as nat * image_height(*img) as nat <= 0x100_0000
            ==> decodes(b@)),
        r matches Err(e) ==> e == TileError::EncodeFailure,
{
    let mut out: Vec<u8> = Vec::new();
    match img.write_to(std::io::Cursor::new(&mut out), image::ImageFormat::Png) {
        Ok(()) => Ok(out),
        Err(_) => Err(TileError::EncodeFailure),
    }
}

} // verus!
