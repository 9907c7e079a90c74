use vstd::prelude::*;

use crate::buffer::{buffer_wf, Pixels2D};
use crate::ppm::{lemma_rgba_body_len, rgba_body, rgba_bytes};

verus! {

#[verifier::external_type_specification]
#[verifier::external_body]
pub struct ExEncodingError(png::EncodingError);

/// The PNG stream that the `png` crate writes for an 8-bit RGBA image of
/// `width` by `height` pixels with the given pixel bytes.
pub uninterp spec fn png_of(width: u32, height: u32, rgba: Seq<u8>) -> Seq<u8>;

/// Relies on png's `Encoder::new`, `Encoder::set_color`, `Encoder::set_depth`,
/// `Encoder::write_header`, `Writer::write_image_data` and `Writer::finish`:
/// together they encode 8-bit RGBA data into a PNG stream, here held in
/// memory, whose bytes depend on the arguments alone.  With the default
/// options they fail only on a zero width or height (`Writer::init`) or on
/// data of the wrong length (`write_image_data`), and writing into a vector
/// cannot fail.  Data of exactly `4 * width * height` bytes keeps the
/// encoder's row arithmetic from overflowing.
#[verifier::external_body]
fn encode_png(width: u32, height: u32, rgba: &Vec<u8>) -> (r: Result<Vec<u8>, png::EncodingError>)
    requires
        rgba@.len() == 4 * width * height,
    ensures
        r matches Ok(v) ==> v@ == png_of(width, height, rgba@),
        width > 0 && height > 0 ==> r is Ok,
{
    let mut out: Vec<u8> = Vec::new();
    let mut encoder = png::Encoder::new(&mut out, width, height);
    encoder.set_color(png::ColorType::Rgba);
    encoder.set_depth(png::BitDepth::Eight);
    let mut writer = encoder.write_header()?;
    writer.write_image_data(rgba.as_slice())?;
    writer.finish()?;
    Ok(out)
}

/// Why a PNG image could not be made.
#[derive(Debug, Clone, Copy, PartialEq, Eq, Structural)]
pub enum PngError {
    /// The encoder refused the image (for instance, a zero width or height).
    Encoding,
}

/// The buffer as a PNG image: 8-bit RGBA, alpha kept as a channel.
pub fn png_bytes<P: Pixels2D>(pixels: &P) -> (r: Result<Vec<u8>, PngError>)
    requires
        buffer_wf(*pixels),
        pixels.spec_width() <= u32::MAX,
        pixels.spec_height() <= u32::MAX,
    ensures
        r matches Ok(v) ==> v@ == png_of(
            pixels.spec_width() as u32,
            pixels.spec_height() as u32,
            rgba_body(pixels.cells()),
        ),
        pixels.spec_width() > 0 && pixels.spec_height() > 0 ==> r is Ok,
        pixels.spec_width() == 0 || pixels.spec_height() == 0 ==> r == Err::<Vec<u8>, PngError>(
            PngError::Encoding,
        ),
{
    let data = rgba_bytes(pixels);
    proof {
        lemma_rgba_body_len(pixels.cells());
        assert(4 * pixels.spec_width() * pixels.spec_height() == 4 * (pixels.spec_width()
            * pixels.spec_height())) by (nonlinear_arith);
    }
    if pixels.width() == 0 || pixels.height() == 0 {
        return Err(PngError::Encoding);
    }
    match encode_png(pixels.width() as u32, pixels.height() as u32, &data) {
        Ok(v) => Ok(v),
        Err(_) => Err(PngError::Encoding),
    }
}

} // verus!
