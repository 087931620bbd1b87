//! Decoder and encoder: from the bytes of a picture file to a pixel grid,
//! and from a pixel grid to the bytes of a PNG file. The file formats
//! themselves are the work of the `image` and `png` crates.

use crate::error::PipelineError;
use crate::raster::PixelBuffer;
use crate::raster::Raster;
use vstd::prelude::*;

verus! {

/// The error type of the `image` crate, carried through as an opaque value.
#[verifier::external_type_specification]
#[verifier::external_body]
pub struct ExImageError(image::ImageError);

/// The error type of the `png` encoder, carried through as an opaque value.
#[verifier::external_type_specification]
#[verifier::external_body]
pub struct ExEncodingError(png::EncodingError);

/// What the `image` crate makes of the bytes of a picture file: the
/// extension of the format that their first bytes announce, and the
/// picture as RGBA bytes with its width and height; `None` where it
/// refuses the bytes.
pub uninterp spec fn decoded_image(bytes: Seq<u8>) -> Option<(Seq<char>, Raster)>;

/// The PNG file that the `png` crate writes for RGBA bytes of the given
/// width and height; `None` where it refuses them.
pub uninterp spec fn png_encoded(width: u32, height: u32, data: Seq<u8>) -> Option<Seq<u8>>;

/// Calls `image::guess_format` on the bytes, then
/// `image::load_from_memory_with_format` with the format found, and
/// converts the picture with `DynamicImage::to_rgba8`. Gives the first
/// entry of `ImageFormat::extensions_str` for the format, and the width,
/// height and raw bytes of the converted picture. The format is found
/// here, by the first bytes alone, and handed on, so that no detection
/// hook registered elsewhere in the process takes part. Not proved: that
/// the outcome is `decoded_image` of the bytes, which only says that
/// equal bytes decode equally.
#[verifier::external_body]
fn decode_rgba(bytes: &[u8]) -> (r: Result<(&'static str, u32, u32, Vec<u8>), image::ImageError>)
    ensures
        match r {
            Ok((format, width, height, data)) => decoded_image(bytes@) == Some(
                (format@, Raster { width: width as nat, height: height as nat, data: data@ }),
            ),
            Err(_) => decoded_image(bytes@) is None,
        },
{
    let format = image::guess_format(bytes)?;
    let rgba = image::load_from_memory_with_format(bytes, format)?.to_rgba8();
    Ok((format.extensions_str()[0], rgba.width(), rgba.height(), rgba.into_raw()))
}

/// Writes a PNG file into memory with `png::Encoder`: colour type RGBA,
/// eight bits per channel, every other setting at its default; the header
/// with `write_header`, the pixels with `Writer::write_image_data`. The
/// sizes that the encoder computes do not overflow where the bytes are
/// four per pixel, which the precondition asks. Not proved: that the
/// outcome is `png_encoded` of the arguments, which only says that equal
/// pictures are written equally; and that a picture without columns or
/// without rows is refused, as `write_header` does before it writes.
#[verifier::external_body]
fn png_encode(width: u32, height: u32, data: &[u8]) -> (r: Result<Vec<u8>, png::EncodingError>)
    requires
        data@.len() == width * height * 4,
    ensures
        match r {
            Ok(bytes) => png_encoded(width, height, data@) == Some(bytes@),
            Err(_) => png_encoded(width, height, data@) is None,
        },
        width == 0 || height == 0 ==> r is Err,
{
    let mut out = Vec::new();
    {
        let mut encoder = png::Encoder::new(&mut out, width, height);
        encoder.set_color(png::ColorType::Rgba);
        encoder.set_depth(png::BitDepth::Eight);
        let mut writer = encoder.write_header()?;
        writer.write_image_data(data)?;
    }
    Ok(out)
}

/// What decoding gives: the picture and the extension of its format, or
/// the decode error where the bytes are refused or do not make a grid.
pub open spec fn decode_outcome(bytes: Seq<u8>) -> Result<(Raster, Seq<char>), PipelineError> {
    match decoded_image(bytes) {
        Some((format, raster)) => if raster.wf() {
            Ok((raster, format))
        } else {
            Err(PipelineError::Decode)
        },
        None => Err(PipelineError::Decode),
    }
}

/// What encoding gives: the PNG file, or the encode error where the
/// encoder refuses the picture.
pub open spec fn encode_outcome(raster: Raster) -> Result<Seq<u8>, PipelineError> {
    match png_encoded(raster.width as u32, raster.height as u32, raster.data) {
        Some(bytes) => Ok(bytes),
        None => Err(PipelineError::Encode),
    }
}

/// Reads a picture file: finds its format by its first bytes and decodes
/// it in full to RGBA, eight bits per channel. Gives the picture and the
/// usual file extension of the format.
pub fn decode(bytes: &[u8]) -> (r: Result<(PixelBuffer, String), PipelineError>)
    ensures
        match r {
            Ok((buffer, format)) => decode_outcome(bytes@) == Ok::<
                (Raster, Seq<char>),
                PipelineError,
            >((buffer@, format@)),
            Err(e) => decode_outcome(bytes@) == Err::<(Raster, Seq<char>), PipelineError>(e),
        },
{
    match decode_rgba(bytes) {
        Err(_) => Err(PipelineError::Decode),
        Ok((format, width, height, data)) => match PixelBuffer::from_raw(width, height, data) {
            None => Err(PipelineError::Decode),
            Some(buffer) => Ok((buffer, format.to_owned())),
        },
    }
}

/// Writes the picture as a PNG file: RGBA, eight bits per channel. A
/// picture without pixels has no PNG file.
pub fn encode(buffer: &PixelBuffer) -> (r: Result<Vec<u8>, PipelineError>)
    ensures
        match r {
            Ok(bytes) => encode_outcome(buffer@) == Ok::<Seq<u8>, PipelineError>(bytes@),
            Err(e) => encode_outcome(buffer@) == Err::<Seq<u8>, PipelineError>(e),
        },
        buffer@.width == 0 || buffer@.height == 0 ==> r == Err::<Vec<u8>, PipelineError>(
            PipelineError::Encode,
        ),
{
    let width = buffer.width();
    let height = buffer.height();
    match png_encode(width, height, buffer.as_raw().as_slice()) {
        Ok(bytes) => Ok(bytes),
        Err(_) => Err(PipelineError::Encode),
    }
}

} // verus!
