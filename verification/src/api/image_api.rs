//! Picture operations on base64 text: each reads its pictures from
//! base64, works on the pixels, and hands the result back as the base64
//! text of a PNG file. No call keeps anything for the next one.

use crate::codec::decode;
use crate::codec::decode_outcome;
use crate::codec::encode;
use crate::codec::encode_outcome;
use crate::compose::compose;
use crate::compose::compose_outcome;
use crate::compose::rasters;
use crate::crop::crop;
use crate::crop::crop_outcome;
use crate::error::PipelineError;
use crate::raster::PixelBuffer;
use crate::raster::Raster;
use crate::rearrange::rearrange;
use crate::rearrange::rearrange_outcome;
use crate::transport::base64_decode;
use crate::transport::base64_decoded;
use crate::transport::base64_encodable;
use crate::transport::base64_encode;
use crate::transport::base64_encoded;
use crate::transport::json_string_list;
use crate::transport::parse_string_list;
use vstd::prelude::*;

verus! {

/// Size and format of a picture.
#[derive(Debug, Clone)]
pub struct ImageInfo {
    pub width: u32,
    pub height: u32,
    /// The usual file extension of the format: "png", "jpg", "gif", ...
    pub format: String,
}

/// Size and format of a picture, as a mathematical value.
pub struct ImageDescriptor {
    pub width: nat,
    pub height: nat,
    pub format: Seq<char>,
}

impl View for ImageInfo {
    type V = ImageDescriptor;

    open spec fn view(&self) -> ImageDescriptor {
        ImageDescriptor {
            width: self.width as nat,
            height: self.height as nat,
            format: self.format@,
        }
    }
}

/// What reading a picture from base64 text gives: the picture and the
/// extension of its format, or the decode error where the text is not
/// base64 or its bytes are no picture.
pub open spec fn load_outcome(text: Seq<char>) -> Result<(Raster, Seq<char>), PipelineError> {
    match base64_decoded(text) {
        Some(bytes) => decode_outcome(bytes),
        None => Err(PipelineError::Decode),
    }
}

/// What reading a list of pictures gives: all of them in order, or the
/// decode error where one of them cannot be read.
pub open spec fn load_all_outcome(texts: Seq<Seq<char>>) -> Result<Seq<Raster>, PipelineError> {
    if forall|i: int| 0 <= i < texts.len() ==> (#[trigger] load_outcome(texts[i])) is Ok {
        Ok(Seq::new(texts.len(), |i: int| load_outcome(texts[i])->Ok_0.0))
    } else {
        Err(PipelineError::Decode)
    }
}

/// What handing out a picture gives: the base64 text of its PNG file, or
/// an error where the file cannot be written or is too long for base64.
pub open spec fn export_outcome(raster: Raster) -> Result<Seq<char>, PipelineError> {
    match encode_outcome(raster) {
        Ok(png) => if base64_encodable(png.len()) {
            Ok(base64_encoded(png))
        } else {
            Err(PipelineError::TooLarge)
        },
        Err(e) => Err(e),
    }
}

/// What the size query gives for a picture in base64 text.
pub open spec fn info_outcome(text: Seq<char>) -> Result<ImageDescriptor, PipelineError> {
    match load_outcome(text) {
        Ok((raster, format)) => Ok(
            ImageDescriptor { width: raster.width, height: raster.height, format },
        ),
        Err(e) => Err(e),
    }
}

/// What descrambling gives for a picture in base64 text.
pub open spec fn rearrange_image_outcome(text: Seq<char>, rows: u32) -> Result<
    Seq<char>,
    PipelineError,
> {
    match load_outcome(text) {
        Ok((raster, _)) => match rearrange_outcome(raster, rows) {
            Ok(out) => export_outcome(out),
            Err(e) => Err(e),
        },
        Err(e) => Err(e),
    }
}

/// What cropping gives for a picture in base64 text.
pub open spec fn crop_image_outcome(
    text: Seq<char>,
    x: u32,
    y: u32,
    width: u32,
    height: u32,
) -> Result<Seq<char>, PipelineError> {
    match load_outcome(text) {
        Ok((raster, _)) => match crop_outcome(raster, x, y, width, height) {
            Ok(out) => export_outcome(out),
            Err(e) => Err(e),
        },
        Err(e) => Err(e),
    }
}

/// What composing gives for a JSON array of pictures in base64 text.
pub open spec fn compose_vertical_outcome(text: Seq<char>) -> Result<Seq<char>, PipelineError> {
    match json_string_list(text) {
        None => Err(PipelineError::Decode),
        Some(texts) => if texts.len() == 0 {
            Err(PipelineError::EmptyInput)
        } else {
            match load_all_outcome(texts) {
                Err(e) => Err(e),
                Ok(images) => match compose_outcome(images) {
                    Ok(out) => export_outcome(out),
                    Err(e) => Err(e),
                },
            }
        },
    }
}

/// Reads a picture from base64 text.
pub fn load(text: &str) -> (r: Result<(PixelBuffer, String), PipelineError>)
    ensures
        match r {
            Ok((buffer, format)) => load_outcome(text@) == Ok::<
                (Raster, Seq<char>),
                PipelineError,
            >((buffer@, format@)),
            Err(e) => load_outcome(text@) == Err::<(Raster, Seq<char>), PipelineError>(e),
        },
{
    match base64_decode(text) {
        Err(_) => Err(PipelineError::Decode),
        Ok(bytes) => decode(bytes.as_slice()),
    }
}

/// Hands out a picture as the base64 text of its PNG file.
pub fn export(buffer: &PixelBuffer) -> (r: Result<String, PipelineError>)
    ensures
        match r {
            Ok(text) => export_outcome(buffer@) == Ok::<Seq<char>, PipelineError>(text@),
            Err(e) => export_outcome(buffer@) == Err::<Seq<char>, PipelineError>(e),
        },
{
    let png = encode(buffer)?;
    if png.len() / 3 > (usize::MAX - 4) / 4 {
        return Err(PipelineError::TooLarge);
    }
    Ok(base64_encode(png.as_slice()))
}

/// Width, height and format of the picture that the base64 text holds.
pub fn get_image_info(image_data_base64: String) -> (r: Result<ImageInfo, PipelineError>)
    ensures
        match r {
            Ok(info) => info_outcome(image_data_base64@) == Ok::<ImageDescriptor, PipelineError>(
                info@,
            ),
            Err(e) => info_outcome(image_data_base64@) == Err::<ImageDescriptor, PipelineError>(
                e,
            ),
        },
{
    match load(image_data_base64.as_str()) {
        Err(e) => Err(e),
        Ok((buffer, format)) => Ok(
            ImageInfo { width: buffer.width(), height: buffer.height(), format },
        ),
    }
}

/// Descrambles the picture that the base64 text holds: its `rows`
/// horizontal strips are put back in order. Gives the base64 text of the
/// PNG file of the result.
pub fn rearrange_image_rows(image_data_base64: String, rows: u32) -> (r: Result<
    String,
    PipelineError,
>)
    requires
        rows >= 1,
    ensures
        match r {
            Ok(text) => rearrange_image_outcome(image_data_base64@, rows) == Ok::<
                Seq<char>,
                PipelineError,
            >(text@),
            Err(e) => rearrange_image_outcome(image_data_base64@, rows) == Err::<
                Seq<char>,
                PipelineError,
            >(e),
        },
{
    let (src, _) = load(image_data_base64.as_str())?;
    let dst = rearrange(&src, rows)?;
    export(&dst)
}

/// Cuts the rectangle of the given size whose top-left pixel is `(x, y)`
/// out of the picture that the base64 text holds. Gives the base64 text
/// of the PNG file of the result.
pub fn crop_image(image_data_base64: String, x: u32, y: u32, width: u32, height: u32) -> (r:
    Result<String, PipelineError>)
    ensures
        match r {
            Ok(text) => crop_image_outcome(image_data_base64@, x, y, width, height) == Ok::<
                Seq<char>,
                PipelineError,
            >(text@),
            Err(e) => crop_image_outcome(image_data_base64@, x, y, width, height) == Err::<
                Seq<char>,
                PipelineError,
            >(e),
        },
{
    let (src, _) = load(image_data_base64.as_str())?;
    let dst = crop(&src, x, y, width, height)?;
    export(&dst)
}

/// Stacks the pictures of a JSON array of base64 texts from top to
/// bottom. Gives the base64 text of the PNG file of the canvas.
pub fn compose_vertical(image_data_base64_list: String) -> (r: Result<String, PipelineError>)
    ensures
        match r {
            Ok(text) => compose_vertical_outcome(image_data_base64_list@) == Ok::<
                Seq<char>,
                PipelineError,
            >(text@),
            Err(e) => compose_vertical_outcome(image_data_base64_list@) == Err::<
                Seq<char>,
                PipelineError,
            >(e),
        },
{
    let image_list = match parse_string_list(image_data_base64_list.as_str()) {
        Ok(list) => list,
        Err(_) => {
            return Err(PipelineError::Decode);
        },
    };
    if image_list.len() == 0 {
        return Err(PipelineError::EmptyInput);
    }
    let ghost texts = image_list@.map_values(|s: String| s@);
    let mut images: Vec<PixelBuffer> = Vec::new();
    let mut i: usize = 0;
    while i < image_list.len()
        invariant
            i <= image_list.len(),
            images.len() == i,
            image_list.len() > 0,
            texts == image_list@.map_values(|s: String| s@),
            json_string_list(image_data_base64_list@) == Some(texts),
            forall|j: int|
                0 <= j < i ==> (#[trigger] load_outcome(texts[j])) is Ok && load_outcome(
                    texts[j],
                )->Ok_0.0 == images@[j]@,
        decreases image_list.len() - i,
    {
        match load(image_list[i].as_str()) {
            Err(e) => {
                assert(load_outcome(texts[i as int]) is Err);
                return Err(e);
            },
            Ok((buffer, _)) => {
                images.push(buffer);
            },
        }
        i += 1;
    }
    assert(rasters(images@) =~= load_all_outcome(texts)->Ok_0);
    let canvas = compose(&images)?;
    export(&canvas)
}

} // verus!
