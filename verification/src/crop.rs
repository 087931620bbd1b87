//! Cutting a rectangle out of a picture.

use crate::error::PipelineError;
use crate::raster::lemma_raster_ext;
use crate::raster::lemma_tabulate;
use crate::raster::PixelBuffer;
use crate::raster::Raster;
use vstd::prelude::*;

verus! {

/// The `width` × `height` pixels of `src` whose top-left pixel is `(x, y)`.
pub open spec fn cropped(src: Raster, x: int, y: int, width: nat, height: nat) -> Raster {
    Raster::tabulate(width, height, |cx: int, cy: int| src.pixel(x + cx, y + cy))
}

/// The rectangle lies inside a picture of the given size.
pub open spec fn rect_fits(src: Raster, x: u32, y: u32, width: u32, height: u32) -> bool {
    x + width <= src.width && y + height <= src.height
}

/// What cropping gives: the rectangle, or the bounds error that names the
/// rectangle asked for and the size of the picture.
pub open spec fn crop_outcome(src: Raster, x: u32, y: u32, width: u32, height: u32) -> Result<
    Raster,
    PipelineError,
> {
    if rect_fits(src, x, y, width, height) {
        Ok(cropped(src, x as int, y as int, width as nat, height as nat))
    } else {
        Err(
            PipelineError::Bounds {
                x,
                y,
                width,
                height,
                image_width: src.width as u32,
                image_height: src.height as u32,
            },
        )
    }
}

/// A cropped picture has exactly the size asked for, and each of its
/// pixels is the pixel of the picture at the same place in the rectangle.
pub proof fn law_cropped_size(src: Raster, x: int, y: int, width: nat, height: nat)
    ensures
        cropped(src, x, y, width, height).wf(),
        cropped(src, x, y, width, height).width == width,
        cropped(src, x, y, width, height).height == height,
        forall|cx: int, cy: int|
            0 <= cx < width && 0 <= cy < height ==> #[trigger] cropped(
                src,
                x,
                y,
                width,
                height,
            ).pixel(cx, cy) == src.pixel(x + cx, y + cy),
{
    lemma_tabulate(width, height, |cx: int, cy: int| src.pixel(x + cx, y + cy));
}

/// Cropping a picture to its full size gives the picture back.
pub proof fn law_crop_full(src: Raster)
    requires
        src.wf(),
        src.width <= u32::MAX,
        src.height <= u32::MAX,
    ensures
        crop_outcome(src, 0, 0, src.width as u32, src.height as u32) == Ok::<Raster, PipelineError>(
            src,
        ),
{
    let whole = cropped(src, 0, 0, src.width, src.height);
    lemma_tabulate(src.width, src.height, |cx: int, cy: int| src.pixel(0 + cx, 0 + cy));
    lemma_raster_ext(whole, src);
}

/// A rectangle that reaches beyond the picture is refused, whatever else holds.
pub proof fn law_crop_out_of_bounds(src: Raster, x: u32, y: u32, width: u32, height: u32)
    requires
        x + width > src.width || y + height > src.height,
    ensures
        crop_outcome(src, x, y, width, height) is Err,
        crop_outcome(src, x, y, width, height)->Err_0 is Bounds,
{
}

/// Cuts the rectangle of the given size whose top-left pixel is `(x, y)`
/// out of `src`. Nothing is scaled: each pixel of the result is one pixel of `src`.
pub fn crop(src: &PixelBuffer, x: u32, y: u32, width: u32, height: u32) -> (r: Result<
    PixelBuffer,
    PipelineError,
>)
    ensures
        match r {
            Ok(dst) => crop_outcome(src@, x, y, width, height) == Ok::<Raster, PipelineError>(dst@),
            Err(e) => crop_outcome(src@, x, y, width, height) == Err::<Raster, PipelineError>(e),
        },
{
    let image_width = src.width();
    let image_height = src.height();
    if width > image_width || x > image_width - width || height > image_height || y > image_height
        - height {
        return Err(PipelineError::Bounds { x, y, width, height, image_width, image_height });
    }
    let mut dst = src.blank(width, height);
    dst.copy_block(src, x, y, 0, 0, width, height);
    proof {
        lemma_tabulate(
            width as nat,
            height as nat,
            |cx: int, cy: int| src@.pixel(x as int + cx, y as int + cy),
        );
        lemma_raster_ext(dst@, cropped(src@, x as int, y as int, width as nat, height as nat));
    }
    Ok(dst)
}

} // verus!
