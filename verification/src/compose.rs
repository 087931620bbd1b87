//! Stacking pictures from top to bottom into one canvas.

use crate::error::PipelineError;
use crate::raster::copy_strip;
use crate::raster::lemma_raster_ext;
use crate::raster::lemma_tabulate;
use crate::raster::Pixel;
use crate::raster::PixelBuffer;
use crate::raster::Raster;
use vstd::prelude::*;

verus! {

/// The widest of the pictures; zero for none.
pub open spec fn max_width(images: Seq<Raster>) -> nat
    decreases images.len(),
{
    if images.len() == 0 {
        0
    } else {
        let rest = max_width(images.drop_last());
        if images.last().width > rest {
            images.last().width
        } else {
            rest
        }
    }
}

/// The heights of the pictures, added up.
pub open spec fn total_height(images: Seq<Raster>) -> nat
    decreases images.len(),
{
    if images.len() == 0 {
        0
    } else {
        total_height(images.drop_last()) + images.last().height
    }
}

/// The pixel `(x, y)` of the stack: that of the picture whose rows span `y`,
/// or a transparent one to the right of a narrow picture and below the stack.
pub open spec fn stacked_pixel(images: Seq<Raster>, x: int, y: int) -> Pixel
    decreases images.len(),
{
    if images.len() == 0 {
        Pixel::transparent()
    } else {
        let top = total_height(images.drop_last());
        let last = images.last();
        if y < top {
            stacked_pixel(images.drop_last(), x, y)
        } else if y < top + last.height && 0 <= x < last.width {
            last.pixel(x, y - top)
        } else {
            Pixel::transparent()
        }
    }
}

/// The canvas that holds the pictures one below the other, each at the left edge.
pub open spec fn composed(images: Seq<Raster>) -> Raster {
    Raster::tabulate(
        max_width(images),
        total_height(images),
        |x: int, y: int| stacked_pixel(images, x, y),
    )
}

/// The canvas for these pictures can be held: its height is a `u32` and its
/// bytes fit the address space.
pub open spec fn canvas_fits(images: Seq<Raster>) -> bool {
    total_height(images) <= u32::MAX && max_width(images) * total_height(images) * 4 <= usize::MAX
}

/// What composing gives: the canvas, or an error for an empty list or a
/// canvas too large to hold.
pub open spec fn compose_outcome(images: Seq<Raster>) -> Result<Raster, PipelineError> {
    if images.len() == 0 {
        Err(PipelineError::EmptyInput)
    } else if !canvas_fits(images) {
        Err(PipelineError::TooLarge)
    } else {
        Ok(composed(images))
    }
}

/// The grids that a list of buffers holds.
pub open spec fn rasters(images: Seq<PixelBuffer>) -> Seq<Raster> {
    images.map_values(|b: PixelBuffer| b@)
}

/// The first `k` pictures are no wider and no higher than all of them.
pub proof fn lemma_prefix_bounds(images: Seq<Raster>, k: int)
    requires
        0 <= k <= images.len(),
    ensures
        max_width(images.take(k)) <= max_width(images),
        total_height(images.take(k)) <= total_height(images),
        k < images.len() ==> images[k].width <= max_width(images),
        k < images.len() ==> total_height(images.take(k)) + images[k].height <= total_height(
            images,
        ),
    decreases images.len(),
{
    if k == images.len() {
        assert(images.take(k) =~= images);
    } else {
        let rest = images.drop_last();
        assert(rest.take(k) =~= images.take(k));
        if k < rest.len() {
            lemma_prefix_bounds(rest, k);
        } else {
            assert(rest.take(k) =~= rest);
        }
    }
}

/// Adding one picture to the list: what becomes of width, height and pixels.
pub proof fn lemma_take_next(images: Seq<Raster>, k: int)
    requires
        0 <= k < images.len(),
    ensures
        images.take(k + 1).drop_last() == images.take(k),
        images.take(k + 1).last() == images[k],
        total_height(images.take(k + 1)) == total_height(images.take(k)) + images[k].height,
        max_width(images.take(k + 1)) == if images[k].width > max_width(images.take(k)) {
            images[k].width
        } else {
            max_width(images.take(k))
        },
{
    assert(images.take(k + 1).drop_last() =~= images.take(k));
}

/// In the stack, the rows that picture `k` spans hold that picture at the
/// left and transparent pixels to its right.
pub proof fn lemma_stacked_pixel(images: Seq<Raster>, k: int, x: int, y: int)
    requires
        0 <= k < images.len(),
        total_height(images.take(k)) <= y < total_height(images.take(k)) + images[k].height,
    ensures
        stacked_pixel(images, x, y) == if 0 <= x < images[k].width {
            images[k].pixel(x, y - total_height(images.take(k)))
        } else {
            Pixel::transparent()
        },
    decreases images.len(),
{
    let rest = images.drop_last();
    if k == images.len() - 1 {
        assert(images.take(k) =~= rest);
    } else {
        assert(rest.take(k) =~= images.take(k));
        lemma_prefix_bounds(rest, k);
        lemma_stacked_pixel(rest, k, x, y);
    }
}

/// The widest picture of a list that is not empty is one of its pictures.
pub proof fn lemma_max_width_attained(images: Seq<Raster>) -> (j: int)
    requires
        images.len() > 0,
    ensures
        0 <= j < images.len(),
        images[j].width == max_width(images),
    decreases images.len(),
{
    let rest = images.drop_last();
    if rest.len() == 0 || images.last().width > max_width(rest) {
        images.len() - 1
    } else {
        lemma_max_width_attained(rest)
    }
}

/// The canvas is as wide as the widest picture and as high as all pictures together.
pub proof fn law_compose_dimensions(images: Seq<Raster>)
    requires
        images.len() > 0,
    ensures
        composed(images).wf(),
        composed(images).height == total_height(images),
        forall|k: int| 0 <= k < images.len() ==> (#[trigger] images[k]).width <= composed(images).width,
        exists|j: int| 0 <= j < images.len() && (#[trigger] images[j]).width == composed(images).width,
{
    lemma_tabulate(
        max_width(images),
        total_height(images),
        |x: int, y: int| stacked_pixel(images, x, y),
    );
    assert forall|k: int| 0 <= k < images.len() implies (#[trigger] images[k]).width <= composed(
        images,
    ).width by {
        lemma_prefix_bounds(images, k);
    }
    let j = lemma_max_width_attained(images);
    assert(images[j].width == composed(images).width);
}

/// On the canvas picture `k` starts below the pictures before it: the
/// rows that it spans hold its pixels from the left edge on, and are fully
/// transparent to the right of it.
pub proof fn law_compose_pixels(images: Seq<Raster>, k: int, x: int, y: int)
    requires
        0 <= k < images.len(),
        0 <= x < composed(images).width,
        0 <= y < images[k].height,
    ensures
        composed(images).contains(x, total_height(images.take(k)) + y),
        composed(images).pixel(x, total_height(images.take(k)) + y) == if x < images[k].width {
            images[k].pixel(x, y)
        } else {
            Pixel::transparent()
        },
{
    lemma_tabulate(
        max_width(images),
        total_height(images),
        |x: int, y: int| stacked_pixel(images, x, y),
    );
    lemma_prefix_bounds(images, k);
    lemma_stacked_pixel(images, k, x, total_height(images.take(k)) + y);
}

/// Composing a single picture gives that picture: nothing is added around it.
pub proof fn law_compose_single(image: Raster)
    requires
        image.storable(),
    ensures
        compose_outcome(seq![image]) == Ok::<Raster, PipelineError>(image),
{
    let images = seq![image];
    assert(images.drop_last() =~= Seq::<Raster>::empty());
    assert(images.take(0) =~= Seq::<Raster>::empty());
    assert(max_width(Seq::<Raster>::empty()) == 0);
    assert(total_height(Seq::<Raster>::empty()) == 0);
    assert(images.last() == image);
    assert(max_width(images) == image.width);
    assert(total_height(images) == image.height);
    lemma_tabulate(image.width, image.height, |x: int, y: int| stacked_pixel(images, x, y));
    assert forall|x: int, y: int| image.contains(x, y) implies #[trigger] composed(images).pixel(
        x,
        y,
    ) == image.pixel(x, y) by {
        lemma_stacked_pixel(images, 0, x, y);
    }
    lemma_raster_ext(composed(images), image);
}

/// An empty list is refused.
pub proof fn law_compose_empty()
    ensures
        compose_outcome(Seq::<Raster>::empty()) == Err::<Raster, PipelineError>(
            PipelineError::EmptyInput,
        ),
{
}

/// Stacks the pictures from top to bottom on a transparent canvas as wide
/// as the widest of them and as high as all of them together. Every
/// picture starts at the left edge, below the one before it; nothing is resized.
pub fn compose(images: &Vec<PixelBuffer>) -> (r: Result<PixelBuffer, PipelineError>)
    ensures
        match r {
            Ok(canvas) => compose_outcome(rasters(images@)) == Ok::<Raster, PipelineError>(canvas@),
            Err(e) => compose_outcome(rasters(images@)) == Err::<Raster, PipelineError>(e),
        },
{
    let n = images.len();
    if n == 0 {
        return Err(PipelineError::EmptyInput);
    }
    let ghost all = rasters(images@);
    let mut total: u128 = 0;
    let mut max_w: u32 = 0;
    let mut i: usize = 0;
    while i < n
        invariant
            i <= n,
            n == images.len(),
            all == rasters(images@),
            total == total_height(all.take(i as int)),
            max_w == max_width(all.take(i as int)),
            total <= i * 0xffff_ffff,
        decreases n - i,
    {
        let img = &images[i];
        let w = img.width();
        let h = img.height();
        proof {
            lemma_take_next(all, i as int);
        }
        total = total + h as u128;
        if w > max_w {
            max_w = w;
        }
        i += 1;
    }
    assert(all.take(n as int) =~= all);
    if total > u32::MAX as u128 {
        return Err(PipelineError::TooLarge);
    }
    let total_h: u32 = total as u32;
    let mut canvas = match PixelBuffer::new(max_w, total_h) {
        Some(c) => c,
        None => {
            return Err(PipelineError::TooLarge);
        },
    };
    let mut current_y: u32 = 0;
    let mut k: usize = 0;
    while k < n
        invariant
            k <= n,
            n == images.len(),
            all == rasters(images@),
            max_w == max_width(all),
            total_h == total_height(all),
            current_y == total_height(all.take(k as int)),
            canvas@.wf(),
            canvas@.width == max_w,
            canvas@.height == total_h,
            forall|x: int, y: int|
                0 <= x < max_w && 0 <= y < total_h ==> #[trigger] canvas@.pixel(x, y) == (if y
                    < current_y {
                    stacked_pixel(all.take(k as int), x, y)
                } else {
                    Pixel::transparent()
                }),
        decreases n - k,
    {
        let img = &images[k];
        let w = img.width();
        let h = img.height();
        proof {
            lemma_prefix_bounds(all, k as int);
            lemma_take_next(all, k as int);
        }
        copy_strip(img, &mut canvas, 0, current_y, h, w);
        current_y += h;
        k += 1;
    }
    proof {
        assert(all.take(n as int) =~= all);
        lemma_tabulate(
            max_width(all),
            total_height(all),
            |x: int, y: int| stacked_pixel(all, x, y),
        );
        lemma_raster_ext(canvas@, composed(all));
    }
    Ok(canvas)
}

} // verus!
