//! Undoing the strip shuffle: a picture cut into horizontal strips whose
//! order was reversed is put back in order.

use crate::error::PipelineError;
use crate::raster::copy_strip;
use crate::raster::lemma_raster_ext;
use crate::raster::lemma_tabulate;
use crate::raster::PixelBuffer;
use crate::raster::Raster;
use vstd::arithmetic::div_mod::lemma_fundamental_div_mod;
use vstd::arithmetic::div_mod::lemma_fundamental_div_mod_converse;
use vstd::prelude::*;

verus! {

/// Rows in an ordinary strip of a picture `height` rows high cut into `rows` strips.
pub open spec fn strip_height(height: int, rows: int) -> int {
    height / rows
}

/// Rows left over when `height` rows are cut into `rows` equal strips.
pub open spec fn remainder(height: int, rows: int) -> int {
    height % rows
}

/// Rows that strip `i` fills in the destination: the first strip also takes the remainder.
pub open spec fn dest_height(height: int, rows: int, i: int) -> int {
    if i == 0 {
        strip_height(height, rows) + remainder(height, rows)
    } else {
        strip_height(height, rows)
    }
}

/// First destination row of strip `i`: every strip but the first is moved
/// down by the remainder.
pub open spec fn dest_y(height: int, rows: int, i: int) -> int {
    if i == 0 {
        0
    } else {
        strip_height(height, rows) * i + remainder(height, rows)
    }
}

/// First source row of strip `i`.
pub open spec fn src_y(height: int, rows: int, i: int) -> int {
    height - strip_height(height, rows) * (i + 1) - remainder(height, rows)
}

/// The strip that fills destination row `d`.
pub open spec fn strip_of(height: int, rows: int, d: int) -> int {
    if d < dest_height(height, rows, 0) {
        0
    } else {
        (d - remainder(height, rows)) / strip_height(height, rows)
    }
}

/// The source row that ends up in destination row `d`.
pub open spec fn source_row(height: int, rows: int, d: int) -> int {
    let i = strip_of(height, rows, d);
    src_y(height, rows, i) + (d - dest_y(height, rows, i))
}

/// The destination row in which source row `s` ends up.
pub open spec fn dest_row(height: int, rows: int, s: int) -> int {
    let strip = strip_height(height, rows);
    if s >= strip * (rows - 1) {
        s - strip * (rows - 1)
    } else {
        let i = rows - 1 - s / strip;
        dest_y(height, rows, i) + s % strip
    }
}

/// The picture with its strips put back in order.
pub open spec fn rearranged(src: Raster, rows: int) -> Raster {
    Raster::tabulate(
        src.width,
        src.height,
        |x: int, y: int| src.pixel(x, source_row(src.height as int, rows, y)),
    )
}

/// What rearranging gives: the reordered picture, or an error where more
/// strips are asked for than there are rows.
pub open spec fn rearrange_outcome(src: Raster, rows: u32) -> Result<Raster, PipelineError> {
    if rows > src.height {
        Err(PipelineError::DegenerateRearrange { rows, height: src.height as u32 })
    } else {
        Ok(rearranged(src, rows as int))
    }
}

/// Rearranging keeps the size of the picture, and every row of the result
/// is one row of the picture, column by column.
pub proof fn law_rearranged_rows(src: Raster, rows: int)
    ensures
        rearranged(src, rows).wf(),
        rearranged(src, rows).width == src.width,
        rearranged(src, rows).height == src.height,
        forall|x: int, y: int|
            src.contains(x, y) ==> #[trigger] rearranged(src, rows).pixel(x, y) == src.pixel(
                x,
                source_row(src.height as int, rows, y),
            ),
{
    lemma_tabulate(
        src.width,
        src.height,
        |x: int, y: int| src.pixel(x, source_row(src.height as int, rows, y)),
    );
}

/// The strips tile the picture: sizes and offsets are in range.
pub proof fn lemma_strip_geometry(height: int, rows: int, i: int)
    requires
        1 <= rows <= height,
        0 <= i < rows,
    ensures
        strip_height(height, rows) >= 1,
        0 <= remainder(height, rows) < rows,
        height == strip_height(height, rows) * rows + remainder(height, rows),
        0 <= strip_height(height, rows) * i,
        strip_height(height, rows) * (i + 1) + remainder(height, rows) <= height,
        src_y(height, rows, i) == strip_height(height, rows) * (rows - 1 - i),
        0 <= src_y(height, rows, i),
        src_y(height, rows, i) + dest_height(height, rows, i) <= height,
        0 <= dest_y(height, rows, i),
        dest_y(height, rows, i) + dest_height(height, rows, i) == strip_height(height, rows) * (i
            + 1) + remainder(height, rows),
        i + 1 < rows ==> dest_y(height, rows, i + 1) == dest_y(height, rows, i) + dest_height(
            height,
            rows,
            i,
        ),
{
    let s = height / rows;
    let r = height % rows;
    lemma_fundamental_div_mod(height, rows);
    assert(rows * s == s * rows) by (nonlinear_arith);
    assert(s >= 1) by (nonlinear_arith)
        requires
            height == s * rows + r,
            0 <= r < rows,
            rows <= height,
            1 <= rows,
    ;
    assert(0 <= s * i && s * (i + 1) <= s * rows && s * (rows - 1 - i) == s * rows - s * (i + 1)
        && s * (i + 1) == s * i + s && 0 <= s * (rows - 1 - i)) by (nonlinear_arith)
        requires
            0 <= i < rows,
            s >= 1,
    ;
}

/// Inside strip `i` the destination rows take the source rows of that strip in order.
pub proof fn lemma_source_row_in_strip(height: int, rows: int, i: int, d: int)
    requires
        1 <= rows <= height,
        0 <= i < rows,
        dest_y(height, rows, i) <= d < dest_y(height, rows, i) + dest_height(height, rows, i),
    ensures
        strip_of(height, rows, d) == i,
        source_row(height, rows, d) == src_y(height, rows, i) + (d - dest_y(height, rows, i)),
        0 <= source_row(height, rows, d) < height,
{
    let s = height / rows;
    let r = height % rows;
    lemma_strip_geometry(height, rows, i);
    if i > 0 {
        assert(s * i >= s) by (nonlinear_arith)
            requires
                i >= 1,
                s >= 1,
        ;
        lemma_fundamental_div_mod_converse(d - r, s, i, d - r - s * i);
    }
}

/// Every destination row lies in the strip that `strip_of` names.
pub proof fn lemma_strip_of(height: int, rows: int, d: int)
    requires
        1 <= rows <= height,
        0 <= d < height,
    ensures
        0 <= strip_of(height, rows, d) < rows,
        dest_y(height, rows, strip_of(height, rows, d)) <= d,
        d < dest_y(height, rows, strip_of(height, rows, d)) + dest_height(
            height,
            rows,
            strip_of(height, rows, d),
        ),
{
    let s = height / rows;
    let r = height % rows;
    lemma_strip_geometry(height, rows, 0);
    if d >= s + r {
        let i = (d - r) / s;
        let k = (d - r) % s;
        lemma_fundamental_div_mod(d - r, s);
        assert(1 <= i < rows) by (nonlinear_arith)
            requires
                d - r == s * i + k,
                0 <= k < s,
                s <= d - r < s * rows,
        ;
    }
}

/// Rearranging is a permutation of the rows: every destination row takes
/// one source row, every source row lands in one destination row, and the
/// two assignments undo each other.
pub proof fn law_rows_permuted(height: int, rows: int)
    requires
        1 <= rows <= height,
    ensures
        forall|d: int|
            0 <= d < height ==> 0 <= #[trigger] source_row(height, rows, d) < height && dest_row(
                height,
                rows,
                source_row(height, rows, d),
            ) == d,
        forall|s: int|
            0 <= s < height ==> 0 <= #[trigger] dest_row(height, rows, s) < height && source_row(
                height,
                rows,
                dest_row(height, rows, s),
            ) == s,
{
    let strip = height / rows;
    let rem = height % rows;
    assert forall|d: int| 0 <= d < height implies 0 <= #[trigger] source_row(height, rows, d)
        < height && dest_row(height, rows, source_row(height, rows, d)) == d by {
        lemma_strip_of(height, rows, d);
        let i = strip_of(height, rows, d);
        lemma_strip_geometry(height, rows, i);
        lemma_source_row_in_strip(height, rows, i, d);
        let k = d - dest_y(height, rows, i);
        let sr = source_row(height, rows, d);
        if i > 0 {
            assert(strip * (rows - 1 - i) + strip <= strip * (rows - 1)) by (nonlinear_arith)
                requires
                    1 <= i < rows,
                    strip >= 1,
            ;
            lemma_fundamental_div_mod_converse(sr, strip, rows - 1 - i, k);
        } else {
            assert(strip * (rows - 1 - 0) == strip * (rows - 1));
        }
    }
    assert forall|s: int| 0 <= s < height implies 0 <= #[trigger] dest_row(height, rows, s)
        < height && source_row(height, rows, dest_row(height, rows, s)) == s by {
        lemma_strip_geometry(height, rows, 0);
        assert(strip * (rows - 1) == strip * rows - strip) by (nonlinear_arith);
        if s >= strip * (rows - 1) {
            let d = s - strip * (rows - 1);
            lemma_source_row_in_strip(height, rows, 0, d);
            assert(strip * (rows - 1 - 0) == strip * (rows - 1));
        } else {
            let j = s / strip;
            let k = s % strip;
            lemma_fundamental_div_mod(s, strip);
            assert(0 <= j < rows - 1) by (nonlinear_arith)
                requires
                    s == strip * j + k,
                    0 <= k < strip,
                    0 <= s < strip * (rows - 1),
            ;
            let i = rows - 1 - j;
            lemma_strip_geometry(height, rows, i);
            let d = dest_y(height, rows, i) + k;
            lemma_source_row_in_strip(height, rows, i, d);
            assert(rows - 1 - i == j);
        }
    }
}

/// With a single strip nothing moves.
pub proof fn law_identity_at_one(src: Raster)
    requires
        src.wf(),
        src.height >= 1,
    ensures
        rearrange_outcome(src, 1) == Ok::<Raster, PipelineError>(src),
{
    let h = src.height as int;
    let f = |x: int, y: int| src.pixel(x, source_row(h, 1, y));
    lemma_tabulate(src.width, src.height, f);
    assert forall|x: int, y: int| src.contains(x, y) implies #[trigger] rearranged(src, 1).pixel(
        x,
        y,
    ) == src.pixel(x, y) by {
        lemma_source_row_in_strip(h, 1, 0, y);
    }
    lemma_raster_ext(rearranged(src, 1), src);
}

/// Puts the strips of `src` back in order: the picture was cut into `rows`
/// horizontal strips, the first strip taking the rows that do not divide
/// evenly, and the strips were stacked in reverse.
pub fn rearrange(src: &PixelBuffer, rows: u32) -> (r: Result<PixelBuffer, PipelineError>)
    requires
        rows >= 1,
    ensures
        match r {
            Ok(dst) => rearrange_outcome(src@, rows) == Ok::<Raster, PipelineError>(dst@),
            Err(e) => rearrange_outcome(src@, rows) == Err::<Raster, PipelineError>(e),
        },
{
    let width = src.width();
    let height = src.height();
    if rows > height {
        return Err(PipelineError::DegenerateRearrange { rows, height });
    }
    let strip = height / rows;
    let rem = height % rows;
    let mut dst = src.blank(width, height);
    let mut i: u32 = 0;
    while i < rows
        invariant
            1 <= rows <= height,
            i <= rows,
            strip == strip_height(height as int, rows as int),
            rem == remainder(height as int, rows as int),
            src@.wf(),
            src@.width == width,
            src@.height == height,
            dst@.wf(),
            dst@.width == width,
            dst@.height == height,
            forall|x: int, y: int|
                0 <= x < width && 0 <= y < dest_y(height as int, rows as int, i as int)
                    ==> #[trigger] dst@.pixel(x, y) == src@.pixel(
                    x,
                    source_row(height as int, rows as int, y),
                ),
        decreases rows - i,
    {
        proof {
            lemma_strip_geometry(height as int, rows as int, i as int);
        }
        let mut copy_h: u32 = strip;
        let mut py: u32 = strip * i;
        let y: u32 = height - strip * (i + 1) - rem;
        if i == 0 {
            copy_h += rem;
        } else {
            py += rem;
        }
        copy_strip(src, &mut dst, y, py, copy_h, width);
        proof {
            let h = height as int;
            let n = rows as int;
            assert forall|cx: int, cy: int|
                0 <= cx < width && 0 <= cy < dest_y(h, n, i + 1) implies #[trigger] dst@.pixel(
                cx,
                cy,
            ) == src@.pixel(cx, source_row(h, n, cy)) by {
                if cy >= py {
                    lemma_source_row_in_strip(h, n, i as int, cy);
                }
            }
        }
        i += 1;
    }
    proof {
        lemma_strip_geometry(height as int, rows as int, rows - 1);
        lemma_tabulate(
            src@.width,
            src@.height,
            |x: int, y: int| src@.pixel(x, source_row(src@.height as int, rows as int, y)),
        );
        lemma_raster_ext(dst@, rearranged(src@, rows as int));
    }
    Ok(dst)
}

} // verus!
