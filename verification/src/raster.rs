//! The pixel grid: its mathematical model and the buffer that holds it.

use vstd::arithmetic::div_mod::lemma_fundamental_div_mod;
use vstd::arithmetic::div_mod::lemma_fundamental_div_mod_converse;
use vstd::prelude::*;

verus! {

/// One pixel: red, green, blue and alpha, eight bits each.
#[derive(Clone, Copy, Debug, PartialEq, Eq, Structural)]
pub struct Pixel {
    pub r: u8,
    pub g: u8,
    pub b: u8,
    pub a: u8,
}

impl Pixel {
    /// The fully transparent black pixel.
    pub open spec fn transparent() -> Pixel {
        Pixel { r: 0, g: 0, b: 0, a: 0 }
    }

    /// Channel `c` of the pixel: 0 red, 1 green, 2 blue, anything else alpha.
    pub open spec fn channel(self, c: int) -> u8 {
        if c == 0 {
            self.r
        } else if c == 1 {
            self.g
        } else if c == 2 {
            self.b
        } else {
            self.a
        }
    }
}

/// A grid of RGBA pixels as a mathematical value: `data` holds the rows from
/// top to bottom, each row from left to right, each pixel as four bytes.
pub struct Raster {
    pub width: nat,
    pub height: nat,
    pub data: Seq<u8>,
}

impl Raster {
    /// The data has exactly four bytes for every pixel of the grid.
    pub open spec fn wf(self) -> bool {
        self.data.len() == self.width * self.height * 4
    }

    /// The grid is one that a buffer can hold: well formed, with sides that
    /// are `u32` and bytes that fit the address space.
    pub open spec fn storable(self) -> bool {
        self.wf() && self.width <= u32::MAX && self.height <= u32::MAX && self.data.len()
            <= usize::MAX
    }

    /// The pixel `(x, y)` lies inside the grid.
    pub open spec fn contains(self, x: int, y: int) -> bool {
        0 <= x < self.width && 0 <= y < self.height
    }

    /// Position in `data` of the first byte of the pixel `(x, y)`.
    pub open spec fn offset(self, x: int, y: int) -> int {
        (y * self.width + x) * 4
    }

    /// The pixel in column `x` of row `y`.
    pub open spec fn pixel(self, x: int, y: int) -> Pixel {
        let o = self.offset(x, y);
        Pixel { r: self.data[o], g: self.data[o + 1], b: self.data[o + 2], a: self.data[o + 3] }
    }

    /// The grid of the given size whose pixel `(x, y)` is `f(x, y)`.
    pub open spec fn tabulate(width: nat, height: nat, f: spec_fn(int, int) -> Pixel) -> Raster {
        Raster {
            width,
            height,
            data: Seq::new(
                width * height * 4,
                |i: int| f((i / 4) % (width as int), (i / 4) / (width as int)).channel(i % 4),
            ),
        }
    }

    /// The grid of the given size in which every pixel is transparent.
    pub open spec fn transparent(width: nat, height: nat) -> Raster {
        Raster::tabulate(width, height, |x: int, y: int| Pixel::transparent())
    }

    /// Whether the pixel `(x, y)` lies in the block of the given size whose
    /// top-left pixel is `(left, top)`.
    pub open spec fn in_block(x: int, y: int, left: int, top: int, width: int, height: int) -> bool {
        left <= x < left + width && top <= y < top + height
    }

    /// The grid with a block replaced: the `width` × `height` pixels from
    /// `(dst_x, dst_y)` on are those of `src` from `(src_x, src_y)` on.
    pub open spec fn with_block(
        self,
        src: Raster,
        src_x: int,
        src_y: int,
        dst_x: int,
        dst_y: int,
        width: int,
        height: int,
    ) -> Raster {
        Raster::tabulate(
            self.width,
            self.height,
            |x: int, y: int|
                if Raster::in_block(x, y, dst_x, dst_y, width, height) {
                    src.pixel(x - dst_x + src_x, y - dst_y + src_y)
                } else {
                    self.pixel(x, y)
                },
        )
    }

    /// The grid is well formed and every pixel of it is transparent.
    pub open spec fn is_transparent(self) -> bool {
        self.wf() && forall|x: int, y: int|
            self.contains(x, y) ==> #[trigger] self.pixel(x, y) == Pixel::transparent()
    }

    /// This grid is `before` with a block replaced, pixel by pixel: the
    /// same size, inside the block the pixels of `src`, elsewhere those of `before`.
    pub open spec fn is_block_copy(
        self,
        before: Raster,
        src: Raster,
        src_x: int,
        src_y: int,
        dst_x: int,
        dst_y: int,
        width: int,
        height: int,
    ) -> bool {
        &&& self.wf()
        &&& self.width == before.width
        &&& self.height == before.height
        &&& forall|x: int, y: int|
            self.contains(x, y) ==> #[trigger] self.pixel(x, y) == if Raster::in_block(
                x,
                y,
                dst_x,
                dst_y,
                width,
                height,
            ) {
                src.pixel(x - dst_x + src_x, y - dst_y + src_y)
            } else {
                before.pixel(x, y)
            }
    }

    /// The grid with the pixel `(x, y)` replaced by `p`.
    pub open spec fn with_pixel(self, x: int, y: int, p: Pixel) -> Raster {
        let o = self.offset(x, y);
        Raster {
            width: self.width,
            height: self.height,
            data: self.data.update(o, p.r).update(o + 1, p.g).update(o + 2, p.b).update(o + 3, p.a),
        }
    }
}

/// The pixels of a grid `w` wide with `y < h` rows lie before the end of `w * h` pixels.
pub proof fn lemma_pixel_index_bound(w: int, h: int, x: int, y: int)
    requires
        0 <= x < w,
        0 <= y < h,
    ensures
        0 <= y * w + x < w * h,
{
    assert(y * w >= 0) by (nonlinear_arith)
        requires
            0 <= y,
            0 <= w,
    ;
    assert(y * w + w <= w * h) by (nonlinear_arith)
        requires
            0 <= y < h,
            0 <= w,
    ;
}

/// Every pixel inside a well-formed grid has its four bytes in the data.
pub proof fn lemma_offset_bound(r: Raster, x: int, y: int)
    requires
        r.wf(),
        r.contains(x, y),
    ensures
        0 <= r.offset(x, y),
        r.offset(x, y) + 4 <= r.data.len(),
{
    lemma_pixel_index_bound(r.width as int, r.height as int, x, y);
    assert(r.width * r.height * 4 == (r.width as int * r.height as int) * 4);
}

/// The coordinates of a channel can be read back from its position.
pub proof fn lemma_offset_decode(w: int, x: int, y: int, c: int)
    requires
        0 <= x < w,
        0 <= y,
        0 <= c < 4,
    ensures
        ((y * w + x) * 4 + c) % 4 == c,
        (((y * w + x) * 4 + c) / 4) % w == x,
        (((y * w + x) * 4 + c) / 4) / w == y,
{
    let p = y * w + x;
    lemma_fundamental_div_mod_converse(p * 4 + c, 4, p, c);
    lemma_fundamental_div_mod_converse(p, w, y, x);
}

/// Every position in the data of a grid is the place of one channel of one pixel.
pub proof fn lemma_offset_encode(w: int, h: int, i: int)
    requires
        0 <= w,
        0 <= h,
        0 <= i < w * h * 4,
    ensures
        0 <= i % 4 < 4,
        0 <= (i / 4) % w < w,
        0 <= (i / 4) / w < h,
        (((i / 4) / w) * w + (i / 4) % w) * 4 + i % 4 == i,
{
    assert(w > 0) by (nonlinear_arith)
        requires
            0 <= w,
            0 <= h,
            0 <= i < w * h * 4,
    ;
    let p = i / 4;
    lemma_fundamental_div_mod(i, 4);
    assert(0 <= p < w * h);
    lemma_fundamental_div_mod(p, w);
    let y = p / w;
    let x = p % w;
    assert(p == w * y + x);
    assert(w * y == y * w) by (nonlinear_arith);
    assert(0 <= y < h) by (nonlinear_arith)
        requires
            0 <= x < w,
            0 <= w * y + x < w * h,
    ;
}

/// Different pixels of a grid have different places in its data.
pub proof fn lemma_offset_distinct(w: int, x1: int, y1: int, x2: int, y2: int)
    requires
        0 <= x1 < w,
        0 <= x2 < w,
        0 <= y1,
        0 <= y2,
        x1 != x2 || y1 != y2,
    ensures
        y1 * w + x1 != y2 * w + x2,
{
    lemma_fundamental_div_mod_converse(y1 * w + x1, w, y1, x1);
    lemma_fundamental_div_mod_converse(y2 * w + x2, w, y2, x2);
}

/// A tabulated grid is well formed and holds the tabulated pixels.
pub proof fn lemma_tabulate(width: nat, height: nat, f: spec_fn(int, int) -> Pixel)
    ensures
        Raster::tabulate(width, height, f).wf(),
        Raster::tabulate(width, height, f).width == width,
        Raster::tabulate(width, height, f).height == height,
        forall|x: int, y: int|
            0 <= x < width && 0 <= y < height ==> #[trigger] Raster::tabulate(
                width,
                height,
                f,
            ).pixel(x, y) == f(x, y),
{
    let r = Raster::tabulate(width, height, f);
    assert forall|x: int, y: int| 0 <= x < width && 0 <= y < height implies #[trigger] r.pixel(
        x,
        y,
    ) == f(x, y) by {
        lemma_offset_bound(r, x, y);
        lemma_offset_decode(width as int, x, y, 0);
        lemma_offset_decode(width as int, x, y, 1);
        lemma_offset_decode(width as int, x, y, 2);
        lemma_offset_decode(width as int, x, y, 3);
    }
}

/// Two well-formed grids of one size that agree on every pixel are the same grid.
pub proof fn lemma_raster_ext(a: Raster, b: Raster)
    requires
        a.wf(),
        b.wf(),
        a.width == b.width,
        a.height == b.height,
        forall|x: int, y: int| a.contains(x, y) ==> #[trigger] a.pixel(x, y) == b.pixel(x, y),
    ensures
        a == b,
{
    assert forall|i: int| 0 <= i < a.data.len() implies a.data[i] == b.data[i] by {
        lemma_offset_encode(a.width as int, a.height as int, i);
        let x = (i / 4) % (a.width as int);
        let y = (i / 4) / (a.width as int);
        assert(a.contains(x, y));
        assert(a.pixel(x, y) == b.pixel(x, y));
        assert(a.offset(x, y) + i % 4 == i);
        assert(b.offset(x, y) + i % 4 == i);
    }
    assert(a.data =~= b.data);
}

/// Replacing one pixel of a well-formed grid changes that pixel and no other.
pub proof fn lemma_with_pixel(r: Raster, x: int, y: int, p: Pixel)
    requires
        r.wf(),
        r.contains(x, y),
    ensures
        r.with_pixel(x, y, p).wf(),
        r.with_pixel(x, y, p).pixel(x, y) == p,
        forall|x2: int, y2: int|
            r.contains(x2, y2) && (x2 != x || y2 != y) ==> #[trigger] r.with_pixel(x, y, p).pixel(
                x2,
                y2,
            ) == r.pixel(x2, y2),
{
    lemma_offset_bound(r, x, y);
    let q = r.with_pixel(x, y, p);
    assert forall|x2: int, y2: int|
        r.contains(x2, y2) && (x2 != x || y2 != y) implies #[trigger] q.pixel(x2, y2) == r.pixel(
        x2,
        y2,
    ) by {
        lemma_offset_bound(r, x2, y2);
        lemma_offset_distinct(r.width as int, x, y, x2, y2);
    }
}

/// A pixel grid in memory: `width` × `height` RGBA pixels in row-major order.
pub struct PixelBuffer {
    width: u32,
    height: u32,
    data: Vec<u8>,
}

impl View for PixelBuffer {
    type V = Raster;

    closed spec fn view(&self) -> Raster {
        grid(self.width, self.height, self.data@)
    }
}

/// The grid of the given size over the given bytes.
spec fn grid(width: u32, height: u32, data: Seq<u8>) -> Raster {
    Raster { width: width as nat, height: height as nat, data }
}

/// Number of bytes that a grid of the given size takes, if that fits a `usize`.
pub fn byte_len(width: u32, height: u32) -> (len: Option<usize>)
    ensures
        len matches Some(n) ==> n == width * height * 4,
        len is None ==> width * height * 4 > usize::MAX,
{
    assert(0 <= width * height <= 0xffff_ffff * 0xffff_ffff) by (nonlinear_arith)
        requires
            0 <= width <= 0xffff_ffff,
            0 <= height <= 0xffff_ffff,
    ;
    let n: u128 = (width as u128) * (height as u128) * 4;
    if n <= usize::MAX as u128 {
        Some(n as usize)
    } else {
        None
    }
}

/// In a well-formed grid the place of a pixel, and each step of computing
/// it, stays below the length of the data.
proof fn lemma_offset_steps(r: Raster, x: int, y: int)
    requires
        r.wf(),
        r.contains(x, y),
    ensures
        0 <= y * r.width <= y * r.width + x,
        (y * r.width + x) * 4 + 4 <= r.data.len(),
        r.offset(x, y) == (y * r.width + x) * 4,
{
    lemma_offset_bound(r, x, y);
    assert(0 <= y * r.width) by (nonlinear_arith)
        requires
            0 <= y,
            0 <= r.width,
    ;
}

/// Reads the pixel `(x, y)` of the grid over `data`.
fn read_pixel(data: &Vec<u8>, width: u32, Ghost(height): Ghost<u32>, x: u32, y: u32) -> (p: Pixel)
    requires
        grid(width, height, data@).wf(),
        grid(width, height, data@).contains(x as int, y as int),
    ensures
        p == grid(width, height, data@).pixel(x as int, y as int),
{
    proof {
        lemma_offset_steps(grid(width, height, data@), x as int, y as int);
        assert(data@.len() == data.len());
    }
    let row: usize = y as usize * width as usize;
    let o: usize = (row + x as usize) * 4;
    Pixel { r: data[o], g: data[o + 1], b: data[o + 2], a: data[o + 3] }
}

/// Writes the pixel `(x, y)` of the grid over `data`.
fn write_pixel(
    data: &mut Vec<u8>,
    width: u32,
    Ghost(height): Ghost<u32>,
    x: u32,
    y: u32,
    p: Pixel,
)
    requires
        grid(width, height, old(data)@).wf(),
        grid(width, height, old(data)@).contains(x as int, y as int),
    ensures
        grid(width, height, final(data)@) == grid(width, height, old(data)@).with_pixel(
            x as int,
            y as int,
            p,
        ),
        grid(width, height, final(data)@).wf(),
{
    proof {
        lemma_offset_steps(grid(width, height, data@), x as int, y as int);
        lemma_with_pixel(grid(width, height, data@), x as int, y as int, p);
        assert(data@.len() == data.len());
    }
    let row: usize = y as usize * width as usize;
    let o: usize = (row + x as usize) * 4;
    data.set(o, p.r);
    data.set(o + 1, p.g);
    data.set(o + 2, p.b);
    data.set(o + 3, p.a);
}

impl PixelBuffer {
    #[verifier::type_invariant]
    spec fn inv(&self) -> bool {
        self@.wf()
    }

    /// The transparent grid of the given size, which takes `len` bytes.
    fn zeroed(width: u32, height: u32, len: usize) -> (b: PixelBuffer)
        requires
            len == width * height * 4,
        ensures
            b@ == Raster::transparent(width as nat, height as nat),
            b@.is_transparent(),
    {
        let data: Vec<u8> = vec![0u8; len];
        let b = PixelBuffer { width, height, data };
        proof {
            assert(b@.data =~= Raster::transparent(width as nat, height as nat).data);
            lemma_tabulate(width as nat, height as nat, |x: int, y: int| Pixel::transparent());
        }
        b
    }

    /// A transparent grid of the given size, or `None` where its bytes
    /// would not fit the address space.
    pub fn new(width: u32, height: u32) -> (r: Option<PixelBuffer>)
        ensures
            r matches Some(b) ==> b@ == Raster::transparent(width as nat, height as nat)
                && b@.is_transparent(),
            r is None <==> width * height * 4 > usize::MAX,
    {
        match byte_len(width, height) {
            None => None,
            Some(len) => Some(PixelBuffer::zeroed(width, height, len)),
        }
    }

    /// A transparent grid of the given size, which is no larger than this one.
    pub fn blank(&self, width: u32, height: u32) -> (b: PixelBuffer)
        requires
            width <= self@.width,
            height <= self@.height,
        ensures
            b@ == Raster::transparent(width as nat, height as nat),
            b@.is_transparent(),
    {
        proof {
            use_type_invariant(self);
            assert(self.data@.len() == self.data.len());
            assert(0 <= width * height <= self.width * self.height) by (nonlinear_arith)
                requires
                    0 <= width <= self.width,
                    0 <= height <= self.height,
            ;
        }
        let pixels: usize = width as usize * height as usize;
        PixelBuffer::zeroed(width, height, pixels * 4)
    }

    /// The grid of the given size over `data`, or `None` (with nothing kept)
    /// where `data` is not exactly four bytes per pixel.
    pub fn from_raw(width: u32, height: u32, data: Vec<u8>) -> (r: Option<PixelBuffer>)
        ensures
            r matches Some(b) ==> b@ == (Raster {
                width: width as nat,
                height: height as nat,
                data: data@,
            }),
            r is Some <==> data@.len() == width * height * 4,
    {
        match byte_len(width, height) {
            None => {
                assert(data@.len() == data.len());
                None
            },
            Some(n) => {
                if data.len() == n {
                    Some(PixelBuffer { width, height, data })
                } else {
                    None
                }
            },
        }
    }

    /// Number of pixels in a row.
    pub fn width(&self) -> (w: u32)
        ensures
            w == self@.width,
            self@.storable(),
    {
        proof {
            use_type_invariant(self);
            assert(self.data@.len() == self.data.len());
        }
        self.width
    }

    /// Number of rows.
    pub fn height(&self) -> (h: u32)
        ensures
            h == self@.height,
            self@.storable(),
    {
        proof {
            use_type_invariant(self);
            assert(self.data@.len() == self.data.len());
        }
        self.height
    }

    /// The bytes of the grid, row by row.
    pub fn as_raw(&self) -> (bytes: &Vec<u8>)
        ensures
            bytes@ == self@.data,
            self@.storable(),
    {
        proof {
            use_type_invariant(self);
            assert(self.data@.len() == self.data.len());
        }
        &self.data
    }

    /// Gives up the grid for its bytes.
    pub fn into_raw(self) -> (bytes: Vec<u8>)
        ensures
            bytes@ == self@.data,
            self@.storable(),
    {
        proof {
            use_type_invariant(&self);
            assert(self.data@.len() == self.data.len());
        }
        self.data
    }

    /// The pixel in column `x` of row `y`.
    pub fn get_pixel(&self, x: u32, y: u32) -> (p: Pixel)
        requires
            self@.contains(x as int, y as int),
        ensures
            p == self@.pixel(x as int, y as int),
            self@.wf(),
    {
        proof {
            use_type_invariant(self);
        }
        read_pixel(&self.data, self.width, Ghost(self.height), x, y)
    }

    /// Replaces the pixel in column `x` of row `y` by `p`.
    pub fn put_pixel(&mut self, x: u32, y: u32, p: Pixel)
        requires
            old(self)@.contains(x as int, y as int),
        ensures
            final(self)@ == old(self)@.with_pixel(x as int, y as int, p),
            final(self)@.wf(),
            final(self)@.pixel(x as int, y as int) == p,
            forall|x2: int, y2: int|
                old(self)@.contains(x2, y2) && (x2 != x || y2 != y)
                    ==> #[trigger] final(self)@.pixel(x2, y2) == old(self)@.pixel(x2, y2),
    {
        proof {
            use_type_invariant(&*self);
            lemma_with_pixel(self@, x as int, y as int, p);
        }
        let mut taken = PixelBuffer { width: 0, height: 0, data: Vec::new() };
        core::mem::swap(self, &mut taken);
        let PixelBuffer { width, height, mut data } = taken;
        write_pixel(&mut data, width, Ghost(height), x, y, p);
        *self = PixelBuffer { width, height, data };
    }

    /// Copies a block of `src` into this grid: the `width` × `height` pixels
    /// of `src` from `(src_x, src_y)` on replace those from `(dst_x, dst_y)` on.
    pub fn copy_block(
        &mut self,
        src: &PixelBuffer,
        src_x: u32,
        src_y: u32,
        dst_x: u32,
        dst_y: u32,
        width: u32,
        height: u32,
    )
        requires
            src_x + width <= src@.width,
            src_y + height <= src@.height,
            dst_x + width <= old(self)@.width,
            dst_y + height <= old(self)@.height,
        ensures
            final(self)@ == old(self)@.with_block(
                src@,
                src_x as int,
                src_y as int,
                dst_x as int,
                dst_y as int,
                width as int,
                height as int,
            ),
            final(self)@.is_block_copy(
                old(self)@,
                src@,
                src_x as int,
                src_y as int,
                dst_x as int,
                dst_y as int,
                width as int,
                height as int,
            ),
    {
        proof {
            use_type_invariant(&*self);
            use_type_invariant(src);
        }
        let mut taken = PixelBuffer { width: 0, height: 0, data: Vec::new() };
        core::mem::swap(self, &mut taken);
        let PixelBuffer { width: dw, height: dh, mut data } = taken;
        let ghost before = grid(dw, dh, data@);
        let mut cy: u32 = 0;
        while cy < height
            invariant
                cy <= height,
                src@.wf(),
                before.wf(),
                before.width == dw,
                before.height == dh,
                src_x + width <= src@.width,
                src_y + height <= src@.height,
                dst_x + width <= dw,
                dst_y + height <= dh,
                grid(dw, dh, data@).wf(),
                forall|x: int, y: int|
                    before.contains(x, y) ==> #[trigger] grid(dw, dh, data@).pixel(x, y) == (
                    if Raster::in_block(x, y, dst_x as int, dst_y as int, width as int, cy as int) {
                        src@.pixel(x - dst_x + src_x, y - dst_y + src_y)
                    } else {
                        before.pixel(x, y)
                    }),
            decreases height - cy,
        {
            let mut cx: u32 = 0;
            while cx < width
                invariant
                    cx <= width,
                    cy < height,
                    src@.wf(),
                    before.wf(),
                    before.width == dw,
                    before.height == dh,
                    src_x + width <= src@.width,
                    src_y + height <= src@.height,
                    dst_x + width <= dw,
                    dst_y + height <= dh,
                    grid(dw, dh, data@).wf(),
                    forall|x: int, y: int|
                        before.contains(x, y) ==> #[trigger] grid(dw, dh, data@).pixel(x, y) == (
                        if Raster::in_block(
                            x,
                            y,
                            dst_x as int,
                            dst_y as int,
                            width as int,
                            cy as int,
                        ) || (y == dst_y + cy && dst_x <= x < dst_x + cx) {
                            src@.pixel(x - dst_x + src_x, y - dst_y + src_y)
                        } else {
                            before.pixel(x, y)
                        }),
                decreases width - cx,
            {
                let p = read_pixel(&src.data, src.width, Ghost(src.height), src_x + cx, src_y + cy);
                proof {
                    lemma_with_pixel(
                        grid(dw, dh, data@),
                        (dst_x + cx) as int,
                        (dst_y + cy) as int,
                        p,
                    );
                }
                write_pixel(&mut data, dw, Ghost(dh), dst_x + cx, dst_y + cy, p);
                cx += 1;
            }
            cy += 1;
        }
        *self = PixelBuffer { width: dw, height: dh, data };
        proof {
            let f = |x: int, y: int|
                if Raster::in_block(
                    x,
                    y,
                    dst_x as int,
                    dst_y as int,
                    width as int,
                    height as int,
                ) {
                    src@.pixel(x - dst_x + src_x, y - dst_y + src_y)
                } else {
                    before.pixel(x, y)
                };
            lemma_tabulate(before.width, before.height, f);
            lemma_raster_ext(self@, Raster::tabulate(before.width, before.height, f));
        }
    }
}

/// Copies `height` rows of `src`, starting at row `src_y`, to the rows of
/// `dst` starting at row `dest_y`. Of each row the leftmost `width` pixels
/// are copied.
pub fn copy_strip(
    src: &PixelBuffer,
    dst: &mut PixelBuffer,
    src_y: u32,
    dest_y: u32,
    height: u32,
    width: u32,
)
    requires
        width <= src@.width,
        width <= old(dst)@.width,
        src_y + height <= src@.height,
        dest_y + height <= old(dst)@.height,
    ensures
        final(dst)@ == old(dst)@.with_block(
            src@,
            0,
            src_y as int,
            0,
            dest_y as int,
            width as int,
            height as int,
        ),
        final(dst)@.is_block_copy(
            old(dst)@,
            src@,
            0,
            src_y as int,
            0,
            dest_y as int,
            width as int,
            height as int,
        ),
{
    dst.copy_block(src, 0, src_y, 0, dest_y, width, height);
}

} // verus!
