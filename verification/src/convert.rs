//! CPU colour conversion: RGB pictures into NV12 surfaces.
//!
//! The video engine can take the framebuffer's own pixel format and convert in
//! hardware; this is the reference path for comparing output, and the one used
//! when the encoder is asked for semi-planar YUV input.
use vstd::prelude::*;

verus! {

/// `v` held to the range of a byte.
pub open spec fn clamped(v: int) -> u8 {
    if v < 0 {
        0u8
    } else if v > 255 {
        255u8
    } else {
        v as u8
    }
}

/// BT.601 limited-range luma.
pub open spec fn luma(r: int, g: int, b: int) -> u8 {
    clamped((66 * r + 129 * g + 25 * b + 128) / 256 + 16)
}

/// BT.601 limited-range blue difference.
pub open spec fn chroma_u(r: int, g: int, b: int) -> u8 {
    clamped((-38 * r - 74 * g + 112 * b + 128) / 256 + 128)
}

/// BT.601 limited-range red difference.
pub open spec fn chroma_v(r: int, g: int, b: int) -> u8 {
    clamped((112 * r - 94 * g - 18 * b + 128) / 256 + 128)
}

pub open spec fn fits_i32(v: int) -> bool {
    i32::MIN <= v <= i32::MAX
}

/// Hold a value to the range of a byte.
pub fn clamp8(v: i32) -> (r: u8)
    ensures
        r == clamped(v as int),
{
    if v < 0 {
        0
    } else if v > 255 {
        255
    } else {
        v as u8
    }
}

/// An arithmetic shift right by eight is a division by 256, rounded down.
fn shift8(v: i32) -> (r: i32)
    ensures
        r == (v as int) / 256,
        -0x80_0000 <= r < 0x80_0000,
{
    let r: i32 = v >> 8;
    assert(r * 256 <= v && v < r * 256 + 256 && -0x80_0000 <= r && r < 0x80_0000) by (bit_vector)
        requires
            r == v >> 8i32,
    ;
    r
}

/// BT.601 limited range, matching what the video engine expects for NV12
/// input.
pub fn rgb_y(r: i32, g: i32, b: i32) -> (y: u8)
    requires
        fits_i32(66 * r),
        fits_i32(129 * g),
        fits_i32(66 * r + 129 * g),
        fits_i32(25 * b),
        fits_i32(66 * r + 129 * g + 25 * b),
        fits_i32(66 * r + 129 * g + 25 * b + 128),
    ensures
        y == luma(r as int, g as int, b as int),
{
    clamp8(shift8(66 * r + 129 * g + 25 * b + 128) + 16)
}

/// The blue-difference sample that goes with `rgb_y`.
pub fn rgb_u(r: i32, g: i32, b: i32) -> (u: u8)
    requires
        fits_i32(-38 * r),
        fits_i32(74 * g),
        fits_i32(-38 * r - 74 * g),
        fits_i32(112 * b),
        fits_i32(-38 * r - 74 * g + 112 * b),
        fits_i32(-38 * r - 74 * g + 112 * b + 128),
    ensures
        u == chroma_u(r as int, g as int, b as int),
{
    clamp8(shift8(-38 * r - 74 * g + 112 * b + 128) + 128)
}

/// The red-difference sample that goes with `rgb_y`.
pub fn rgb_v(r: i32, g: i32, b: i32) -> (v: u8)
    requires
        fits_i32(112 * r),
        fits_i32(94 * g),
        fits_i32(112 * r - 94 * g),
        fits_i32(18 * b),
        fits_i32(112 * r - 94 * g - 18 * b),
        fits_i32(112 * r - 94 * g - 18 * b + 128),
    ensures
        v == chroma_v(r as int, g as int, b as int),
{
    clamp8(shift8(112 * r - 94 * g - 18 * b + 128) + 128)
}

/// One pixel, each channel in `0..=255`.
#[derive(Clone, Copy, Debug, PartialEq, Eq, Structural)]
pub struct Rgb {
    pub r: i32,
    pub g: i32,
    pub b: i32,
}

impl Rgb {
    pub open spec fn in_range(self) -> bool {
        0 <= self.r <= 255 && 0 <= self.g <= 255 && 0 <= self.b <= 255
    }
}

/// A picture in memory, read pixel by pixel.
pub trait Picture {
    /// The bytes of the pixel in column `x` of row `y` are there.
    spec fn readable(&self, x: int, y: int) -> bool;

    /// The colour of the pixel in column `x` of row `y`.
    spec fn colour(&self, x: int, y: int) -> Rgb;

    fn pixel(&self, x: usize, y: usize) -> (c: Rgb)
        requires
            self.readable(x as int, y as int),
        ensures
            c == self.colour(x as int, y as int),
            c.in_range(),
    ;
}

/// A 32 bits per pixel framebuffer: blue, green, red, unused.
pub struct Bgra<'a> {
    pub src: &'a [u8],
    pub pitch: usize,
}

impl<'a> Picture for Bgra<'a> {
    open spec fn readable(&self, x: int, y: int) -> bool {
        0 <= x && 0 <= y && y * self.pitch + x * 4 + 2 < self.src@.len()
    }

    open spec fn colour(&self, x: int, y: int) -> Rgb {
        let at = y * self.pitch + x * 4;
        Rgb {
            r: self.src@[at + 2] as i32,
            g: self.src@[at + 1] as i32,
            b: self.src@[at] as i32,
        }
    }

    fn pixel(&self, x: usize, y: usize) -> (c: Rgb) {
        assert(0 <= y * self.pitch) by (nonlinear_arith);
        assert(self.src.len() == self.src@.len());
        let at: usize = y * self.pitch + x * 4;
        Rgb { r: self.src[at + 2] as i32, g: self.src[at + 1] as i32, b: self.src[at] as i32 }
    }
}

/// Which of the two bytes of a 16-bit pixel comes first.
#[derive(Clone, Copy, Debug, PartialEq, Eq, Structural)]
pub enum ByteOrder {
    Little,
    Big,
}

/// The 16-bit number in two bytes that follow each other in memory.
pub open spec fn u16_of(order: ByteOrder, first: u8, second: u8) -> u16 {
    match order {
        ByteOrder::Little => (first + second * 256) as u16,
        ByteOrder::Big => (first * 256 + second) as u16,
    }
}

/// Red of a 5-6-5 pixel, widened by a shift to eight bits.
pub open spec fn red565(p: u16) -> int {
    (p / 2048) % 32 * 8
}

/// Green of a 5-6-5 pixel, widened by a shift to eight bits.
pub open spec fn green565(p: u16) -> int {
    (p / 32) % 64 * 4
}

/// Blue of a 5-6-5 pixel, widened by a shift to eight bits.
pub open spec fn blue565(p: u16) -> int {
    p % 32 * 8
}

fn r565(p: u16) -> (v: i32)
    ensures
        v == red565(p),
        0 <= v <= 248,
{
    let v: u16 = ((p >> 11) & 0x1f) << 3;
    assert(v == (p / 2048) % 32 * 8 && v <= 248) by (bit_vector)
        requires
            v == ((p >> 11u16) & 0x1f) << 3u16,
    ;
    v as i32
}

fn g565(p: u16) -> (v: i32)
    ensures
        v == green565(p),
        0 <= v <= 252,
{
    let v: u16 = ((p >> 5) & 0x3f) << 2;
    assert(v == (p / 32) % 64 * 4 && v <= 252) by (bit_vector)
        requires
            v == ((p >> 5u16) & 0x3f) << 2u16,
    ;
    v as i32
}

fn b565(p: u16) -> (v: i32)
    ensures
        v == blue565(p),
        0 <= v <= 248,
{
    let v: u16 = (p & 0x1f) << 3;
    assert(v == p % 32 * 8 && v <= 248) by (bit_vector)
        requires
            v == (p & 0x1f) << 3u16,
    ;
    v as i32
}

/// A 16 bits per pixel framebuffer with five, six and five bits per channel.
pub struct Rgb565<'a> {
    pub src: &'a [u8],
    pub pitch: usize,
    pub order: ByteOrder,
}

impl<'a> Picture for Rgb565<'a> {
    open spec fn readable(&self, x: int, y: int) -> bool {
        0 <= x && 0 <= y && y * self.pitch + x * 2 + 1 < self.src@.len()
    }

    open spec fn colour(&self, x: int, y: int) -> Rgb {
        let at = y * self.pitch + x * 2;
        let p = u16_of(self.order, self.src@[at], self.src@[at + 1]);
        Rgb { r: red565(p) as i32, g: green565(p) as i32, b: blue565(p) as i32 }
    }

    fn pixel(&self, x: usize, y: usize) -> (c: Rgb) {
        assert(0 <= y * self.pitch) by (nonlinear_arith);
        assert(self.src.len() == self.src@.len());
        let at: usize = y * self.pitch + x * 2;
        let p: u16 = match self.order {
            ByteOrder::Little => self.src[at] as u16 + self.src[at + 1] as u16 * 256,
            ByteOrder::Big => self.src[at] as u16 * 256 + self.src[at + 1] as u16,
        };
        Rgb { r: r565(p), g: g565(p), b: b565(p) }
    }
}

/// The byte in column `x` of row `y` of a plane whose rows are `w` bytes.
pub open spec fn cell(plane: Seq<u8>, w: int, x: int, y: int) -> u8 {
    plane[y * w + x]
}

/// The mean of the 2x2 block whose top-left pixel is at `x`, `y`. At the right
/// and bottom edge the last column and row stand in for the missing ones.
pub open spec fn block_mean<P: Picture>(p: P, w: int, h: int, x: int, y: int) -> (int, int, int) {
    let x1 = if x + 1 < w {
        x + 1
    } else {
        x
    };
    let y1 = if y + 1 < h {
        y + 1
    } else {
        y
    };
    let (a, b, c, d) = (p.colour(x, y), p.colour(x1, y), p.colour(x, y1), p.colour(x1, y1));
    (
        (a.r + b.r + c.r + d.r) / 4,
        (a.g + b.g + c.g + d.g) / 4,
        (a.b + b.b + c.b + d.b) / 4,
    )
}

/// The luma sample of the pixel at `x`, `y`.
pub open spec fn luma_at<P: Picture>(p: P, x: int, y: int) -> u8 {
    let c = p.colour(x, y);
    luma(c.r as int, c.g as int, c.b as int)
}

/// The byte in column `x` of chroma row `j`: even columns hold U and odd ones
/// V of the same block.
pub open spec fn chroma_at<P: Picture>(p: P, w: int, h: int, x: int, j: int) -> u8 {
    let (r, g, b) = block_mean(p, w, h, x - x % 2, 2 * j);
    if x % 2 == 0 {
        chroma_u(r, g, b)
    } else {
        chroma_v(r, g, b)
    }
}

/// Chroma rows of a picture of height `h`: one for each two pixel rows.
pub open spec fn chroma_rows(h: int) -> int {
    (h + 1) / 2
}

/// Bytes that converting writes to the chroma plane. A row of odd width is one
/// byte longer than the plane's row, and the next row starts over that byte.
pub open spec fn chroma_len(w: int, h: int) -> int {
    if w == 0 || h == 0 {
        0
    } else {
        chroma_rows(h) * w + w % 2
    }
}

/// `dy` and `duv` hold the NV12 form of `p`, and nothing outside the picture
/// differs from `dy0` and `duv0`.
pub open spec fn is_nv12_of<P: Picture>(
    p: P,
    w: int,
    h: int,
    dy0: Seq<u8>,
    duv0: Seq<u8>,
    dy: Seq<u8>,
    duv: Seq<u8>,
) -> bool {
    &&& dy.len() == dy0.len()
    &&& duv.len() == duv0.len()
    &&& forall|x: int, y: int|
        0 <= x < w && 0 <= y < h ==> #[trigger] cell(dy, w, x, y) == luma_at(p, x, y)
    &&& forall|i: int| w * h <= i < dy.len() ==> #[trigger] dy[i] == dy0[i]
    &&& forall|x: int, j: int|
        0 <= x < w && 0 <= j < chroma_rows(h) ==> #[trigger] cell(duv, w, x, j) == chroma_at(
            p,
            w,
            h,
            x,
            j,
        )
    &&& w > 0 && h > 0 && w % 2 == 1 ==> duv[chroma_rows(h) * w] == chroma_at(
        p,
        w,
        h,
        w,
        chroma_rows(h) - 1,
    )
    &&& forall|i: int| chroma_len(w, h) <= i < duv.len() ==> #[trigger] duv[i] == duv0[i]
}

/// Distinct cells stand at distinct places, row by row.
pub proof fn lemma_cell_order(w: int, x: int, y: int, x0: int, y0: int)
    requires
        0 <= x < w,
        0 <= x0 < w,
    ensures
        y < y0 ==> y * w + x < y0 * w,
        y0 < y ==> y0 * w + x0 < y * w,
        (y * w + x == y0 * w + x0) ==> (x == x0 && y == y0),
{
    assert(y < y0 ==> y * w + w <= y0 * w) by (nonlinear_arith)
        requires
            0 < w,
    ;
    assert(y0 < y ==> y0 * w + w <= y * w) by (nonlinear_arith)
        requires
            0 < w,
    ;
    assert(y == y0 ==> y * w == y0 * w);
}

/// A cell inside the plane stands inside its bytes.
pub proof fn lemma_cell_bound(w: int, h: int, x: int, y: int)
    requires
        0 <= x < w,
        0 <= y < h,
    ensures
        0 <= y * w,
        y * w + x < h * w,
        y * w + w <= h * w,
        h * w == w * h,
{
    assert(y * w + w <= h * w) by (nonlinear_arith)
        requires
            0 <= y < h,
            0 < w,
    ;
    assert(0 <= y * w) by (nonlinear_arith)
        requires
            0 <= y,
            0 < w,
    ;
    assert(h * w == w * h) by (nonlinear_arith);
}

/// Write the luma plane.
fn write_luma<P: Picture>(p: &P, w: usize, h: usize, dy: &mut [u8])
    requires
        forall|x: int, y: int| 0 <= x < w && 0 <= y < h ==> #[trigger] p.readable(x, y),
        w * h <= old(dy)@.len(),
    ensures
        final(dy)@.len() == old(dy)@.len(),
        forall|x: int, y: int|
            0 <= x < w && 0 <= y < h ==> #[trigger] cell(final(dy)@, w as int, x, y) == luma_at(
                *p,
                x,
                y,
            ),
        forall|i: int| w * h <= i < final(dy)@.len() ==> #[trigger] final(dy)@[i] == old(dy)@[i],
{
    if w == 0 {
        return;
    }
    let mut y: usize = 0;
    while y < h
        invariant
            0 < w,
            y <= h,
            w * h <= dy@.len(),
            dy@.len() == old(dy)@.len(),
            forall|x: int, y: int| 0 <= x < w && 0 <= y < h ==> #[trigger] p.readable(x, y),
            forall|xx: int, yy: int|
                0 <= xx < w && 0 <= yy < y ==> #[trigger] cell(dy@, w as int, xx, yy) == luma_at(
                    *p,
                    xx,
                    yy,
                ),
            forall|i: int| w * h <= i < dy@.len() ==> #[trigger] dy@[i] == old(dy)@[i],
        decreases h - y,
    {
        let mut x: usize = 0;
        while x < w
            invariant
                0 < w,
                x <= w,
                y < h,
                w * h <= dy@.len(),
                dy@.len() == old(dy)@.len(),
                forall|x: int, y: int| 0 <= x < w && 0 <= y < h ==> #[trigger] p.readable(x, y),
                forall|xx: int, yy: int|
                    0 <= xx < w && 0 <= yy && (yy < y || yy == y && xx < x) ==> #[trigger] cell(
                        dy@,
                        w as int,
                        xx,
                        yy,
                    ) == luma_at(*p, xx, yy),
                forall|i: int| w * h <= i < dy@.len() ==> #[trigger] dy@[i] == old(dy)@[i],
            decreases w - x,
        {
            let ghost before = dy@;
            proof {
                lemma_cell_bound(w as int, h as int, x as int, y as int);
                assert(dy.len() == dy@.len());
                assert(p.readable(x as int, y as int));
            }
            let c: Rgb = p.pixel(x, y);
            dy[y * w + x] = rgb_y(c.r, c.g, c.b);
            assert forall|xx: int, yy: int|
                0 <= xx < w && 0 <= yy && (yy < y || yy == y && xx < x + 1) implies #[trigger] cell(
                dy@,
                w as int,
                xx,
                yy,
            ) == luma_at(*p, xx, yy) by {
                lemma_cell_order(w as int, xx, yy, x as int, y as int);
                lemma_cell_bound(w as int, h as int, xx, yy);
                if xx != x || yy != y {
                    assert(cell(before, w as int, xx, yy) == luma_at(*p, xx, yy));
                }
            }
            x = x + 1;
        }
        y = y + 1;
    }
}

/// The mean colour of a 2x2 block.
fn mean_of_block<P: Picture>(p: &P, w: usize, h: usize, x: usize, y: usize) -> (c: Rgb)
    requires
        forall|x: int, y: int| 0 <= x < w && 0 <= y < h ==> #[trigger] p.readable(x, y),
        x < w,
        y < h,
    ensures
        (c.r as int, c.g as int, c.b as int) == block_mean(*p, w as int, h as int, x as int, y as int),
        c.in_range(),
{
    let x1: usize = if w - x > 1 {
        x + 1
    } else {
        x
    };
    let y1: usize = if h - y > 1 {
        y + 1
    } else {
        y
    };
    assert(p.readable(x as int, y as int) && p.readable(x1 as int, y as int) && p.readable(
        x as int,
        y1 as int,
    ) && p.readable(x1 as int, y1 as int));
    let (a, b): (Rgb, Rgb) = (p.pixel(x, y), p.pixel(x1, y));
    let (c, d): (Rgb, Rgb) = (p.pixel(x, y1), p.pixel(x1, y1));
    Rgb {
        r: (a.r + b.r + c.r + d.r) / 4,
        g: (a.g + b.g + c.g + d.g) / 4,
        b: (a.b + b.b + c.b + d.b) / 4,
    }
}

/// What the chroma plane holds when the rows before `j` and the columns before
/// `x` of row `j` are written.
spec fn chroma_progress<P: Picture>(
    p: P,
    w: int,
    h: int,
    duv0: Seq<u8>,
    duv: Seq<u8>,
    x: int,
    j: int,
) -> bool {
    &&& duv.len() == duv0.len()
    &&& forall|xx: int, jj: int|
        0 <= xx < w && 0 <= jj && (jj < j || jj == j && xx < x) ==> #[trigger] cell(
            duv,
            w,
            xx,
            jj,
        ) == chroma_at(p, w, h, xx, jj)
    &&& w % 2 == 1 && x == 0 && j > 0 ==> duv[j * w] == chroma_at(p, w, h, w, j - 1)
    &&& w % 2 == 1 && x > w ==> duv[j * w + w] == chroma_at(p, w, h, w, j)
    &&& forall|i: int|
        (j * w + x <= i < duv.len() && (x == 0 && j > 0 ==> j * w + w % 2 <= i))
            ==> #[trigger] duv[i] == duv0[i]
}

proof fn lemma_chroma_step<P: Picture>(
    p: P,
    w: int,
    h: int,
    duv0: Seq<u8>,
    duv: Seq<u8>,
    x: int,
    j: int,
)
    requires
        0 <= x < w,
        x % 2 == 0,
        0 <= j,
        j * w + x + 1 < duv.len(),
        chroma_progress(p, w, h, duv0, duv, x, j),
    ensures
        chroma_progress(
            p,
            w,
            h,
            duv0,
            duv.update(j * w + x, chroma_at(p, w, h, x, j)).update(
                j * w + x + 1,
                chroma_at(p, w, h, x + 1, j),
            ),
            x + 2,
            j,
        ),
{
    let next = duv.update(j * w + x, chroma_at(p, w, h, x, j)).update(
        j * w + x + 1,
        chroma_at(p, w, h, x + 1, j),
    );
    assert(0 <= j * w) by (nonlinear_arith)
        requires
            0 <= j,
            0 < w,
    ;
    assert forall|xx: int, jj: int|
        0 <= xx < w && 0 <= jj && (jj < j || jj == j && xx < x + 2) implies #[trigger] cell(
        next,
        w,
        xx,
        jj,
    ) == chroma_at(p, w, h, xx, jj) by {
        lemma_cell_order(w, xx, jj, x, j);
        assert(0 <= jj * w) by (nonlinear_arith)
            requires
                0 <= jj,
                0 < w,
        ;
        if jj < j || xx < x {
            assert(cell(duv, w, xx, jj) == chroma_at(p, w, h, xx, jj));
        }
    }
}

/// Write the interleaved chroma plane.
fn write_chroma<P: Picture>(p: &P, w: usize, h: usize, duv: &mut [u8])
    requires
        forall|x: int, y: int| 0 <= x < w && 0 <= y < h ==> #[trigger] p.readable(x, y),
        chroma_len(w as int, h as int) <= old(duv)@.len(),
    ensures
        final(duv)@.len() == old(duv)@.len(),
        forall|x: int, j: int|
            0 <= x < w && 0 <= j < chroma_rows(h as int) ==> #[trigger] cell(
                final(duv)@,
                w as int,
                x,
                j,
            ) == chroma_at(*p, w as int, h as int, x, j),
        w > 0 && h > 0 && w % 2 == 1 ==> final(duv)@[chroma_rows(h as int) * w] == chroma_at(
            *p,
            w as int,
            h as int,
            w as int,
            chroma_rows(h as int) - 1,
        ),
        forall|i: int|
            chroma_len(w as int, h as int) <= i < final(duv)@.len() ==> #[trigger] final(duv)@[i]
                == old(duv)@[i],
{
    if w == 0 || h == 0 {
        return;
    }
    let rows: usize = h / 2 + h % 2;
    let mut j: usize = 0;
    while j < rows
        invariant
            0 < w,
            0 < h,
            j <= rows,
            rows == chroma_rows(h as int),
            rows * w + w % 2 <= duv@.len(),
            forall|x: int, y: int| 0 <= x < w && 0 <= y < h ==> #[trigger] p.readable(x, y),
            chroma_progress(*p, w as int, h as int, old(duv)@, duv@, 0, j as int),
        decreases rows - j,
    {
        let y: usize = 2 * j;
        let mut x: usize = 0;
        proof {
            lemma_cell_bound(w as int, rows as int, 0, j as int);
            assert(duv.len() == duv@.len());
        }
        let row: usize = j * w;
        while x < w
            invariant
                0 < w,
                0 < h,
                j < rows,
                y == 2 * j,
                y < h,
                row == j * w,
                x <= w + w % 2,
                x % 2 == 0,
                rows == chroma_rows(h as int),
                rows * w + w % 2 <= duv@.len(),
                row + w <= rows * w,
                forall|x: int, y: int| 0 <= x < w && 0 <= y < h ==> #[trigger] p.readable(x, y),
                chroma_progress(*p, w as int, h as int, old(duv)@, duv@, x as int, j as int),
            decreases w + 1 - x,
        {
            let c: Rgb = mean_of_block(p, w, h, x, y);
            proof {
                lemma_chroma_step(
                    *p,
                    w as int,
                    h as int,
                    old(duv)@,
                    duv@,
                    x as int,
                    j as int,
                );
                assert(duv.len() == duv@.len());
            }
            duv[row + x] = rgb_u(c.r, c.g, c.b);
            duv[row + x + 1] = rgb_v(c.r, c.g, c.b);
            x = x + 2;
        }
        assert((j + 1) * w == j * w + w) by (nonlinear_arith);
        assert forall|xx: int, jj: int| 0 <= xx < w && 0 <= jj && jj < j + 1 implies #[trigger] cell(
            duv@,
            w as int,
            xx,
            jj,
        ) == chroma_at(*p, w as int, h as int, xx, jj) by {}
        j = j + 1;
    }
}

fn write_nv12<P: Picture>(p: &P, w: usize, h: usize, dy: &mut [u8], duv: &mut [u8])
    requires
        forall|x: int, y: int| 0 <= x < w && 0 <= y < h ==> #[trigger] p.readable(x, y),
        w * h <= old(dy)@.len(),
        chroma_len(w as int, h as int) <= old(duv)@.len(),
    ensures
        is_nv12_of(
            *p,
            w as int,
            h as int,
            old(dy)@,
            old(duv)@,
            final(dy)@,
            final(duv)@,
        ),
{
    write_luma(p, w, h, dy);
    write_chroma(p, w, h, duv);
}

/// The rows of a `w` by `h` picture with `size` bytes per pixel, `pitch` bytes
/// apart, end within `len` bytes.
pub open spec fn rows_fit(len: int, pitch: int, w: int, h: int, size: int) -> bool {
    w > 0 && h > 0 ==> (h - 1) * pitch + w * size <= len
}

proof fn lemma_rows_fit(len: int, pitch: int, w: int, h: int, size: int, x: int, y: int)
    requires
        rows_fit(len, pitch, w, h, size),
        0 <= pitch,
        0 < size,
        0 <= x < w,
        0 <= y < h,
    ensures
        y * pitch + x * size + size <= len,
{
    assert(y * pitch <= (h - 1) * pitch) by (nonlinear_arith)
        requires
            0 <= y <= h - 1,
            0 <= pitch,
    ;
    assert(x * size + size <= w * size) by (nonlinear_arith)
        requires
            0 <= x <= w - 1,
            0 < size,
    ;
}

/// Convert a 32 bits per pixel picture. Chroma is subsampled by averaging each
/// 2x2 block, which is visibly cleaner than point-sampling on dithered
/// gradients.
pub fn bgra_to_nv12(
    src: &[u8],
    pitch: usize,
    w: usize,
    h: usize,
    dy: &mut [u8],
    duv: &mut [u8],
)
    requires
        rows_fit(src@.len() as int + 1, pitch as int, w as int, h as int, 4),
        w * h <= old(dy)@.len(),
        chroma_len(w as int, h as int) <= old(duv)@.len(),
    ensures
        is_nv12_of(
            (Bgra { src, pitch }),
            w as int,
            h as int,
            old(dy)@,
            old(duv)@,
            final(dy)@,
            final(duv)@,
        ),
{
    let p: Bgra = Bgra { src, pitch };
    assert forall|x: int, y: int| 0 <= x < w && 0 <= y < h implies #[trigger] p.readable(x, y) by {
        lemma_rows_fit(src@.len() as int + 1, pitch as int, w as int, h as int, 4, x, y);
    }
    write_nv12(&p, w, h, dy, duv);
}

/// As `bgra_to_nv12`, for a 16 bits per pixel picture whose pixels are stored
/// in the given byte order.
pub fn rgb565_in_order_to_nv12(
    order: ByteOrder,
    src: &[u8],
    pitch: usize,
    w: usize,
    h: usize,
    dy: &mut [u8],
    duv: &mut [u8],
)
    requires
        rows_fit(src@.len() as int, pitch as int, w as int, h as int, 2),
        w * h <= old(dy)@.len(),
        chroma_len(w as int, h as int) <= old(duv)@.len(),
    ensures
        is_nv12_of(
            (Rgb565 { src, pitch, order }),
            w as int,
            h as int,
            old(dy)@,
            old(duv)@,
            final(dy)@,
            final(duv)@,
        ),
{
    let p: Rgb565 = Rgb565 { src, pitch, order };
    assert forall|x: int, y: int| 0 <= x < w && 0 <= y < h implies #[trigger] p.readable(x, y) by {
        lemma_rows_fit(src@.len() as int, pitch as int, w as int, h as int, 2, x, y);
    }
    write_nv12(&p, w, h, dy, duv);
}

/// Calls `u16::from_ne_bytes`. The machine's byte order decides which of the
/// two numbers comes back; both readings of the same two bytes are possible.
#[verifier::external_body]
fn native_u16(first: u8, second: u8) -> (r: u16)
    ensures
        r == u16_of(ByteOrder::Little, first, second) || r == u16_of(
            ByteOrder::Big,
            first,
            second,
        ),
{
    u16::from_ne_bytes([first, second])
}

/// As `bgra_to_nv12`, for a 16 bits per pixel picture in the byte order in
/// which a machine reads the bytes 1 and 0 as the number `probe`.
pub fn rgb565_probed_to_nv12(
    probe: u16,
    src: &[u8],
    pitch: usize,
    w: usize,
    h: usize,
    dy: &mut [u8],
    duv: &mut [u8],
)
    requires
        probe == u16_of(ByteOrder::Little, 1, 0) || probe == u16_of(ByteOrder::Big, 1, 0),
        rows_fit(src@.len() as int, pitch as int, w as int, h as int, 2),
        w * h <= old(dy)@.len(),
        chroma_len(w as int, h as int) <= old(duv)@.len(),
    ensures
        forall|order: ByteOrder|
            probe == u16_of(order, 1, 0) ==> is_nv12_of(
                #[trigger] rgb565_picture(src, pitch, order),
                w as int,
                h as int,
                old(dy)@,
                old(duv)@,
                final(dy)@,
                final(duv)@,
            ),
{
    let order: ByteOrder = if probe == 1 {
        ByteOrder::Little
    } else {
        ByteOrder::Big
    };
    rgb565_in_order_to_nv12(order, src, pitch, w, h, dy, duv);
}

/// As `bgra_to_nv12`, for a 16 bits per pixel framebuffer. Its pixels are in
/// the machine's own byte order.
pub fn rgb565_to_nv12(
    src: &[u8],
    pitch: usize,
    w: usize,
    h: usize,
    dy: &mut [u8],
    duv: &mut [u8],
)
    requires
        rows_fit(src@.len() as int, pitch as int, w as int, h as int, 2),
        w * h <= old(dy)@.len(),
        chroma_len(w as int, h as int) <= old(duv)@.len(),
    ensures
        exists|order: ByteOrder|
            is_nv12_of(
                #[trigger] rgb565_picture(src, pitch, order),
                w as int,
                h as int,
                old(dy)@,
                old(duv)@,
                final(dy)@,
                final(duv)@,
            ),
{
    let probe: u16 = native_u16(1, 0);
    rgb565_probed_to_nv12(probe, src, pitch, w, h, dy, duv);
    proof {
        let order = if probe == u16_of(ByteOrder::Little, 1, 0) {
            ByteOrder::Little
        } else {
            ByteOrder::Big
        };
        assert(is_nv12_of(
            rgb565_picture(src, pitch, order),
            w as int,
            h as int,
            old(dy)@,
            old(duv)@,
            dy@,
            duv@,
        ));
    }
}

/// The 16 bits per pixel picture in `src`, read in the given byte order.
pub open spec fn rgb565_picture<'a>(src: &'a [u8], pitch: usize, order: ByteOrder) -> Rgb565<'a> {
    Rgb565 { src, pitch, order }
}

/// A grey of any brightness has neutral chroma.
pub proof fn law_grey_is_neutral(v: int)
    ensures
        chroma_u(v, v, v) == 128,
        chroma_v(v, v, v) == 128,
{
}

/// Byte-range colours land in the limited range: luma in 16 to 235, chroma in
/// 16 to 240, with black and white at luma's ends.
pub proof fn law_limited_range(r: int, g: int, b: int)
    requires
        0 <= r <= 255,
        0 <= g <= 255,
        0 <= b <= 255,
    ensures
        16 <= luma(r, g, b) <= 235,
        16 <= chroma_u(r, g, b) <= 240,
        16 <= chroma_v(r, g, b) <= 240,
        luma(0, 0, 0) == 16,
        luma(255, 255, 255) == 235,
{
}

/// Brightening a channel never darkens the pixel.
pub proof fn law_luma_is_monotone(r: int, g: int, b: int, r1: int, g1: int, b1: int)
    requires
        r <= r1,
        g <= g1,
        b <= b1,
    ensures
        luma(r, g, b) <= luma(r1, g1, b1),
{
}

/// A picture of one colour has one luma value and, in every block, the chroma
/// of that colour: averaging loses nothing.
pub proof fn law_a_flat_picture_stays_flat<P: Picture>(p: P, w: int, h: int, c: Rgb, x: int, y: int)
    requires
        forall|x: int, y: int| 0 <= x < w && 0 <= y < h ==> #[trigger] p.colour(x, y) == c,
        0 <= x < w,
        0 <= y < h,
    ensures
        luma_at(p, x, y) == luma(c.r as int, c.g as int, c.b as int),
        chroma_at(p, w, h, x, y / 2) == if x % 2 == 0 {
            chroma_u(c.r as int, c.g as int, c.b as int)
        } else {
            chroma_v(c.r as int, c.g as int, c.b as int)
        },
{
    let (bx, by) = (x - x % 2, 2 * (y / 2));
    assert(block_mean(p, w, h, bx, by) == (c.r as int, c.g as int, c.b as int));
}

/// Luma in numbers: a sample times 256, beyond the 16 that stands for black, is
/// the weighted sum of the channels to the nearest multiple, for every colour
/// of byte-sized channels. No such colour needs holding to the range.
pub proof fn law_luma_weighs_the_channels(r: int, g: int, b: int)
    requires
        0 <= r <= 255,
        0 <= g <= 255,
        0 <= b <= 255,
    ensures
        ({
            let miss = 66 * r + 129 * g + 25 * b - 256 * (luma(r, g, b) - 16);
            -128 <= miss < 128
        }),
{
}

/// Chroma in numbers: blue against the rest in U and red against the rest in V,
/// each beyond the neutral 128, to the nearest multiple of 256.
pub proof fn law_chroma_weighs_the_channels(r: int, g: int, b: int)
    requires
        0 <= r <= 255,
        0 <= g <= 255,
        0 <= b <= 255,
    ensures
        ({
            let miss_u = 112 * b - 38 * r - 74 * g - 256 * (chroma_u(r, g, b) - 128);
            let miss_v = 112 * r - 94 * g - 18 * b - 256 * (chroma_v(r, g, b) - 128);
            -128 <= miss_u < 128 && -128 <= miss_v < 128
        }),
{
}

/// Whatever the weights, a colour that is held to a byte is the nearest there
/// is: what lies within is kept, and what lies outside goes to the near end.
pub proof fn law_clamping_goes_to_the_nearest_byte(v: int, c: int)
    requires
        0 <= c <= 255,
    ensures
        0 <= v <= 255 ==> clamped(v) == v,
        v <= c ==> clamped(v) <= c,
        v >= c ==> clamped(v) >= c,
{
}

/// The colour that a block's chroma is taken from is the mean of its four
/// pixels, channel by channel: four times it falls short of their sum by at
/// most three.
pub proof fn law_a_block_has_the_mean_colour<P: Picture>(
    p: P,
    w: int,
    h: int,
    x: int,
    y: int,
    x1: int,
    y1: int,
)
    requires
        0 <= x < w,
        0 <= y < h,
        x1 == if x == w - 1 {
            x
        } else {
            x + 1
        },
        y1 == if y == h - 1 {
            y
        } else {
            y + 1
        },
    ensures
        ({
            let (a, b, c, d) = (
                p.colour(x, y),
                p.colour(x1, y),
                p.colour(x, y1),
                p.colour(x1, y1),
            );
            let (mr, mg, mb) = block_mean(p, w, h, x, y);
            &&& 4 * mr <= a.r + b.r + c.r + d.r < 4 * mr + 4
            &&& 4 * mg <= a.g + b.g + c.g + d.g < 4 * mg + 4
            &&& 4 * mb <= a.b + b.b + c.b + d.b < 4 * mb + 4
        }),
{
}

/// The converted picture, seen through its planes: over each 2x2 block the
/// chroma samples are the weighted sums for the colour `mr`, `mg`, `mb` that is
/// the mean of the block's pixels. Where a side is odd, the last column or row
/// counts twice. A block's V sample is looked for only where no later row of
/// an odd width has been written over it.
pub proof fn law_chroma_is_that_of_the_mean_colour<P: Picture>(
    p: P,
    w: int,
    h: int,
    dy0: Seq<u8>,
    duv0: Seq<u8>,
    dy: Seq<u8>,
    duv: Seq<u8>,
    i: int,
    j: int,
    x1: int,
    y1: int,
    mr: int,
    mg: int,
    mb: int,
)
    requires
        is_nv12_of(p, w, h, dy0, duv0, dy, duv),
        0 <= 2 * i < w,
        0 <= 2 * j < h,
        x1 == if 2 * i == w - 1 {
            2 * i
        } else {
            2 * i + 1
        },
        y1 == if 2 * j == h - 1 {
            2 * j
        } else {
            2 * j + 1
        },
        p.colour(2 * i, 2 * j).in_range(),
        p.colour(x1, 2 * j).in_range(),
        p.colour(2 * i, y1).in_range(),
        p.colour(x1, y1).in_range(),
        ({
            let (a, b, c, d) = (
                p.colour(2 * i, 2 * j),
                p.colour(x1, 2 * j),
                p.colour(2 * i, y1),
                p.colour(x1, y1),
            );
            &&& 4 * mr <= a.r + b.r + c.r + d.r < 4 * mr + 4
            &&& 4 * mg <= a.g + b.g + c.g + d.g < 4 * mg + 4
            &&& 4 * mb <= a.b + b.b + c.b + d.b < 4 * mb + 4
        }),
    ensures
        ({
            let u = duv[j * w + 2 * i];
            -128 <= 112 * mb - 38 * mr - 74 * mg - 256 * (u - 128) < 128
        }),
        2 * i < w - 1 || 2 * j >= h - 2 ==> ({
            let v = duv[j * w + 2 * i + 1];
            -128 <= 112 * mr - 94 * mg - 18 * mb - 256 * (v - 128) < 128
        }),
{
    lemma_chroma_of_mean(p, w, h, i, j, x1, y1, mr, mg, mb);
    assert(cell(duv, w, 2 * i, j) == chroma_at(p, w, h, 2 * i, j));
    if 2 * i < w - 1 {
        assert(cell(duv, w, 2 * i + 1, j) == chroma_at(p, w, h, 2 * i + 1, j));
    } else if 2 * j >= h - 2 {
        assert(j == chroma_rows(h) - 1);
        assert(w == 2 * i + 1);
        assert((j + 1) * w == j * w + w) by (nonlinear_arith);
        assert(duv[chroma_rows(h) * w] == chroma_at(p, w, h, w, j));
    }
}

/// The two samples of a block, from its mean colour.
proof fn lemma_chroma_of_mean<P: Picture>(
    p: P,
    w: int,
    h: int,
    i: int,
    j: int,
    x1: int,
    y1: int,
    mr: int,
    mg: int,
    mb: int,
)
    requires
        0 <= 2 * i < w,
        0 <= 2 * j < h,
        x1 == if 2 * i == w - 1 {
            2 * i
        } else {
            2 * i + 1
        },
        y1 == if 2 * j == h - 1 {
            2 * j
        } else {
            2 * j + 1
        },
        p.colour(2 * i, 2 * j).in_range(),
        p.colour(x1, 2 * j).in_range(),
        p.colour(2 * i, y1).in_range(),
        p.colour(x1, y1).in_range(),
        ({
            let (a, b, c, d) = (
                p.colour(2 * i, 2 * j),
                p.colour(x1, 2 * j),
                p.colour(2 * i, y1),
                p.colour(x1, y1),
            );
            &&& 4 * mr <= a.r + b.r + c.r + d.r < 4 * mr + 4
            &&& 4 * mg <= a.g + b.g + c.g + d.g < 4 * mg + 4
            &&& 4 * mb <= a.b + b.b + c.b + d.b < 4 * mb + 4
        }),
    ensures
        chroma_rows(h) > j,
        ({
            let u = chroma_at(p, w, h, 2 * i, j);
            let v = chroma_at(p, w, h, 2 * i + 1, j);
            &&& -128 <= 112 * mb - 38 * mr - 74 * mg - 256 * (u - 128) < 128
            &&& -128 <= 112 * mr - 94 * mg - 18 * mb - 256 * (v - 128) < 128
        }),
{
    law_a_block_has_the_mean_colour(p, w, h, 2 * i, 2 * j, x1, y1);
    let m = block_mean(p, w, h, 2 * i, 2 * j);
    assert(m == (mr, mg, mb));
    assert(chroma_at(p, w, h, 2 * i, j) == chroma_u(mr, mg, mb)) by {
        assert((2 * i) % 2 == 0);
    }
    assert(chroma_at(p, w, h, 2 * i + 1, j) == chroma_v(mr, mg, mb)) by {
        assert((2 * i + 1) % 2 == 1);
    }
    law_chroma_weighs_the_channels(mr, mg, mb);
}

/// The chroma of a block does not depend on where in it a pixel stands: two
/// pictures whose blocks add up to the same in each channel, as they do with the
/// same four pixels in any order, have the same chroma there.
pub proof fn law_chroma_ignores_the_order_in_a_block<P: Picture, Q: Picture>(
    p: P,
    q: Q,
    w: int,
    h: int,
    x: int,
    j: int,
)
    requires
        0 <= x < w - 1,
        x % 2 == 0,
        0 <= 2 * j < h - 1,
        ({
            let (a, b, c, d) = (
                p.colour(x, 2 * j),
                p.colour(x + 1, 2 * j),
                p.colour(x, 2 * j + 1),
                p.colour(x + 1, 2 * j + 1),
            );
            let (e, f, g, k) = (
                q.colour(x, 2 * j),
                q.colour(x + 1, 2 * j),
                q.colour(x, 2 * j + 1),
                q.colour(x + 1, 2 * j + 1),
            );
            &&& a.r + b.r + c.r + d.r == e.r + f.r + g.r + k.r
            &&& a.g + b.g + c.g + d.g == e.g + f.g + g.g + k.g
            &&& a.b + b.b + c.b + d.b == e.b + f.b + g.b + k.b
        }),
    ensures
        chroma_at(p, w, h, x, j) == chroma_at(q, w, h, x, j),
        chroma_at(p, w, h, x + 1, j) == chroma_at(q, w, h, x + 1, j),
{
    law_a_block_has_the_mean_colour(p, w, h, x, 2 * j, x + 1, 2 * j + 1);
    law_a_block_has_the_mean_colour(q, w, h, x, 2 * j, x + 1, 2 * j + 1);
    let m = block_mean(p, w, h, x, 2 * j);
    let n = block_mean(q, w, h, x, 2 * j);
    assert(m.0 == n.0 && m.1 == n.1 && m.2 == n.2);
    assert((x + 1) - (x + 1) % 2 == x);
}

/// Luma of a 32 bits per pixel picture, byte by byte: pixel `x` of row `y` is
/// weighed from its own three bytes, blue first, and lands at `x` of row `y`.
pub proof fn law_bgra_luma_comes_from_its_own_pixel(
    src: &[u8],
    pitch: usize,
    w: int,
    h: int,
    dy0: Seq<u8>,
    duv0: Seq<u8>,
    dy: Seq<u8>,
    duv: Seq<u8>,
    x: int,
    y: int,
)
    requires
        is_nv12_of((Bgra { src, pitch }), w, h, dy0, duv0, dy, duv),
        0 <= x < w,
        0 <= y < h,
    ensures
        ({
            let at = y * pitch + 4 * x;
            let (b, g, r) = (src@[at], src@[at + 1], src@[at + 2]);
            -128 <= 66 * r + 129 * g + 25 * b - 256 * (dy[y * w + x] - 16) < 128
        }),
{
    let p = Bgra { src, pitch };
    let c = p.colour(x, y);
    law_luma_weighs_the_channels(c.r as int, c.g as int, c.b as int);
    assert(cell(dy, w, x, y) == luma_at(p, x, y));
}

/// A pixel of three channels, of five, six and five bits: putting them together
/// and taking them apart again gives back each channel. Red stands highest and
/// blue lowest.
pub proof fn law_565_channels_come_apart_again(r: int, g: int, b: int)
    requires
        0 <= r < 32,
        0 <= g < 64,
        0 <= b < 32,
    ensures
        red565((r * 2048 + g * 32 + b) as u16) == r * 8,
        green565((r * 2048 + g * 32 + b) as u16) == g * 4,
        blue565((r * 2048 + g * 32 + b) as u16) == b * 8,
{
    let p = (r * 2048 + g * 32 + b) as u16;
    assert(p == r * 2048 + g * 32 + b);
    assert(p as int / 2048 == r);
    assert(p as int / 32 == r * 64 + g);
    assert((r * 64 + g) % 64 == g);
    assert(p as int % 32 == b);
}

/// The two byte orders: the low byte comes first in the one and last in the
/// other, and reading the bytes the other way round swaps the orders.
pub proof fn law_byte_orders_mirror_each_other(first: u8, second: u8)
    ensures
        u16_of(ByteOrder::Little, first, second) % 256 == first,
        u16_of(ByteOrder::Little, first, second) / 256 == second,
        u16_of(ByteOrder::Big, first, second) == u16_of(ByteOrder::Little, second, first),
{
}

/// A 16 bits per pixel picture reads pixel `x` of row `y` from its own two
/// bytes.
pub proof fn law_565_pixels_come_from_their_own_bytes(
    src: &[u8],
    pitch: usize,
    order: ByteOrder,
    x: int,
    y: int,
    r: int,
    g: int,
    b: int,
)
    requires
        0 <= r < 32,
        0 <= g < 64,
        0 <= b < 32,
        ({
            let at = y * pitch + 2 * x;
            let (low, high) = match order {
                ByteOrder::Little => (src@[at], src@[at + 1]),
                ByteOrder::Big => (src@[at + 1], src@[at]),
            };
            low + 256 * high == r * 2048 + g * 32 + b
        }),
    ensures
        (Rgb565 { src, pitch, order }).colour(x, y) == (Rgb {
            r: (r * 8) as i32,
            g: (g * 4) as i32,
            b: (b * 8) as i32,
        }),
{
    law_565_channels_come_apart_again(r, g, b);
}

/// The luma plane holds one sample for each pixel, in the pixel's own place,
/// weighed from that pixel alone.
pub proof fn law_luma_comes_from_its_own_pixel<P: Picture>(
    p: P,
    w: int,
    h: int,
    dy0: Seq<u8>,
    duv0: Seq<u8>,
    dy: Seq<u8>,
    duv: Seq<u8>,
    x: int,
    y: int,
)
    requires
        is_nv12_of(p, w, h, dy0, duv0, dy, duv),
        0 <= x < w,
        0 <= y < h,
        p.colour(x, y).in_range(),
    ensures
        ({
            let c = p.colour(x, y);
            -128 <= 66 * c.r + 129 * c.g + 25 * c.b - 256 * (dy[y * w + x] - 16) < 128
        }),
{
    let c = p.colour(x, y);
    law_luma_weighs_the_channels(c.r as int, c.g as int, c.b as int);
    assert(cell(dy, w, x, y) == luma_at(p, x, y));
}

/// Converting keeps to the picture: behind its luma, and behind its chroma, of
/// which there is a row to every two of the picture's, nothing changes. An odd
/// width takes one byte more than whole rows.
pub proof fn law_converting_keeps_to_the_picture<P: Picture>(
    p: P,
    w: int,
    h: int,
    dy0: Seq<u8>,
    duv0: Seq<u8>,
    dy: Seq<u8>,
    duv: Seq<u8>,
    i: int,
    rows: int,
)
    requires
        is_nv12_of(p, w, h, dy0, duv0, dy, duv),
        w > 0,
        h > 0,
        2 * rows == h || 2 * rows == h + 1,
    ensures
        dy.len() == dy0.len(),
        duv.len() == duv0.len(),
        w * h <= i < dy0.len() ==> dy[i] == dy0[i],
        rows * w + w % 2 <= i < duv0.len() ==> duv[i] == duv0[i],
{
    assert(chroma_rows(h) == rows);
}

} // verus!
