//! Pillarbox and letterbox geometry for the video engine's scaler.
use vstd::prelude::*;

verus! {

/// The padded input surface the panel image is centred in, so that scaling to
/// the negotiated size keeps proportions instead of stretching. When no
/// padding is needed these are the panel's own dimensions.
#[derive(Clone, Copy, Debug, PartialEq, Eq, Structural)]
pub struct Pillarbox {
    /// Padded input surface, in pixels.
    pub pad_w: u32,
    pub pad_h: u32,
    /// Where the panel image sits in it.
    pub pad_x: u32,
    pub pad_y: u32,
    /// True when the black bars actually exist.
    pub padded: bool,
}

/// The multiple of 16 nearest to `v`, halves rounded up.
pub open spec fn nearest16(v: int) -> int {
    (v + 8) / 16 * 16
}

/// The smallest multiple of 16 that is no less than `v`.
pub open spec fn up16(v: int) -> int {
    (v + 15) / 16 * 16
}

/// The length that `along` has to grow to for the ratio `num` to `den` against
/// `across`, as a 32-bit number.
pub open spec fn wanted(across: int, num: int, den: int) -> int {
    across * num / den % 0x1_0000_0000
}

/// The grown side: as close to the wanted length as alignment allows, and
/// never below the panel's own.
pub open spec fn grown(side: int, across: int, num: int, den: int) -> int {
    let near = nearest16(wanted(across, num, den));
    if near < side {
        up16(side)
    } else {
        near
    }
}

/// Growing `side` stays within 32 bits.
pub open spec fn growth_fits(side: int, across: int, num: int, den: int) -> bool {
    &&& wanted(across, num, den) + 8 <= u32::MAX
    &&& nearest16(wanted(across, num, den)) < side ==> side + 15 <= u32::MAX
}

/// How the shape of the destination compares with the panel's.
#[derive(Clone, Copy, Debug, PartialEq, Eq, Structural)]
pub enum Fit {
    /// No destination size, or the same shape.
    Same,
    /// The destination is wider: bars left and right.
    Wider,
    /// The destination is taller: bars above and below.
    Taller,
}

pub open spec fn fit(src_w: int, src_h: int, dst_w: int, dst_h: int) -> Fit {
    if dst_w == 0 || dst_h == 0 || dst_w * src_h == dst_h * src_w {
        Fit::Same
    } else if dst_w * src_h > dst_h * src_w {
        Fit::Wider
    } else {
        Fit::Taller
    }
}

/// The surface that shows a `src_w` by `src_h` panel whole at the shape of
/// `dst_w` by `dst_h`.
pub open spec fn pillarbox(src_w: int, src_h: int, dst_w: int, dst_h: int) -> Pillarbox {
    match fit(src_w, src_h, dst_w, dst_h) {
        Fit::Same => Pillarbox {
            pad_w: src_w as u32,
            pad_h: src_h as u32,
            pad_x: 0,
            pad_y: 0,
            padded: false,
        },
        Fit::Wider => {
            let pad_w = grown(src_w, src_h, dst_w, dst_h);
            Pillarbox {
                pad_w: pad_w as u32,
                pad_h: src_h as u32,
                pad_x: ((pad_w - src_w) / 2) as u32,
                pad_y: 0,
                padded: pad_w > src_w,
            }
        },
        Fit::Taller => {
            let pad_h = grown(src_h, src_w, dst_h, dst_w);
            Pillarbox {
                pad_w: src_w as u32,
                pad_h: pad_h as u32,
                pad_x: 0,
                pad_y: ((pad_h - src_h) / 2) as u32,
                padded: pad_h > src_h,
            }
        },
    }
}

/// Clearing the low four bits rounds down to a multiple of 16.
fn align_down(v: u32) -> (r: u32)
    ensures
        r == v as int / 16 * 16,
{
    let r: u32 = v & !15u32;
    assert(r == v / 16 * 16) by (bit_vector)
        requires
            r == v & !15u32,
    ;
    r
}

fn grow(side: u32, across: u32, num: u32, den: u32) -> (r: u32)
    requires
        den > 0,
        growth_fits(side as int, across as int, num as int, den as int),
    ensures
        r == grown(side as int, across as int, num as int, den as int),
        r >= side,
{
    assert(across * num <= 0xffff_ffff * 0xffff_ffff) by (nonlinear_arith)
        requires
            0 <= across <= 0xffff_ffff,
            0 <= num <= 0xffff_ffff,
    ;
    assert(0 <= across * num) by (nonlinear_arith)
        requires
            0 <= across,
            0 <= num,
    ;
    let full: u64 = (across as u64) * (num as u64) / (den as u64);
    let want: u32 = #[verifier::truncate]
    (full as u32);
    assert(want == full % 0x1_0000_0000) by (bit_vector)
        requires
            want == full as u32,
    ;
    let near: u32 = align_down(want + 8);
    if near < side {
        align_down(side + 15)
    } else {
        near
    }
}

impl Pillarbox {
    /// The video engine stretches input geometry to destination geometry with
    /// no regard for aspect ratio, and the stream has to be exactly the size
    /// the client negotiated, so the padding happens on the input side: grow
    /// the input surface to the destination's shape, centre the panel image in
    /// it, and leave the remainder black. 720x480 into 1280x720 gives 848x480
    /// with 64 pixel bars either side.
    ///
    /// Rounding is to the nearest multiple of 16, not the next one: the
    /// alignment error becomes aspect distortion, and rounding to nearest
    /// halves it.
    ///
    /// A `dst_w` or `dst_h` of 0 means "no scaling": the source dimensions are
    /// returned unpadded.
    pub fn for_target(src_w: u32, src_h: u32, dst_w: u32, dst_h: u32) -> (p: Self)
        requires
            target_fits(src_w as int, src_h as int, dst_w as int, dst_h as int),
        ensures
            p == pillarbox(src_w as int, src_h as int, dst_w as int, dst_h as int),
    {
        let mut p: Pillarbox = Pillarbox {
            pad_w: src_w,
            pad_h: src_h,
            pad_x: 0,
            pad_y: 0,
            padded: false,
        };
        assert(dst_w * src_h <= 0xffff_ffff * 0xffff_ffff && 0 <= dst_w * src_h)
            by (nonlinear_arith)
            requires
                0 <= dst_w <= 0xffff_ffff,
                0 <= src_h <= 0xffff_ffff,
        ;
        assert(dst_h * src_w <= 0xffff_ffff * 0xffff_ffff && 0 <= dst_h * src_w)
            by (nonlinear_arith)
            requires
                0 <= dst_h <= 0xffff_ffff,
                0 <= src_w <= 0xffff_ffff,
        ;
        let wide: u64 = (dst_w as u64) * (src_h as u64);
        let tall: u64 = (dst_h as u64) * (src_w as u64);
        if dst_w == 0 || dst_h == 0 || wide == tall {
            return p;
        }
        if wide > tall {
            p.pad_w = grow(src_w, src_h, dst_w, dst_h);
        } else {
            p.pad_h = grow(src_h, src_w, dst_h, dst_w);
        }
        p.pad_x = (p.pad_w - src_w) / 2;
        p.pad_y = (p.pad_h - src_h) / 2;
        p.padded = p.pad_w > src_w || p.pad_h > src_h;
        p
    }
}

/// `for_target` accepts these dimensions.
pub open spec fn target_fits(src_w: int, src_h: int, dst_w: int, dst_h: int) -> bool {
    match fit(src_w, src_h, dst_w, dst_h) {
        Fit::Same => true,
        Fit::Wider => growth_fits(src_w, src_h, dst_w, dst_h),
        Fit::Taller => growth_fits(src_h, src_w, dst_h, dst_w),
    }
}

/// Whether growing `side` stays within 32 bits.
fn can_grow(side: u32, across: u32, num: u32, den: u32) -> (r: bool)
    requires
        den > 0,
    ensures
        r == growth_fits(side as int, across as int, num as int, den as int),
{
    assert(0 <= across * num <= 0xffff_ffff * 0xffff_ffff) by (nonlinear_arith)
        requires
            0 <= across <= 0xffff_ffff,
            0 <= num <= 0xffff_ffff,
    ;
    let want: u64 = (across as u64) * (num as u64) / (den as u64) % 0x1_0000_0000;
    if want + 8 > 0xffff_ffff {
        return false;
    }
    let near: u32 = align_down((want + 8) as u32);
    near >= side || side <= 0xffff_fff0
}

impl Pillarbox {
    /// Whether `for_target` accepts these dimensions.
    pub fn fits(src_w: u32, src_h: u32, dst_w: u32, dst_h: u32) -> (r: bool)
        ensures
            r == target_fits(src_w as int, src_h as int, dst_w as int, dst_h as int),
    {
        assert(0 <= dst_w * src_h <= 0xffff_ffff * 0xffff_ffff) by (nonlinear_arith)
            requires
                0 <= dst_w <= 0xffff_ffff,
                0 <= src_h <= 0xffff_ffff,
        ;
        assert(0 <= dst_h * src_w <= 0xffff_ffff * 0xffff_ffff) by (nonlinear_arith)
            requires
                0 <= dst_h <= 0xffff_ffff,
                0 <= src_w <= 0xffff_ffff,
        ;
        let wide: u64 = (dst_w as u64) * (src_h as u64);
        let tall: u64 = (dst_h as u64) * (src_w as u64);
        if dst_w == 0 || dst_h == 0 || wide == tall {
            true
        } else if wide > tall {
            can_grow(src_w, src_h, dst_w, dst_h)
        } else {
            can_grow(src_h, src_w, dst_h, dst_w)
        }
    }
}

/// The whole panel is always visible: the surface only ever grows, and the
/// panel lies inside it.
pub proof fn law_never_crops(src_w: u32, src_h: u32, dst_w: u32, dst_h: u32)
    requires
        target_fits(src_w as int, src_h as int, dst_w as int, dst_h as int),
    ensures
        ({
            let p = pillarbox(src_w as int, src_h as int, dst_w as int, dst_h as int);
            &&& p.pad_w >= src_w
            &&& p.pad_h >= src_h
            &&& p.pad_x + src_w <= p.pad_w
            &&& p.pad_y + src_h <= p.pad_h
        }),
{
}

/// The panel is centred: the bars on the two sides differ by at most a pixel.
pub proof fn law_centred(src_w: u32, src_h: u32, dst_w: u32, dst_h: u32)
    requires
        target_fits(src_w as int, src_h as int, dst_w as int, dst_h as int),
    ensures
        ({
            let p = pillarbox(src_w as int, src_h as int, dst_w as int, dst_h as int);
            &&& 0 <= p.pad_w - src_w - 2 * p.pad_x <= 1
            &&& 0 <= p.pad_h - src_h - 2 * p.pad_y <= 1
        }),
{
}

proof fn lemma_rounded_is_aligned(v: int)
    ensures
        nearest16(v) % 16 == 0,
        up16(v) % 16 == 0,
{
}

proof fn lemma_grown_is_aligned(side: int, across: int, num: int, den: int)
    ensures
        grown(side, across, num, den) % 16 == 0,
{
    lemma_rounded_is_aligned(wanted(across, num, den));
    lemma_rounded_is_aligned(side);
}

proof fn lemma_grown_fits(side: int, across: int, num: int, den: int)
    requires
        0 <= side <= u32::MAX,
        growth_fits(side, across, num, den),
    ensures
        side <= grown(side, across, num, den) <= u32::MAX,
{
}

/// A panel with 16-aligned dimensions gives a surface with 16-aligned
/// dimensions, whatever the destination.
pub proof fn law_aligned(src_w: u32, src_h: u32, dst_w: u32, dst_h: u32)
    requires
        target_fits(src_w as int, src_h as int, dst_w as int, dst_h as int),
        src_w % 16 == 0,
        src_h % 16 == 0,
    ensures
        ({
            let p = pillarbox(src_w as int, src_h as int, dst_w as int, dst_h as int);
            p.pad_w % 16 == 0 && p.pad_h % 16 == 0
        }),
{
    let (sw, sh, dw, dh) = (src_w as int, src_h as int, dst_w as int, dst_h as int);
    match fit(sw, sh, dw, dh) {
        Fit::Same => {},
        Fit::Wider => {
            lemma_grown_is_aligned(sw, sh, dw, dh);
            lemma_grown_fits(sw, sh, dw, dh);
        },
        Fit::Taller => {
            lemma_grown_is_aligned(sh, sw, dh, dw);
            lemma_grown_fits(sh, sw, dh, dw);
        },
    }
}

/// Bars are said to exist exactly where the surface is larger than the panel,
/// and that is only so for a destination that has a size and another shape. A
/// shape that differs by less than alignment can follow needs none.
pub proof fn law_bars_only_for_another_shape(src_w: u32, src_h: u32, dst_w: u32, dst_h: u32)
    requires
        target_fits(src_w as int, src_h as int, dst_w as int, dst_h as int),
    ensures
        ({
            let p = pillarbox(src_w as int, src_h as int, dst_w as int, dst_h as int);
            &&& p.padded == (p.pad_w > src_w || p.pad_h > src_h)
            &&& p.padded ==> dst_w != 0 && dst_h != 0 && dst_w * src_h != dst_h * src_w
            &&& !p.padded ==> p.pad_w == src_w && p.pad_h == src_h && p.pad_x == 0 && p.pad_y == 0
        }),
{
}

/// The grown side misses the exact one by at most eight pixels, unless
/// rounding would have cropped the panel.
pub proof fn law_rounds_to_nearest(side: u32, across: u32, num: u32, den: u32)
    requires
        den > 0,
        growth_fits(side as int, across as int, num as int, den as int),
        nearest16(wanted(across as int, num as int, den as int)) >= side,
    ensures
        ({
            let want = wanted(across as int, num as int, den as int);
            let r = grown(side as int, across as int, num as int, den as int);
            -8 <= r - want <= 8 && r % 16 == 0
        }),
{
}

/// What the grown side measures, in its own terms: a multiple of 16 that
/// misses the exact length by at most eight, or the next one up from a panel
/// that the nearest one would have cropped.
proof fn lemma_grown_measures(side: int, across: int, num: int, den: int)
    requires
        0 <= side,
        0 <= across,
        0 <= num,
        0 < den,
        across * num < den * 0x1_0000_0000,
        side * den < across * num,
        growth_fits(side, across, num, den),
    ensures
        ({
            let r = grown(side, across, num, den);
            &&& r % 16 == 0
            &&& r >= side
            &&& {
                ||| across * num - 8 * den < r * den <= across * num + 8 * den
                ||| r - 16 < side && across * num < (side + 8) * den && side % 16 != 0
            }
        }),
{
    let exact = across * num;
    let want = exact / den;
    vstd::arithmetic::div_mod::lemma_fundamental_div_mod(exact, den);
    vstd::arithmetic::div_mod::lemma_mod_bound(exact, den);
    assert(den * want <= exact < den * want + den);
    assert(0 <= want < 0x1_0000_0000) by (nonlinear_arith)
        requires
            den * want <= exact < den * want + den,
            0 <= exact < den * 0x1_0000_0000,
            0 < den,
    ;
    assert(want >= side) by (nonlinear_arith)
        requires
            exact < den * want + den,
            side * den < exact,
            0 < den,
    ;
    assert(wanted(across, num, den) == want);
    lemma_grown_is_aligned(side, across, num, den);
    let near = nearest16(want);
    assert(want - 8 < near <= want + 8);
    if near >= side {
        assert(near * den <= exact + 8 * den) by (nonlinear_arith)
            requires
                near <= want + 8,
                den * want <= exact,
                0 < den,
        ;
        assert(exact - 8 * den < near * den) by (nonlinear_arith)
            requires
                want - 8 < near,
                exact < den * want + den,
                0 < den,
        ;
    } else {
        assert(want + 1 <= side + 8);
        assert(exact < (side + 8) * den) by (nonlinear_arith)
            requires
                exact < den * want + den,
                want + 1 <= side + 8,
                0 < den,
        ;
    }
}

/// The surface has the destination's shape up to alignment. For a wider
/// destination its height is the panel's, and its width is the multiple of 16
/// nearest to the width that has exactly that shape; only where that one would
/// crop a panel of unaligned width is it the next one up. For a taller
/// destination the same holds with the sides exchanged. Stated in the
/// dimensions themselves, for sides that fit 32 bits.
pub proof fn law_the_surface_has_the_destinations_shape(
    src_w: u32,
    src_h: u32,
    dst_w: u32,
    dst_h: u32,
)
    requires
        target_fits(src_w as int, src_h as int, dst_w as int, dst_h as int),
        dst_w > 0,
        dst_h > 0,
        src_h * dst_w < dst_h * 0x1_0000_0000,
        src_w * dst_h < dst_w * 0x1_0000_0000,
    ensures
        ({
            let p = pillarbox(src_w as int, src_h as int, dst_w as int, dst_h as int);
            let (wide, tall) = (src_h * dst_w, src_w * dst_h);
            &&& wide == tall ==> p.pad_w == src_w && p.pad_h == src_h
            &&& wide > tall ==> {
                &&& p.pad_h == src_h
                &&& p.pad_w % 16 == 0
                &&& p.pad_w >= src_w
                &&& {
                    ||| wide - 8 * dst_h < p.pad_w * dst_h <= wide + 8 * dst_h
                    ||| p.pad_w - 16 < src_w && wide < (src_w + 8) * dst_h && src_w % 16 != 0
                }
            }
            &&& wide < tall ==> {
                &&& p.pad_w == src_w
                &&& p.pad_h % 16 == 0
                &&& p.pad_h >= src_h
                &&& {
                    ||| tall - 8 * dst_w < p.pad_h * dst_w <= tall + 8 * dst_w
                    ||| p.pad_h - 16 < src_h && tall < (src_h + 8) * dst_w && src_h % 16 != 0
                }
            }
        }),
{
    let (sw, sh, dw, dh) = (src_w as int, src_h as int, dst_w as int, dst_h as int);
    assert(dw * sh == sh * dw) by (nonlinear_arith);
    assert(dh * sw == sw * dh) by (nonlinear_arith);
    match fit(sw, sh, dw, dh) {
        Fit::Same => {},
        Fit::Wider => {
            lemma_grown_measures(sw, sh, dw, dh);
            lemma_grown_fits(sw, sh, dw, dh);
        },
        Fit::Taller => {
            lemma_grown_measures(sh, sw, dh, dw);
            lemma_grown_fits(sh, sw, dh, dw);
        },
    }
}

proof fn lemma_ratios_divide_alike(a: int, n: int, d: int, m: int, e: int)
    requires
        0 <= a,
        0 < d,
        0 < e,
        n * e == m * d,
    ensures
        a * n / d == a * m / e,
{
    let q = a * n / d;
    vstd::arithmetic::div_mod::lemma_fundamental_div_mod(a * n, d);
    vstd::arithmetic::div_mod::lemma_mod_bound(a * n, d);
    assert(d * q <= a * n < d * q + d);
    assert(a * n * e == a * m * d) by (nonlinear_arith)
        requires
            n * e == m * d,
    ;
    assert(e * q <= a * m) by (nonlinear_arith)
        requires
            d * q <= a * n,
            a * n * e == a * m * d,
            0 < d,
            0 < e,
    ;
    assert(a * m < e * q + e) by (nonlinear_arith)
        requires
            a * n < d * q + d,
            a * n * e == a * m * d,
            0 < d,
            0 < e,
    ;
    let r = a * m - e * q;
    vstd::arithmetic::div_mod::lemma_fundamental_div_mod_converse(a * m, e, q, r);
}

/// Only the shape of the destination counts, not its size: two destinations of
/// the same shape give the same surface.
pub proof fn law_only_the_shape_counts(
    src_w: u32,
    src_h: u32,
    dst_w: u32,
    dst_h: u32,
    other_w: u32,
    other_h: u32,
)
    requires
        dst_w > 0,
        dst_h > 0,
        other_w > 0,
        other_h > 0,
        dst_w * other_h == other_w * dst_h,
    ensures
        pillarbox(src_w as int, src_h as int, dst_w as int, dst_h as int) == pillarbox(
            src_w as int,
            src_h as int,
            other_w as int,
            other_h as int,
        ),
        target_fits(src_w as int, src_h as int, dst_w as int, dst_h as int) == target_fits(
            src_w as int,
            src_h as int,
            other_w as int,
            other_h as int,
        ),
{
    let (sw, sh, dw, dh) = (src_w as int, src_h as int, dst_w as int, dst_h as int);
    let (ow, oh) = (other_w as int, other_h as int);
    assert(dh * ow == oh * dw) by (nonlinear_arith)
        requires
            dw * oh == ow * dh,
    ;
    lemma_ratios_divide_alike(sh, dw, dh, ow, oh);
    lemma_ratios_divide_alike(sw, dh, dw, oh, ow);
    assert(dw * sh > dh * sw <==> ow * sh > oh * sw) by (nonlinear_arith)
        requires
            dw * oh == ow * dh,
            0 < dw,
            0 < dh,
            0 < ow,
            0 < oh,
            0 <= sw,
            0 <= sh,
    ;
    assert(dw * sh < dh * sw <==> ow * sh < oh * sw) by (nonlinear_arith)
        requires
            dw * oh == ow * dh,
            0 < dw,
            0 < dh,
            0 < ow,
            0 < oh,
            0 <= sw,
            0 <= sh,
    ;
}

/// Turning panel and destination on their sides turns the surface on its side.
pub proof fn law_the_two_sides_are_treated_alike(
    src_w: u32,
    src_h: u32,
    dst_w: u32,
    dst_h: u32,
)
    requires
        target_fits(src_w as int, src_h as int, dst_w as int, dst_h as int),
    ensures
        ({
            let p = pillarbox(src_w as int, src_h as int, dst_w as int, dst_h as int);
            let q = pillarbox(src_h as int, src_w as int, dst_h as int, dst_w as int);
            &&& q.pad_w == p.pad_h && q.pad_h == p.pad_w
            &&& q.pad_x == p.pad_y && q.pad_y == p.pad_x
            &&& q.padded == p.padded
        }),
{
}

/// Sides of ordinary length are all accepted: up to 16384 pixels each.
pub proof fn law_ordinary_sides_are_accepted(src_w: u32, src_h: u32, dst_w: u32, dst_h: u32)
    requires
        src_w <= 16_384,
        src_h <= 16_384,
        dst_w <= 16_384,
        dst_h <= 16_384,
    ensures
        target_fits(src_w as int, src_h as int, dst_w as int, dst_h as int),
{
    if dst_w > 0 && dst_h > 0 {
        lemma_ordinary_growth(src_w as int, src_h as int, dst_w as int, dst_h as int);
        lemma_ordinary_growth(src_h as int, src_w as int, dst_h as int, dst_w as int);
    }
}

proof fn lemma_ordinary_growth(side: int, across: int, num: int, den: int)
    requires
        0 <= side <= 16_384,
        0 <= across <= 16_384,
        0 < num <= 16_384,
        0 < den <= 16_384,
    ensures
        growth_fits(side, across, num, den),
{
    let q = across * num / den;
    assert(0 <= across * num <= 16_384 * 16_384) by (nonlinear_arith)
        requires
            0 <= across <= 16_384,
            0 < num <= 16_384,
    ;
    assert(0 <= q <= across * num) by (nonlinear_arith)
        requires
            q == across * num / den,
            0 <= across * num,
            0 < den,
    ;
}

} // verus!
