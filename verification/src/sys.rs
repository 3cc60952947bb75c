//! Constants of the console's drawing toolkit, and its scaling.
use vstd::prelude::*;

verus! {

/// Everything is laid out at half size and scaled by this.
pub const FIXED_SCALE: i32 = 2;

/// The height of a row, unscaled.
pub const PILL_SIZE: i32 = 30;

// One bit for each button.
pub const BTN_DPAD_UP: u32 = 0x01;

pub const BTN_DPAD_DOWN: u32 = 0x02;

pub const BTN_DPAD_LEFT: u32 = 0x04;

pub const BTN_DPAD_RIGHT: u32 = 0x08;

pub const BTN_A: u32 = 0x10;

pub const BTN_B: u32 = 0x20;

/// Scaling `a` stays within 32 bits.
pub open spec fn scales(a: int) -> bool {
    i32::MIN <= a * FIXED_SCALE <= i32::MAX
}

/// A length in real pixels.
pub fn scale1(a: i32) -> (r: i32)
    requires
        scales(a as int),
    ensures
        r == a * FIXED_SCALE,
{
    a * FIXED_SCALE
}

/// Two lengths in real pixels.
pub fn scale2(a: i32, b: i32) -> (r: (i32, i32))
    requires
        scales(a as int),
        scales(b as int),
    ensures
        r.0 == a * FIXED_SCALE,
        r.1 == b * FIXED_SCALE,
{
    (scale1(a), scale1(b))
}

/// Three lengths in real pixels.
pub fn scale3(a: i32, b: i32, c: i32) -> (r: (i32, i32, i32))
    requires
        scales(a as int),
        scales(b as int),
        scales(c as int),
    ensures
        r.0 == a * FIXED_SCALE,
        r.1 == b * FIXED_SCALE,
        r.2 == c * FIXED_SCALE,
{
    (scale1(a), scale1(b), scale1(c))
}

/// Four lengths in real pixels.
pub fn scale4(a: i32, b: i32, c: i32, d: i32) -> (r: (i32, i32, i32, i32))
    requires
        scales(a as int),
        scales(b as int),
        scales(c as int),
        scales(d as int),
    ensures
        r.0 == a * FIXED_SCALE,
        r.1 == b * FIXED_SCALE,
        r.2 == c * FIXED_SCALE,
        r.3 == d * FIXED_SCALE,
{
    (scale1(a), scale1(b), scale1(c), scale1(d))
}

} // verus!
