//! Numbers of the encoder parameters. Generic ones start at 0; the
//! H.264-specific block starts at 0x100.
use vstd::prelude::*;

verus! {

pub const BITRATE: i32 = 0x0;

pub const MAX_KEY_INTERVAL: i32 = 0x2;

pub const FORCE_KEY_FRAME: i32 = 0x6;

pub const H264_SPS_PPS: i32 = 0x101;

} // verus!
