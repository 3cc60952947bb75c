//! What is said to the video engine's vendor libraries, as plain values.
//!
//! There is no header for this interface: the layouts are reverse-engineered,
//! which is why every structure carries trailing padding a real header would
//! not have. The vendor libraries write past the fields that are known; the
//! padding absorbs it. Addresses are plain numbers here, with 0 for none.
use vstd::prelude::*;

pub mod index;

verus! {

/// Input pixel formats of the video engine.
#[derive(Clone, Copy, Debug, PartialEq, Eq, Structural)]
pub enum VencPixelFmt {
    /// NV12: needs CPU conversion from the framebuffer.
    Yuv420Sp,
    /// Formats are named by 32-bit word order, not byte order. For a
    /// framebuffer whose bytes are B, G, R, A this is the right one, not
    /// `Bgra`.
    Argb,
    Rgba,
    Abgr,
    Bgra,
}

/// The number the vendor libraries know a pixel format by.
pub open spec fn pixel_fmt_code(f: VencPixelFmt) -> i32 {
    match f {
        VencPixelFmt::Yuv420Sp => 0,
        VencPixelFmt::Argb => 12,
        VencPixelFmt::Rgba => 13,
        VencPixelFmt::Abgr => 14,
        VencPixelFmt::Bgra => 15,
    }
}

impl VencPixelFmt {
    /// The number the vendor libraries know this format by.
    pub fn code(self) -> (c: i32)
        ensures
            c == pixel_fmt_code(self),
    {
        match self {
            VencPixelFmt::Yuv420Sp => 0,
            VencPixelFmt::Argb => 12,
            VencPixelFmt::Rgba => 13,
            VencPixelFmt::Abgr => 14,
            VencPixelFmt::Bgra => 15,
        }
    }

    /// Whether the engine takes the framebuffer's pixels as they are.
    pub fn is_rgb(self) -> (r: bool)
        ensures
            r == (self != VencPixelFmt::Yuv420Sp),
    {
        match self {
            VencPixelFmt::Yuv420Sp => false,
            _ => true,
        }
    }
}

impl Default for VencPixelFmt {
    fn default() -> (f: Self)
        ensures
            f == VencPixelFmt::Yuv420Sp,
    {
        VencPixelFmt::Yuv420Sp
    }
}

/// The format with the given number.
pub fn pixel_fmt(v: i32) -> (f: Option<VencPixelFmt>)
    ensures
        match f {
            Some(fmt) => pixel_fmt_code(fmt) == v,
            None => forall|fmt: VencPixelFmt| pixel_fmt_code(fmt) != v,
        },
{
    match v {
        0 => Some(VencPixelFmt::Yuv420Sp),
        12 => Some(VencPixelFmt::Argb),
        13 => Some(VencPixelFmt::Rgba),
        14 => Some(VencPixelFmt::Abgr),
        15 => Some(VencPixelFmt::Bgra),
        _ => None,
    }
}

/// No two formats share a number, so a number names at most one format.
pub proof fn law_pixel_formats_have_distinct_codes(a: VencPixelFmt, b: VencPixelFmt)
    ensures
        pixel_fmt_code(a) == pixel_fmt_code(b) ==> a == b,
{
}

/// The one codec that is used.
#[derive(Clone, Copy, Debug, PartialEq, Eq, Structural)]
pub enum VencCodecType {
    H264,
}

impl VencCodecType {
    /// The number the vendor libraries know this codec by.
    pub fn code(self) -> (c: i32)
        ensures
            c == 0,
    {
        0
    }
}

impl Default for VencCodecType {
    fn default() -> (c: Self)
        ensures
            c == VencCodecType::H264,
    {
        VencCodecType::H264
    }
}

/// How the encoder is set up.
#[derive(Clone, Copy)]
pub struct VencBaseConfig {
    pub b_enc_h264_nalu: u8,
    pub n_input_width: u32,
    pub n_input_height: u32,
    pub n_dst_width: u32,
    pub n_dst_height: u32,
    pub n_stride: u32,
    pub e_input_format: VencPixelFmt,
    pub memops: u64,
    pub ve_ops_s: u64,
    pub p_ve_ops_self: u64,
    pub b_only_wb_flag: u8,
    pub b_lbc_lossy_com_en_flag2x: u8,
    pub b_lbc_lossy_com_en_flag2_5x: u8,
    pub b_is_vbv_no_cache: u8,
    pub _tail: [u8; 128],
}

impl Default for VencBaseConfig {
    fn default() -> (c: Self)
        ensures
            c.b_enc_h264_nalu == 0,
            c.n_input_width == 0,
            c.n_input_height == 0,
            c.n_dst_width == 0,
            c.n_dst_height == 0,
            c.n_stride == 0,
            c.e_input_format == VencPixelFmt::Yuv420Sp,
            c.memops == 0,
            c.ve_ops_s == 0,
            c.p_ve_ops_self == 0,
            c.b_only_wb_flag == 0,
            c.b_lbc_lossy_com_en_flag2x == 0,
            c.b_lbc_lossy_com_en_flag2_5x == 0,
            c.b_is_vbv_no_cache == 0,
            forall|i: int| 0 <= i < 128 ==> c._tail@[i] == 0,
    {
        VencBaseConfig {
            b_enc_h264_nalu: 0,
            n_input_width: 0,
            n_input_height: 0,
            n_dst_width: 0,
            n_dst_height: 0,
            n_stride: 0,
            e_input_format: VencPixelFmt::Yuv420Sp,
            memops: 0,
            ve_ops_s: 0,
            p_ve_ops_self: 0,
            b_only_wb_flag: 0,
            b_lbc_lossy_com_en_flag2x: 0,
            b_lbc_lossy_com_en_flag2_5x: 0,
            b_is_vbv_no_cache: 0,
            _tail: [0u8;128],
        }
    }
}

/// A picture on its way to the encoder.
#[derive(Clone, Copy)]
pub struct VencInputBuffer {
    pub p_addr_vir_y: u64,
    pub p_addr_vir_c: u64,
    pub p_addr_phy_y: u64,
    /// Y physical.
    pub p_addr_phy_c: u64,
    /// UV physical.
    pub _phy_uv: u64,
    /// Y as the processor sees it: luma goes here.
    pub _vir_y: u64,
    /// UV as the processor sees it: chroma goes here.
    pub _vir_uv: u64,
    pub n_id: i32,
    pub _pad: i32,
    pub n_pts: i64,
    pub n_duration: i64,
    pub b_is_first_frame: i32,
    pub b_last_frame: i32,
    pub b_enable_corp: i32,
    pub n_share_buf_fd: u32,
    pub _tail: [u8; 256],
}

impl Default for VencInputBuffer {
    fn default() -> (b: Self)
        ensures
            b.p_addr_vir_y == 0 && b.p_addr_vir_c == 0 && b.p_addr_phy_y == 0,
            b.p_addr_phy_c == 0 && b._phy_uv == 0 && b._vir_y == 0 && b._vir_uv == 0,
            b.n_id == 0 && b._pad == 0 && b.n_pts == 0 && b.n_duration == 0,
            b.b_is_first_frame == 0 && b.b_last_frame == 0 && b.b_enable_corp == 0,
            b.n_share_buf_fd == 0,
            forall|i: int| 0 <= i < 256 ==> b._tail@[i] == 0,
    {
        VencInputBuffer {
            p_addr_vir_y: 0,
            p_addr_vir_c: 0,
            p_addr_phy_y: 0,
            p_addr_phy_c: 0,
            _phy_uv: 0,
            _vir_y: 0,
            _vir_uv: 0,
            n_id: 0,
            _pad: 0,
            n_pts: 0,
            n_duration: 0,
            b_is_first_frame: 0,
            b_last_frame: 0,
            b_enable_corp: 0,
            n_share_buf_fd: 0,
            _tail: [0u8;256],
        }
    }
}

/// A piece of bitstream on its way out of the encoder: up to two runs of a
/// ring buffer.
#[derive(Clone, Copy)]
pub struct VencOutputBuffer {
    pub _flags: i32,
    pub _pad0: [i32; 3],
    pub b_is_key_frame: i32,
    pub n_total_size: u32,
    pub n_id: i32,
    pub _align: i32,
    pub p_data0: u64,
    pub p_data1: u64,
    pub n_size0: u32,
    pub n_size1: u32,
    pub n_pts: i64,
    pub _tail: [u8; 256],
}

impl Default for VencOutputBuffer {
    fn default() -> (b: Self)
        ensures
            b._flags == 0 && b.b_is_key_frame == 0 && b.n_total_size == 0,
            forall|i: int| 0 <= i < 3 ==> b._pad0@[i] == 0,
            b.n_id == 0 && b._align == 0 && b.p_data0 == 0 && b.p_data1 == 0,
            b.n_size0 == 0 && b.n_size1 == 0 && b.n_pts == 0,
            forall|i: int| 0 <= i < 256 ==> b._tail@[i] == 0,
    {
        VencOutputBuffer {
            _flags: 0,
            _pad0: [0i32;3],
            b_is_key_frame: 0,
            n_total_size: 0,
            n_id: 0,
            _align: 0,
            p_data0: 0,
            p_data1: 0,
            n_size0: 0,
            n_size1: 0,
            n_pts: 0,
            _tail: [0u8;256],
        }
    }
}

/// How much input memory the encoder is asked to set aside.
#[derive(Clone, Copy)]
pub struct VencAllocateBufferParam {
    pub n_buffer_num: u32,
    pub n_size_y: u32,
    pub n_size_c: u32,
    pub _tail: [u8; 64],
}

impl Default for VencAllocateBufferParam {
    fn default() -> (p: Self)
        ensures
            p.n_buffer_num == 0 && p.n_size_y == 0 && p.n_size_c == 0,
            forall|i: int| 0 <= i < 64 ==> p._tail@[i] == 0,
    {
        VencAllocateBufferParam { n_buffer_num: 0, n_size_y: 0, n_size_c: 0, _tail: [0u8;64] }
    }
}

/// Where the encoder keeps its parameter sets. The known fields are the two
/// below; the padding absorbs whatever else is written.
#[derive(Clone, Copy)]
pub struct VencHeaderData {
    pub p_buffer: u64,
    pub n_length: u32,
    pub _tail: [u8; 496],
}

impl Default for VencHeaderData {
    fn default() -> (h: Self)
        ensures
            h.p_buffer == 0 && h.n_length == 0,
            forall|i: int| 0 <= i < 496 ==> h._tail@[i] == 0,
    {
        VencHeaderData { p_buffer: 0, n_length: 0, _tail: [0u8;496] }
    }
}

/// The numbers of the formats: 0 is the semi-planar one, and the four formats of
/// whole pixels follow each other from 12 on.
pub proof fn law_pixel_formats_have_these_numbers()
    ensures
        pixel_fmt_code(VencPixelFmt::Yuv420Sp) == 0,
        pixel_fmt_code(VencPixelFmt::Argb) == 12,
        pixel_fmt_code(VencPixelFmt::Rgba) == 13,
        pixel_fmt_code(VencPixelFmt::Abgr) == 14,
        pixel_fmt_code(VencPixelFmt::Bgra) == 15,
{
}

} // verus!
