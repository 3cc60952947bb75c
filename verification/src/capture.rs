//! The capture pipeline: open the video engine, encode one framebuffer picture
//! per call, tear down in order.
//!
//! The engine is driven step by step. Each step here takes what the last
//! vendor call reported and says what that means: which state the capture is
//! in, what to ask for next, or that it is dead. A step may only be taken in
//! the phase it belongs to.
use crate::bitstream;
use crate::convert;
use crate::framebuffer::{validate_geometry, FbGeometry, GeometryError, ReadError};
use crate::geometry;
use crate::geometry::Pillarbox;
use crate::text::push_signed;
use crate::vendor_abi::{
    VencAllocateBufferParam, VencBaseConfig, VencOutputBuffer, VencPixelFmt,
};
use vstd::prelude::*;

verus! {

/// The largest parameter-set blob that is kept. A longer one is treated as
/// unavailable.
pub const SPS_PPS_CAP: usize = 512;

/// The sentinel that the memory behind the vendor-written structures is filled
/// with. Not zero: most of what the vendor libraries write past the end is
/// zeroes, which a zero-filled guard would not show.
pub const GUARD_FILL: u8 = 0xAA;

/// The Annex-B bitstream of one encoded frame, owned by the capture and gone
/// with the next one.
pub struct Frame<'a> {
    pub data: &'a [u8],
    pub is_keyframe: bool,
}

/// Timing and health counters.
#[derive(Clone, Copy, Debug, PartialEq, Eq, Structural)]
pub struct Stats {
    pub convert_ns: i64,
    pub encode_ns: i64,
    pub short_reads: u32,
}

impl Default for Stats {
    fn default() -> (s: Self)
        ensures
            s == (Stats { convert_ns: 0, encode_ns: 0, short_reads: 0 }),
    {
        Stats { convert_ns: 0, encode_ns: 0, short_reads: 0 }
    }
}

/// Why a capture could not be opened, or died.
#[derive(Debug, PartialEq, Eq)]
pub enum CaptureError {
    AlreadyOpen,
    Geometry(GeometryError),
    OpsNull,
    MemOpenMissing,
    MemOpenFailed,
    CreateFailed,
    BitrateUnsupported,
    BitrateFailed { bitrate: i32 },
    InitFailed,
    AllocFailed,
    NoInputBuffer,
    Read(ReadError),
    AddInput { frame: i32 },
    Encode { frame: i32 },
    GetBitstream { frame: i32 },
    GetInput { frame: i32 },
}

/// The text of a capture error.
pub open spec fn capture_error_text(e: CaptureError) -> Seq<char> {
    match e {
        CaptureError::AlreadyOpen => "a capture is already open"@,
        CaptureError::Geometry(g) => crate::framebuffer::geometry_error_text(g),
        CaptureError::OpsNull => "ops NULL"@,
        CaptureError::MemOpenMissing => "CdcMemOpen missing"@,
        CaptureError::MemOpenFailed => "CdcMemOpen failed"@,
        CaptureError::CreateFailed => "VideoEncCreate failed"@,
        CaptureError::BitrateUnsupported =>
            "VideoEncSetParameter missing; cannot set bitrate"@,
        CaptureError::BitrateFailed { bitrate } => "VideoEncSetParameter(bitrate="@
            + crate::text::signed_decimal(bitrate as int) + ") failed"@,
        CaptureError::InitFailed => "VideoEncInit failed"@,
        CaptureError::AllocFailed => "AllocInputBuffer failed"@,
        CaptureError::NoInputBuffer => "GetOneAllocInputBuffer failed"@,
        CaptureError::Read(ReadError::EndOfFile) => "pread(/dev/fb0): end of file"@,
        CaptureError::Read(ReadError::Os { message }) => "pread(/dev/fb0): "@ + message@,
        CaptureError::AddInput { frame } => "AddOneInputBuffer failed at frame "@
            + crate::text::signed_decimal(frame as int),
        CaptureError::Encode { frame } => "VideoEncodeOneFrame failed at frame "@
            + crate::text::signed_decimal(frame as int),
        CaptureError::GetBitstream { frame } => "GetOneBitstreamFrame failed at frame "@
            + crate::text::signed_decimal(frame as int),
        CaptureError::GetInput { frame } => "GetOneAllocInputBuffer failed at frame "@
            + crate::text::signed_decimal(frame as int),
    }
}

fn numbered(prefix: &str, n: i32) -> (s: String)
    ensures
        s@ == prefix@ + crate::text::signed_decimal(n as int),
{
    let mut s: String = String::from_str(prefix);
    push_signed(&mut s, n as i64);
    s
}

impl CaptureError {
    /// A copy of the error.
    pub fn copy(&self) -> (e: CaptureError)
        ensures
            e == *self,
    {
        match self {
            CaptureError::AlreadyOpen => CaptureError::AlreadyOpen,
            CaptureError::Geometry(g) => CaptureError::Geometry(*g),
            CaptureError::OpsNull => CaptureError::OpsNull,
            CaptureError::MemOpenMissing => CaptureError::MemOpenMissing,
            CaptureError::MemOpenFailed => CaptureError::MemOpenFailed,
            CaptureError::CreateFailed => CaptureError::CreateFailed,
            CaptureError::BitrateUnsupported => CaptureError::BitrateUnsupported,
            CaptureError::BitrateFailed { bitrate } => CaptureError::BitrateFailed {
                bitrate: *bitrate,
            },
            CaptureError::InitFailed => CaptureError::InitFailed,
            CaptureError::AllocFailed => CaptureError::AllocFailed,
            CaptureError::NoInputBuffer => CaptureError::NoInputBuffer,
            CaptureError::Read(e) => CaptureError::Read(e.copy()),
            CaptureError::AddInput { frame } => CaptureError::AddInput { frame: *frame },
            CaptureError::Encode { frame } => CaptureError::Encode { frame: *frame },
            CaptureError::GetBitstream { frame } => CaptureError::GetBitstream { frame: *frame },
            CaptureError::GetInput { frame } => CaptureError::GetInput { frame: *frame },
        }
    }

    /// What is said of the error.
    pub fn to_string(&self) -> (s: String)
        ensures
            s@ == capture_error_text(*self),
    {
        match self {
            CaptureError::AlreadyOpen => String::from_str("a capture is already open"),
            CaptureError::Geometry(g) => g.to_string(),
            CaptureError::OpsNull => String::from_str("ops NULL"),
            CaptureError::MemOpenMissing => String::from_str("CdcMemOpen missing"),
            CaptureError::MemOpenFailed => String::from_str("CdcMemOpen failed"),
            CaptureError::CreateFailed => String::from_str("VideoEncCreate failed"),
            CaptureError::BitrateUnsupported => String::from_str(
                "VideoEncSetParameter missing; cannot set bitrate",
            ),
            CaptureError::BitrateFailed { bitrate } => {
                let mut s: String = numbered("VideoEncSetParameter(bitrate=", *bitrate);
                s.append(") failed");
                s
            },
            CaptureError::InitFailed => String::from_str("VideoEncInit failed"),
            CaptureError::AllocFailed => String::from_str("AllocInputBuffer failed"),
            CaptureError::NoInputBuffer => String::from_str("GetOneAllocInputBuffer failed"),
            CaptureError::Read(ReadError::EndOfFile) => String::from_str(
                "pread(/dev/fb0): end of file",
            ),
            CaptureError::Read(ReadError::Os { message }) => String::from_str(
                "pread(/dev/fb0): ",
            ).concat(message.as_str()),
            CaptureError::AddInput { frame } => numbered(
                "AddOneInputBuffer failed at frame ",
                *frame,
            ),
            CaptureError::Encode { frame } => numbered(
                "VideoEncodeOneFrame failed at frame ",
                *frame,
            ),
            CaptureError::GetBitstream { frame } => numbered(
                "GetOneBitstreamFrame failed at frame ",
                *frame,
            ),
            CaptureError::GetInput { frame } => numbered(
                "GetOneAllocInputBuffer failed at frame ",
                *frame,
            ),
        }
    }
}

/// At most one capture may exist per process: there is one video engine and
/// one framebuffer, and the vendor libraries keep their state globally. A
/// capture takes the process's slot when it is opened, and the slot is free
/// again once that capture is given up, whether it worked or not.
pub struct CaptureSlot {
    open: bool,
}

impl CaptureSlot {
    pub closed spec fn is_open(self) -> bool {
        self.open
    }

    /// A free slot.
    pub fn new() -> (slot: Self)
        ensures
            !slot.is_open(),
    {
        CaptureSlot { open: false }
    }

    /// Takes the slot, unless a capture already has it.
    fn claim(&mut self) -> (r: Result<(), CaptureError>)
        ensures
            final(self).is_open(),
            match r {
                Ok(_) => !old(self).is_open(),
                Err(e) => old(self).is_open() && e == CaptureError::AlreadyOpen,
            },
    {
        if self.open {
            return Err(CaptureError::AlreadyOpen);
        }
        self.open = true;
        Ok(())
    }

    /// Gives the slot back.
    fn release(&mut self)
        ensures
            !final(self).is_open(),
    {
        self.open = false;
    }
}

/// What a capture is waiting for.
#[derive(Clone, Copy, Debug, PartialEq, Eq, Structural)]
pub enum Phase {
    /// Opening: the panel's geometry.
    Framebuffer,
    /// Opening: the two operation tables.
    Ops,
    /// Opening: the memory adapter.
    Memory,
    /// Opening: the encoder handle.
    Encoder,
    /// Opening: the bitrate to be accepted.
    Bitrate,
    /// Opening: the encoder to take its configuration.
    Init,
    /// Opening: the input buffers.
    Buffers,
    /// Opening: the key frame interval to be taken or refused.
    KeyInterval,
    /// Opening: the first input buffer.
    FirstInput,
    /// Ready for the next frame.
    Idle,
    /// In a frame: the framebuffer read.
    Read,
    /// In a frame: the copy or conversion into the input buffer.
    Convert,
    /// In a frame: the input buffer to be taken by the encoder.
    Submit,
    /// In a frame: the encoder.
    Encode,
    /// In a frame: the parameter sets, once.
    Header,
    /// In a frame: how many pieces of bitstream there are.
    Drain,
    /// In a frame: one piece of bitstream.
    Segment,
    /// In a frame: a piece that is there to be taken in.
    Piece,
    /// In a frame: a fresh input buffer.
    Recycle,
    /// Failed for good.
    Dead,
}

/// What has to be done next for a capture, and which step takes the result.
#[derive(Clone, Copy, Debug, PartialEq, Eq, Structural)]
pub enum Call {
    /// Open the panel: `on_framebuffer`.
    OpenPanel,
    /// Look up the two operation tables: `on_ops`.
    LookUpOps,
    /// Open the memory adapter: `on_mem_open`.
    OpenMemory,
    /// Create an encoder: `on_encoder`.
    CreateEncoder,
    /// Set this bitrate: `on_bitrate`.
    SetBitrate(i32),
    /// Configure the encoder with `base_config`: `on_init`.
    InitEncoder,
    /// Set aside what `buffer_request` asks for: `on_buffers`.
    AllocBuffers,
    /// Set the interval of `key_interval`: `on_key_interval`.
    SetKeyInterval,
    /// Check out the first input buffer: `on_first_input`.
    GetFirstInput,
    /// Nothing until the next frame is begun: `begin_frame`.
    BeginFrame,
    /// Read the visible picture: `on_read`.
    ReadPanel,
    /// Fill the input buffer, `convert_into_input_buffer`: `on_converted`.
    FillInput,
    /// Hand the input buffer to the encoder: `on_submitted`.
    SubmitInput,
    /// Encode: `on_encoded`.
    EncodeFrame,
    /// Ask for the parameter sets and read them: `on_header`.
    FetchHeader,
    /// Ask how much bitstream there is: `on_bitstream_count`.
    CountPieces,
    /// Ask for a piece of it: `on_bitstream`.
    GetPiece,
    /// Read the piece as `segment_plan` says: `take_piece`. Then give it back.
    TakePiece,
    /// Return the used input buffer and check out a fresh one: `on_recycled`.
    RecycleInput,
    /// Nothing: the capture is dead.
    GiveUp,
}

/// What has to be done next in a state.
pub open spec fn call_due(s: CaptureState) -> Call {
    match s.phase {
        Phase::Framebuffer => Call::OpenPanel,
        Phase::Ops => Call::LookUpOps,
        Phase::Memory => Call::OpenMemory,
        Phase::Encoder => Call::CreateEncoder,
        Phase::Bitrate => Call::SetBitrate(s.bitrate),
        Phase::Init => Call::InitEncoder,
        Phase::Buffers => Call::AllocBuffers,
        Phase::KeyInterval => Call::SetKeyInterval,
        Phase::FirstInput => Call::GetFirstInput,
        Phase::Idle => Call::BeginFrame,
        Phase::Read => Call::ReadPanel,
        Phase::Convert => Call::FillInput,
        Phase::Submit => Call::SubmitInput,
        Phase::Encode => Call::EncodeFrame,
        Phase::Header => Call::FetchHeader,
        Phase::Drain => Call::CountPieces,
        Phase::Segment => Call::GetPiece,
        Phase::Piece => Call::TakePiece,
        Phase::Recycle => Call::RecycleInput,
        Phase::Dead => Call::GiveUp,
    }
}

/// Everything about a capture but its byte buffers.
#[derive(Debug, PartialEq, Eq)]
pub struct CaptureState {
    pub phase: Phase,
    /// What was asked for.
    pub width: u32,
    pub height: u32,
    pub dst_w: u32,
    pub dst_h: u32,
    pub bitrate: i32,
    pub stride_bytes: bool,
    pub in_fmt: VencPixelFmt,
    pub fps: i32,
    /// The panel.
    pub w: u32,
    pub h: u32,
    pub bpp: u32,
    pub pitch: u32,
    pub frame_bytes: usize,
    /// The input surface.
    pub pad: Pillarbox,
    pub rgb_in: bool,
    pub bars_cleared: bool,
    /// What is held and has to be given back.
    pub fb_open: bool,
    pub ve_ops: u64,
    pub mem_ops: u64,
    pub mem_open: bool,
    pub enc_created: bool,
    pub enc_inited: bool,
    pub buffers_alloced: bool,
    pub held: bool,
    /// Pacing and counters.
    pub sps_pps_fetched: bool,
    pub frame_ns: i64,
    pub deadline: i64,
    pub frames: i32,
    pub force_idr: bool,
    pub short_reads: u32,
    pub convert_ns: i64,
    pub encode_ns: i64,
    pub before_drain: usize,
    /// The frame that was completed last is a key frame.
    pub keyframe: bool,
    /// Why the capture is dead.
    pub failed: Option<CaptureError>,
}

/// The frame rate in force: 30 where none was asked for.
pub open spec fn effective_fps(fps: i32) -> i32 {
    if fps <= 0 {
        30
    } else {
        fps
    }
}

impl Phase {
    /// Between opening and the end: the encoder is up and an input buffer is
    /// held.
    pub open spec fn is_running(self) -> bool {
        match self {
            Phase::Idle | Phase::Read | Phase::Convert | Phase::Submit | Phase::Encode
            | Phase::Header | Phase::Drain | Phase::Segment | Phase::Piece | Phase::Recycle => true,
            _ => false,
        }
    }
}

impl CaptureState {
    /// Resources are acquired one on top of the other, a running capture has
    /// them all, and a capture is dead exactly when it knows why.
    pub open spec fn wf(self) -> bool {
        &&& self.fps > 0
        &&& self.mem_open ==> self.fb_open && self.mem_ops != 0
        &&& self.enc_created ==> self.mem_open
        &&& self.enc_inited ==> self.enc_created
        &&& self.buffers_alloced ==> self.enc_inited
        &&& self.held ==> self.buffers_alloced
        &&& self.phase.is_running() ==> self.held && self.frame_ns == 1_000_000_000int / (self.fps
            as int)
        &&& match self.phase {
            Phase::Framebuffer => !self.fb_open && !self.mem_open,
            Phase::Ops => self.fb_open && !self.mem_open,
            Phase::Memory => self.fb_open && self.mem_ops != 0 && !self.mem_open,
            Phase::Encoder => self.mem_open && !self.enc_created,
            Phase::Bitrate | Phase::Init => self.enc_created && !self.enc_inited,
            Phase::Buffers => self.enc_inited && !self.buffers_alloced,
            Phase::KeyInterval | Phase::FirstInput => self.buffers_alloced && !self.held,
            _ => true,
        }
        &&& self.phase == Phase::Dead <==> self.failed is Some
    }

    /// The same capture, dead of `e`.
    pub open spec fn died(self, e: CaptureError) -> CaptureState {
        CaptureState { phase: Phase::Dead, failed: Some(e), ..self }
    }

    pub open spec fn at(self, phase: Phase) -> CaptureState {
        CaptureState { phase, ..self }
    }

    /// A copy of the state.
    pub fn copy(&self) -> (s: CaptureState)
        ensures
            s == *self,
    {
        let failed: Option<CaptureError> = match &self.failed {
            Some(e) => Some(e.copy()),
            None => None,
        };
        CaptureState { failed, ..*self }
    }
}

/// A capture that has been asked for and holds nothing yet.
pub open spec fn fresh(
    width: u32,
    height: u32,
    dst_w: u32,
    dst_h: u32,
    fps: i32,
    bitrate: i32,
    in_fmt: VencPixelFmt,
    stride_bytes: bool,
) -> CaptureState {
    CaptureState {
        phase: Phase::Framebuffer,
        width,
        height,
        dst_w,
        dst_h,
        bitrate,
        stride_bytes,
        in_fmt,
        fps: effective_fps(fps),
        w: 0,
        h: 0,
        bpp: 0,
        pitch: 0,
        frame_bytes: 0,
        pad: Pillarbox { pad_w: 0, pad_h: 0, pad_x: 0, pad_y: 0, padded: false },
        rgb_in: false,
        bars_cleared: false,
        fb_open: false,
        ve_ops: 0,
        mem_ops: 0,
        mem_open: false,
        enc_created: false,
        enc_inited: false,
        buffers_alloced: false,
        held: false,
        sps_pps_fetched: false,
        frame_ns: 0,
        deadline: 0,
        frames: 0,
        force_idr: false,
        short_reads: 0,
        convert_ns: 0,
        encode_ns: 0,
        before_drain: 0,
        keyframe: false,
        failed: None,
    }
}

/// A capture: its state, the frame being assembled and the parameter sets.
pub struct Capture {
    s: CaptureState,
    out: Vec<u8>,
    sps_pps: Vec<u8>,
}

/// `Ok` unless the state is dead.
pub open spec fn alive(s: CaptureState) -> Result<(), CaptureError> {
    match s.failed {
        Some(e) => Err(e),
        None => Ok(()),
    }
}

/// A geometry that is usable at all has a picture, and a surface to centre it
/// in, of a size that fits a machine word.
pub open spec fn geometry_fits(s: CaptureState, g: FbGeometry) -> bool {
    crate::framebuffer::geometry_fault(g.w, g.h, g.bpp, s.width, s.height) is None ==> g.pitch * g.h
        <= usize::MAX && geometry::target_fits(
        g.w as int,
        g.h as int,
        s.dst_w as int,
        s.dst_h as int,
    )
}

/// The input memory of a surface has a size that the encoder can be told.
pub open spec fn surface_fits(s: CaptureState) -> bool {
    s.pad.pad_w * s.pad.pad_h * (if s.rgb_in {
        4int
    } else {
        1int
    }) <= u32::MAX
}

/// The configuration for the encoder in a state: the surface goes in, the
/// negotiated size comes out, or the surface's own where none was negotiated.
pub open spec fn is_base_config(s: CaptureState, c: VencBaseConfig) -> bool {
    &&& c.n_input_width == s.pad.pad_w
    &&& c.n_input_height == s.pad.pad_h
    &&& c.n_dst_width == if s.dst_w > 0 {
        s.dst_w
    } else {
        s.pad.pad_w
    }
    &&& c.n_dst_height == if s.dst_h > 0 {
        s.dst_h
    } else {
        s.pad.pad_h
    }
    &&& c.n_stride == if s.pad.padded {
        s.pad.pad_w
    } else if s.stride_bytes {
        s.pitch
    } else {
        s.w
    }
    &&& c.e_input_format == s.in_fmt
    &&& c.memops == s.mem_ops
    &&& c.ve_ops_s == s.ve_ops
}

/// The input memory to ask for in a state: so many bytes of luma, or of whole
/// pixels where the engine converts, and so many of chroma.
pub open spec fn is_buffer_request(s: CaptureState, y: int, c: int) -> bool {
    let pixels = s.pad.pad_w * s.pad.pad_h;
    if s.rgb_in {
        y == pixels * 4 && c == 0
    } else {
        y == pixels && c == pixels / 2
    }
}

/// The panel opened with geometry `g`.
pub open spec fn after_framebuffer(s: CaptureState, g: FbGeometry) -> CaptureState {
    let opened = CaptureState { fb_open: true, ..s };
    match crate::framebuffer::geometry_fault(g.w, g.h, g.bpp, s.width, s.height) {
        Some(e) => opened.died(CaptureError::Geometry(e)),
        None => CaptureState {
            phase: Phase::Ops,
            w: g.w,
            h: g.h,
            bpp: g.bpp,
            pitch: g.pitch,
            frame_bytes: (g.pitch * g.h) as usize,
            pad: geometry::pillarbox(g.w as int, g.h as int, s.dst_w as int, s.dst_h as int),
            ..opened
        },
    }
}

/// The operation tables were looked up.
pub open spec fn after_ops(
    s: CaptureState,
    ve_ops: u64,
    mem_ops: u64,
    has_open: bool,
) -> CaptureState {
    let known = CaptureState { ve_ops, mem_ops, ..s };
    if ve_ops == 0 || mem_ops == 0 {
        known.died(CaptureError::OpsNull)
    } else if !has_open {
        known.died(CaptureError::MemOpenMissing)
    } else {
        known.at(Phase::Memory)
    }
}

/// The memory adapter was opened.
pub open spec fn after_mem_open(s: CaptureState, rc: i32) -> CaptureState {
    if rc < 0 {
        s.died(CaptureError::MemOpenFailed)
    } else {
        CaptureState { mem_open: true, phase: Phase::Encoder, ..s }
    }
}

/// The encoder was created, or not. A bitrate of 0 leaves the encoder's
/// default alone.
pub open spec fn after_encoder(s: CaptureState, created: bool) -> CaptureState {
    if !created {
        s.died(CaptureError::CreateFailed)
    } else {
        CaptureState {
            enc_created: true,
            phase: if s.bitrate > 0 {
                Phase::Bitrate
            } else {
                Phase::Init
            },
            ..s
        }
    }
}

/// The bitrate was set, with `None` where the library cannot.
pub open spec fn after_bitrate(s: CaptureState, rc: Option<i32>) -> CaptureState {
    match rc {
        None => s.died(CaptureError::BitrateUnsupported),
        Some(rc) => if rc != 0 {
            s.died(CaptureError::BitrateFailed { bitrate: s.bitrate })
        } else {
            s.at(Phase::Init)
        },
    }
}

/// The encoder took its configuration, or not.
pub open spec fn after_init(s: CaptureState, rc: i32) -> CaptureState {
    if rc != 0 {
        s.died(CaptureError::InitFailed)
    } else {
        CaptureState {
            enc_inited: true,
            rgb_in: s.in_fmt != VencPixelFmt::Yuv420Sp,
            phase: Phase::Buffers,
            ..s
        }
    }
}

/// Input buffers were set aside, or not.
pub open spec fn after_buffers(s: CaptureState, rc: i32) -> CaptureState {
    if rc != 0 {
        s.died(CaptureError::AllocFailed)
    } else {
        CaptureState { buffers_alloced: true, phase: Phase::KeyInterval, ..s }
    }
}

/// The first input buffer was checked out at time `now`, or not.
pub open spec fn after_first_input(s: CaptureState, rc: i32, now: i64) -> CaptureState {
    if rc != 0 {
        s.died(CaptureError::NoInputBuffer)
    } else {
        CaptureState {
            held: true,
            frame_ns: (1_000_000_000int / (s.fps as int)) as i64,
            deadline: now,
            phase: Phase::Idle,
            ..s
        }
    }
}

impl Capture {
    pub closed spec fn state(self) -> CaptureState {
        self.s
    }

    /// The Annex-B bytes of the current frame.
    pub closed spec fn bytes(self) -> Seq<u8> {
        self.out@
    }

    /// The stored parameter sets.
    pub closed spec fn sets(self) -> Seq<u8> {
        self.sps_pps@
    }

    pub open spec fn wf(self) -> bool {
        self.state().wf() && self.state().before_drain <= self.bytes().len()
    }

    /// A capture in state `s` that has no bytes yet.
    pub open spec fn is_fresh(self, s: CaptureState) -> bool {
        &&& self.state() == s
        &&& self.bytes() == Seq::<u8>::empty()
        &&& self.sets() == Seq::<u8>::empty()
        &&& self.wf()
    }

    /// Everything known about the capture but its byte buffers.
    pub fn snapshot(&self) -> (s: CaptureState)
        ensures
            s == self.state(),
    {
        self.s.copy()
    }

    /// What has to be done next. Opening and each frame are a matter of doing
    /// it and handing the result to the step that takes it, until a frame is
    /// complete or the capture is dead.
    pub fn next(&self) -> (call: Call)
        ensures
            call == call_due(self.state()),
    {
        match self.s.phase {
            Phase::Framebuffer => Call::OpenPanel,
            Phase::Ops => Call::LookUpOps,
            Phase::Memory => Call::OpenMemory,
            Phase::Encoder => Call::CreateEncoder,
            Phase::Bitrate => Call::SetBitrate(self.s.bitrate),
            Phase::Init => Call::InitEncoder,
            Phase::Buffers => Call::AllocBuffers,
            Phase::KeyInterval => Call::SetKeyInterval,
            Phase::FirstInput => Call::GetFirstInput,
            Phase::Idle => Call::BeginFrame,
            Phase::Read => Call::ReadPanel,
            Phase::Convert => Call::FillInput,
            Phase::Submit => Call::SubmitInput,
            Phase::Encode => Call::EncodeFrame,
            Phase::Header => Call::FetchHeader,
            Phase::Drain => Call::CountPieces,
            Phase::Segment => Call::GetPiece,
            Phase::Piece => Call::TakePiece,
            Phase::Recycle => Call::RecycleInput,
            Phase::Dead => Call::GiveUp,
        }
    }

    /// Capture at the panel's own size, which `width` and `height` name or
    /// leave open with 0.
    pub fn open(slot: &mut CaptureSlot, width: u32, height: u32, fps: i32, bitrate: i32) -> (r:
        Result<Capture, CaptureError>)
        ensures
            final(slot).is_open(),
            match r {
                Ok(c) => !old(slot).is_open() && c.is_fresh(
                    fresh(width, height, 0, 0, fps, bitrate, VencPixelFmt::Argb, false),
                ),
                Err(e) => old(slot).is_open() && e == CaptureError::AlreadyOpen,
            },
    {
        Self::open_scaled(slot, width, height, 0, 0, fps, bitrate)
    }

    /// Capture at `width` by `height` but encode at `dst_w` by `dst_h`, scaled
    /// by the video engine. A streaming client rejects any stream whose
    /// resolution is not the one it negotiated. Pass 0 for no scaling.
    pub fn open_scaled(
        slot: &mut CaptureSlot,
        width: u32,
        height: u32,
        dst_w: u32,
        dst_h: u32,
        fps: i32,
        bitrate: i32,
    ) -> (r: Result<Capture, CaptureError>)
        ensures
            final(slot).is_open(),
            match r {
                Ok(c) => !old(slot).is_open() && c.is_fresh(
                    fresh(
                        width,
                        height,
                        dst_w,
                        dst_h,
                        fps,
                        bitrate,
                        VencPixelFmt::Argb,
                        false,
                    ),
                ),
                Err(e) => old(slot).is_open() && e == CaptureError::AlreadyOpen,
            },
    {
        Self::open_scaled_ex(
            slot,
            width,
            height,
            dst_w,
            dst_h,
            fps,
            bitrate,
            VencPixelFmt::Argb,
            false,
        )
    }

    /// As `open_scaled`, with a choice of input format. `stride_bytes` selects
    /// the framebuffer's own pitch as the engine's stride rather than its
    /// width; it has no effect once padding exists.
    ///
    /// Refused while another capture has the slot. A capture that is opened
    /// has the slot and holds nothing else yet: the steps up to
    /// `on_first_input` open the rest.
    pub fn open_scaled_ex(
        slot: &mut CaptureSlot,
        width: u32,
        height: u32,
        dst_w: u32,
        dst_h: u32,
        fps: i32,
        bitrate: i32,
        in_fmt: VencPixelFmt,
        stride_bytes: bool,
    ) -> (r: Result<Capture, CaptureError>)
        ensures
            final(slot).is_open(),
            match r {
                Ok(c) => !old(slot).is_open() && c.is_fresh(
                    fresh(width, height, dst_w, dst_h, fps, bitrate, in_fmt, stride_bytes),
                ),
                Err(e) => old(slot).is_open() && e == CaptureError::AlreadyOpen,
            },
    {
        if let Err(e) = slot.claim() {
            return Err(e);
        }
        let c: Capture = Capture {
            s: CaptureState {
                phase: Phase::Framebuffer,
                width,
                height,
                dst_w,
                dst_h,
                bitrate,
                stride_bytes,
                in_fmt,
                fps: if fps <= 0 {
                    30
                } else {
                    fps
                },
                w: 0,
                h: 0,
                bpp: 0,
                pitch: 0,
                frame_bytes: 0,
                pad: Pillarbox { pad_w: 0, pad_h: 0, pad_x: 0, pad_y: 0, padded: false },
                rgb_in: false,
                bars_cleared: false,
                fb_open: false,
                ve_ops: 0,
                mem_ops: 0,
                mem_open: false,
                enc_created: false,
                enc_inited: false,
                buffers_alloced: false,
                held: false,
                sps_pps_fetched: false,
                frame_ns: 0,
                deadline: 0,
                frames: 0,
                force_idr: false,
                short_reads: 0,
                convert_ns: 0,
                encode_ns: 0,
                before_drain: 0,
                keyframe: false,
                failed: None,
            },
            out: Vec::new(),
            sps_pps: Vec::new(),
        };
        Ok(c)
    }

    /// Marks the capture dead and returns the failure. A failed step can leave
    /// the input buffer submitted, or not acquired at all; neither is safe to
    /// drive again, so the error is kept and repeated.
    fn fail(&mut self, e: CaptureError) -> (r: CaptureError)
        ensures
            r == e,
            final(self).state() == old(self).state().died(e),
            final(self).bytes() == old(self).bytes(),
            final(self).sets() == old(self).sets(),
    {
        let r: CaptureError = e.copy();
        self.s.phase = Phase::Dead;
        self.s.failed = Some(e);
        r
    }

    /// Whether `on_framebuffer` can take this geometry: where it is usable at
    /// all, its picture and the surface it is centred in have a size that fits
    /// a machine word.
    pub fn takes_geometry(&self, g: &FbGeometry) -> (r: bool)
        ensures
            r == geometry_fits(self.state(), *g),
    {
        if validate_geometry(g.w, g.h, g.bpp, self.s.width, self.s.height).is_err() {
            return true;
        }
        assert(0 <= g.pitch * g.h <= 0xffff_ffff * 0xffff_ffff) by (nonlinear_arith)
            requires
                0 <= g.pitch <= 0xffff_ffff,
                0 <= g.h <= 0xffff_ffff,
        ;
        (g.pitch as u64) * (g.h as u64) <= usize::MAX as u64 && Pillarbox::fits(
            g.w,
            g.h,
            self.s.dst_w,
            self.s.dst_h,
        )
    }

    /// The panel was opened.
    pub fn on_framebuffer(&mut self, g: FbGeometry) -> (r: Result<(), CaptureError>)
        requires
            old(self).wf(),
            old(self).state().phase == Phase::Framebuffer,
            geometry_fits(old(self).state(), g),
        ensures
            final(self).state() == after_framebuffer(old(self).state(), g),
            final(self).bytes() == old(self).bytes(),
            final(self).sets() == old(self).sets(),
            final(self).wf(),
            r == alive(final(self).state()),
    {
        self.s.fb_open = true;
        match validate_geometry(g.w, g.h, g.bpp, self.s.width, self.s.height) {
            Err(e) => Err(self.fail(CaptureError::Geometry(e))),
            Ok(_) => {
                assert(0 <= g.pitch * g.h) by (nonlinear_arith);
                let p: Pillarbox = Pillarbox::for_target(g.w, g.h, self.s.dst_w, self.s.dst_h);
                self.s.w = g.w;
                self.s.h = g.h;
                self.s.bpp = g.bpp;
                self.s.pitch = g.pitch;
                self.s.pad = p;
                self.s.frame_bytes = (g.pitch as usize) * (g.h as usize);
                self.s.phase = Phase::Ops;
                Ok(())
            },
        }
    }

    /// The engine's and the memory adapter's operation tables were looked up.
    pub fn on_ops(&mut self, ve_ops: u64, mem_ops: u64, has_open: bool) -> (r: Result<
        (),
        CaptureError,
    >)
        requires
            old(self).wf(),
            old(self).state().phase == Phase::Ops,
        ensures
            final(self).state() == after_ops(old(self).state(), ve_ops, mem_ops, has_open),
            final(self).bytes() == old(self).bytes(),
            final(self).sets() == old(self).sets(),
            final(self).wf(),
            r == alive(final(self).state()),
    {
        self.s.ve_ops = ve_ops;
        self.s.mem_ops = mem_ops;
        if ve_ops == 0 || mem_ops == 0 {
            return Err(self.fail(CaptureError::OpsNull));
        }
        if !has_open {
            return Err(self.fail(CaptureError::MemOpenMissing));
        }
        self.s.phase = Phase::Memory;
        Ok(())
    }

    /// The memory adapter was opened; a negative `rc` is a failure.
    pub fn on_mem_open(&mut self, rc: i32) -> (r: Result<(), CaptureError>)
        requires
            old(self).wf(),
            old(self).state().phase == Phase::Memory,
        ensures
            final(self).state() == after_mem_open(old(self).state(), rc),
            final(self).bytes() == old(self).bytes(),
            final(self).sets() == old(self).sets(),
            final(self).wf(),
            r == alive(final(self).state()),
    {
        if rc < 0 {
            return Err(self.fail(CaptureError::MemOpenFailed));
        }
        self.s.mem_open = true;
        self.s.phase = Phase::Encoder;
        Ok(())
    }

    /// An encoder handle was asked for. Afterwards the phase says whether a
    /// bitrate has to be set before the encoder is configured.
    pub fn on_encoder(&mut self, created: bool) -> (r: Result<(), CaptureError>)
        requires
            old(self).wf(),
            old(self).state().phase == Phase::Encoder,
        ensures
            final(self).state() == after_encoder(old(self).state(), created),
            final(self).bytes() == old(self).bytes(),
            final(self).sets() == old(self).sets(),
            final(self).wf(),
            r == alive(final(self).state()),
    {
        if !created {
            return Err(self.fail(CaptureError::CreateFailed));
        }
        self.s.enc_created = true;
        self.s.phase = if self.s.bitrate > 0 {
            Phase::Bitrate
        } else {
            Phase::Init
        };
        Ok(())
    }

    /// The bitrate was set: `None` where the library has no way to set
    /// parameters, otherwise what the call returned.
    pub fn on_bitrate(&mut self, rc: Option<i32>) -> (r: Result<(), CaptureError>)
        requires
            old(self).wf(),
            old(self).state().phase == Phase::Bitrate,
        ensures
            final(self).state() == after_bitrate(old(self).state(), rc),
            final(self).bytes() == old(self).bytes(),
            final(self).sets() == old(self).sets(),
            final(self).wf(),
            r == alive(final(self).state()),
    {
        match rc {
            None => Err(self.fail(CaptureError::BitrateUnsupported)),
            Some(rc) => {
                if rc != 0 {
                    let bitrate: i32 = self.s.bitrate;
                    return Err(self.fail(CaptureError::BitrateFailed { bitrate }));
                }
                self.s.phase = Phase::Init;
                Ok(())
            },
        }
    }

    /// The configuration for the encoder. Parameter sets are asked for in
    /// band. The destination is the negotiated size, or the input surface's
    /// own. The stride describes the padded surface once there is one, not the
    /// framebuffer: the two differ then and the rows would shear.
    pub fn base_config(&self) -> (c: VencBaseConfig)
        requires
            self.state().phase == Phase::Init,
        ensures
            is_base_config(self.state(), c),
            c.b_enc_h264_nalu == 1,
            c.p_ve_ops_self == 0,
            c.b_only_wb_flag == 0,
            c.b_lbc_lossy_com_en_flag2x == 0,
            c.b_lbc_lossy_com_en_flag2_5x == 0,
            c.b_is_vbv_no_cache == 0,
            forall|i: int| 0 <= i < 128 ==> c._tail@[i] == 0,
    {
        let mut c: VencBaseConfig = VencBaseConfig::default();
        c.b_enc_h264_nalu = 1;
        c.n_input_width = self.s.pad.pad_w;
        c.n_input_height = self.s.pad.pad_h;
        c.n_dst_width = if self.s.dst_w > 0 {
            self.s.dst_w
        } else {
            self.s.pad.pad_w
        };
        c.n_dst_height = if self.s.dst_h > 0 {
            self.s.dst_h
        } else {
            self.s.pad.pad_h
        };
        c.n_stride = if self.s.pad.padded {
            self.s.pad.pad_w
        } else if self.s.stride_bytes {
            self.s.pitch
        } else {
            self.s.w
        };
        c.e_input_format = self.s.in_fmt;
        c.memops = self.s.mem_ops;
        c.ve_ops_s = self.s.ve_ops;
        c
    }

    /// The encoder was configured; any `rc` but 0 is a failure.
    pub fn on_init(&mut self, rc: i32) -> (r: Result<(), CaptureError>)
        requires
            old(self).wf(),
            old(self).state().phase == Phase::Init,
        ensures
            final(self).state() == after_init(old(self).state(), rc),
            final(self).bytes() == old(self).bytes(),
            final(self).sets() == old(self).sets(),
            final(self).wf(),
            r == alive(final(self).state()),
    {
        if rc != 0 {
            return Err(self.fail(CaptureError::InitFailed));
        }
        self.s.enc_inited = true;
        self.s.rgb_in = self.s.in_fmt.is_rgb();
        self.s.phase = Phase::Buffers;
        Ok(())
    }

    /// Whether `buffer_request` can name the size of the input memory.
    pub fn surface_fits(&self) -> (r: bool)
        ensures
            r == surface_fits(self.state()),
    {
        let (w, h): (u64, u64) = (self.s.pad.pad_w as u64, self.s.pad.pad_h as u64);
        assert(0 <= w * h <= 0xffff_ffff * 0xffff_ffff) by (nonlinear_arith)
            requires
                0 <= w <= 0xffff_ffff,
                0 <= h <= 0xffff_ffff,
        ;
        if self.s.rgb_in {
            w * h <= 0x3fff_ffff
        } else {
            w * h <= 0xffff_ffff
        }
    }

    /// The input memory to ask for: one buffer of four bytes per pixel where
    /// the engine converts, or a luma and a half-size chroma plane.
    pub fn buffer_request(&self) -> (p: VencAllocateBufferParam)
        requires
            self.state().phase == Phase::Buffers,
            surface_fits(self.state()),
        ensures
            p.n_buffer_num == 1,
            is_buffer_request(self.state(), p.n_size_y as int, p.n_size_c as int),
            forall|i: int| 0 <= i < 64 ==> p._tail@[i] == 0,
    {
        let mut p: VencAllocateBufferParam = VencAllocateBufferParam::default();
        p.n_buffer_num = 1;
        assert(0 <= self.s.pad.pad_w * self.s.pad.pad_h) by (nonlinear_arith);
        if self.s.rgb_in {
            p.n_size_y = self.s.pad.pad_w * self.s.pad.pad_h * 4;
        } else {
            p.n_size_y = self.s.pad.pad_w * self.s.pad.pad_h;
            p.n_size_c = self.s.pad.pad_w * self.s.pad.pad_h / 2;
        }
        p
    }

    /// Input memory was set aside; any `rc` but 0 is a failure.
    pub fn on_buffers(&mut self, rc: i32) -> (r: Result<(), CaptureError>)
        requires
            old(self).wf(),
            old(self).state().phase == Phase::Buffers,
        ensures
            final(self).state() == after_buffers(old(self).state(), rc),
            final(self).bytes() == old(self).bytes(),
            final(self).sets() == old(self).sets(),
            final(self).wf(),
            r == alive(final(self).state()),
    {
        if rc != 0 {
            return Err(self.fail(CaptureError::AllocFailed));
        }
        self.s.buffers_alloced = true;
        self.s.phase = Phase::KeyInterval;
        Ok(())
    }

    /// Frames between automatic key frames: a minute's worth. The engine's
    /// default is a burst every 25 frames, the largest thing the stream asks
    /// of the handheld's wireless link; clients ask for a key frame when they
    /// need one.
    pub fn key_interval(&self) -> (n: i32)
        requires
            self.wf(),
            self.state().fps * 60 <= i32::MAX,
        ensures
            n == key_gap(self.state().fps as int),
    {
        self.s.fps * 60
    }

    /// The key frame interval was set (`None` where the library cannot).
    /// Returns whether it took. If not, the default cadence stays: that is no
    /// failure.
    pub fn on_key_interval(&mut self, rc: Option<i32>) -> (applied: bool)
        requires
            old(self).wf(),
            old(self).state().phase == Phase::KeyInterval,
        ensures
            final(self).state() == old(self).state().at(Phase::FirstInput),
            final(self).bytes() == old(self).bytes(),
            final(self).sets() == old(self).sets(),
            final(self).wf(),
            applied == (rc == Some(0i32)),
    {
        self.s.phase = Phase::FirstInput;
        match rc {
            Some(rc) => rc == 0,
            None => false,
        }
    }

    /// The first input buffer was checked out at time `now`; any `rc` but 0 is
    /// a failure. The capture is then ready.
    pub fn on_first_input(&mut self, rc: i32, now: i64) -> (r: Result<(), CaptureError>)
        requires
            old(self).wf(),
            old(self).state().phase == Phase::FirstInput,
        ensures
            final(self).state() == after_first_input(old(self).state(), rc, now),
            final(self).bytes() == old(self).bytes(),
            final(self).sets() == old(self).sets(),
            final(self).wf(),
            r == alive(final(self).state()),
    {
        if rc != 0 {
            return Err(self.fail(CaptureError::NoInputBuffer));
        }
        self.s.held = true;
        assert(1_000_000_000int / (self.s.fps as int) <= 1_000_000_000) by (nonlinear_arith)
            requires
                self.s.fps > 0,
        ;
        self.s.frame_ns = 1_000_000_000 / (self.s.fps as i64);
        self.s.deadline = now;
        self.s.phase = Phase::Idle;
        Ok(())
    }
}

/// How long to sleep at time `now` before a frame that is due at `deadline`.
pub open spec fn sleep_before(deadline: int, now: int) -> int {
    if deadline > now {
        deadline - now
    } else {
        0
    }
}

/// Frames between automatic key frames at a frame rate.
pub open spec fn key_gap(fps: int) -> int {
    fps * 60
}

/// When the frame after this one is due: one interval after this one was, or,
/// where that has already passed, one interval from `now`. Without the second
/// rule a stall would be replayed as a burst of stale frames.
pub open spec fn next_deadline(deadline: int, frame_ns: int, now: int) -> int {
    if deadline + frame_ns < now {
        now + frame_ns
    } else {
        deadline + frame_ns
    }
}

/// A frame was begun at time `now`.
pub open spec fn after_begin(s: CaptureState, now: i64) -> CaptureState {
    if s.failed is Some {
        s
    } else {
        CaptureState {
            deadline: next_deadline(s.deadline as int, s.frame_ns as int, now as int) as i64,
            before_drain: 0,
            phase: Phase::Read,
            ..s
        }
    }
}

/// The framebuffer was read: `Ok` with the number of bytes, or an error. Fewer
/// bytes than a frame has are counted and the frame goes on.
pub open spec fn after_read(s: CaptureState, read: Result<u64, ReadError>) -> CaptureState {
    match read {
        Ok(n) => CaptureState {
            short_reads: if n != s.frame_bytes {
                (s.short_reads + 1) as u32
            } else {
                s.short_reads
            },
            phase: Phase::Convert,
            ..s
        },
        Err(e) => (CaptureState { short_reads: (s.short_reads + 1) as u32, ..s }).died(
            CaptureError::Read(e),
        ),
    }
}

/// What accompanies a picture to the encoder.
#[derive(Clone, Copy, Debug, PartialEq, Eq, Structural)]
pub struct Submission {
    /// Presentation time in microseconds.
    pub n_pts: i64,
    pub b_is_first_frame: i32,
    /// Ask for a key frame first. The request is one-shot and applies to the
    /// frame encoded next.
    pub force_key_frame: bool,
}

/// What goes to the encoder with the picture of the current frame.
pub open spec fn submission(s: CaptureState) -> Submission {
    Submission {
        n_pts: (s.frames * (1_000_000int / (s.fps as int))) as i64,
        b_is_first_frame: if s.frames == 0 {
            1
        } else {
            0
        },
        force_key_frame: s.force_idr,
    }
}

/// The picture is in the input buffer; filling it took from `t0` to `t1`.
pub open spec fn after_converted(s: CaptureState, t0: i64, t1: i64) -> CaptureState {
    CaptureState {
        convert_ns: (s.convert_ns + (t1 - t0)) as i64,
        force_idr: false,
        phase: Phase::Submit,
        ..s
    }
}

/// The frame's bytes and state when the drain of the bitstream begins: the
/// very first frame opens with the parameter sets.
pub open spec fn drain_start(s: CaptureState, out: Seq<u8>, sets: Seq<u8>) -> (
    CaptureState,
    Seq<u8>,
) {
    let out = if s.frames == 0 {
        out + sets
    } else {
        out
    };
    (CaptureState { before_drain: out.len() as usize, phase: Phase::Drain, ..s }, out)
}

/// The input buffer was handed to the encoder, or not.
pub open spec fn after_submitted(s: CaptureState, rc: i32) -> CaptureState {
    if rc != 0 {
        s.died(CaptureError::AddInput { frame: s.frames })
    } else {
        s.at(Phase::Encode)
    }
}

/// The encoder ran for `elapsed` nanoseconds, or failed. Where the parameter
/// sets are still unknown they are fetched before the drain.
pub open spec fn after_encoded(
    s: CaptureState,
    out: Seq<u8>,
    sets: Seq<u8>,
    rc: i32,
    elapsed: i64,
) -> (CaptureState, Seq<u8>) {
    let timed = CaptureState { encode_ns: (s.encode_ns + elapsed) as i64, ..s };
    if rc != 0 {
        (s.died(CaptureError::Encode { frame: s.frames }), out)
    } else if !s.sps_pps_fetched {
        (timed.at(Phase::Header), out)
    } else {
        drain_start(timed, out, sets)
    }
}

/// The parameter sets were fetched.
pub open spec fn after_header(s: CaptureState, out: Seq<u8>, sets: Seq<u8>) -> (
    CaptureState,
    Seq<u8>,
) {
    drain_start(CaptureState { sps_pps_fetched: true, ..s }, out, sets)
}

/// The encoder has `n` pieces of bitstream.
pub open spec fn after_count(s: CaptureState, n: i32) -> CaptureState {
    s.at(
        if n > 0 {
            Phase::Segment
        } else {
            Phase::Recycle
        },
    )
}

/// A piece was asked for, with `drained` bytes in the frame so far.
pub open spec fn after_bitstream(s: CaptureState, drained: nat, rc: i32) -> CaptureState {
    if rc == 0 {
        s.at(Phase::Piece)
    } else if drained == s.before_drain {
        s.died(CaptureError::GetBitstream { frame: s.frames })
    } else {
        s.at(Phase::Recycle)
    }
}

/// A piece of bitstream as the encoder has it.
pub enum Piece {
    /// Two runs of a ring buffer.
    Split(Seq<u8>, Option<Seq<u8>>),
    /// One run.
    Whole(Seq<u8>),
    /// No data.
    Nothing,
}

/// What a piece adds to the frame: its units behind start codes. One run that
/// is not AVCC goes out as it is.
pub open spec fn piece_bytes(p: Piece) -> Seq<u8> {
    match p {
        Piece::Split(a, b) => bitstream::annexb_of(a) + (match b {
            Some(b) => bitstream::annexb_of(b),
            None => Seq::<u8>::empty(),
        }),
        Piece::Whole(a) => if bitstream::annexb_of(a).len() == 0 {
            a
        } else {
            bitstream::annexb_of(a)
        },
        Piece::Nothing => Seq::empty(),
    }
}

/// What a run of pieces adds to the frame.
pub open spec fn drained(pieces: Seq<Piece>) -> Seq<u8>
    decreases pieces.len(),
{
    if pieces.len() == 0 {
        Seq::empty()
    } else {
        drained(pieces.drop_last()) + piece_bytes(pieces.last())
    }
}

/// A fresh input buffer was checked out, which completes the frame, or not.
pub open spec fn after_recycled(s: CaptureState, out: Seq<u8>, sets: Seq<u8>, rc: i32) -> (
    CaptureState,
    Seq<u8>,
) {
    if rc != 0 {
        (
            (CaptureState { held: false, ..s }).died(CaptureError::GetInput { frame: s.frames }),
            out,
        )
    } else {
        (
            CaptureState {
                frames: (s.frames + 1) as i32,
                keyframe: bitstream::is_key_frame(out),
                phase: Phase::Idle,
                ..s
            },
            delivered(out, sets),
        )
    }
}

/// The frame as it is handed on: a key frame that does not open with its
/// parameter sets gets the stored ones put in front.
pub open spec fn delivered(out: Seq<u8>, sets: Seq<u8>) -> Seq<u8> {
    if bitstream::is_key_frame(out) && !bitstream::leads_with_parameter_sets(out) {
        sets + out
    } else {
        out
    }
}

impl Capture {
    /// Starts a frame at time `now` and says how long to sleep before the
    /// screen is sampled. A dead capture repeats its first error.
    pub fn begin_frame(&mut self, now: i64) -> (r: Result<i64, CaptureError>)
        requires
            old(self).wf(),
            old(self).state().phase == Phase::Idle || old(self).state().phase == Phase::Dead,
            old(self).state().phase == Phase::Idle ==> {
                &&& i64::MIN <= old(self).state().deadline - now <= i64::MAX
                &&& old(self).state().deadline + old(self).state().frame_ns <= i64::MAX
                &&& now + old(self).state().frame_ns <= i64::MAX
            },
        ensures
            final(self).state() == after_begin(old(self).state(), now),
            final(self).sets() == old(self).sets(),
            final(self).wf(),
            match old(self).state().failed {
                Some(e) => r == Err::<i64, CaptureError>(e) && final(self).bytes() == old(
                    self,
                ).bytes(),
                None => final(self).bytes() == Seq::<u8>::empty() && r == Ok::<i64, CaptureError>(
                    sleep_before(old(self).state().deadline as int, now as int) as i64,
                ),
            },
    {
        if let Some(e) = &self.s.failed {
            return Err(e.copy());
        }
        proof {
            assert(0 <= 1_000_000_000int / (self.s.fps as int)) by (nonlinear_arith)
                requires
                    self.s.fps > 0,
            ;
        }
        let slack: i64 = self.s.deadline - now;
        self.s.deadline = self.s.deadline + self.s.frame_ns;
        if self.s.deadline < now {
            self.s.deadline = now + self.s.frame_ns;
        }
        self.out.clear();
        self.s.before_drain = 0;
        self.s.phase = Phase::Read;
        if slack > 0 {
            Ok(slack)
        } else {
            Ok(0)
        }
    }

    /// The framebuffer was read.
    pub fn on_read(&mut self, read: Result<u64, ReadError>) -> (r: Result<(), CaptureError>)
        requires
            old(self).wf(),
            old(self).state().phase == Phase::Read,
            read != Ok::<u64, ReadError>(old(self).state().frame_bytes as u64) ==> old(
                self,
            ).state().short_reads < u32::MAX,
        ensures
            final(self).state() == after_read(old(self).state(), read),
            final(self).bytes() == old(self).bytes(),
            final(self).sets() == old(self).sets(),
            final(self).wf(),
            r == alive(final(self).state()),
    {
        match read {
            Ok(n) => {
                if n != self.s.frame_bytes as u64 {
                    self.s.short_reads = self.s.short_reads + 1;
                }
                self.s.phase = Phase::Convert;
                Ok(())
            },
            Err(e) => {
                self.s.short_reads = self.s.short_reads + 1;
                Err(self.fail(CaptureError::Read(e)))
            },
        }
    }

    /// The picture is in the input buffer; filling it took from `t0` to `t1`.
    /// Returns what goes with it to the encoder, and takes any outstanding
    /// request for a key frame with it.
    pub fn on_converted(&mut self, t0: i64, t1: i64) -> (sub: Submission)
        requires
            old(self).wf(),
            old(self).state().phase == Phase::Convert,
            i64::MIN <= t1 - t0 <= i64::MAX,
            i64::MIN <= old(self).state().convert_ns + (t1 - t0) <= i64::MAX,
        ensures
            final(self).state() == after_converted(old(self).state(), t0, t1),
            final(self).bytes() == old(self).bytes(),
            final(self).sets() == old(self).sets(),
            final(self).wf(),
            sub == submission(old(self).state()),
    {
        self.s.convert_ns = self.s.convert_ns + (t1 - t0);
        let step: i64 = 1_000_000 / (self.s.fps as i64);
        let frames: i64 = self.s.frames as i64;
        assert(0 <= step <= 1_000_000) by {
            assert(0 <= 1_000_000int / (self.s.fps as int) <= 1_000_000) by (nonlinear_arith)
                requires
                    self.s.fps > 0,
            ;
        }
        assert(-0x8000_0000 * 1_000_000 <= frames * step <= 0x8000_0000 * 1_000_000)
            by (nonlinear_arith)
            requires
                0 <= step <= 1_000_000,
                -0x8000_0000 <= frames < 0x8000_0000,
        ;
        let sub: Submission = Submission {
            n_pts: frames * step,
            b_is_first_frame: if self.s.frames == 0 {
                1
            } else {
                0
            },
            force_key_frame: self.s.force_idr,
        };
        self.s.force_idr = false;
        self.s.phase = Phase::Submit;
        sub
    }

    /// The input buffer was handed to the encoder; any `rc` but 0 is a
    /// failure.
    pub fn on_submitted(&mut self, rc: i32) -> (r: Result<(), CaptureError>)
        requires
            old(self).wf(),
            old(self).state().phase == Phase::Submit,
        ensures
            final(self).state() == after_submitted(old(self).state(), rc),
            final(self).bytes() == old(self).bytes(),
            final(self).sets() == old(self).sets(),
            final(self).wf(),
            r == alive(final(self).state()),
    {
        if rc != 0 {
            let frame: i32 = self.s.frames;
            return Err(self.fail(CaptureError::AddInput { frame }));
        }
        self.s.phase = Phase::Encode;
        Ok(())
    }

    fn start_drain(&mut self)
        requires
            old(self).state().wf(),
            old(self).state().phase.is_running(),
        ensures
            (final(self).state(), final(self).bytes()) == drain_start(
                old(self).state(),
                old(self).bytes(),
                old(self).sets(),
            ),
            final(self).sets() == old(self).sets(),
            final(self).wf(),
    {
        if self.s.frames == 0 {
            self.out.extend_from_slice(self.sps_pps.as_slice());
            assert(self.out@ =~= old(self).out@ + self.sps_pps@);
        }
        self.s.before_drain = self.out.len();
        self.s.phase = Phase::Drain;
    }

    /// The encoder ran for `elapsed` nanoseconds; any `rc` but 0 is a failure.
    /// Parameter sets exist only once a frame has been encoded, so the first
    /// frame goes on to fetch them.
    pub fn on_encoded(&mut self, rc: i32, elapsed: i64) -> (r: Result<(), CaptureError>)
        requires
            old(self).wf(),
            old(self).state().phase == Phase::Encode,
            rc == 0 ==> i64::MIN <= old(self).state().encode_ns + elapsed <= i64::MAX,
        ensures
            (final(self).state(), final(self).bytes()) == after_encoded(
                old(self).state(),
                old(self).bytes(),
                old(self).sets(),
                rc,
                elapsed,
            ),
            final(self).sets() == old(self).sets(),
            final(self).wf(),
            r == alive(final(self).state()),
    {
        if rc != 0 {
            let frame: i32 = self.s.frames;
            return Err(self.fail(CaptureError::Encode { frame }));
        }
        self.s.encode_ns = self.s.encode_ns + elapsed;
        if !self.s.sps_pps_fetched {
            self.s.phase = Phase::Header;
        } else {
            self.start_drain();
        }
        Ok(())
    }

    /// The encoder was asked for its parameter sets. `rc` is what the call
    /// returned (`None` where the library has no way to ask), the next two
    /// are its answer, and `raw` is the blob that a usable answer names. The
    /// sets are kept, empty where there are none, and the drain begins.
    pub fn on_header(&mut self, rc: Option<i32>, p_buffer: u64, n_length: u32, raw: &[u8])
        requires
            old(self).wf(),
            old(self).state().phase == Phase::Header,
            rc matches Some(rc) && is_usable(rc, p_buffer, n_length) ==> raw@.len() == n_length,
        ensures
            (final(self).state(), final(self).bytes()) == after_header(
                old(self).state(),
                old(self).bytes(),
                header_sets(rc, p_buffer, n_length, raw@),
            ),
            final(self).sets() == header_sets(rc, p_buffer, n_length, raw@),
            final(self).wf(),
    {
        self.sps_pps = match rc {
            Some(rc) => {
                if header_usable(rc, p_buffer, n_length) {
                    parameter_sets(raw)
                } else {
                    Vec::new()
                }
            },
            None => Vec::new(),
        };
        self.s.sps_pps_fetched = true;
        self.start_drain();
    }

    /// How many pieces of bitstream the encoder has. Returns whether to get
    /// one; if not, the drain is over.
    pub fn on_bitstream_count(&mut self, n: i32) -> (more: bool)
        requires
            old(self).wf(),
            old(self).state().phase == Phase::Drain,
        ensures
            more == (n > 0),
            final(self).state() == after_count(old(self).state(), n),
            final(self).bytes() == old(self).bytes(),
            final(self).sets() == old(self).sets(),
            final(self).wf(),
    {
        if n > 0 {
            self.s.phase = Phase::Segment;
            true
        } else {
            self.s.phase = Phase::Recycle;
            false
        }
    }

    /// A piece of bitstream was asked for. `Ok(true)` means it is there. A
    /// refusal ends the drain where something was drained already; where
    /// nothing was, there is no frame to hand back and the capture is dead.
    pub fn on_bitstream(&mut self, rc: i32) -> (r: Result<bool, CaptureError>)
        requires
            old(self).wf(),
            old(self).state().phase == Phase::Segment,
        ensures
            final(self).state() == after_bitstream(
                old(self).state(),
                old(self).bytes().len(),
                rc,
            ),
            r == match final(self).state().failed {
                Some(e) => Err::<bool, CaptureError>(e),
                None => Ok(rc == 0),
            },
            final(self).bytes() == old(self).bytes(),
            final(self).sets() == old(self).sets(),
            final(self).wf(),
    {
        if rc != 0 {
            if self.out.len() == self.s.before_drain {
                let frame: i32 = self.s.frames;
                return Err(self.fail(CaptureError::GetBitstream { frame }));
            }
            self.s.phase = Phase::Recycle;
            return Ok(false);
        }
        self.s.phase = Phase::Piece;
        Ok(true)
    }

    /// Takes a piece that came as two runs of the ring buffer.
    fn append_split(&mut self, s0: &[u8], s1: Option<&[u8]>)
        requires
            old(self).wf(),
            old(self).state().phase == Phase::Piece,
        ensures
            final(self).state() == old(self).state().at(Phase::Drain),
            final(self).bytes() == old(self).bytes() + piece_bytes(
                Piece::Split(
                    s0@,
                    match s1 {
                        Some(s) => Some(s@),
                        None => None,
                    },
                ),
            ),
            final(self).sets() == old(self).sets(),
            final(self).wf(),
    {
        let _ = bitstream::append_avcc_as_annexb(&mut self.out, s0);
        match s1 {
            Some(s) => {
                let _ = bitstream::append_avcc_as_annexb(&mut self.out, s);
            },
            None => {},
        }
        assert(self.out@ =~= old(self).out@ + piece_bytes(
            Piece::Split(
                s0@,
                match s1 {
                    Some(s) => Some(s@),
                    None => None,
                },
            ),
        ));
        self.s.phase = Phase::Drain;
    }

    /// Takes a piece that came as one run. What is not AVCC goes out as it is.
    fn append_whole(&mut self, s: &[u8])
        requires
            old(self).wf(),
            old(self).state().phase == Phase::Piece,
        ensures
            final(self).state() == old(self).state().at(Phase::Drain),
            final(self).bytes() == old(self).bytes() + piece_bytes(Piece::Whole(s@)),
            final(self).sets() == old(self).sets(),
            final(self).wf(),
    {
        if bitstream::append_avcc_as_annexb(&mut self.out, s) == 0 {
            assert(self.out@ =~= old(self).out@);
            self.out.extend_from_slice(s);
            assert(self.out@ =~= old(self).out@ + s@);
        }
        self.s.phase = Phase::Drain;
    }

    /// Passes over a piece without data.
    fn skip_segment(&mut self)
        requires
            old(self).wf(),
            old(self).state().phase == Phase::Piece,
        ensures
            final(self).state() == old(self).state().at(Phase::Drain),
            final(self).bytes() == old(self).bytes() + piece_bytes(Piece::Nothing),
            final(self).sets() == old(self).sets(),
            final(self).wf(),
    {
        self.s.phase = Phase::Drain;
        assert(self.out@ =~= old(self).out@ + piece_bytes(Piece::Nothing));
    }

    /// Takes in the piece that `b` describes: `first` and `second` are the
    /// bytes at its two addresses, as many as the plan for it reads there.
    pub fn take_piece(&mut self, b: &VencOutputBuffer, first: &[u8], second: &[u8])
        requires
            old(self).wf(),
            old(self).state().phase == Phase::Piece,
            b.p_data0 != 0 && b.n_size0 != 0 ==> b.n_size0 + b.n_size1 <= u32::MAX,
            runs_match(plan_of(*b), first@.len(), second@.len()),
        ensures
            final(self).state() == old(self).state().at(Phase::Drain),
            final(self).bytes() == old(self).bytes() + piece_bytes(
                piece_of(plan_of(*b), first@, second@),
            ),
            final(self).sets() == old(self).sets(),
            final(self).wf(),
    {
        match segment_plan(b) {
            SegmentPlan::Split { len0, len1 } => self.append_split(
                first,
                match len1 {
                    Some(_) => Some(second),
                    None => None,
                },
            ),
            SegmentPlan::Whole { len } => self.append_whole(first),
            SegmentPlan::Nothing => self.skip_segment(),
        }
    }

    /// A fresh input buffer was asked for; any `rc` but 0 is a failure, and no
    /// buffer is held then. Otherwise the frame is complete. Returns whether
    /// it is a key frame; the stored parameter sets go in front of one that
    /// does not already open with its own. Hardware decoders build their
    /// format from the sets carried with the key frame and never start
    /// without.
    pub fn on_recycled(&mut self, rc: i32) -> (r: Result<bool, CaptureError>)
        requires
            old(self).wf(),
            old(self).state().phase == Phase::Recycle,
            rc == 0 ==> old(self).state().frames < i32::MAX,
        ensures
            (final(self).state(), final(self).bytes()) == after_recycled(
                old(self).state(),
                old(self).bytes(),
                old(self).sets(),
                rc,
            ),
            r == match final(self).state().failed {
                Some(e) => Err::<bool, CaptureError>(e),
                None => Ok(bitstream::is_key_frame(old(self).bytes())),
            },
            final(self).sets() == old(self).sets(),
            final(self).wf(),
    {
        if rc != 0 {
            self.s.held = false;
            let frame: i32 = self.s.frames;
            return Err(self.fail(CaptureError::GetInput { frame }));
        }
        self.s.frames = self.s.frames + 1;
        self.s.phase = Phase::Idle;
        let keyframe: bool = bitstream::first_slice_is_idr(self.out.as_slice());
        self.s.keyframe = keyframe;
        if keyframe && !bitstream::starts_with_parameter_sets(self.out.as_slice()) {
            let mut whole: Vec<u8> = Vec::new();
            whole.extend_from_slice(self.sps_pps.as_slice());
            whole.extend_from_slice(self.out.as_slice());
            assert(whole@ =~= self.sps_pps@ + self.out@);
            self.out = whole;
        }
        Ok(keyframe)
    }

    /// The frame that was just completed.
    pub fn frame(&self) -> (f: Frame<'_>)
        requires
            self.state().phase == Phase::Idle,
        ensures
            f.data@ == self.bytes(),
            f.is_keyframe == self.state().keyframe,
    {
        Frame { data: self.out.as_slice(), is_keyframe: self.s.keyframe }
    }

    /// Ask for a key frame with the next encoded frame. Clients do so after
    /// packet loss.
    pub fn request_idr(&mut self)
        ensures
            final(self).state() == (CaptureState { force_idr: true, ..old(self).state() }),
            final(self).bytes() == old(self).bytes(),
            final(self).sets() == old(self).sets(),
    {
        self.s.force_idr = true;
    }

    /// The Annex-B parameter sets, empty until the first frame has been
    /// encoded.
    pub fn param_sets(&self) -> (sets: &[u8])
        ensures
            sets@ == self.sets(),
    {
        self.sps_pps.as_slice()
    }

    /// The counters so far.
    pub fn stats(&self) -> (st: Stats)
        ensures
            st == (Stats {
                convert_ns: self.state().convert_ns,
                encode_ns: self.state().encode_ns,
                short_reads: self.state().short_reads,
            }),
    {
        Stats {
            convert_ns: self.s.convert_ns,
            encode_ns: self.s.encode_ns,
            short_reads: self.s.short_reads,
        }
    }
}

/// The answer to a query for the parameter sets is usable: the call succeeded
/// and names a blob that is neither empty nor too long.
pub open spec fn is_usable(rc: i32, p_buffer: u64, n_length: u32) -> bool {
    rc == 0 && p_buffer != 0 && 0 < n_length <= SPS_PPS_CAP
}

/// The parameter sets in a blob: those of a decoder configuration record, or
/// the blob as it is.
pub open spec fn sets_in(raw: Seq<u8>) -> Seq<u8> {
    if raw.len() > 7 && raw[0] == 1 {
        bitstream::annexb(bitstream::record_sets(raw))
    } else {
        raw
    }
}

/// The parameter sets that a query gave, none where its answer is not usable.
pub open spec fn header_sets(rc: Option<i32>, p_buffer: u64, n_length: u32, raw: Seq<u8>) -> Seq<
    u8,
> {
    match rc {
        Some(rc) => if is_usable(rc, p_buffer, n_length) {
            sets_in(raw)
        } else {
            Seq::empty()
        },
        None => Seq::empty(),
    }
}

/// Whether the encoder's answer to a query for its parameter sets is usable.
pub fn header_usable(rc: i32, p_buffer: u64, n_length: u32) -> (r: bool)
    ensures
        r == is_usable(rc, p_buffer, n_length),
{
    rc == 0 && p_buffer != 0 && n_length != 0 && n_length as usize <= SPS_PPS_CAP
}

/// The address that the processor can read, given what the memory adapter makes
/// of the one in the answer.
pub open spec fn readable_at(p_buffer: u64, translated: Option<u64>) -> u64 {
    match translated {
        Some(t) => if t != 0 {
            t
        } else {
            p_buffer
        },
        None => p_buffer,
    }
}

/// Where the processor can read the parameter sets. The address in the answer
/// may be one that only the engine understands; the memory adapter's
/// translation is taken where it gives one.
pub fn header_address(p_buffer: u64, translated: Option<u64>) -> (p: u64)
    ensures
        p == readable_at(p_buffer, translated),
{
    match translated {
        Some(t) => {
            if t != 0 {
                t
            } else {
                p_buffer
            }
        },
        None => p_buffer,
    }
}

/// The Annex-B parameter sets in the blob the encoder keeps. A decoder
/// configuration record is converted; anything else is passed through.
pub fn parameter_sets(raw: &[u8]) -> (sets: Vec<u8>)
    ensures
        sets@ == sets_in(raw@),
{
    if raw.len() > 7 && raw[0] == 1 {
        bitstream::avcc_record_to_annexb(raw)
    } else {
        vstd::slice::slice_to_vec(raw)
    }
}

/// How the data of a piece of bitstream lies in memory.
#[derive(Clone, Copy, Debug, PartialEq, Eq, Structural)]
pub enum SegmentPlan {
    /// Two runs: `len0` bytes at the first address and, where there are any,
    /// `len1` bytes at the second.
    Split { len0: u32, len1: Option<u32> },
    /// One run of `len` bytes at the first address.
    Whole { len: u32 },
    /// No data.
    Nothing,
}

/// The encoder exposes a piece as up to two runs of a ring buffer, with the
/// total beside them. The split is trusted only when it adds up; otherwise the
/// first address is taken to hold the total as one run.
pub open spec fn plan_of(b: VencOutputBuffer) -> SegmentPlan {
    if b.p_data0 != 0 && b.n_size0 != 0 && b.n_size0 + b.n_size1 == b.n_total_size {
        SegmentPlan::Split {
            len0: b.n_size0,
            len1: if b.p_data1 != 0 && b.n_size1 != 0 {
                Some(b.n_size1)
            } else {
                None
            },
        }
    } else if b.p_data0 != 0 && b.n_total_size != 0 {
        SegmentPlan::Whole { len: b.n_total_size }
    } else {
        SegmentPlan::Nothing
    }
}

/// The plan reads so many bytes at the first and at the second address.
pub open spec fn runs_match(plan: SegmentPlan, first: nat, second: nat) -> bool {
    match plan {
        SegmentPlan::Split { len0, len1 } => first == len0 && second == match len1 {
            Some(n) => n as nat,
            None => 0,
        },
        SegmentPlan::Whole { len } => first == len && second == 0,
        SegmentPlan::Nothing => first == 0 && second == 0,
    }
}

/// The piece that a plan makes of the bytes at the two addresses.
pub open spec fn piece_of(plan: SegmentPlan, first: Seq<u8>, second: Seq<u8>) -> Piece {
    match plan {
        SegmentPlan::Split { len0, len1 } => Piece::Split(
            first,
            match len1 {
                Some(_) => Some(second),
                None => None,
            },
        ),
        SegmentPlan::Whole { len } => Piece::Whole(first),
        SegmentPlan::Nothing => Piece::Nothing,
    }
}

/// Decides how to read a piece of bitstream.
pub fn segment_plan(b: &VencOutputBuffer) -> (plan: SegmentPlan)
    requires
        b.p_data0 != 0 && b.n_size0 != 0 ==> b.n_size0 + b.n_size1 <= u32::MAX,
    ensures
        plan == plan_of(*b),
{
    if b.p_data0 != 0 && b.n_size0 != 0 && b.n_size0 + b.n_size1 == b.n_total_size {
        SegmentPlan::Split {
            len0: b.n_size0,
            len1: if b.p_data1 != 0 && b.n_size1 != 0 {
                Some(b.n_size1)
            } else {
                None
            },
        }
    } else if b.p_data0 != 0 && b.n_total_size != 0 {
        SegmentPlan::Whole { len: b.n_total_size }
    } else {
        SegmentPlan::Nothing
    }
}

/// Something to give back when a capture ends.
#[derive(Clone, Copy, Debug, PartialEq, Eq, Structural)]
pub enum Release {
    /// Hand the used input buffer back to the encoder's pool.
    ReturnInput,
    FreeBuffers,
    UninitEncoder,
    DestroyEncoder,
    CloseMemory,
    /// Let others at the process's capture slot.
    FreeSlot,
}

/// What is given back, in order: the encoder's things first, innermost first,
/// then the memory adapter, and the capture slot last.
pub open spec fn releases(s: CaptureState) -> Seq<Release> {
    (if s.enc_created && s.held {
        seq![Release::ReturnInput]
    } else {
        Seq::empty()
    }) + (if s.enc_created && s.buffers_alloced {
        seq![Release::FreeBuffers]
    } else {
        Seq::empty()
    }) + (if s.enc_created && s.enc_inited {
        seq![Release::UninitEncoder]
    } else {
        Seq::empty()
    }) + (if s.enc_created {
        seq![Release::DestroyEncoder]
    } else {
        Seq::empty()
    }) + (if s.mem_open && s.mem_ops != 0 {
        seq![Release::CloseMemory]
    } else {
        Seq::empty()
    }) + seq![Release::FreeSlot]
}

impl Capture {
    /// Gives the capture up: what to give back, however the capture ended.
    /// The slot is free for the next one, which is let at it last.
    pub fn teardown(self, slot: &mut CaptureSlot) -> (plan: Vec<Release>)
        ensures
            plan@ == releases(self.state()),
            !final(slot).is_open(),
    {
        slot.release();
        let mut plan: Vec<Release> = Vec::new();
        if self.s.enc_created {
            if self.s.held {
                plan.push(Release::ReturnInput);
            }
            if self.s.buffers_alloced {
                plan.push(Release::FreeBuffers);
            }
            if self.s.enc_inited {
                plan.push(Release::UninitEncoder);
            }
            plan.push(Release::DestroyEncoder);
        }
        if self.s.mem_open && self.s.mem_ops != 0 {
            plan.push(Release::CloseMemory);
        }
        plan.push(Release::FreeSlot);
        assert(plan@ =~= releases(self.state()));
        plan
    }
}

/// A byte of the padded surface lies inside the panel's image.
pub open spec fn in_image(s: CaptureState, col: int, row: int) -> bool {
    s.pad.pad_x * 4 <= col < s.pad.pad_x * 4 + s.w * 4 && s.pad.pad_y <= row < s.pad.pad_y + s.h
}

/// `plane` is `base` with the panel's picture `fb` centred in it.
pub open spec fn is_centred_copy(
    s: CaptureState,
    fb: Seq<u8>,
    base: Seq<u8>,
    plane: Seq<u8>,
) -> bool {
    let dst_pitch = s.pad.pad_w * 4;
    &&& plane.len() == base.len()
    &&& forall|col: int, row: int|
        0 <= col < dst_pitch && 0 <= row < s.pad.pad_h ==> #[trigger] convert::cell(
            plane,
            dst_pitch,
            col,
            row,
        ) == if in_image(s, col, row) {
            fb[(row - s.pad.pad_y) * s.pitch + (col - s.pad.pad_x * 4)]
        } else {
            convert::cell(base, dst_pitch, col, row)
        }
    &&& forall|i: int|
        dst_pitch * s.pad.pad_h <= i < plane.len() ==> #[trigger] plane[i] == base[i]
}

/// The surface with its first `n` bytes black.
pub open spec fn blacked(plane: Seq<u8>, n: int) -> Seq<u8> {
    Seq::new(
        plane.len(),
        |i: int|
            if i < n {
                0u8
            } else {
                plane[i]
            },
    )
}

/// The input buffer and the framebuffer copy are large enough for the shape
/// the picture is handed over in.
pub open spec fn fill_fits(s: CaptureState, fb: int, y: int, uv: int) -> bool {
    if s.rgb_in && s.pad.padded {
        &&& s.pad.pad_x + s.w <= s.pad.pad_w
        &&& s.pad.pad_y + s.h <= s.pad.pad_h
        &&& s.pad.pad_w * 4 * s.pad.pad_h <= y
        &&& convert::rows_fit(fb, s.pitch as int, s.w as int, s.h as int, 4)
    } else if s.rgb_in {
        s.frame_bytes <= fb && s.frame_bytes <= y
    } else {
        &&& s.w * s.h <= y
        &&& convert::chroma_len(s.w as int, s.h as int) <= uv
        &&& if s.bpp == 32 {
            convert::rows_fit(fb + 1, s.pitch as int, s.w as int, s.h as int, 4)
        } else {
            convert::rows_fit(fb, s.pitch as int, s.w as int, s.h as int, 2)
        }
    }
}

/// The input buffer holds the picture in the shape the input format asks for.
pub open spec fn is_filled(
    s: CaptureState,
    fb: &[u8],
    y0: Seq<u8>,
    uv0: Seq<u8>,
    y: Seq<u8>,
    uv: Seq<u8>,
) -> bool {
    if s.rgb_in && s.pad.padded {
        let base = if s.bars_cleared {
            y0
        } else {
            blacked(y0, s.pad.pad_w * 4 * s.pad.pad_h)
        };
        is_centred_copy(s, fb@, base, y) && uv == uv0
    } else if s.rgb_in {
        y == fb@.take(s.frame_bytes as int) + y0.skip(s.frame_bytes as int) && uv == uv0
    } else if s.bpp == 32 {
        convert::is_nv12_of(
            (convert::Bgra { src: fb, pitch: s.pitch as usize }),
            s.w as int,
            s.h as int,
            y0,
            uv0,
            y,
            uv,
        )
    } else {
        exists|order: convert::ByteOrder|
            convert::is_nv12_of(
                #[trigger] convert::rgb565_picture(fb, s.pitch as usize, order),
                s.w as int,
                s.h as int,
                y0,
                uv0,
                y,
                uv,
            )
    }
}

/// Writes `n` zero bytes.
fn black_out(plane: &mut [u8], n: usize)
    requires
        n <= old(plane)@.len(),
    ensures
        final(plane)@ == blacked(old(plane)@, n as int),
{
    let mut i: usize = 0;
    while i < n
        invariant
            i <= n,
            n <= plane@.len(),
            plane@ == blacked(old(plane)@, i as int),
        decreases n - i,
    {
        plane[i] = 0;
        i = i + 1;
        assert(plane@ =~= blacked(old(plane)@, i as int));
    }
    assert(plane@ =~= blacked(old(plane)@, n as int));
}

/// Copies the panel's rows into the centre of the padded surface.
fn copy_centred(s: &CaptureState, fb: &[u8], plane: &mut [u8], dst_pitch: usize)
    requires
        dst_pitch == s.pad.pad_w * 4,
        s.pad.pad_x + s.w <= s.pad.pad_w,
        s.pad.pad_y + s.h <= s.pad.pad_h,
        s.pad.pad_w * 4 * s.pad.pad_h <= old(plane)@.len(),
        convert::rows_fit(fb@.len() as int, s.pitch as int, s.w as int, s.h as int, 4),
    ensures
        is_centred_copy(*s, fb@, old(plane)@, final(plane)@),
{
    let h: usize = s.h as usize;
    let pitch: usize = s.pitch as usize;
    let row_bytes: usize = (s.w as usize) * 4;
    let x0: usize = (s.pad.pad_x as usize) * 4;
    let y0: usize = s.pad.pad_y as usize;
    if row_bytes == 0 {
        return;
    }
    let mut y: usize = 0;
    while y < h
        invariant
            0 < row_bytes,
            y <= h,
            h == s.h,
            pitch == s.pitch,
            row_bytes == s.w * 4,
            x0 == s.pad.pad_x * 4,
            y0 == s.pad.pad_y,
            dst_pitch == s.pad.pad_w * 4,
            s.pad.pad_x + s.w <= s.pad.pad_w,
            s.pad.pad_y + s.h <= s.pad.pad_h,
            dst_pitch * s.pad.pad_h <= plane@.len(),
            plane@.len() == old(plane)@.len(),
            convert::rows_fit(fb@.len() as int, s.pitch as int, s.w as int, s.h as int, 4),
            forall|col: int, row: int|
                0 <= col < dst_pitch && 0 <= row < s.pad.pad_h ==> #[trigger] convert::cell(
                    plane@,
                    dst_pitch as int,
                    col,
                    row,
                ) == if in_image(*s, col, row) && row < y0 + y {
                    fb@[(row - y0) * pitch + (col - x0)]
                } else {
                    convert::cell(old(plane)@, dst_pitch as int, col, row)
                },
            forall|i: int|
                dst_pitch * s.pad.pad_h <= i < plane@.len() ==> #[trigger] plane@[i] == old(
                    plane,
                )@[i],
        decreases h - y,
    {
        let mut i: usize = 0;
        while i < row_bytes
            invariant
                0 < row_bytes,
                i <= row_bytes,
                y < h,
                h == s.h,
                pitch == s.pitch,
                row_bytes == s.w * 4,
                x0 == s.pad.pad_x * 4,
                y0 == s.pad.pad_y,
                dst_pitch == s.pad.pad_w * 4,
                s.pad.pad_x + s.w <= s.pad.pad_w,
                s.pad.pad_y + s.h <= s.pad.pad_h,
                dst_pitch * s.pad.pad_h <= plane@.len(),
                plane@.len() == old(plane)@.len(),
                convert::rows_fit(fb@.len() as int, s.pitch as int, s.w as int, s.h as int, 4),
                forall|col: int, row: int|
                    0 <= col < dst_pitch && 0 <= row < s.pad.pad_h ==> #[trigger] convert::cell(
                        plane@,
                        dst_pitch as int,
                        col,
                        row,
                    ) == if in_image(*s, col, row) && (row < y0 + y || row == y0 + y && col < x0
                        + i) {
                        fb@[(row - y0) * pitch + (col - x0)]
                    } else {
                        convert::cell(old(plane)@, dst_pitch as int, col, row)
                    },
                forall|i: int|
                    dst_pitch * s.pad.pad_h <= i < plane@.len() ==> #[trigger] plane@[i] == old(
                        plane,
                    )@[i],
            decreases row_bytes - i,
        {
            let ghost before = plane@;
            proof {
                convert::lemma_cell_bound(
                    dst_pitch as int,
                    s.pad.pad_h as int,
                    x0 + i,
                    y0 + y,
                );
                assert(y * pitch <= (h - 1) * pitch) by (nonlinear_arith)
                    requires
                        0 <= y <= h - 1,
                        0 <= pitch,
                ;
                assert(0 <= y * pitch) by (nonlinear_arith);
                assert(plane.len() == plane@.len());
                assert(fb.len() == fb@.len());
            }
            plane[(y0 + y) * dst_pitch + x0 + i] = fb[y * pitch + i];
            assert forall|col: int, row: int|
                0 <= col < dst_pitch && 0 <= row < s.pad.pad_h implies #[trigger] convert::cell(
                plane@,
                dst_pitch as int,
                col,
                row,
            ) == if in_image(*s, col, row) && (row < y0 + y || row == y0 + y && col < x0 + i + 1) {
                fb@[(row - y0) * pitch + (col - x0)]
            } else {
                convert::cell(old(plane)@, dst_pitch as int, col, row)
            } by {
                convert::lemma_cell_order(dst_pitch as int, col, row, x0 + i, y0 + y);
                convert::lemma_cell_bound(dst_pitch as int, s.pad.pad_h as int, col, row);
                if col != x0 + i || row != y0 + y {
                    assert(convert::cell(plane@, dst_pitch as int, col, row) == convert::cell(
                        before,
                        dst_pitch as int,
                        col,
                        row,
                    ));
                }
            }
            i = i + 1;
        }
        y = y + 1;
    }
}

/// Copies the first `n` bytes.
fn copy_front(fb: &[u8], plane: &mut [u8], n: usize)
    requires
        n <= fb@.len(),
        n <= old(plane)@.len(),
    ensures
        final(plane)@ == fb@.take(n as int) + old(plane)@.skip(n as int),
{
    let mut i: usize = 0;
    assert(plane@ =~= fb@.take(0) + old(plane)@.skip(0));
    while i < n
        invariant
            i <= n,
            n <= fb@.len(),
            n <= plane@.len(),
            plane@.len() == old(plane)@.len(),
            plane@ == fb@.take(i as int) + old(plane)@.skip(i as int),
        decreases n - i,
    {
        plane[i] = fb[i];
        i = i + 1;
        assert(plane@ =~= fb@.take(i as int) + old(plane)@.skip(i as int));
    }
}

/// Whether `h` rows of `w` items of `size` bytes each, `pitch` bytes apart,
/// lie within `len` bytes.
fn rows_fit(len: u128, pitch: u32, w: u32, h: u32, size: u128) -> (r: bool)
    requires
        size <= 4,
    ensures
        r == convert::rows_fit(len as int, pitch as int, w as int, h as int, size as int),
{
    if w == 0 || h == 0 {
        return true;
    }
    assert(0 <= (h - 1) * pitch <= 0xffff_ffff * 0xffff_ffff) by (nonlinear_arith)
        requires
            1 <= h <= 0xffff_ffff,
            0 <= pitch <= 0xffff_ffff,
    ;
    assert(0 <= w * size <= 0xffff_ffff * 4) by (nonlinear_arith)
        requires
            0 <= w <= 0xffff_ffff,
            0 <= size <= 4,
    ;
    (h as u128 - 1) * (pitch as u128) + (w as u128) * size <= len
}

impl Capture {
    /// Whether buffers of these lengths are large enough for
    /// `convert_into_input_buffer`.
    pub fn fill_fits(&self, fb: usize, y: usize, uv: usize) -> (r: bool)
        ensures
            r == fill_fits(self.state(), fb as int, y as int, uv as int),
    {
        let s: &CaptureState = &self.s;
        let (w, h): (u64, u64) = (s.w as u64, s.h as u64);
        if s.rgb_in && s.pad.padded {
            let (pw, ph): (u64, u64) = (s.pad.pad_w as u64, s.pad.pad_h as u64);
            assert(0 <= pw * 4 * ph <= 0xffff_ffff * 4 * 0xffff_ffff) by (nonlinear_arith)
                requires
                    0 <= pw <= 0xffff_ffff,
                    0 <= ph <= 0xffff_ffff,
            ;
            s.pad.pad_x as u64 + w <= pw && s.pad.pad_y as u64 + h <= ph && (pw as u128) * 4 * (
            ph as u128) <= y as u128 && rows_fit(fb as u128, s.pitch, s.w, s.h, 4)
        } else if s.rgb_in {
            s.frame_bytes <= fb && s.frame_bytes <= y
        } else {
            assert(0 <= w * h <= 0xffff_ffff * 0xffff_ffff) by (nonlinear_arith)
                requires
                    0 <= w <= 0xffff_ffff,
                    0 <= h <= 0xffff_ffff,
            ;
            let rows: u64 = (h + 1) / 2;
            assert(0 <= rows * w <= 0x1_0000_0000 * 0xffff_ffff) by (nonlinear_arith)
                requires
                    0 <= w <= 0xffff_ffff,
                    0 <= rows <= 0x1_0000_0000,
            ;
            let chroma: u64 = if w == 0 || h == 0 {
                0
            } else {
                rows * w + w % 2
            };
            w * h <= y as u64 && chroma <= uv as u64 && if s.bpp == 32 {
                rows_fit(fb as u128 + 1, s.pitch, s.w, s.h, 4)
            } else {
                rows_fit(fb as u128, s.pitch, s.w, s.h, 2)
            }
        }
    }

    /// Hands the framebuffer copy `fb` over to the input buffer's planes `y`
    /// and `uv`, in whichever shape the input format asks for: rows centred in
    /// a padded surface, the bytes as they are, or converted to NV12. The
    /// black bars of a padded surface are painted once; the encoder hands back
    /// the same single buffer every time, so they stay.
    pub fn convert_into_input_buffer(&mut self, fb: &[u8], y: &mut [u8], uv: &mut [u8])
        requires
            old(self).wf(),
            old(self).state().phase == Phase::Convert,
            fill_fits(
                old(self).state(),
                fb@.len() as int,
                old(y)@.len() as int,
                old(uv)@.len() as int,
            ),
        ensures
            is_filled(
                old(self).state(),
                fb,
                old(y)@,
                old(uv)@,
                final(y)@,
                final(uv)@,
            ),
            final(self).state() == (CaptureState {
                bars_cleared: old(self).state().bars_cleared || (old(self).state().rgb_in && old(
                    self,
                ).state().pad.padded),
                ..old(self).state()
            }),
            final(self).bytes() == old(self).bytes(),
            final(self).sets() == old(self).sets(),
            final(self).wf(),
    {
        let ghost s = self.s;
        if self.s.rgb_in && self.s.pad.padded {
            let pad_h: usize = self.s.pad.pad_h as usize;
            proof {
                assert(y.len() == y@.len());
                if pad_h > 0 {
                    assert(s.pad.pad_w * 4 <= s.pad.pad_w * 4 * s.pad.pad_h) by (nonlinear_arith)
                        requires
                            s.pad.pad_h > 0,
                            s.pad.pad_w >= 0,
                    ;
                }
            }
            if pad_h == 0 {
                self.s.bars_cleared = true;
                assert(s.pad.pad_w * 4 * s.pad.pad_h == 0) by (nonlinear_arith)
                    requires
                        s.pad.pad_h == 0,
                ;
                assert(blacked(y@, 0) =~= y@);
                return;
            }
            let dst_pitch: usize = (self.s.pad.pad_w as usize) * 4;
            if !self.s.bars_cleared {
                black_out(y, dst_pitch * pad_h);
                self.s.bars_cleared = true;
            }
            copy_centred(&self.s, fb, y, dst_pitch);
        } else if self.s.rgb_in {
            copy_front(fb, y, self.s.frame_bytes);
        } else if self.s.bpp == 32 {
            convert::bgra_to_nv12(
                fb,
                self.s.pitch as usize,
                self.s.w as usize,
                self.s.h as usize,
                y,
                uv,
            );
        } else {
            convert::rgb565_to_nv12(
                fb,
                self.s.pitch as usize,
                self.s.w as usize,
                self.s.h as usize,
                y,
                uv,
            );
        }
    }
}

/// A failure is terminal: a dead capture stays as it is whenever the next
/// frame is asked for, with the error it died of.
pub proof fn law_failure_is_terminal(s: CaptureState, e: CaptureError, now: i64)
    ensures
        after_begin(s.died(e), now) == s.died(e),
        alive(after_begin(s.died(e), now)) == Err::<(), CaptureError>(e),
{
}

/// A stall is not replayed as a burst: the deadline after a frame begun at
/// `now` is never in the past, never closer than an interval to the one
/// before, and at most one interval beyond the later of the two.
pub proof fn law_no_burst_after_a_stall(deadline: int, frame_ns: int, now: int)
    requires
        frame_ns >= 0,
    ensures
        next_deadline(deadline, frame_ns, now) >= now,
        next_deadline(deadline, frame_ns, now) >= deadline + frame_ns,
        next_deadline(deadline, frame_ns, now) <= frame_ns + if deadline > now {
            deadline
        } else {
            now
        },
        deadline + frame_ns >= now ==> next_deadline(deadline, frame_ns, now) == deadline
            + frame_ns,
{
}

/// A request for a key frame goes with the next picture, and with no other.
pub proof fn law_a_key_frame_request_is_one_shot(s: CaptureState, t0: i64, t1: i64)
    ensures
        submission(CaptureState { force_idr: true, ..s }).force_key_frame,
        !submission(after_converted(s, t0, t1)).force_key_frame,
{
}

/// Every key frame that is handed on carries its parameter sets in front,
/// once the stored sets are known.
pub proof fn law_every_key_frame_carries_its_sets(out: Seq<u8>, sets: Seq<u8>)
    requires
        bitstream::is_key_frame(out),
        bitstream::leads_with_parameter_sets(sets),
    ensures
        bitstream::leads_with_parameter_sets(delivered(out, sets)),
{
    bitstream::law_prepended_sets_lead(sets, out);
}

/// Handing a frame on does not change whether it is a key frame, and a frame
/// that is none is handed on as it is.
pub proof fn law_delivery_keeps_the_frame_kind(out: Seq<u8>, sets: Seq<u8>)
    requires
        bitstream::is_annexb(out),
        forall|p: int| #[trigger]
            bitstream::is_nal_header(sets, p) ==> !bitstream::is_slice_type(
                bitstream::nal_type_at(sets, p),
            ),
    ensures
        bitstream::is_key_frame(delivered(out, sets)) == bitstream::is_key_frame(out),
        !bitstream::is_key_frame(out) ==> delivered(out, sets) == out,
{
    bitstream::law_prepended_sets_keep_the_frame_kind(sets, out);
}

/// The flag of a completed frame tells of the frame as it is handed on, though
/// it was taken before the sets were put in front.
pub proof fn law_the_flag_tells_of_the_frame(s: CaptureState, out: Seq<u8>, sets: Seq<u8>)
    requires
        bitstream::is_annexb(out),
        forall|p: int| #[trigger]
            bitstream::is_nal_header(sets, p) ==> !bitstream::is_slice_type(
                bitstream::nal_type_at(sets, p),
            ),
    ensures
        ({
            let (end, bytes) = after_recycled(s, out, sets, 0);
            end.keyframe == bitstream::is_key_frame(bytes)
        }),
{
    law_delivery_keeps_the_frame_kind(out, sets);
}

/// Teardown gives back each thing that is held and nothing else, each once,
/// and the capture slot after all of them.
pub proof fn law_teardown_gives_back_what_is_held(s: CaptureState)
    requires
        s.wf(),
    ensures
        releases(s).no_duplicates(),
        releases(s).contains(Release::ReturnInput) == s.held,
        releases(s).contains(Release::FreeBuffers) == s.buffers_alloced,
        releases(s).contains(Release::UninitEncoder) == s.enc_inited,
        releases(s).contains(Release::DestroyEncoder) == s.enc_created,
        releases(s).contains(Release::CloseMemory) == s.mem_open,
        releases(s).last() == Release::FreeSlot,
{
    let r = releases(s);
    if s.held {
        assert(r =~= seq![
            Release::ReturnInput,
            Release::FreeBuffers,
            Release::UninitEncoder,
            Release::DestroyEncoder,
            Release::CloseMemory,
            Release::FreeSlot,
        ]);
        assert(r[0] == Release::ReturnInput && r[1] == Release::FreeBuffers && r[2]
            == Release::UninitEncoder && r[3] == Release::DestroyEncoder && r[4]
            == Release::CloseMemory);
    } else if s.buffers_alloced {
        assert(r =~= seq![
            Release::FreeBuffers,
            Release::UninitEncoder,
            Release::DestroyEncoder,
            Release::CloseMemory,
            Release::FreeSlot,
        ]);
        assert(r[0] == Release::FreeBuffers && r[1] == Release::UninitEncoder && r[2]
            == Release::DestroyEncoder && r[3] == Release::CloseMemory);
    } else if s.enc_inited {
        assert(r =~= seq![
            Release::UninitEncoder,
            Release::DestroyEncoder,
            Release::CloseMemory,
            Release::FreeSlot,
        ]);
        assert(r[0] == Release::UninitEncoder && r[1] == Release::DestroyEncoder && r[2]
            == Release::CloseMemory);
    } else if s.enc_created {
        assert(r =~= seq![Release::DestroyEncoder, Release::CloseMemory, Release::FreeSlot]);
        assert(r[0] == Release::DestroyEncoder && r[1] == Release::CloseMemory);
    } else if s.mem_open {
        assert(r =~= seq![Release::CloseMemory, Release::FreeSlot]);
        assert(r[0] == Release::CloseMemory);
    } else {
        assert(r =~= seq![Release::FreeSlot]);
    }
}

/// When every vendor call succeeds, opening ends ready for the first frame,
/// with everything held and the first frame due at once.
pub proof fn law_a_smooth_opening_is_ready(
    s: CaptureState,
    g: FbGeometry,
    ve_ops: u64,
    mem_ops: u64,
    now: i64,
)
    requires
        s.wf(),
        s.phase == Phase::Framebuffer,
        crate::framebuffer::geometry_fault(g.w, g.h, g.bpp, s.width, s.height) is None,
        ve_ops != 0,
        mem_ops != 0,
    ensures
        ({
            let a = after_mem_open(after_ops(after_framebuffer(s, g), ve_ops, mem_ops, true), 0);
            let b = after_encoder(a, true);
            let c = if b.phase == Phase::Bitrate {
                after_bitrate(b, Some(0i32))
            } else {
                b
            };
            let d = after_buffers(after_init(c, 0), 0).at(Phase::FirstInput);
            let e = after_first_input(d, 0, now);
            e.phase == Phase::Idle && e.held && e.failed is None && e.deadline == now && e.frames
                == s.frames
        }),
{
}

/// The state and the bytes of a capture after a frame in which every vendor
/// call succeeded: `read` bytes came from the panel, filling and encoding took
/// the given times, `header` are the parameter sets where they were asked for,
/// and `pieces` is the bitstream that was drained.
pub open spec fn after_smooth_frame(
    s: CaptureState,
    sets: Seq<u8>,
    now: i64,
    read: u64,
    t0: i64,
    t1: i64,
    elapsed: i64,
    header: Seq<u8>,
    pieces: Seq<Piece>,
) -> (CaptureState, Seq<u8>) {
    let filled = CaptureState {
        bars_cleared: s.bars_cleared || s.rgb_in && s.pad.padded,
        ..after_read(after_begin(s, now), Ok(read))
    };
    let submitted = after_submitted(after_converted(filled, t0, t1), 0);
    let encoded = after_encoded(submitted, Seq::empty(), sets, 0, elapsed);
    let draining = if encoded.0.phase == Phase::Header {
        after_header(encoded.0, encoded.1, header)
    } else {
        encoded
    };
    after_recycled(
        after_count(draining.0, 0),
        draining.1 + drained(pieces),
        if s.sps_pps_fetched {
            sets
        } else {
            header
        },
        0,
    )
}

/// A frame in which every vendor call succeeds is handed on, and it is exactly
/// the bitstream that was drained, with the parameter sets in front where it
/// is the first frame or a key frame that lacks them. The capture is then ready
/// for the next frame, holds what it held, and knows its parameter sets.
pub proof fn law_a_smooth_frame_is_what_was_drained(
    s: CaptureState,
    sets: Seq<u8>,
    now: i64,
    read: u64,
    t0: i64,
    t1: i64,
    elapsed: i64,
    header: Seq<u8>,
    pieces: Seq<Piece>,
)
    requires
        s.wf(),
        s.phase == Phase::Idle,
        s.frames < i32::MAX,
    ensures
        ({
            let (end, bytes) = after_smooth_frame(
                s,
                sets,
                now,
                read,
                t0,
                t1,
                elapsed,
                header,
                pieces,
            );
            let known = if s.sps_pps_fetched {
                sets
            } else {
                header
            };
            &&& end.phase == Phase::Idle
            &&& end.failed is None
            &&& end.frames == s.frames + 1
            &&& end.held
            &&& end.sps_pps_fetched
            &&& !end.force_idr
            &&& bytes == delivered(
                (if s.frames == 0 {
                    known
                } else {
                    Seq::empty()
                }) + drained(pieces),
                known,
            )
        }),
{
    let first = if s.frames == 0 {
        Seq::<u8>::empty() + (if s.sps_pps_fetched {
            sets
        } else {
            header
        })
    } else {
        Seq::<u8>::empty()
    };
    assert(first =~= if s.frames == 0 {
        if s.sps_pps_fetched {
            sets
        } else {
            header
        }
    } else {
        Seq::<u8>::empty()
    });
}

/// The black bars stay black: once the surface was blacked and a picture
/// centred in it, the next picture leaves everything around it at zero.
pub proof fn law_bars_stay_black(
    s: CaptureState,
    fb1: Seq<u8>,
    fb2: Seq<u8>,
    y0: Seq<u8>,
    y1: Seq<u8>,
    y2: Seq<u8>,
    col: int,
    row: int,
)
    requires
        s.pad.pad_w * 4 * s.pad.pad_h <= y0.len(),
        is_centred_copy(s, fb1, blacked(y0, s.pad.pad_w * 4 * s.pad.pad_h), y1),
        is_centred_copy(s, fb2, y1, y2),
        0 <= col < s.pad.pad_w * 4,
        0 <= row < s.pad.pad_h,
        !in_image(s, col, row),
    ensures
        convert::cell(y2, s.pad.pad_w * 4, col, row) == 0,
{
    convert::lemma_cell_bound(s.pad.pad_w * 4, s.pad.pad_h as int, col, row);
    let black = blacked(y0, s.pad.pad_w * 4 * s.pad.pad_h);
    assert(convert::cell(black, s.pad.pad_w * 4, col, row) == 0);
    assert(convert::cell(y1, s.pad.pad_w * 4, col, row) == 0);
}

/// After a stall of more than an interval the next frame is due one interval
/// from now, not sooner and not later; the frames that were missed are not made
/// up for.
pub proof fn law_a_stall_is_followed_by_one_interval(deadline: int, frame_ns: int, now: int)
    requires
        now - deadline > frame_ns >= 0,
    ensures
        next_deadline(deadline, frame_ns, now) - now == frame_ns,
{
}

/// Frames that are taken in time are due at a steady rate: so many of them are
/// due so many intervals apart, however late within an interval each was taken.
pub proof fn law_frames_in_time_are_due_at_a_steady_rate(
    deadline: int,
    frame_ns: int,
    first: int,
    second: int,
)
    requires
        frame_ns >= 0,
        first <= deadline + frame_ns,
        second <= deadline + 2 * frame_ns,
    ensures
        next_deadline(next_deadline(deadline, frame_ns, first), frame_ns, second) == deadline + 2
            * frame_ns,
{
}

/// The frame rate in force is what was asked for where that is a rate at all,
/// and 30 otherwise.
pub proof fn law_a_rate_is_always_in_force(fps: i32)
    ensures
        effective_fps(fps) > 0,
        fps > 0 ==> effective_fps(fps) == fps,
        fps <= 0 ==> effective_fps(fps) == 30,
{
}

/// The interval between frames is a second over the frame rate, rounded down to
/// a nanosecond, and the first frame is due when the capture is ready.
pub proof fn law_an_interval_is_a_second_over_the_rate(s: CaptureState, now: i64)
    requires
        s.fps > 0,
    ensures
        ({
            let t = after_first_input(s, 0, now);
            &&& t.frame_ns * s.fps <= 1_000_000_000 < t.frame_ns * s.fps + s.fps
            &&& t.deadline == now
        }),
{
    let fps = s.fps as int;
    let q = 1_000_000_000int / fps;
    vstd::arithmetic::div_mod::lemma_fundamental_div_mod(1_000_000_000, fps);
    vstd::arithmetic::div_mod::lemma_mod_bound(1_000_000_000, fps);
    assert(0 <= q <= 1_000_000_000) by (nonlinear_arith)
        requires
            fps * q <= 1_000_000_000 < fps * q + fps,
            fps > 0,
    ;
    assert(q * fps == fps * q) by (nonlinear_arith);
}

/// Presentation times start at 0 and go up by the same step with each frame: a
/// second over the frame rate, in microseconds, rounded down. Only the first
/// frame is marked as the first.
pub proof fn law_presentation_times_follow_the_rate(s: CaptureState, n: i32)
    requires
        s.fps > 0,
        0 <= n < i32::MAX,
    ensures
        ({
            let a = submission(CaptureState { frames: n, ..s });
            let b = submission(CaptureState { frames: (n + 1) as i32, ..s });
            let first = submission(CaptureState { frames: 0, ..s });
            let step = b.n_pts - a.n_pts;
            &&& first.n_pts == 0
            &&& step * s.fps <= 1_000_000 < step * s.fps + s.fps
            &&& first.b_is_first_frame == 1
            &&& b.b_is_first_frame == 0
        }),
{
    let fps = s.fps as int;
    let q = 1_000_000int / fps;
    vstd::arithmetic::div_mod::lemma_fundamental_div_mod(1_000_000, fps);
    vstd::arithmetic::div_mod::lemma_mod_bound(1_000_000, fps);
    assert(0 <= q <= 1_000_000) by (nonlinear_arith)
        requires
            fps * q <= 1_000_000 < fps * q + fps,
            fps > 0,
    ;
    assert(q * fps == fps * q) by (nonlinear_arith);
    assert((n + 1) * q == n * q + q) by (nonlinear_arith);
    assert(0 <= n * q && (n + 1) * q <= 0x7fff_ffff * 1_000_000) by (nonlinear_arith)
        requires
            0 <= n,
            n + 1 <= 0x7fff_ffff,
            0 <= q <= 1_000_000,
    ;
    assert(0 * q == 0) by (nonlinear_arith);
}

/// A read of the panel is whole when it has as many bytes as the panel's rows,
/// each of its pitch. Any other count is told in the statistics, once, and the
/// frame goes on; an error ends the capture.
pub proof fn law_a_short_read_is_counted_and_goes_on(s: CaptureState, n: u64, e: ReadError)
    requires
        s.failed is None,
        s.short_reads < u32::MAX,
    ensures
        after_read(s, Ok(n)).failed is None,
        after_read(s, Ok(n)).phase == Phase::Convert,
        n == s.frame_bytes ==> after_read(s, Ok(n)).short_reads == s.short_reads,
        n != s.frame_bytes ==> after_read(s, Ok(n)).short_reads == s.short_reads + 1,
        alive(after_read(s, Err(e))) == Err::<(), CaptureError>(CaptureError::Read(e)),
{
}

/// Opening takes over the panel's own size, depth and pitch, and a frame is all
/// its rows. A panel of another size than was asked for, where one was, or of a
/// depth that is neither 32 nor 16 bits, is refused.
pub proof fn law_a_panel_is_taken_as_it_is(s: CaptureState, g: FbGeometry)
    requires
        s.failed is None,
        g.pitch * g.h <= usize::MAX,
    ensures
        ({
            let t = after_framebuffer(s, g);
            let fits = (g.bpp == 32 || g.bpp == 16) && (s.width == 0 || s.width == g.w) && (
            s.height == 0 || s.height == g.h);
            &&& alive(t) is Ok <==> fits
            &&& fits ==> t.w == g.w && t.h == g.h && t.bpp == g.bpp && t.pitch == g.pitch
                && t.frame_bytes == g.pitch * g.h && t.fb_open
            &&& fits ==> t.pad.pad_w >= g.w || !geometry_fits(s, g)
        }),
{
    assert(0 <= g.pitch * g.h) by (nonlinear_arith);
    if geometry_fits(s, g) {
        if crate::framebuffer::geometry_fault(g.w, g.h, g.bpp, s.width, s.height) is None {
            geometry::law_never_crops(g.w, g.h, s.dst_w, s.dst_h);
        }
    }
}

/// A vendor call that fails ends the capture with the error of that call, and
/// one that succeeds does not. Zero is success, except that the memory adapter
/// fails only with a negative number.
pub proof fn law_a_failed_call_ends_the_capture(
    s: CaptureState,
    rc: i32,
    n: u64,
    m: u64,
    found: bool,
)
    requires
        s.failed is None,
    ensures
        alive(after_ops(s, n, m, found)) == if n == 0 || m == 0 {
            Err::<(), CaptureError>(CaptureError::OpsNull)
        } else if !found {
            Err(CaptureError::MemOpenMissing)
        } else {
            Ok(())
        },
        alive(after_mem_open(s, rc)) == if rc < 0 {
            Err::<(), CaptureError>(CaptureError::MemOpenFailed)
        } else {
            Ok(())
        },
        alive(after_encoder(s, found)) == if found {
            Ok::<(), CaptureError>(())
        } else {
            Err(CaptureError::CreateFailed)
        },
        alive(after_bitrate(s, None)) == Err::<(), CaptureError>(CaptureError::BitrateUnsupported),
        rc == 0 <==> alive(after_bitrate(s, Some(rc))) is Ok,
        rc == 0 <==> alive(after_init(s, rc)) is Ok,
        rc == 0 <==> alive(after_buffers(s, rc)) is Ok,
        rc == 0 <==> alive(after_first_input(s, rc, 0)) is Ok,
        rc == 0 <==> alive(after_submitted(s, rc)) is Ok,
        rc == 0 <==> alive(after_encoded(s, Seq::empty(), Seq::empty(), rc, 0).0) is Ok,
        rc == 0 <==> alive(after_recycled(s, Seq::empty(), Seq::empty(), rc).0) is Ok,
        rc != 0 ==> {
            &&& alive(after_bitrate(s, Some(rc))) == Err::<(), CaptureError>(
                CaptureError::BitrateFailed { bitrate: s.bitrate },
            )
            &&& alive(after_init(s, rc)) == Err::<(), CaptureError>(CaptureError::InitFailed)
            &&& alive(after_buffers(s, rc)) == Err::<(), CaptureError>(CaptureError::AllocFailed)
            &&& alive(after_first_input(s, rc, 0)) == Err::<(), CaptureError>(
                CaptureError::NoInputBuffer,
            )
            &&& alive(after_submitted(s, rc)) == Err::<(), CaptureError>(
                CaptureError::AddInput { frame: s.frames },
            )
            &&& alive(after_encoded(s, Seq::empty(), Seq::empty(), rc, 0).0) == Err::<
                (),
                CaptureError,
            >(CaptureError::Encode { frame: s.frames })
            &&& alive(after_recycled(s, Seq::empty(), Seq::empty(), rc).0) == Err::<
                (),
                CaptureError,
            >(CaptureError::GetInput { frame: s.frames })
        },
{
}

/// A piece that the encoder refuses ends the capture only where nothing of the
/// frame has come yet; after that it is the end of the frame.
pub proof fn law_a_refused_piece_ends_what_has_begun(s: CaptureState, drained: nat, rc: i32)
    requires
        s.failed is None,
    ensures
        ({
            let t = after_bitstream(s, drained, rc);
            &&& rc == 0 ==> t.phase == Phase::Piece && t.failed is None
            &&& rc != 0 && drained == s.before_drain ==> alive(t) == Err::<(), CaptureError>(
                CaptureError::GetBitstream { frame: s.frames },
            )
            &&& rc != 0 && drained != s.before_drain ==> t.phase == Phase::Recycle && t.failed is None
        }),
{
}

/// A bitrate is set exactly where one was asked for.
pub proof fn law_a_bitrate_is_set_where_one_is_asked_for(s: CaptureState)
    ensures
        s.bitrate > 0 ==> call_due(after_encoder(s, true)) == Call::SetBitrate(s.bitrate),
        s.bitrate <= 0 ==> call_due(after_encoder(s, true)) == Call::InitEncoder,
{
}

/// The engine scales without distorting: what goes in has the shape of what
/// comes out, up to the alignment of the grown side, and what comes out has the
/// size that was negotiated, where one was. The panel is aligned and the sides
/// fit 32 bits.
pub proof fn law_the_engine_scales_without_distorting(
    s: CaptureState,
    g: FbGeometry,
    c: VencBaseConfig,
)
    requires
        geometry_fits(s, g),
        crate::framebuffer::geometry_fault(g.w, g.h, g.bpp, s.width, s.height) is None,
        is_base_config(after_framebuffer(s, g), c),
        g.w % 16 == 0,
        g.h % 16 == 0,
        s.dst_w > 0 && s.dst_h > 0 ==> g.h * s.dst_w < s.dst_h * 0x1_0000_0000 && g.w * s.dst_h
            < s.dst_w * 0x1_0000_0000,
    ensures
        c.n_input_width >= g.w && c.n_input_height >= g.h,
        s.dst_w > 0 ==> c.n_dst_width == s.dst_w,
        s.dst_h > 0 ==> c.n_dst_height == s.dst_h,
        s.dst_w == 0 && s.dst_h == 0 ==> c.n_dst_width == c.n_input_width && c.n_dst_height
            == c.n_input_height,
        s.dst_w > 0 && s.dst_h > 0 ==> {
            let miss = c.n_input_width * s.dst_h - c.n_input_height * s.dst_w;
            &&& c.n_input_width > g.w ==> -8 * s.dst_h < miss <= 8 * s.dst_h
            &&& c.n_input_height > g.h ==> -8 * s.dst_w <= miss < 8 * s.dst_w
            &&& c.n_input_width == g.w || c.n_input_height == g.h
        },
        s.dst_w > 0 && s.dst_h > 0 && g.w * s.dst_h == g.h * s.dst_w ==> c.n_input_width == g.w
            && c.n_input_height == g.h,
        c.n_input_width > g.w || c.n_input_height > g.h ==> c.n_stride == c.n_input_width,
{
    geometry::law_never_crops(g.w, g.h, s.dst_w, s.dst_h);
    geometry::law_bars_only_for_another_shape(g.w, g.h, s.dst_w, s.dst_h);
    if s.dst_w > 0 && s.dst_h > 0 {
        geometry::law_the_surface_has_the_destinations_shape(g.w, g.h, s.dst_w, s.dst_h);
        let p = geometry::pillarbox(g.w as int, g.h as int, s.dst_w as int, s.dst_h as int);
        assert(p.pad_h == g.h ==> p.pad_h * s.dst_w == g.h * s.dst_w);
        assert(p.pad_w == g.w ==> p.pad_w * s.dst_h == g.w * s.dst_h);
    }
}

/// The input memory holds the surface: four bytes to a pixel where the engine
/// converts, and otherwise one and a half, of which the half is chroma.
pub proof fn law_the_input_memory_holds_the_surface(s: CaptureState, y: int, c: int)
    requires
        is_buffer_request(s, y, c),
        s.pad.pad_w % 2 == 0,
    ensures
        s.rgb_in ==> y + c == 4 * (s.pad.pad_w * s.pad.pad_h),
        !s.rgb_in ==> 2 * (y + c) == 3 * (s.pad.pad_w * s.pad.pad_h) && y == 2 * c,
{
    let half = s.pad.pad_w as int / 2;
    assert(s.pad.pad_w == 2 * half);
    assert(s.pad.pad_w * s.pad.pad_h == 2 * (half * s.pad.pad_h)) by (nonlinear_arith)
        requires
            s.pad.pad_w == 2 * half,
    ;
}

/// The panel stands whole in the middle of a padded surface: each byte of its
/// rows is found as far from the surface's corner as the bars are wide and high,
/// and every byte outside it is black, once the surface was blacked.
pub proof fn law_the_panel_stands_in_the_surface(
    s: CaptureState,
    fb: &[u8],
    y0: Seq<u8>,
    uv0: Seq<u8>,
    y: Seq<u8>,
    uv: Seq<u8>,
    i: int,
    j: int,
)
    requires
        is_filled(s, fb, y0, uv0, y, uv),
        s.rgb_in && s.pad.padded,
        fill_fits(s, fb@.len() as int, y0.len() as int, uv0.len() as int),
    ensures
        0 <= i < 4 * s.w && 0 <= j < s.h ==> y[(s.pad.pad_y + j) * (4 * s.pad.pad_w) + 4
            * s.pad.pad_x + i] == fb@[j * s.pitch + i],
        !s.bars_cleared && 0 <= i < 4 * s.pad.pad_w && 0 <= j < s.pad.pad_h && (i < 4 * s.pad.pad_x
            || i >= 4 * s.pad.pad_x + 4 * s.w || j < s.pad.pad_y || j >= s.pad.pad_y + s.h)
            ==> y[j * (4 * s.pad.pad_w) + i] == 0,
        uv == uv0,
{
    let pitch = s.pad.pad_w * 4;
    assert(pitch == 4 * s.pad.pad_w);
    if 0 <= i < 4 * s.w && 0 <= j < s.h {
        let (col, row) = (4 * s.pad.pad_x + i, s.pad.pad_y + j);
        assert(in_image(s, col, row));
        assert(0 <= col < pitch && 0 <= row < s.pad.pad_h);
        assert(convert::cell(y, pitch, col, row) == fb@[(row - s.pad.pad_y) * s.pitch + (col
            - s.pad.pad_x * 4)]);
    }
    if !s.bars_cleared && 0 <= i < pitch && 0 <= j < s.pad.pad_h && !in_image(s, i, j) {
        let black = blacked(y0, s.pad.pad_w * 4 * s.pad.pad_h);
        convert::lemma_cell_bound(pitch, s.pad.pad_h as int, i, j);
        assert(convert::cell(y, pitch, i, j) == convert::cell(black, pitch, i, j));
    }
}

/// Without bars and where the engine converts, the input is the picture byte
/// for byte, and what lies behind it is not touched.
pub proof fn law_an_unpadded_picture_is_copied(
    s: CaptureState,
    fb: &[u8],
    y0: Seq<u8>,
    uv0: Seq<u8>,
    y: Seq<u8>,
    uv: Seq<u8>,
    i: int,
)
    requires
        is_filled(s, fb, y0, uv0, y, uv),
        s.rgb_in && !s.pad.padded,
        fill_fits(s, fb@.len() as int, y0.len() as int, uv0.len() as int),
        0 <= i < y0.len(),
    ensures
        y.len() == y0.len(),
        y[i] == if i < s.frame_bytes {
            fb@[i]
        } else {
            y0[i]
        },
        uv == uv0,
{
}

/// The parts of a piece are read in full and no further: two runs together have
/// the total that the encoder names, and one run has it alone. A second run
/// without an address is not read, and without a first address nothing is.
pub proof fn law_a_piece_is_read_in_full(b: VencOutputBuffer, first: nat, second: nat)
    requires
        runs_match(plan_of(b), first, second),
    ensures
        b.p_data0 == 0 ==> first == 0 && second == 0,
        b.p_data1 == 0 ==> second == 0,
        first + second <= b.n_total_size,
        b.p_data0 != 0 && b.p_data1 != 0 ==> first + second == b.n_total_size,
        second > 0 ==> second == b.n_size1 && first == b.n_size0,
{
}

/// A frame's bitstream is that of its pieces one after the other. Pieces that a
/// length-prefixing writer made give their units behind start codes, in one run
/// or in two; one run that is neither goes out as it is.
pub proof fn law_pieces_give_their_units(
    a: Seq<Piece>,
    b: Seq<Piece>,
    p: Piece,
    one: Seq<Seq<u8>>,
    two: Seq<Seq<u8>>,
    raw: Seq<u8>,
)
    requires
        bitstream::units_fit_avcc(one),
        bitstream::units_fit_avcc(two),
        one.len() > 0 && one[0].len() != 1,
        two.len() > 0 && two[0].len() != 1,
        !bitstream::is_annexb(raw),
        bitstream::avcc_units(raw) is None,
    ensures
        drained(a + b) == drained(a) + drained(b),
        drained(seq![p]) == piece_bytes(p),
        piece_bytes(Piece::Whole(bitstream::avcc(one))) == bitstream::annexb(one),
        piece_bytes(Piece::Split(bitstream::avcc(one), None)) == bitstream::annexb(one),
        piece_bytes(Piece::Split(bitstream::avcc(one), Some(bitstream::avcc(two))))
            == bitstream::annexb(one + two),
        piece_bytes(Piece::Whole(raw)) == raw,
        piece_bytes(Piece::Nothing).len() == 0,
    decreases b.len(),
{
    if b.len() == 0 {
        assert(a + b =~= a);
        assert(drained(a + b) =~= drained(a) + drained(b));
    } else {
        law_pieces_give_their_units(a, b.drop_last(), p, one, two, raw);
        assert((a + b).drop_last() =~= a + b.drop_last());
        assert((a + b).last() == b.last());
        assert(drained(a + b) =~= drained(a) + drained(b));
    }
    assert(seq![p].drop_last() =~= Seq::<Piece>::empty());
    assert(drained(Seq::<Piece>::empty()) =~= Seq::<u8>::empty());
    assert(seq![p].last() == p);
    assert(drained(seq![p]) =~= piece_bytes(p));
    bitstream::law_conversion_keeps_every_unit(one);
    bitstream::law_conversion_keeps_every_unit(two);
    bitstream::law_units_are_written_one_after_the_other(one, two, one[0]);
    bitstream::law_units_are_written_one_after_the_other(one.drop_last(), seq![one.last()], one.last());
    assert(one.drop_last() + seq![one.last()] =~= one);
    assert(bitstream::annexb(one).len() > 0);
    assert(piece_bytes(Piece::Split(bitstream::avcc(one), None)) =~= bitstream::annexb(one));
}

/// A key frame that brings its own parameter sets is handed on as it is; one
/// that does not gets the stored ones in front, and nothing is taken away.
pub proof fn law_a_frame_is_only_ever_led_by_its_sets(out: Seq<u8>, sets: Seq<u8>)
    ensures
        bitstream::leads_with_parameter_sets(out) ==> delivered(out, sets) == out,
        bitstream::is_key_frame(out) && !bitstream::leads_with_parameter_sets(out) ==> delivered(
            out,
            sets,
        ) == sets + out,
        !bitstream::is_key_frame(out) ==> delivered(out, sets) == out,
{
}

/// The parameter sets are kept where the query succeeded and names between 1
/// and 512 bytes somewhere; otherwise there are none. A configuration record
/// gives the sets that were put in it, and what is no record is kept as it is.
pub proof fn law_stored_sets_are_those_of_the_answer(
    rc: Option<i32>,
    p_buffer: u64,
    n_length: u32,
    raw: Seq<u8>,
    profile: Seq<u8>,
    marker: u8,
    sps: Seq<Seq<u8>>,
    pps: Seq<Seq<u8>>,
)
    requires
        raw.len() < 8 || raw[0] != 1,
        profile.len() == 4,
        marker & 0x1f == sps.len(),
        pps.len() < 0x100,
        sps.len() + pps.len() > 0,
        bitstream::sets_fit_record(sps),
        bitstream::sets_fit_record(pps),
    ensures
        ({
            let usable = rc == Some(0i32) && p_buffer != 0 && 1 <= n_length <= 512;
            let record = bitstream::record(profile, marker, sps, pps);
            &&& usable ==> header_sets(rc, p_buffer, n_length, raw) == raw
            &&& usable ==> header_sets(rc, p_buffer, n_length, record) == bitstream::annexb(
                sps + pps,
            )
            &&& !usable ==> header_sets(rc, p_buffer, n_length, raw).len() == 0
        }),
{
    bitstream::law_record_gives_back_its_sets(profile, marker, sps, pps);
    let record = bitstream::record(profile, marker, sps, pps);
    assert(record[0] == 1);
    bitstream::lemma_prefixed_is_long(sps);
    bitstream::lemma_prefixed_is_long(pps);
    assert(record.len() > 7);
}

/// In which order things are given back: from the innermost, the input buffer,
/// to the outermost, the slot.
pub open spec fn release_rank(r: Release) -> int {
    match r {
        Release::ReturnInput => 0,
        Release::FreeBuffers => 1,
        Release::UninitEncoder => 2,
        Release::DestroyEncoder => 3,
        Release::CloseMemory => 4,
        Release::FreeSlot => 5,
    }
}

/// Nothing is given back before what was built on top of it.
pub proof fn law_teardown_goes_from_the_inside_out(s: CaptureState, i: int, j: int)
    requires
        0 <= i < j < releases(s).len(),
    ensures
        release_rank(releases(s)[i]) < release_rank(releases(s)[j]),
{
}

/// A capture is asked for with what it was opened with, and holds nothing.
pub proof fn law_a_fresh_capture_is_what_was_asked_for(
    width: u32,
    height: u32,
    dst_w: u32,
    dst_h: u32,
    fps: i32,
    bitrate: i32,
    in_fmt: VencPixelFmt,
    stride_bytes: bool,
)
    ensures
        ({
            let s = fresh(width, height, dst_w, dst_h, fps, bitrate, in_fmt, stride_bytes);
            &&& s.width == width && s.height == height && s.dst_w == dst_w && s.dst_h == dst_h
            &&& s.bitrate == bitrate && s.in_fmt == in_fmt && s.stride_bytes == stride_bytes
            &&& fps > 0 ==> s.fps == fps
            &&& s.frames == 0 && !s.force_idr && s.short_reads == 0 && s.failed is None
            &&& releases(s) == seq![Release::FreeSlot]
            &&& call_due(s) == Call::OpenPanel
        }),
{
    let s = fresh(width, height, dst_w, dst_h, fps, bitrate, in_fmt, stride_bytes);
    assert(releases(s) =~= seq![Release::FreeSlot]);
}

/// The engine converts exactly where it is given whole pixels, that is in every
/// format but the semi-planar one, whose number is 0.
pub proof fn law_the_engine_converts_whole_pixels(s: CaptureState)
    ensures
        after_init(s, 0).rgb_in <==> crate::vendor_abi::pixel_fmt_code(s.in_fmt) != 0,
{
}

/// A frame is sampled when it is due and not before, and without waiting where
/// that has passed: sleeping ends at the later of the deadline and now.
pub proof fn law_a_frame_is_sampled_when_due(deadline: int, now: int)
    ensures
        sleep_before(deadline, now) >= 0,
        now + sleep_before(deadline, now) >= deadline,
        now + sleep_before(deadline, now) == deadline || sleep_before(deadline, now) == 0,
{
}

/// Automatic key frames come once a minute, at any frame rate.
pub proof fn law_key_frames_come_once_a_minute(fps: int)
    requires
        fps > 0,
    ensures
        key_gap(fps) / fps == 60,
        key_gap(fps) % fps == 0,
{
    vstd::arithmetic::div_mod::lemma_fundamental_div_mod_converse(key_gap(fps), fps, 60, 0);
}

/// The address of the parameter sets is the translated one where there is one,
/// and else the one in the answer; it is never null where the answer's is not.
pub proof fn law_a_translation_is_taken_where_there_is_one(p_buffer: u64, t: u64)
    requires
        p_buffer != 0,
    ensures
        readable_at(p_buffer, None) == p_buffer,
        readable_at(p_buffer, Some(t)) != 0,
        readable_at(p_buffer, Some(t)) == t || t == 0 && readable_at(p_buffer, Some(t)) == p_buffer,
{
}

/// The time that filling and encoding take adds up in the statistics, each in
/// its own counter, and a failed encode does not count.
pub proof fn law_times_add_up(s: CaptureState, t0: i64, t1: i64, elapsed: i64, rc: i32)
    requires
        s.sps_pps_fetched,
        i64::MIN <= s.convert_ns + (t1 - t0) <= i64::MAX,
        i64::MIN <= s.encode_ns + elapsed <= i64::MAX,
    ensures
        after_converted(s, t0, t1).convert_ns - s.convert_ns == t1 - t0,
        after_converted(s, t0, t1).encode_ns == s.encode_ns,
        ({
            let t = after_encoded(s, Seq::empty(), Seq::empty(), rc, elapsed).0;
            &&& t.convert_ns == s.convert_ns
            &&& rc == 0 ==> t.encode_ns - s.encode_ns == elapsed
            &&& rc != 0 ==> t.encode_ns == s.encode_ns
        }),
{
}

/// The parameter sets are asked for once: with the first frame that is encoded,
/// and never again after.
pub proof fn law_the_sets_are_asked_for_once(
    s: CaptureState,
    out: Seq<u8>,
    sets: Seq<u8>,
    elapsed: i64,
)
    requires
        s.failed is None,
    ensures
        call_due(after_encoded(s, out, sets, 0, elapsed).0) == Call::FetchHeader
            <==> !s.sps_pps_fetched,
        after_header(s, out, sets).0.sps_pps_fetched,
        call_due(after_header(s, out, sets).0) == Call::CountPieces,
{
}

/// Pieces are taken while the encoder has any, and then the frame is complete.
pub proof fn law_pieces_are_taken_while_there_are_any(s: CaptureState, n: i32)
    ensures
        n > 0 ==> call_due(after_count(s, n)) == Call::GetPiece,
        n <= 0 ==> call_due(after_count(s, n)) == Call::RecycleInput,
{
}

/// The very first frame opens with the parameter sets and no other frame gets
/// them at this point; what was there before stays in front.
pub proof fn law_the_first_frame_opens_with_the_sets(
    s: CaptureState,
    out: Seq<u8>,
    sets: Seq<u8>,
)
    requires
        (out + sets).len() <= usize::MAX,
    ensures
        s.frames == 0 ==> drain_start(s, out, sets).1 == out + sets,
        s.frames != 0 ==> drain_start(s, out, sets).1 == out,
        drain_start(s, out, sets).0.before_drain == drain_start(s, out, sets).1.len(),
{
}

/// Panels and destinations of ordinary size are all taken: with sides of up to
/// 16384 pixels, and a pitch of up to eight bytes for each.
pub proof fn law_ordinary_panels_are_taken(s: CaptureState, g: FbGeometry)
    requires
        g.w <= 16_384,
        g.h <= 16_384,
        s.dst_w <= 16_384,
        s.dst_h <= 16_384,
        g.pitch <= 131_072,
    ensures
        geometry_fits(s, g),
{
    geometry::law_ordinary_sides_are_accepted(g.w, g.h, s.dst_w, s.dst_h);
    assert(g.pitch * g.h <= 131_072 * 16_384) by (nonlinear_arith)
        requires
            0 <= g.pitch <= 131_072,
            0 <= g.h <= 16_384,
    ;
    assert(131_072 * 16_384 <= usize::MAX);
}

/// The memory that is asked for holds the picture: for a panel of 32-bit pixels
/// without gaps between its rows and with even sides, a whole read of it can be
/// put into the input buffer, in every shape.
pub proof fn law_the_memory_asked_for_is_enough(s: CaptureState, y: int, c: int)
    requires
        is_buffer_request(s, y, c),
        geometry::target_fits(s.w as int, s.h as int, s.dst_w as int, s.dst_h as int),
        s.pad == geometry::pillarbox(s.w as int, s.h as int, s.dst_w as int, s.dst_h as int),
        s.bpp == 32,
        s.pitch == 4 * s.w,
        s.frame_bytes == s.pitch * s.h,
        s.w % 2 == 0 && s.h % 2 == 0,
        s.w > 0 && s.h > 0,
    ensures
        fill_fits(s, s.frame_bytes as int, y, c),
{
    geometry::law_never_crops(s.w, s.h, s.dst_w, s.dst_h);
    geometry::law_bars_only_for_another_shape(s.w, s.h, s.dst_w, s.dst_h);
    let (w, h, pw, ph) = (s.w as int, s.h as int, s.pad.pad_w as int, s.pad.pad_h as int);
    assert(w * h <= pw * ph) by (nonlinear_arith)
        requires
            0 <= w <= pw,
            0 <= h <= ph,
    ;
    assert(pw * 4 * ph == pw * ph * 4) by (nonlinear_arith);
    assert(4 * w * h == w * h * 4) by (nonlinear_arith);
    assert(s.frame_bytes == 4 * w * h);
    assert((h - 1) * (4 * w) + w * 4 == 4 * w * h) by (nonlinear_arith);
    let half = h / 2;
    assert(h == 2 * half);
    assert(half * w * 2 == w * h) by (nonlinear_arith)
        requires
            h == 2 * half,
    ;
    assert(convert::chroma_len(w, h) == half * w);
    assert(2 * (half * w) <= pw * ph);
}

/// An error says what it is about: a failure within a frame ends with the
/// frame's number, one of the panel with the system's own words, and a bitrate
/// that was refused is named.
pub proof fn law_an_error_says_what_it_is_about(frame: i32, bitrate: i32, message: String)
    ensures
        ({
            let number = crate::text::signed_decimal(frame as int);
            &&& crate::text::ends_with(
                capture_error_text(CaptureError::AddInput { frame }),
                number,
            )
            &&& crate::text::ends_with(capture_error_text(CaptureError::Encode { frame }), number)
            &&& crate::text::ends_with(
                capture_error_text(CaptureError::GetBitstream { frame }),
                number,
            )
            &&& crate::text::ends_with(
                capture_error_text(CaptureError::GetInput { frame }),
                number,
            )
        }),
        crate::text::ends_with(
            capture_error_text(CaptureError::Read(ReadError::Os { message })),
            message@,
        ),
        exists|at: int|
            0 <= at && #[trigger] capture_error_text(CaptureError::BitrateFailed { bitrate }).subrange(
                at,
                at + crate::text::signed_decimal(bitrate as int).len(),
            ) == crate::text::signed_decimal(bitrate as int),
{
    let number = crate::text::signed_decimal(frame as int);
    crate::text::lemma_put_together("AddOneInputBuffer failed at frame "@, number);
    crate::text::lemma_put_together("VideoEncodeOneFrame failed at frame "@, number);
    crate::text::lemma_put_together("GetOneBitstreamFrame failed at frame "@, number);
    crate::text::lemma_put_together("GetOneAllocInputBuffer failed at frame "@, number);
    crate::text::lemma_put_together("pread(/dev/fb0): "@, message@);
    let t = capture_error_text(CaptureError::BitrateFailed { bitrate });
    let n = crate::text::signed_decimal(bitrate as int);
    let at = "VideoEncSetParameter(bitrate="@.len() as int;
    assert(t.subrange(at, at + n.len()) =~= n);
}

} // verus!
