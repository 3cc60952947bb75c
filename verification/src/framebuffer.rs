//! The panel's framebuffer: which geometries are usable, and where in the
//! device the visible picture starts.
//!
//! A plain positioned read into a heap buffer is the fast path. A mapped
//! framebuffer is uncached, so the processor would fetch it one access at a
//! time, and the video engine cannot reach the framebuffer's memory at all.
use crate::text::push_decimal;
use vstd::prelude::*;

verus! {

/// The geometry read from the panel when it was opened.
#[derive(Clone, Copy, Debug, PartialEq, Eq, Structural)]
pub struct FbGeometry {
    pub w: u32,
    pub h: u32,
    pub bpp: u32,
    pub pitch: u32,
    pub xres_virtual: u32,
    pub yres_virtual: u32,
    pub smem_start: u64,
    pub smem_len: u32,
}

/// Why a geometry cannot be captured.
#[derive(Clone, Copy, Debug, PartialEq, Eq, Structural)]
pub enum GeometryError {
    /// Neither 32 nor 16 bits per pixel.
    UnsupportedDepth { bpp: u32 },
    /// A size was asked for that is not the panel's.
    SizeMismatch { req_w: u32, req_h: u32, fb_w: u32, fb_h: u32 },
}

/// The text of a geometry error.
pub open spec fn geometry_error_text(e: GeometryError) -> Seq<char> {
    match e {
        GeometryError::UnsupportedDepth { bpp } => "unsupported bpp "@ + crate::text::decimal(
            bpp as nat,
        ),
        GeometryError::SizeMismatch { req_w, req_h, fb_w, fb_h } => "requested "@
            + crate::text::decimal(req_w as nat) + "x"@ + crate::text::decimal(req_h as nat)
            + " but the framebuffer is "@ + crate::text::decimal(fb_w as nat) + "x"@
            + crate::text::decimal(fb_h as nat) + "; scaling is not supported"@,
    }
}

impl GeometryError {
    pub fn to_string(&self) -> (s: String)
        ensures
            s@ == geometry_error_text(*self),
    {
        match *self {
            GeometryError::UnsupportedDepth { bpp } => {
                let mut s: String = String::from_str("unsupported bpp ");
                push_decimal(&mut s, bpp as u64);
                s
            },
            GeometryError::SizeMismatch { req_w, req_h, fb_w, fb_h } => {
                let mut s: String = String::from_str("requested ");
                push_decimal(&mut s, req_w as u64);
                s.append("x");
                push_decimal(&mut s, req_h as u64);
                s.append(" but the framebuffer is ");
                push_decimal(&mut s, fb_w as u64);
                s.append("x");
                push_decimal(&mut s, fb_h as u64);
                s.append("; scaling is not supported");
                s
            },
        }
    }
}

/// What is wrong with a geometry, if anything. A depth no converter handles is
/// reported before a size that disagrees with the panel.
pub open spec fn geometry_fault(
    fb_w: u32,
    fb_h: u32,
    bpp: u32,
    req_w: u32,
    req_h: u32,
) -> Option<GeometryError> {
    if bpp != 32 && bpp != 16 {
        Some(GeometryError::UnsupportedDepth { bpp })
    } else if (req_w != 0 && req_w != fb_w) || (req_h != 0 && req_h != fb_h) {
        Some(GeometryError::SizeMismatch { req_w, req_h, fb_w, fb_h })
    } else {
        None
    }
}

/// Rejects an unsupported pixel depth or a requested size that disagrees with
/// the panel.
///
/// `req_w` or `req_h` of 0 means "whatever the panel is": no size was
/// requested, so there is nothing to disagree with. A caller that does pass a
/// size says what it expects; another panel is an error, not a resize.
pub fn validate_geometry(fb_w: u32, fb_h: u32, bpp: u32, req_w: u32, req_h: u32) -> (r: Result<
    (),
    GeometryError,
>)
    ensures
        match geometry_fault(fb_w, fb_h, bpp, req_w, req_h) {
            Some(e) => r == Err::<(), GeometryError>(e),
            None => r == Ok::<(), GeometryError>(()),
        },
{
    if bpp != 32 && bpp != 16 {
        return Err(GeometryError::UnsupportedDepth { bpp });
    }
    if (req_w != 0 && req_w != fb_w) || (req_h != 0 && req_h != fb_h) {
        return Err(GeometryError::SizeMismatch { req_w, req_h, fb_w, fb_h });
    }
    Ok(())
}

/// Where the picture starts that is shown from row `yoffset` on.
pub open spec fn start_of(pitch: int, yoffset: Option<u32>) -> int {
    match yoffset {
        Some(y) => y * pitch,
        None => 0,
    }
}

impl FbGeometry {
    /// The geometry of a panel from what the device reported: its visible and
    /// virtual resolution, depth, line length and memory. Only the depth is
    /// checked here: it is a property of the device. A requested size is the
    /// caller's concern.
    pub fn from_device(
        xres: u32,
        yres: u32,
        bits_per_pixel: u32,
        line_length: u32,
        xres_virtual: u32,
        yres_virtual: u32,
        smem_start: u64,
        smem_len: u32,
    ) -> (r: Result<FbGeometry, GeometryError>)
        ensures
            match r {
                Ok(g) => (bits_per_pixel == 32 || bits_per_pixel == 16) && g == (FbGeometry {
                    w: xres,
                    h: yres,
                    bpp: bits_per_pixel,
                    pitch: line_length,
                    xres_virtual,
                    yres_virtual,
                    smem_start,
                    smem_len,
                }),
                Err(e) => bits_per_pixel != 32 && bits_per_pixel != 16 && e
                    == (GeometryError::UnsupportedDepth { bpp: bits_per_pixel }),
            },
    {
        match validate_geometry(xres, yres, bits_per_pixel, 0, 0) {
            Err(e) => Err(e),
            Ok(_) => Ok(
                FbGeometry {
                    w: xres,
                    h: yres,
                    bpp: bits_per_pixel,
                    pitch: line_length,
                    xres_virtual,
                    yres_virtual,
                    smem_start,
                    smem_len,
                },
            ),
        }
    }

    /// Where the visible picture starts in the device. With double buffering
    /// the vertical offset tells which half of the virtual framebuffer is on
    /// screen; reading from 0 unconditionally can capture the half that is
    /// being drawn into. Where the offset could not be read it counts as 0.
    pub fn visible_offset(&self, yoffset: Option<u32>) -> (off: i64)
        requires
            yoffset is Some ==> yoffset->0 * self.pitch <= i64::MAX,
        ensures
            off == start_of(self.pitch as int, yoffset),
    {
        match yoffset {
            Some(y) => {
                assert(0 <= y * self.pitch) by (nonlinear_arith);
                (y as i64) * (self.pitch as i64)
            },
            None => 0,
        }
    }
}

/// How a positioned read of the framebuffer failed.
#[derive(Debug, PartialEq, Eq)]
pub enum ReadError {
    /// The device reported an error, which the system describes like this.
    Os { message: String },
    /// Nothing was left to read.
    EndOfFile,
}

impl ReadError {
    /// A copy of the error.
    pub fn copy(&self) -> (e: ReadError)
        ensures
            e == *self,
    {
        match self {
            ReadError::Os { message } => ReadError::Os { message: message.clone() },
            ReadError::EndOfFile => ReadError::EndOfFile,
        }
    }
}

/// Judges what a read of the framebuffer returned: a count of bytes, or with
/// `n` negative an error that the system describes with `message`. Fewer bytes
/// than asked for are no failure; the caller counts those and goes on.
pub fn read_outcome(n: i64, message: String) -> (r: Result<u64, ReadError>)
    ensures
        match r {
            Ok(count) => n > 0 && count == n,
            Err(ReadError::EndOfFile) => n == 0,
            Err(ReadError::Os { message: m }) => n < 0 && m == message,
        },
{
    if n > 0 {
        Ok(n as u64)
    } else if n == 0 {
        Err(ReadError::EndOfFile)
    } else {
        Err(ReadError::Os { message })
    }
}

/// The picture starts at the front of the device where it is shown from the
/// first row, or where the row is not known, and one pitch further on for every
/// row that it is shown further down.
pub proof fn law_each_row_is_a_pitch_further(pitch: int, y: u32)
    requires
        y < u32::MAX,
    ensures
        start_of(pitch, None) == 0,
        start_of(pitch, Some(0)) == 0,
        start_of(pitch, Some((y + 1) as u32)) - start_of(pitch, Some(y)) == pitch,
{
    assert((y + 1) * pitch == y * pitch + pitch) by (nonlinear_arith);
    assert(0 * pitch == 0) by (nonlinear_arith);
}

/// A panel is usable exactly where its pixels have 32 or 16 bits and each side
/// that was asked for is its own; 0 asks for nothing. A wrong depth is told
/// before a wrong size.
pub proof fn law_a_usable_panel_is_as_asked_for(
    fb_w: u32,
    fb_h: u32,
    bpp: u32,
    req_w: u32,
    req_h: u32,
)
    ensures
        geometry_fault(fb_w, fb_h, bpp, 0, 0) is None <==> bpp == 32 || bpp == 16,
        geometry_fault(fb_w, fb_h, 32, fb_w, fb_h) is None,
        geometry_fault(fb_w, fb_h, bpp, req_w, req_h) is None ==> (req_w == 0 || req_w == fb_w) && (
        req_h == 0 || req_h == fb_h),
        geometry_fault(fb_w, fb_h, bpp, req_w, req_h) matches Some(e) ==> (
        e is UnsupportedDepth <==> bpp != 32 && bpp != 16),
{
}

/// A refused panel is told with its numbers: the depth that it has, or the size
/// that was asked for and the size that it has, each as width and height.
pub proof fn law_a_refused_panel_is_told_with_its_numbers(
    bpp: u32,
    req_w: u32,
    req_h: u32,
    fb_w: u32,
    fb_h: u32,
)
    ensures
        crate::text::ends_with(
            geometry_error_text(GeometryError::UnsupportedDepth { bpp }),
            crate::text::decimal(bpp as nat),
        ),
        ({
            let t = geometry_error_text(GeometryError::SizeMismatch { req_w, req_h, fb_w, fb_h });
            let asked = crate::text::decimal(req_w as nat) + "x"@ + crate::text::decimal(
                req_h as nat,
            );
            let own = crate::text::decimal(fb_w as nat) + "x"@ + crate::text::decimal(fb_h as nat);
            let (first, second) = ("requested "@.len() as int, " but the framebuffer is "@.len());
            &&& t.subrange(first, first + asked.len()) == asked
            &&& t.subrange(
                first + asked.len() + second,
                first + asked.len() + second + own.len(),
            ) == own
        }),
{
    crate::text::lemma_put_together("unsupported bpp "@, crate::text::decimal(bpp as nat));
    let t = geometry_error_text(GeometryError::SizeMismatch { req_w, req_h, fb_w, fb_h });
    let asked = crate::text::decimal(req_w as nat) + "x"@ + crate::text::decimal(req_h as nat);
    let own = crate::text::decimal(fb_w as nat) + "x"@ + crate::text::decimal(fb_h as nat);
    let first = "requested "@.len() as int;
    let second = " but the framebuffer is "@.len() as int;
    assert(t =~= "requested "@ + asked + " but the framebuffer is "@ + own
        + "; scaling is not supported"@);
    assert(t.subrange(first, first + asked.len()) =~= asked);
    assert(t.subrange(
        first + asked.len() + second,
        first + asked.len() + second + own.len(),
    ) =~= own);
}

} // verus!
