//! The command line tool that captures the screen to a file: how many frames
//! it takes, what it counts, and the header it can dump.
use crate::text::push_hex_byte;
use vstd::prelude::*;
use vstd::slice::slice_subrange;

verus! {

/// How much of a header is dumped.
pub const HEADER_DUMP: usize = 32;

/// The frame rate to capture at, 30 where none was asked for.
pub fn frame_rate(fps: i32) -> (r: i32)
    ensures
        r == crate::capture::effective_fps(fps),
{
    if fps <= 0 {
        30
    } else {
        fps
    }
}

/// The number of frames that is asked for, or else that the duration holds.
pub open spec fn limit_of(max_frames: int, duration: int, fps: int) -> int {
    if max_frames <= 0 {
        duration * fps
    } else {
        max_frames
    }
}

/// A limit as the unsigned number that its bits stand for.
pub open spec fn unsigned(limit: i32) -> int {
    if limit < 0 {
        limit + 0x1_0000_0000
    } else {
        limit as int
    }
}

/// How many frames to capture: as many as were asked for, or else as many as
/// the duration holds.
pub fn frame_limit(max_frames: i32, duration: i32, fps: i32) -> (n: i32)
    requires
        max_frames <= 0 ==> i32::MIN <= duration * fps <= i32::MAX,
    ensures
        n == limit_of(max_frames as int, duration as int, fps as int),
{
    if max_frames <= 0 {
        duration * fps
    } else {
        max_frames
    }
}

/// Whether another frame is due after `frames` of them. The limit counts as an
/// unsigned number.
pub fn more_frames(frames: u32, limit: i32) -> (r: bool)
    ensures
        r == (frames < unsigned(limit)),
{
    if limit < 0 {
        (frames as i64) < (limit as i64) + 0x1_0000_0000
    } else {
        (frames as i64) < (limit as i64)
    }
}

/// What the tool counts.
#[derive(Clone, Copy, Debug, PartialEq, Eq, Structural)]
pub struct Tally {
    pub bytes_out: u64,
    pub frames: u32,
    pub keyframes: u32,
}

/// The tally with one more frame of `len` bytes.
pub open spec fn tallied(t: Tally, len: int, is_keyframe: bool) -> Tally {
    Tally {
        bytes_out: (t.bytes_out + len) as u64,
        frames: (t.frames + 1) as u32,
        keyframes: if is_keyframe {
            (t.keyframes + 1) as u32
        } else {
            t.keyframes
        },
    }
}

impl Tally {
    pub fn new() -> (t: Self)
        ensures
            t == (Tally { bytes_out: 0, frames: 0, keyframes: 0 }),
    {
        Tally { bytes_out: 0, frames: 0, keyframes: 0 }
    }

    /// No more key frames than frames.
    pub open spec fn wf(self) -> bool {
        self.keyframes <= self.frames
    }

    /// Counts a frame.
    pub fn count(&mut self, len: usize, is_keyframe: bool)
        requires
            old(self).wf(),
            old(self).frames < u32::MAX,
            old(self).bytes_out + len <= u64::MAX,
        ensures
            final(self).wf(),
            *final(self) == tallied(*old(self), len as int, is_keyframe),
    {
        self.bytes_out = self.bytes_out + len as u64;
        self.frames = self.frames + 1;
        if is_keyframe {
            self.keyframes = self.keyframes + 1;
        }
    }
}

/// The bytes in hexadecimal, each after a space.
pub open spec fn spaced_hex(data: Seq<u8>) -> Seq<char>
    decreases data.len(),
{
    if data.len() == 0 {
        Seq::empty()
    } else {
        spaced_hex(data.drop_last()) + " "@ + crate::text::hex_byte(data.last())
    }
}

/// A line that shows bytes under a tag.
pub fn hexdump(tag: &str, data: &[u8]) -> (line: String)
    ensures
        line@ == "[rgsp-cast] "@ + tag@ + ":"@ + spaced_hex(data@),
{
    let mut line: String = String::from_str("[rgsp-cast] ");
    line.append(tag);
    line.append(":");
    let ghost head = line@;
    let mut i: usize = 0;
    assert(data@.take(0) =~= Seq::<u8>::empty());
    assert(line@ =~= head + spaced_hex(data@.take(0)));
    while i < data.len()
        invariant
            i <= data@.len(),
            line@ == head + spaced_hex(data@.take(i as int)),
        decreases data.len() - i,
    {
        line.append(" ");
        push_hex_byte(&mut line, data[i]);
        proof {
            let next = data@.take(i + 1);
            assert(next.drop_last() =~= data@.take(i as int));
            assert(next.last() == data@[i as int]);
            assert(line@ =~= head + spaced_hex(next));
        }
        i = i + 1;
    }
    assert(data@.take(i as int) =~= data@);
    line
}

/// The line that shows the start of the parameter sets.
pub fn header_line(sets: &[u8]) -> (line: String)
    ensures
        line@ == "[rgsp-cast] "@ + "sps/pps"@ + ":"@ + spaced_hex(
            sets@.take(
                if sets@.len() < HEADER_DUMP {
                    sets@.len() as int
                } else {
                    HEADER_DUMP as int
                },
            ),
        ),
{
    let n: usize = if sets.len() < HEADER_DUMP {
        sets.len()
    } else {
        HEADER_DUMP
    };
    let head: &[u8] = slice_subrange(sets, 0, n);
    assert(head@ =~= sets@.take(n as int));
    hexdump("sps/pps", head)
}

/// A dump shows each byte in its place: three characters to a byte, a space and
/// then its two hexadecimal digits.
pub proof fn law_a_dump_shows_every_byte_in_its_place(data: Seq<u8>, i: int)
    requires
        0 <= i < data.len(),
    ensures
        spaced_hex(data).len() == 3 * data.len(),
        spaced_hex(data)[3 * i] == ' ',
        16 * crate::text::hex_value(spaced_hex(data)[3 * i + 1]) + crate::text::hex_value(
            spaced_hex(data)[3 * i + 2],
        ) == data[i],
    decreases data.len(),
{
    reveal_strlit(" ");
    let front = data.drop_last();
    crate::text::law_a_hex_byte_reads_back(data.last());
    if front.len() > 0 {
        law_a_dump_shows_every_byte_in_its_place(front, if i < front.len() {
            i
        } else {
            0
        });
    }
    assert(spaced_hex(front).len() == 3 * front.len());
    if i < front.len() {
        assert(front[i] == data[i]);
    }
}

/// A number of frames that is asked for is what is captured, whatever the
/// duration. Without one, each further second holds as many frames more as the
/// frame rate has, from none for none.
pub proof fn law_a_second_more_is_a_rate_more(max_frames: int, duration: int, fps: int)
    ensures
        max_frames > 0 ==> limit_of(max_frames, duration, fps) == max_frames,
        max_frames <= 0 ==> limit_of(max_frames, duration + 1, fps) - limit_of(
            max_frames,
            duration,
            fps,
        ) == fps,
        max_frames <= 0 ==> limit_of(max_frames, 0, fps) == 0,
{
    assert((duration + 1) * fps == duration * fps + fps) by (nonlinear_arith);
    assert(0 * fps == 0) by (nonlinear_arith);
}

/// A limit that is not negative is itself; a negative one counts down from
/// 2 to the 32nd.
pub proof fn law_a_limit_counts_as_unsigned(limit: i32)
    ensures
        0 <= unsigned(limit) < 0x1_0000_0000,
        (unsigned(limit) - limit) % 0x1_0000_0000 == 0,
{
}

/// Counting a frame adds its bytes, one frame, and one key frame where it is
/// one, and counting two adds up to the same in either order.
pub proof fn law_frames_add_up(t: Tally, a: int, b: int, key: bool, other: bool)
    requires
        0 <= a,
        0 <= b,
        t.bytes_out + a + b <= u64::MAX,
        t.frames + 2 <= u32::MAX,
        t.keyframes + 2 <= u32::MAX,
    ensures
        tallied(t, a, key).bytes_out - t.bytes_out == a,
        tallied(t, a, key).frames - t.frames == 1,
        tallied(t, a, true).keyframes - t.keyframes == 1,
        tallied(t, a, false).keyframes == t.keyframes,
        tallied(tallied(t, a, key), b, other) == tallied(tallied(t, b, other), a, key),
{
}

} // verus!
