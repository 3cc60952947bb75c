//! Decoding the client's input packets into a pad state.
//!
//! Packet layouts and button flags are those every streaming client shares.
//! Only controller packets and single keys are decoded: the handheld has no
//! pointer and no keyboard, so mouse, scroll, pen and text events have nowhere
//! sensible to go and are ignored.
use crate::input;
use crate::input::PadState;
use vstd::prelude::*;

verus! {

// Packet magics, little-endian on the wire.
pub const CONTROLLER_MAGIC: u32 = 0x0000_000A;

pub const MULTI_CONTROLLER_MAGIC: u32 = 0x0000_000D;

pub const MULTI_CONTROLLER_MAGIC_GEN5: u32 = 0x0000_000C;

pub const KEY_DOWN_MAGIC: u32 = 0x0000_0003;

pub const KEY_UP_MAGIC: u32 = 0x0000_0004;

/// The shortest packet that `MULTI_CONTROLLER_MAGIC` stands for a controller
/// in. The same number enables haptics, in a packet of six bytes.
pub const MULTI_CONTROLLER_LEN: usize = 24;

// Button flags.
pub const UP_FLAG: u16 = 0x0001;

pub const DOWN_FLAG: u16 = 0x0002;

pub const LEFT_FLAG: u16 = 0x0004;

pub const RIGHT_FLAG: u16 = 0x0008;

/// Start.
pub const PLAY_FLAG: u16 = 0x0010;

/// Select.
pub const BACK_FLAG: u16 = 0x0020;

pub const LB_FLAG: u16 = 0x0100;

pub const RB_FLAG: u16 = 0x0200;

/// Guide.
pub const SPECIAL_FLAG: u16 = 0x0400;

pub const A_FLAG: u16 = 0x1000;

pub const B_FLAG: u16 = 0x2000;

pub const X_FLAG: u16 = 0x4000;

pub const Y_FLAG: u16 = 0x8000;

// Key codes of the pad.
pub const BTN_SOUTH: u16 = 304;

pub const BTN_EAST: u16 = 305;

pub const BTN_NORTH: u16 = 307;

pub const BTN_WEST: u16 = 308;

pub const BTN_TL: u16 = 310;

pub const BTN_TR: u16 = 311;

pub const BTN_TL2: u16 = 312;

pub const BTN_SELECT: u16 = 314;

pub const BTN_START: u16 = 315;

pub const KEY_GOTO: u16 = 354;

// Virtual-key codes of the arrows.
pub const VK_LEFT: u16 = 0x25;

pub const VK_UP: u16 = 0x26;

pub const VK_RIGHT: u16 = 0x27;

pub const VK_DOWN: u16 = 0x28;

/// The little-endian 16-bit number at offset `at`, where it is all there.
pub open spec fn u16_at(b: Seq<u8>, at: int) -> Option<u16> {
    if at + 2 <= b.len() {
        Some((b[at] + b[at + 1] * 0x100) as u16)
    } else {
        None
    }
}

/// The little-endian 32-bit number at offset `at`, where it is all there.
pub open spec fn u32_at(b: Seq<u8>, at: int) -> Option<u32> {
    if at + 4 <= b.len() {
        Some((b[at] + b[at + 1] * 0x100 + b[at + 2] * 0x1_0000 + b[at + 3] * 0x100_0000) as u32)
    } else {
        None
    }
}

/// A 16-bit number taken as signed.
pub open spec fn signed16(v: u16) -> i32 {
    if v < 0x8000 {
        v as i32
    } else {
        (v - 0x1_0000) as i32
    }
}

fn u16_le(b: &[u8], at: usize) -> (r: Option<u16>)
    requires
        at < 1000,
    ensures
        r == u16_at(b@, at as int),
{
    if b.len() < at + 2 {
        return None;
    }
    Some(b[at] as u16 + b[at + 1] as u16 * 0x100)
}

fn u32_le(b: &[u8], at: usize) -> (r: Option<u32>)
    requires
        at < 1000,
    ensures
        r == u32_at(b@, at as int),
{
    if b.len() < at + 4 {
        return None;
    }
    Some(
        b[at] as u32 + b[at + 1] as u32 * 0x100 + b[at + 2] as u32 * 0x1_0000 + b[at + 3] as u32
            * 0x100_0000,
    )
}

/// Where a keyboard key lands on the pad: the familiar emulator layout, with
/// Z, X, A, S for the buttons, Q and W for the shoulders, Enter and Backspace
/// for start and select, and Escape for the menu.
pub open spec fn keyboard_code(vk: u16) -> Option<u16> {
    if vk == 0x5A {
        Some(BTN_SOUTH)
    } else if vk == 0x58 {
        Some(BTN_EAST)
    } else if vk == 0x41 {
        Some(BTN_NORTH)
    } else if vk == 0x53 {
        Some(BTN_WEST)
    } else if vk == 0x51 {
        Some(BTN_TL)
    } else if vk == 0x57 {
        Some(BTN_TR)
    } else if vk == 0x0D {
        Some(BTN_START)
    } else if vk == 0x08 {
        Some(BTN_SELECT)
    } else if vk == 0x1B {
        Some(KEY_GOTO)
    } else {
        None
    }
}

fn keyboard_map(vk: u16) -> (code: Option<u16>)
    ensures
        code == keyboard_code(vk),
{
    match vk {
        0x5A => Some(BTN_SOUTH),
        0x58 => Some(BTN_EAST),
        0x41 => Some(BTN_NORTH),
        0x53 => Some(BTN_WEST),
        0x51 => Some(BTN_TL),
        0x57 => Some(BTN_TR),
        0x0D => Some(BTN_START),
        0x08 => Some(BTN_SELECT),
        0x1B => Some(KEY_GOTO),
        _ => None,
    }
}

/// The pad after one keyboard key went down or up, or `None` where the key
/// means nothing. The arrows drive the hat.
pub open spec fn after_key(s: PadState, vk: u16, down: bool) -> Option<PadState> {
    match keyboard_code(vk) {
        Some(code) => Some(input::keyed(s, code, down)),
        None => if vk == VK_LEFT {
            Some(
                PadState {
                    hat_x: if down {
                        (-1) as i32
                    } else {
                        0
                    },
                    ..s
                },
            )
        } else if vk == VK_RIGHT {
            Some(
                PadState {
                    hat_x: if down {
                        1
                    } else {
                        0
                    },
                    ..s
                },
            )
        } else if vk == VK_UP {
            Some(
                PadState {
                    hat_y: if down {
                        (-1) as i32
                    } else {
                        0
                    },
                    ..s
                },
            )
        } else if vk == VK_DOWN {
            Some(
                PadState {
                    hat_y: if down {
                        1
                    } else {
                        0
                    },
                    ..s
                },
            )
        } else {
            None
        },
    }
}

/// The pad after a keyboard packet. The key code stands behind the magic and a
/// flag byte; its high byte carries a flag of the client's and is dropped.
pub open spec fn after_keyboard(p: Seq<u8>, s: PadState, down: bool) -> Option<PadState> {
    match u16_at(p, 5) {
        Some(raw) => after_key(s, raw & 0x00FF, down),
        None => None,
    }
}

/// -1, 0 or 1: two opposing directions held together cancel, as on a physical
/// hat.
pub open spec fn hat(negative: bool, positive: bool) -> i32 {
    if negative && !positive {
        (-1) as i32
    } else if positive && !negative {
        1
    } else {
        0
    }
}

/// The pad with its buttons and hat as the flags say. The hardware has no
/// right trigger key and no guide button; guide is the menu key.
pub open spec fn with_buttons(s: PadState, flags: u16) -> PadState {
    let s = input::keyed(s, BTN_SOUTH, flags & A_FLAG != 0);
    let s = input::keyed(s, BTN_EAST, flags & B_FLAG != 0);
    let s = input::keyed(s, BTN_NORTH, flags & X_FLAG != 0);
    let s = input::keyed(s, BTN_WEST, flags & Y_FLAG != 0);
    let s = input::keyed(s, BTN_TL, flags & LB_FLAG != 0);
    let s = input::keyed(s, BTN_TR, flags & RB_FLAG != 0);
    let s = input::keyed(s, BTN_SELECT, flags & BACK_FLAG != 0);
    let s = input::keyed(s, BTN_START, flags & PLAY_FLAG != 0);
    let s = input::keyed(s, KEY_GOTO, flags & SPECIAL_FLAG != 0);
    PadState {
        hat_x: hat(flags & LEFT_FLAG != 0, flags & RIGHT_FLAG != 0),
        hat_y: hat(flags & UP_FLAG != 0, flags & DOWN_FLAG != 0),
        ..s
    }
}

/// The pad with its triggers as the bytes at `at` say, where both are there.
/// The left one presses a key when more than half down; the right one is an
/// axis.
pub open spec fn with_triggers(s: PadState, p: Seq<u8>, at: int) -> PadState {
    if at + 1 < p.len() {
        PadState { rz: p[at + 1] as i32, ..input::keyed(s, BTN_TL2, p[at] > 127) }
    } else {
        s
    }
}

/// The pad with its stick as the bytes at `at` say, where both axes are there.
pub open spec fn with_stick(s: PadState, p: Seq<u8>, at: int) -> PadState {
    match (u16_at(p, at), u16_at(p, at + 2)) {
        (Some(x), Some(y)) => PadState { rx: signed16(x), ry: signed16(y), ..s },
        _ => s,
    }
}

/// Where the button flags stand in a controller packet.
pub open spec fn buttons_offset(magic: u32, len: nat) -> Option<int> {
    if magic == MULTI_CONTROLLER_MAGIC && len >= MULTI_CONTROLLER_LEN {
        Some(12int)
    } else if magic == MULTI_CONTROLLER_MAGIC_GEN5 {
        Some(12int)
    } else if magic == CONTROLLER_MAGIC {
        Some(6int)
    } else {
        None
    }
}

/// The pad after a controller packet whose button flags stand at `at`.
pub open spec fn after_controller(p: Seq<u8>, s: PadState, at: int) -> Option<PadState> {
    match u16_at(p, at) {
        Some(flags) => Some(
            with_stick(with_triggers(with_buttons(s, flags), p, at + 2), p, at + 4),
        ),
        None => None,
    }
}

/// The pad after a packet, or `None` where the packet is not input for it.
pub open spec fn decoded(p: Seq<u8>, s: PadState) -> Option<PadState> {
    match u32_at(p, 0) {
        None => None,
        Some(magic) => if magic == KEY_DOWN_MAGIC {
            after_keyboard(p, s, true)
        } else if magic == KEY_UP_MAGIC {
            after_keyboard(p, s, false)
        } else {
            match buttons_offset(magic, p.len()) {
                Some(at) => after_controller(p, s, at),
                None => None,
            }
        },
    }
}

/// Apply one keyboard event. Unlike the controller packets these are edges, a
/// key down or a key up for a single code.
fn apply_keyboard(payload: &[u8], down: bool, state: &mut PadState) -> (r: bool)
    ensures
        match after_keyboard(payload@, *old(state), down) {
            Some(s) => r && *final(state) == s,
            None => !r && *final(state) == *old(state),
        },
{
    let raw: u16 = match u16_le(payload, 5) {
        Some(raw) => raw,
        None => {
            return false;
        },
    };
    let key: u16 = raw & 0x00FF;
    if let Some(code) = keyboard_map(key) {
        state.set_key(code, down);
        return true;
    }
    if key == VK_LEFT {
        state.hat_x = if down {
            -1
        } else {
            0
        };
    } else if key == VK_RIGHT {
        state.hat_x = if down {
            1
        } else {
            0
        };
    } else if key == VK_UP {
        state.hat_y = if down {
            -1
        } else {
            0
        };
    } else if key == VK_DOWN {
        state.hat_y = if down {
            1
        } else {
            0
        };
    } else {
        return false;
    }
    true
}

fn hat_of(negative: bool, positive: bool) -> (v: i32)
    ensures
        v == hat(negative, positive),
{
    match (negative, positive) {
        (true, false) => -1,
        (false, true) => 1,
        _ => 0,
    }
}

fn signed(v: u16) -> (r: i32)
    ensures
        r == signed16(v),
{
    if v < 0x8000 {
        v as i32
    } else {
        v as i32 - 0x1_0000
    }
}

/// Decode one input payload, updating `state` in place.
///
/// Returns `false` for packets that are not input for the pad, which is then
/// unchanged, so the caller can tell "nothing to apply" from "the pad
/// changed".
pub fn apply_packet(payload: &[u8], state: &mut PadState) -> (r: bool)
    ensures
        match decoded(payload@, *old(state)) {
            Some(s) => r && *final(state) == s,
            None => !r && *final(state) == *old(state),
        },
{
    let magic: u32 = match u32_le(payload, 0) {
        Some(magic) => magic,
        None => {
            return false;
        },
    };
    if magic == KEY_DOWN_MAGIC {
        return apply_keyboard(payload, true, state);
    }
    if magic == KEY_UP_MAGIC {
        return apply_keyboard(payload, false, state);
    }
    if magic == MULTI_CONTROLLER_MAGIC && payload.len() < MULTI_CONTROLLER_LEN {
        return false;
    }
    let buttons_at: usize = if magic == MULTI_CONTROLLER_MAGIC || magic
        == MULTI_CONTROLLER_MAGIC_GEN5 {
        12
    } else if magic == CONTROLLER_MAGIC {
        6
    } else {
        return false;
    };
    let flags: u16 = match u16_le(payload, buttons_at) {
        Some(flags) => flags,
        None => {
            return false;
        },
    };
    state.set_key(BTN_SOUTH, flags & A_FLAG != 0);
    state.set_key(BTN_EAST, flags & B_FLAG != 0);
    state.set_key(BTN_NORTH, flags & X_FLAG != 0);
    state.set_key(BTN_WEST, flags & Y_FLAG != 0);
    state.set_key(BTN_TL, flags & LB_FLAG != 0);
    state.set_key(BTN_TR, flags & RB_FLAG != 0);
    state.set_key(BTN_SELECT, flags & BACK_FLAG != 0);
    state.set_key(BTN_START, flags & PLAY_FLAG != 0);
    state.set_key(KEY_GOTO, flags & SPECIAL_FLAG != 0);
    state.hat_x = hat_of(flags & LEFT_FLAG != 0, flags & RIGHT_FLAG != 0);
    state.hat_y = hat_of(flags & UP_FLAG != 0, flags & DOWN_FLAG != 0);
    assert(*state == with_buttons(*old(state), flags));

    let after_buttons: usize = buttons_at + 2;
    if after_buttons + 1 < payload.len() {
        state.set_key(BTN_TL2, payload[after_buttons] > 127);
        state.rz = payload[after_buttons + 1] as i32;
    }
    if let (Some(x), Some(y)) = (
        u16_le(payload, after_buttons + 2),
        u16_le(payload, after_buttons + 4),
    ) {
        state.rx = signed(x);
        state.ry = signed(y);
    }
    true
}

proof fn lemma_keyed_in_range(s: PadState, code: u16, down: bool)
    requires
        s.wf(),
    ensures
        input::keyed(s, code, down).wf(),
{
    if let Some(i) = input::key_index(code) {
        input::law_a_key_change_touches_one_key(s.keys, i, down, 0);
    }
}

proof fn lemma_buttons_in_range(s: PadState, flags: u16)
    requires
        s.wf(),
    ensures
        with_buttons(s, flags).wf(),
{
    let s1 = input::keyed(s, BTN_SOUTH, flags & A_FLAG != 0);
    lemma_keyed_in_range(s, BTN_SOUTH, flags & A_FLAG != 0);
    let s2 = input::keyed(s1, BTN_EAST, flags & B_FLAG != 0);
    lemma_keyed_in_range(s1, BTN_EAST, flags & B_FLAG != 0);
    let s3 = input::keyed(s2, BTN_NORTH, flags & X_FLAG != 0);
    lemma_keyed_in_range(s2, BTN_NORTH, flags & X_FLAG != 0);
    let s4 = input::keyed(s3, BTN_WEST, flags & Y_FLAG != 0);
    lemma_keyed_in_range(s3, BTN_WEST, flags & Y_FLAG != 0);
    let s5 = input::keyed(s4, BTN_TL, flags & LB_FLAG != 0);
    lemma_keyed_in_range(s4, BTN_TL, flags & LB_FLAG != 0);
    let s6 = input::keyed(s5, BTN_TR, flags & RB_FLAG != 0);
    lemma_keyed_in_range(s5, BTN_TR, flags & RB_FLAG != 0);
    let s7 = input::keyed(s6, BTN_SELECT, flags & BACK_FLAG != 0);
    lemma_keyed_in_range(s6, BTN_SELECT, flags & BACK_FLAG != 0);
    let s8 = input::keyed(s7, BTN_START, flags & PLAY_FLAG != 0);
    lemma_keyed_in_range(s7, BTN_START, flags & PLAY_FLAG != 0);
    lemma_keyed_in_range(s8, KEY_GOTO, flags & SPECIAL_FLAG != 0);
}

/// No packet, whatever it holds, takes the pad out of what it advertises: only
/// keys it has, and every axis within its range.
pub proof fn law_packets_keep_the_pad_in_range(p: Seq<u8>, s: PadState)
    requires
        s.wf(),
    ensures
        decoded(p, s) matches Some(t) ==> t.wf(),
{
    if let Some(magic) = u32_at(p, 0) {
        if magic == KEY_DOWN_MAGIC || magic == KEY_UP_MAGIC {
            if let Some(raw) = u16_at(p, 5) {
                if let Some(code) = keyboard_code(raw & 0x00FF) {
                    lemma_keyed_in_range(s, code, magic == KEY_DOWN_MAGIC);
                }
            }
        } else if let Some(at) = buttons_offset(magic, p.len()) {
            if let Some(flags) = u16_at(p, at) {
                let b = with_buttons(s, flags);
                lemma_buttons_in_range(s, flags);
                lemma_keyed_in_range(b, BTN_TL2, p[at + 2] > 127);
            }
        }
    }
}

/// The keys that a controller packet reports.
pub open spec fn reported_keys() -> u32 {
    0x7ed8
}

/// What a controller packet makes of the keys.
proof fn lemma_keys_after_controller(s: PadState, flags: u16, p: Seq<u8>, at: int)
    requires
        at + 1 < p.len(),
    ensures
        with_triggers(with_buttons(s, flags), p, at).keys == all_keys(
            s.keys,
            flags & A_FLAG != 0,
            flags & B_FLAG != 0,
            flags & X_FLAG != 0,
            flags & Y_FLAG != 0,
            flags & LB_FLAG != 0,
            flags & RB_FLAG != 0,
            flags & BACK_FLAG != 0,
            flags & PLAY_FLAG != 0,
            flags & SPECIAL_FLAG != 0,
            p[at] > 127,
        ),
{
}

/// A controller packet of any layout that is all there, up to the stick, is
/// absolute: two pads that agree on the keys it does not report are the same
/// after it, whatever they were before.
pub proof fn law_a_controller_packet_is_absolute(
    p: Seq<u8>,
    magic: u32,
    at: int,
    s: PadState,
    t: PadState,
)
    requires
        u32_at(p, 0) == Some(magic),
        buttons_offset(magic, p.len()) == Some(at),
        p.len() >= at + 8,
        s.keys & !reported_keys() == t.keys & !reported_keys(),
    ensures
        decoded(p, s) == decoded(p, t),
        decoded(p, s) is Some,
{
    let flags = u16_at(p, at)->0;
    lemma_keys_after_controller(s, flags, p, at + 2);
    lemma_keys_after_controller(t, flags, p, at + 2);
    lemma_all_keys(
        s.keys,
        t.keys,
        flags & A_FLAG != 0,
        flags & B_FLAG != 0,
        flags & X_FLAG != 0,
        flags & Y_FLAG != 0,
        flags & LB_FLAG != 0,
        flags & RB_FLAG != 0,
        flags & BACK_FLAG != 0,
        flags & PLAY_FLAG != 0,
        flags & SPECIAL_FLAG != 0,
        p[at + 2] > 127,
    );
    assert(after_controller(p, s, at) == after_controller(p, t, at));
}

/// The bitmask after all the keys that a controller packet reports are set.
spec fn all_keys(
    keys: u32,
    a: bool,
    b: bool,
    c: bool,
    d: bool,
    e: bool,
    f: bool,
    g: bool,
    h: bool,
    m: bool,
    l: bool,
) -> u32 {
    let k = input::with_key(keys, 3, a);
    let k = input::with_key(k, 4, b);
    let k = input::with_key(k, 6, c);
    let k = input::with_key(k, 7, d);
    let k = input::with_key(k, 9, e);
    let k = input::with_key(k, 10, f);
    let k = input::with_key(k, 12, g);
    let k = input::with_key(k, 13, h);
    let k = input::with_key(k, 14, m);
    input::with_key(k, 11, l)
}

proof fn lemma_all_keys(
    s: u32,
    t: u32,
    a: bool,
    b: bool,
    c: bool,
    d: bool,
    e: bool,
    f: bool,
    g: bool,
    h: bool,
    m: bool,
    l: bool,
)
    requires
        s & !reported_keys() == t & !reported_keys(),
    ensures
        all_keys(s, a, b, c, d, e, f, g, h, m, l) == all_keys(t, a, b, c, d, e, f, g, h, m, l),
{
    assert(all_keys(s, a, b, c, d, e, f, g, h, m, l) == all_keys(t, a, b, c, d, e, f, g, h, m, l))
        by (bit_vector)
        requires
            s & !0x7ed8u32 == t & !0x7ed8u32,
    ;
}

/// Letting a key go undoes pressing it.
pub proof fn law_releasing_a_key_undoes_pressing_it(s: PadState, vk: u16, code: u16)
    requires
        keyboard_code(vk) == Some(code),
        input::key_index(code) matches Some(i) ==> !input::key_held(s.keys, i),
    ensures
        after_key(s, vk, true) matches Some(t) && after_key(t, vk, false) == Some(s),
{
    let i = input::key_index(code)->0;
    let keys = s.keys;
    assert((keys | (1u32 << i)) & !(1u32 << i) == keys) by (bit_vector)
        requires
            i < 15,
            (keys >> i) & 1 != 1,
    ;
}

/// The flags of a controller packet set these keys and no others.
proof fn lemma_buttons_set_their_keys(s: PadState, flags: u16, code: u16)
    ensures
        ({
            let t = with_buttons(s, flags);
            input::holds(t, code) == if code == 304 {
                flags & A_FLAG != 0
            } else if code == 305 {
                flags & B_FLAG != 0
            } else if code == 307 {
                flags & X_FLAG != 0
            } else if code == 308 {
                flags & Y_FLAG != 0
            } else if code == 310 {
                flags & LB_FLAG != 0
            } else if code == 311 {
                flags & RB_FLAG != 0
            } else if code == 314 {
                flags & BACK_FLAG != 0
            } else if code == 315 {
                flags & PLAY_FLAG != 0
            } else if code == 354 {
                flags & SPECIAL_FLAG != 0
            } else {
                input::holds(s, code)
            }
        }),
{
    let s1 = input::keyed(s, BTN_SOUTH, flags & A_FLAG != 0);
    let s2 = input::keyed(s1, BTN_EAST, flags & B_FLAG != 0);
    let s3 = input::keyed(s2, BTN_NORTH, flags & X_FLAG != 0);
    let s4 = input::keyed(s3, BTN_WEST, flags & Y_FLAG != 0);
    let s5 = input::keyed(s4, BTN_TL, flags & LB_FLAG != 0);
    let s6 = input::keyed(s5, BTN_TR, flags & RB_FLAG != 0);
    let s7 = input::keyed(s6, BTN_SELECT, flags & BACK_FLAG != 0);
    let s8 = input::keyed(s7, BTN_START, flags & PLAY_FLAG != 0);
    let s9 = input::keyed(s8, KEY_GOTO, flags & SPECIAL_FLAG != 0);
    input::law_keying_sets_one_code(s, BTN_SOUTH, flags & A_FLAG != 0, code);
    input::law_keying_sets_one_code(s1, BTN_EAST, flags & B_FLAG != 0, code);
    input::law_keying_sets_one_code(s2, BTN_NORTH, flags & X_FLAG != 0, code);
    input::law_keying_sets_one_code(s3, BTN_WEST, flags & Y_FLAG != 0, code);
    input::law_keying_sets_one_code(s4, BTN_TL, flags & LB_FLAG != 0, code);
    input::law_keying_sets_one_code(s5, BTN_TR, flags & RB_FLAG != 0, code);
    input::law_keying_sets_one_code(s6, BTN_SELECT, flags & BACK_FLAG != 0, code);
    input::law_keying_sets_one_code(s7, BTN_START, flags & PLAY_FLAG != 0, code);
    input::law_keying_sets_one_code(s8, KEY_GOTO, flags & SPECIAL_FLAG != 0, code);
    assert(input::holds(with_buttons(s, flags), code) == input::holds(s9, code));
}

/// The flags, as two bytes, bit by bit.
proof fn lemma_flag_bits(low: u8, high: u8, flags: u16)
    requires
        flags == low + high * 0x100,
    ensures
        (flags & UP_FLAG != 0) == (low % 2 == 1),
        (flags & DOWN_FLAG != 0) == (low / 2 % 2 == 1),
        (flags & LEFT_FLAG != 0) == (low / 4 % 2 == 1),
        (flags & RIGHT_FLAG != 0) == (low / 8 % 2 == 1),
        (flags & PLAY_FLAG != 0) == (low / 16 % 2 == 1),
        (flags & BACK_FLAG != 0) == (low / 32 % 2 == 1),
        (flags & LB_FLAG != 0) == (high % 2 == 1),
        (flags & RB_FLAG != 0) == (high / 2 % 2 == 1),
        (flags & SPECIAL_FLAG != 0) == (high / 4 % 2 == 1),
        (flags & A_FLAG != 0) == (high / 16 % 2 == 1),
        (flags & B_FLAG != 0) == (high / 32 % 2 == 1),
        (flags & X_FLAG != 0) == (high / 64 % 2 == 1),
        (flags & Y_FLAG != 0) == (high / 128 == 1),
{
    assert({
        &&& (flags & 0x0001 != 0) == (low % 2 == 1)
        &&& (flags & 0x0002 != 0) == (low / 2 % 2 == 1)
        &&& (flags & 0x0004 != 0) == (low / 4 % 2 == 1)
        &&& (flags & 0x0008 != 0) == (low / 8 % 2 == 1)
        &&& (flags & 0x0010 != 0) == (low / 16 % 2 == 1)
        &&& (flags & 0x0020 != 0) == (low / 32 % 2 == 1)
        &&& (flags & 0x0100 != 0) == (high % 2 == 1)
        &&& (flags & 0x0200 != 0) == (high / 2 % 2 == 1)
        &&& (flags & 0x0400 != 0) == (high / 4 % 2 == 1)
        &&& (flags & 0x1000 != 0) == (high / 16 % 2 == 1)
        &&& (flags & 0x2000 != 0) == (high / 32 % 2 == 1)
        &&& (flags & 0x4000 != 0) == (high / 64 % 2 == 1)
        &&& (flags & 0x8000 != 0) == (high / 128 == 1)
    }) by (bit_vector)
        requires
            flags == low + high * 0x100,
    ;
}

/// A packet opens with the magic of a controller packet, whose button flags
/// then stand at `at`: at 6 under the magic 0x0A, at 12 under 0x0C and 0x0D. A
/// packet under 0x0D of less than 24 bytes is something else.
pub open spec fn is_controller_packet(p: Seq<u8>, at: int) -> bool {
    &&& p.len() >= 4
    &&& p[1] == 0 && p[2] == 0 && p[3] == 0
    &&& {
        ||| p[0] == 0x0A && at == 6
        ||| p[0] == 0x0C && at == 12
        ||| p[0] == 0x0D && at == 12 && p.len() >= 24
    }
}

/// What a controller packet means, byte by byte. The d-pad is the difference of
/// the two directions' bits, so that up and left are negative and opposing
/// directions cancel. Each button's bit says whether its key is held. The two
/// triggers and the two stick axes follow the flags, where they are there; a
/// packet that ends before them leaves them as they were.
pub proof fn law_what_a_controller_packet_means(p: Seq<u8>, at: int, s: PadState)
    requires
        is_controller_packet(p, at),
        p.len() >= at + 2,
    ensures
        decoded(p, s) matches Some(t) && {
            let (low, high) = (p[at], p[at + 1]);
            &&& t.hat_y == low / 2 % 2 - low % 2
            &&& t.hat_x == low / 8 % 2 - low / 4 % 2
            &&& input::holds(t, 304) == (high / 16 % 2 == 1)
            &&& input::holds(t, 305) == (high / 32 % 2 == 1)
            &&& input::holds(t, 307) == (high / 64 % 2 == 1)
            &&& input::holds(t, 308) == (high / 128 == 1)
            &&& input::holds(t, 310) == (high % 2 == 1)
            &&& input::holds(t, 311) == (high / 2 % 2 == 1)
            &&& input::holds(t, 314) == (low / 32 % 2 == 1)
            &&& input::holds(t, 315) == (low / 16 % 2 == 1)
            &&& input::holds(t, 354) == (high / 4 % 2 == 1)
            &&& input::holds(t, 312) == if p.len() >= at + 4 {
                p[at + 2] >= 128
            } else {
                input::holds(s, 312)
            }
            &&& t.rz == if p.len() >= at + 4 {
                p[at + 3] as i32
            } else {
                s.rz
            }
            &&& p.len() >= at + 8 ==> {
                &&& t.rx == p[at + 4] + 256 * p[at + 5] - 65536 * (p[at + 5] / 128)
                &&& t.ry == p[at + 6] + 256 * p[at + 7] - 65536 * (p[at + 7] / 128)
            }
            &&& p.len() < at + 8 ==> t.rx == s.rx && t.ry == s.ry
        },
{
    let flags = u16_at(p, at)->0;
    let (low, high) = (p[at], p[at + 1]);
    assert(u32_at(p, 0) == Some(p[0] as u32));
    assert(buttons_offset(p[0] as u32, p.len()) == Some(at));
    lemma_flag_bits(low, high, flags);
    let b = with_buttons(s, flags);
    let t = with_triggers(b, p, at + 2);
    lemma_controller_keys(s, flags, p, at + 2, 304);
    lemma_controller_keys(s, flags, p, at + 2, 305);
    lemma_controller_keys(s, flags, p, at + 2, 307);
    lemma_controller_keys(s, flags, p, at + 2, 308);
    lemma_controller_keys(s, flags, p, at + 2, 310);
    lemma_controller_keys(s, flags, p, at + 2, 311);
    lemma_controller_keys(s, flags, p, at + 2, 314);
    lemma_controller_keys(s, flags, p, at + 2, 315);
    lemma_controller_keys(s, flags, p, at + 2, 354);
    lemma_controller_keys(s, flags, p, at + 2, 312);
    lemma_controller_axes(s, flags, p, at);
}

/// The keys after buttons and triggers.
proof fn lemma_controller_keys(s: PadState, flags: u16, p: Seq<u8>, at: int, code: u16)
    ensures
        ({
            let t = with_stick(with_triggers(with_buttons(s, flags), p, at), p, at + 2);
            input::holds(t, code) == if code == 312 && at + 1 < p.len() {
                p[at] > 127
            } else {
                input::holds(with_buttons(s, flags), code)
            }
        }),
        ({
            let t = with_stick(with_triggers(with_buttons(s, flags), p, at), p, at + 2);
            code != 312 ==> input::holds(t, code) == input::holds(with_buttons(s, flags), code)
        }),
        input::holds(with_buttons(s, flags), code) == if code == 304 {
            flags & A_FLAG != 0
        } else if code == 305 {
            flags & B_FLAG != 0
        } else if code == 307 {
            flags & X_FLAG != 0
        } else if code == 308 {
            flags & Y_FLAG != 0
        } else if code == 310 {
            flags & LB_FLAG != 0
        } else if code == 311 {
            flags & RB_FLAG != 0
        } else if code == 314 {
            flags & BACK_FLAG != 0
        } else if code == 315 {
            flags & PLAY_FLAG != 0
        } else if code == 354 {
            flags & SPECIAL_FLAG != 0
        } else {
            input::holds(s, code)
        },
{
    lemma_buttons_set_their_keys(s, flags, code);
    let b = with_buttons(s, flags);
    input::law_keying_sets_one_code(b, BTN_TL2, p[at] > 127, code);
    let t = with_triggers(b, p, at);
    assert(with_stick(t, p, at + 2).keys == t.keys);
}

/// The axes after buttons, triggers and stick.
proof fn lemma_controller_axes(s: PadState, flags: u16, p: Seq<u8>, at: int)
    requires
        0 <= at,
        p.len() >= at + 2,
    ensures
        ({
            let t = with_stick(with_triggers(with_buttons(s, flags), p, at + 2), p, at + 4);
            &&& t.hat_x == hat(flags & LEFT_FLAG != 0, flags & RIGHT_FLAG != 0)
            &&& t.hat_y == hat(flags & UP_FLAG != 0, flags & DOWN_FLAG != 0)
            &&& t.rz == if p.len() >= at + 4 {
                p[at + 3] as i32
            } else {
                s.rz
            }
            &&& p.len() >= at + 8 ==> {
                &&& t.rx == p[at + 4] + 256 * p[at + 5] - 65536 * (p[at + 5] / 128)
                &&& t.ry == p[at + 6] + 256 * p[at + 7] - 65536 * (p[at + 7] / 128)
            }
            &&& p.len() < at + 8 ==> t.rx == s.rx && t.ry == s.ry
        }),
{
    let b = with_buttons(s, flags);
    assert(b.rx == s.rx && b.ry == s.ry && b.rz == s.rz);
    let t = with_triggers(b, p, at + 2);
    assert(t.rx == s.rx && t.ry == s.ry);
}

/// The keys that a controller packet does not report stay as they were.
pub proof fn law_a_controller_packet_leaves_other_keys(
    p: Seq<u8>,
    at: int,
    s: PadState,
    code: u16,
)
    requires
        is_controller_packet(p, at),
        p.len() >= at + 2,
        code == 1 || code == 114 || code == 115 || code == 306 || code == 309,
    ensures
        decoded(p, s) matches Some(t) && input::holds(t, code) == input::holds(s, code),
{
    assert(u32_at(p, 0) == Some(p[0] as u32));
    assert(buttons_offset(p[0] as u32, p.len()) == Some(at));
    lemma_controller_keys(s, u16_at(p, at)->0, p, at + 2, code);
}

/// Everything else is no input for the pad: a packet too short to say what it
/// is, one under another magic, and a controller or keyboard packet that ends
/// before its buttons or its key.
pub proof fn law_other_packets_are_no_input(p: Seq<u8>, s: PadState)
    requires
        ({
            let magic = p[0] + 256 * p[1] + 65536 * p[2] + 16777216 * p[3];
            ||| p.len() < 4
            ||| magic != 3 && magic != 4 && magic != 0x0A && magic != 0x0C && magic != 0x0D
            ||| (magic == 3 || magic == 4) && p.len() < 7
            ||| magic == 0x0A && p.len() < 8
            ||| magic == 0x0C && p.len() < 14
            ||| magic == 0x0D && p.len() < 24
        }),
    ensures
        decoded(p, s) is None,
{
}

/// A keyboard packet, by its byte 5: the key that this is pressed down or up as
/// the packet's magic says, 3 or 4, and nothing else on the pad changes. Bytes
/// behind it do not count.
pub proof fn law_what_a_key_packet_means(p: Seq<u8>, s: PadState, code: u16, other: u16)
    requires
        p.len() >= 7,
        p[0] == 3 || p[0] == 4,
        p[1] == 0 && p[2] == 0 && p[3] == 0,
        ({
            let key = p[5];
            ||| key == 'Z' as u8 && code == 304
            ||| key == 'X' as u8 && code == 305
            ||| key == 'A' as u8 && code == 307
            ||| key == 'S' as u8 && code == 308
            ||| key == 'Q' as u8 && code == 310
            ||| key == 'W' as u8 && code == 311
            ||| key == 13 && code == 315
            ||| key == 8 && code == 314
            ||| key == 27 && code == 354
        }),
        other != code,
    ensures
        decoded(p, s) matches Some(t) && {
            &&& input::holds(t, code) == (p[0] == 3)
            &&& input::holds(t, other) == input::holds(s, other)
            &&& t.hat_x == s.hat_x && t.hat_y == s.hat_y
            &&& t.rx == s.rx && t.ry == s.ry && t.rz == s.rz
        },
{
    lemma_key_of_packet(p);
    assert(u32_at(p, 0) == Some(p[0] as u32));
    input::law_keying_sets_one_code(s, code, p[0] == 3, code);
    input::law_keying_sets_one_code(s, code, p[0] == 3, other);
}

proof fn lemma_key_of_packet(p: Seq<u8>)
    requires
        p.len() >= 7,
    ensures
        u16_at(p, 5) matches Some(raw) && raw & 0x00FF == p[5],
{
    let (low, high) = (p[5], p[6]);
    let raw = u16_at(p, 5)->0;
    assert(raw & 0x00FF == low) by (bit_vector)
        requires
            raw == low + high * 0x100,
    ;
}

/// The arrow keys drive the hat: 37 to 40 are left, up, right and down. Down
/// goes to one side and up back to the middle, on the one axis, and nothing
/// else changes.
pub proof fn law_what_an_arrow_packet_means(p: Seq<u8>, s: PadState)
    requires
        p.len() >= 7,
        p[0] == 3 || p[0] == 4,
        p[1] == 0 && p[2] == 0 && p[3] == 0,
        37 <= p[5] <= 40,
    ensures
        decoded(p, s) matches Some(t) && {
            let down = if p[0] == 3 {
                1int
            } else {
                0int
            };
            &&& t.keys == s.keys && t.rx == s.rx && t.ry == s.ry && t.rz == s.rz
            &&& p[5] == 37 ==> t.hat_x == -down && t.hat_y == s.hat_y
            &&& p[5] == 39 ==> t.hat_x == down && t.hat_y == s.hat_y
            &&& p[5] == 38 ==> t.hat_y == -down && t.hat_x == s.hat_x
            &&& p[5] == 40 ==> t.hat_y == down && t.hat_x == s.hat_x
        },
{
    lemma_key_of_packet(p);
    assert(u32_at(p, 0) == Some(p[0] as u32));
}

/// Keys outside the layout are no input.
pub proof fn law_a_key_outside_the_layout_is_no_input(p: Seq<u8>, s: PadState)
    requires
        p.len() >= 7,
        p[0] == 3 || p[0] == 4,
        p[1] == 0 && p[2] == 0 && p[3] == 0,
        !(37 <= p[5] <= 40),
        p[5] != 'Z' as u8 && p[5] != 'X' as u8 && p[5] != 'A' as u8 && p[5] != 'S' as u8,
        p[5] != 'Q' as u8 && p[5] != 'W' as u8,
        p[5] != 13 && p[5] != 8 && p[5] != 27,
    ensures
        decoded(p, s) is None,
{
    lemma_key_of_packet(p);
    assert(u32_at(p, 0) == Some(p[0] as u32));
}

} // verus!
