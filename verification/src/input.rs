//! The virtual gamepad: which keys and axes it has, and which events a change
//! of its state turns into.
//!
//! It advertises exactly what the handheld's own pad does, so anything that
//! maps the real one by key code treats this one identically. The hardware has
//! no right counterpart to the left trigger key and no mode button.
use vstd::prelude::*;

verus! {

pub const EV_SYN: u16 = 0x00;

pub const EV_KEY: u16 = 0x01;

pub const EV_ABS: u16 = 0x03;

pub const SYN_REPORT: u16 = 0;

pub const ABS_RX: u16 = 3;

pub const ABS_RY: u16 = 4;

pub const ABS_RZ: u16 = 5;

pub const ABS_HAT0X: u16 = 16;

pub const ABS_HAT0Y: u16 = 17;

/// Every key code the real pad reports, in its order: escape, volume down and
/// up, the buttons A, B, C, X, Y, Z, L1, R1, L2, select and start, and the
/// menu key.
pub open spec fn key_codes() -> Seq<u16> {
    seq![
        1u16, 114u16, 115u16, 304u16, 305u16, 306u16, 307u16, 308u16, 309u16, 310u16, 311u16,
        312u16, 314u16, 315u16, 354u16,
    ]
}

/// The number of keys.
pub const KEY_COUNT: usize = 15;

/// The code of the key with the given index.
pub fn key_code(i: usize) -> (code: u16)
    requires
        i < KEY_COUNT,
    ensures
        code == key_codes()[i as int],
{
    match i {
        0 => 1,
        1 => 114,
        2 => 115,
        3 => 304,
        4 => 305,
        5 => 306,
        6 => 307,
        7 => 308,
        8 => 309,
        9 => 310,
        10 => 311,
        11 => 312,
        12 => 314,
        13 => 315,
        _ => 354,
    }
}

/// The index of the key with the given code.
pub open spec fn key_index(code: u16) -> Option<u32> {
    if code == 1 {
        Some(0u32)
    } else if code == 114 {
        Some(1u32)
    } else if code == 115 {
        Some(2u32)
    } else if 304 <= code <= 312 {
        Some((code - 301) as u32)
    } else if code == 314 {
        Some(12u32)
    } else if code == 315 {
        Some(13u32)
    } else if code == 354 {
        Some(14u32)
    } else {
        None
    }
}

fn index_of_key(code: u16) -> (i: Option<u32>)
    ensures
        i == key_index(code),
{
    match code {
        1 => Some(0),
        114 => Some(1),
        115 => Some(2),
        304 => Some(3),
        305 => Some(4),
        306 => Some(5),
        307 => Some(6),
        308 => Some(7),
        309 => Some(8),
        310 => Some(9),
        311 => Some(10),
        312 => Some(11),
        314 => Some(12),
        315 => Some(13),
        354 => Some(14),
        _ => None,
    }
}

/// `key_index` finds exactly the codes that the pad has.
pub proof fn law_key_index_inverts_key_codes(code: u16)
    ensures
        match key_index(code) {
            Some(i) => i < KEY_COUNT && key_codes()[i as int] == code,
            None => !key_codes().contains(code),
        },
        forall|i: int|
            0 <= i < KEY_COUNT ==> key_index(#[trigger] key_codes()[i]) == Some(i as u32),
        key_codes().len() == KEY_COUNT,
{
}

/// An axis with its range.
#[derive(Clone, Copy, Debug, PartialEq, Eq, Structural)]
pub struct Axis {
    pub code: u16,
    pub min: i32,
    pub max: i32,
}

/// The axes: two sticks, the right trigger, and the d-pad hat, which is a
/// three-state -1, 0, 1 like the real one.
pub open spec fn axes() -> Seq<Axis> {
    seq![
        Axis { code: ABS_RX, min: (-32768) as i32, max: 32767 },
        Axis { code: ABS_RY, min: (-32768) as i32, max: 32767 },
        Axis { code: ABS_RZ, min: 0, max: 255 },
        Axis { code: ABS_HAT0X, min: (-1) as i32, max: 1 },
        Axis { code: ABS_HAT0Y, min: (-1) as i32, max: 1 },
    ]
}

/// The axes of the pad.
pub fn axis_list() -> (v: Vec<Axis>)
    ensures
        v@ == axes(),
{
    let mut v: Vec<Axis> = Vec::new();
    v.push(Axis { code: ABS_RX, min: -32768, max: 32767 });
    v.push(Axis { code: ABS_RY, min: -32768, max: 32767 });
    v.push(Axis { code: ABS_RZ, min: 0, max: 255 });
    v.push(Axis { code: ABS_HAT0X, min: -1, max: 1 });
    v.push(Axis { code: ABS_HAT0Y, min: -1, max: 1 });
    assert(v@ =~= axes());
    v
}

/// Something the device has to declare before it is created. The kernel
/// silently rejects any event that was not declared.
#[derive(Clone, Copy, Debug, PartialEq, Eq, Structural)]
pub enum Capability {
    Event(u16),
    Key(u16),
    Abs(u16),
}

/// Everything the pad declares: the event types, then the keys, then the
/// axes.
pub open spec fn capabilities() -> Seq<Capability> {
    seq![
        Capability::Event(EV_KEY),
        Capability::Event(EV_ABS),
        Capability::Event(EV_SYN),
    ] + key_codes().map_values(|c: u16| Capability::Key(c)) + axes().map_values(
        |a: Axis| Capability::Abs(a.code),
    )
}

/// Everything the pad declares, in order.
pub fn capability_list() -> (v: Vec<Capability>)
    ensures
        v@ == capabilities(),
{
    let mut v: Vec<Capability> = Vec::new();
    v.push(Capability::Event(EV_KEY));
    v.push(Capability::Event(EV_ABS));
    v.push(Capability::Event(EV_SYN));
    let ghost head = v@;
    let ghost keys = key_codes().map_values(|c: u16| Capability::Key(c));
    let ghost abs = axes().map_values(|a: Axis| Capability::Abs(a.code));
    let mut i: usize = 0;
    assert(v@ =~= head + keys.take(0));
    while i < KEY_COUNT
        invariant
            i <= KEY_COUNT,
            keys == key_codes().map_values(|c: u16| Capability::Key(c)),
            v@ == head + keys.take(i as int),
        decreases KEY_COUNT - i,
    {
        v.push(Capability::Key(key_code(i)));
        assert(keys.take(i + 1) =~= keys.take(i as int).push(keys[i as int]));
        i = i + 1;
        assert(v@ =~= head + keys.take(i as int));
    }
    assert(keys.take(KEY_COUNT as int) =~= keys);
    let list: Vec<Axis> = axis_list();
    let mut k: usize = 0;
    assert(v@ =~= head + keys + abs.take(0));
    while k < list.len()
        invariant
            k <= list@.len(),
            list@ == axes(),
            abs == axes().map_values(|a: Axis| Capability::Abs(a.code)),
            v@ == head + keys + abs.take(k as int),
        decreases list.len() - k,
    {
        v.push(Capability::Abs(list[k].code));
        assert(abs.take(k + 1) =~= abs.take(k as int).push(abs[k as int]));
        k = k + 1;
        assert(v@ =~= head + keys + abs.take(k as int));
    }
    assert(abs.take(list@.len() as int) =~= abs);
    assert(v@ =~= capabilities());
    v
}

/// What the created device is called and how it identifies itself.
#[derive(Clone, Copy, Debug, PartialEq, Eq, Structural)]
pub struct DeviceId {
    pub bustype: u16,
    pub vendor: u16,
    pub product: u16,
    pub version: u16,
}

/// The pad's name.
pub fn device_name() -> (name: String)
    ensures
        name@ == "rgsp-cast remote pad"@,
{
    String::from_str("rgsp-cast remote pad")
}

/// The pad's identity. It claims to be on USB, as is expected of a gamepad.
pub fn device_id() -> (id: DeviceId)
    ensures
        id == (DeviceId { bustype: 0x03, vendor: 0x1209, product: 0x5350, version: 1 }),
{
    DeviceId { bustype: 0x03, vendor: 0x1209, product: 0x5350, version: 1 }
}

/// One event as the input layer takes it.
#[derive(Clone, Copy, Debug, PartialEq, Eq, Structural)]
pub struct InputEvent {
    pub type_: u16,
    pub code: u16,
    pub value: i32,
}

/// The buttons and axes a client can be holding at one instant.
///
/// Sent whole rather than as changes: the protocol reports absolute state on
/// every packet, and comparing with the state before is what turns that into
/// presses and releases.
#[derive(Clone, Copy, Debug, PartialEq, Eq, Structural)]
pub struct PadState {
    /// Keys currently held, as a bitmask by key index.
    pub keys: u32,
    pub hat_x: i32,
    pub hat_y: i32,
    pub rx: i32,
    pub ry: i32,
    pub rz: i32,
}

/// Nothing held, everything centred.
pub open spec fn pad_at_rest() -> PadState {
    PadState { keys: 0, hat_x: 0, hat_y: 0, rx: 0, ry: 0, rz: 0 }
}

impl Default for PadState {
    fn default() -> (s: Self)
        ensures
            s == pad_at_rest(),
    {
        PadState { keys: 0, hat_x: 0, hat_y: 0, rx: 0, ry: 0, rz: 0 }
    }
}

/// The key bitmask with key `i` pressed or released.
pub open spec fn with_key(keys: u32, i: u32, down: bool) -> u32 {
    if down {
        keys | (1u32 << i)
    } else {
        keys & !(1u32 << i)
    }
}

/// Key `i` is held in the bitmask.
pub open spec fn key_held(keys: u32, i: u32) -> bool {
    (keys >> i) & 1 == 1
}

/// The pad with one key pressed or released. A code the pad does not have
/// changes nothing.
pub open spec fn keyed(s: PadState, code: u16, down: bool) -> PadState {
    match key_index(code) {
        Some(i) => PadState { keys: with_key(s.keys, i, down), ..s },
        None => s,
    }
}

impl PadState {
    /// Only keys that the pad has are held, and every axis is within its
    /// advertised range.
    pub open spec fn wf(self) -> bool {
        &&& self.keys < 0x8000
        &&& -1 <= self.hat_x <= 1
        &&& -1 <= self.hat_y <= 1
        &&& -32768 <= self.rx <= 32767
        &&& -32768 <= self.ry <= 32767
        &&& 0 <= self.rz <= 255
    }

    /// Press or release a key.
    pub fn set_key(&mut self, code: u16, down: bool)
        ensures
            *final(self) == keyed(*old(self), code, down),
    {
        if let Some(i) = index_of_key(code) {
            if down {
                self.keys = self.keys | (1u32 << i);
            } else {
                self.keys = self.keys & !(1u32 << i);
            }
        }
    }

    /// Whether the key with the given index is held.
    pub fn key_down(&self, index: usize) -> (down: bool)
        requires
            index < 32,
        ensures
            down == key_held(self.keys, index as u32),
    {
        let i: u32 = index as u32;
        (self.keys >> i) & 1 == 1
    }
}

/// Pressing or releasing a key sets that key and leaves every other as it was.
pub proof fn law_a_key_change_touches_one_key(keys: u32, i: u32, down: bool, j: u32)
    requires
        i < KEY_COUNT,
        j < KEY_COUNT,
    ensures
        key_held(with_key(keys, i, down), j) == if i == j {
            down
        } else {
            key_held(keys, j)
        },
        keys < 0x8000 ==> with_key(keys, i, down) < 0x8000,
{
    let set = keys | (1u32 << i);
    let cleared = keys & !(1u32 << i);
    assert((set >> j) & 1 == 1 <==> (i == j || (keys >> j) & 1 == 1)) by (bit_vector)
        requires
            set == keys | (1u32 << i),
            i < 15,
            j < 15,
    ;
    assert((cleared >> j) & 1 == 1 <==> (i != j && (keys >> j) & 1 == 1)) by (bit_vector)
        requires
            cleared == keys & !(1u32 << i),
            i < 15,
            j < 15,
    ;
    assert(keys < 0x8000 ==> set < 0x8000 && cleared < 0x8000) by (bit_vector)
        requires
            set == keys | (1u32 << i),
            cleared == keys & !(1u32 << i),
            i < 15,
    ;
}

/// The key with this code is held.
pub open spec fn holds(s: PadState, code: u16) -> bool {
    key_index(code) matches Some(i) && key_held(s.keys, i)
}

/// Pressing or releasing a key of the pad by its code does that to the key, and
/// to no other; a code that the pad does not have does nothing.
pub proof fn law_keying_sets_one_code(s: PadState, code: u16, down: bool, other: u16)
    ensures
        holds(keyed(s, code, down), other) == if other == code && key_index(code) is Some {
            down
        } else {
            holds(s, other)
        },
        keyed(s, code, down).hat_x == s.hat_x,
        keyed(s, code, down).hat_y == s.hat_y,
        keyed(s, code, down).rx == s.rx,
        keyed(s, code, down).ry == s.ry,
        keyed(s, code, down).rz == s.rz,
{
    if let Some(i) = key_index(code) {
        if let Some(j) = key_index(other) {
            law_a_key_change_touches_one_key(s.keys, i, down, j);
        }
    }
}

/// Nothing is held on a pad at rest.
pub proof fn law_a_pad_at_rest_holds_nothing(code: u16)
    ensures
        !holds(pad_at_rest(), code),
{
    if let Some(i) = key_index(code) {
        assert((0u32 >> i) & 1 == 0) by (bit_vector);
    }
}

/// A key event: pressed is 1, released is 0.
pub open spec fn key_event(code: u16, down: bool) -> InputEvent {
    InputEvent {
        type_: EV_KEY,
        code,
        value: if down {
            1
        } else {
            0
        },
    }
}

/// Events for the changes among the first `n` keys.
pub open spec fn key_events(now: u32, before: u32, n: nat) -> Seq<InputEvent>
    decreases n,
{
    if n == 0 {
        Seq::empty()
    } else {
        let i = (n - 1) as nat;
        let rest = key_events(now, before, i);
        if key_held(now, i as u32) != key_held(before, i as u32) {
            rest.push(key_event(key_codes()[i as int], key_held(now, i as u32)))
        } else {
            rest
        }
    }
}

/// The event for one axis, where it moved.
pub open spec fn axis_event(code: u16, now: i32, before: i32) -> Seq<InputEvent> {
    if now != before {
        seq![InputEvent { type_: EV_ABS, code, value: now }]
    } else {
        Seq::empty()
    }
}

/// Events for the axes that moved.
pub open spec fn axis_events(now: PadState, before: PadState) -> Seq<InputEvent> {
    axis_event(ABS_HAT0X, now.hat_x, before.hat_x) + axis_event(
        ABS_HAT0Y,
        now.hat_y,
        before.hat_y,
    ) + axis_event(ABS_RX, now.rx, before.rx) + axis_event(ABS_RY, now.ry, before.ry) + axis_event(
        ABS_RZ,
        now.rz,
        before.rz,
    )
}

/// The event that ends a report.
pub open spec fn syn_event() -> InputEvent {
    InputEvent { type_: EV_SYN, code: SYN_REPORT, value: 0 }
}

/// The report of a change: what changed and nothing else, then the end of the
/// report. Without a change there is no report.
pub open spec fn report(now: PadState, before: PadState) -> Seq<InputEvent> {
    if now == before {
        Seq::empty()
    } else {
        key_events(now.keys, before.keys, KEY_COUNT as nat) + axis_events(now, before) + seq![
            syn_event(),
        ]
    }
}

fn push_axis(events: &mut Vec<InputEvent>, code: u16, now: i32, before: i32)
    ensures
        final(events)@ == old(events)@ + axis_event(code, now, before),
{
    if now != before {
        events.push(InputEvent { type_: EV_ABS, code, value: now });
    }
    assert(events@ =~= old(events)@ + axis_event(code, now, before));
}

/// The virtual pad, which knows the state it last reported.
pub struct VirtualPad {
    last: PadState,
}

impl VirtualPad {
    pub closed spec fn reported(self) -> PadState {
        self.last
    }

    /// A pad that has reported nothing.
    pub fn new() -> (p: Self)
        ensures
            p.reported() == pad_at_rest(),
    {
        VirtualPad { last: PadState { keys: 0, hat_x: 0, hat_y: 0, rx: 0, ry: 0, rz: 0 } }
    }

    /// The events that take the pad from what it last reported to `state`.
    ///
    /// A report is one atomic update, so every changed code comes before its
    /// end, and an unchanged code is not repeated: a repeated press cannot be
    /// told from a new one.
    pub fn apply(&self, state: PadState) -> (events: Vec<InputEvent>)
        ensures
            events@ == report(state, self.reported()),
    {
        let mut events: Vec<InputEvent> = Vec::new();
        if state == self.last {
            return events;
        }
        let mut i: usize = 0;
        while i < KEY_COUNT
            invariant
                i <= KEY_COUNT,
                events@ == key_events(state.keys, self.last.keys, i as nat),
            decreases KEY_COUNT - i,
        {
            let now: bool = state.key_down(i);
            if now != self.last.key_down(i) {
                events.push(
                    InputEvent {
                        type_: EV_KEY,
                        code: key_code(i),
                        value: if now {
                            1
                        } else {
                            0
                        },
                    },
                );
            }
            i = i + 1;
        }
        let ghost keys = events@;
        push_axis(&mut events, ABS_HAT0X, state.hat_x, self.last.hat_x);
        push_axis(&mut events, ABS_HAT0Y, state.hat_y, self.last.hat_y);
        push_axis(&mut events, ABS_RX, state.rx, self.last.rx);
        push_axis(&mut events, ABS_RY, state.ry, self.last.ry);
        push_axis(&mut events, ABS_RZ, state.rz, self.last.rz);
        events.push(InputEvent { type_: EV_SYN, code: SYN_REPORT, value: 0 });
        assert(events@ =~= keys + axis_events(state, self.last) + seq![syn_event()]);
        events
    }

    /// The events were written: `state` is now what the pad last reported.
    pub fn commit(&mut self, state: PadState)
        ensures
            final(self).reported() == state,
    {
        self.last = state;
    }

    /// The events that release everything. A client that disconnects in the
    /// middle of a press cannot leave a button stuck.
    pub fn release_all(&self) -> (events: Vec<InputEvent>)
        ensures
            events@ == report(pad_at_rest(), self.reported()),
    {
        self.apply(PadState { keys: 0, hat_x: 0, hat_y: 0, rx: 0, ry: 0, rz: 0 })
    }
}

/// What a consumer that follows the events knows of the pad after one more.
pub open spec fn replay_one(s: PadState, e: InputEvent) -> PadState {
    if e.type_ == EV_KEY {
        keyed(s, e.code, e.value == 1)
    } else if e.type_ == EV_ABS {
        if e.code == ABS_HAT0X {
            PadState { hat_x: e.value, ..s }
        } else if e.code == ABS_HAT0Y {
            PadState { hat_y: e.value, ..s }
        } else if e.code == ABS_RX {
            PadState { rx: e.value, ..s }
        } else if e.code == ABS_RY {
            PadState { ry: e.value, ..s }
        } else if e.code == ABS_RZ {
            PadState { rz: e.value, ..s }
        } else {
            s
        }
    } else {
        s
    }
}

/// What a consumer that follows the events knows of the pad after all of them.
pub open spec fn replay(s: PadState, events: Seq<InputEvent>) -> PadState
    decreases events.len(),
{
    if events.len() == 0 {
        s
    } else {
        replay_one(replay(s, events.drop_last()), events.last())
    }
}

proof fn lemma_replay_concat(s: PadState, a: Seq<InputEvent>, b: Seq<InputEvent>)
    ensures
        replay(s, a + b) == replay(replay(s, a), b),
    decreases b.len(),
{
    if b.len() == 0 {
        assert(a + b =~= a);
    } else {
        assert((a + b).drop_last() =~= a + b.drop_last());
        lemma_replay_concat(s, a, b.drop_last());
    }
}

/// The first `n` keys of `now` over the others of `before`.
spec fn mixed(now: u32, before: u32, n: u32) -> u32 {
    let m = sub_one(1u32 << n);
    (now & m) | (before & !m)
}

spec fn sub_one(v: u32) -> u32 {
    (v - 1) as u32
}

proof fn lemma_mixed_step(now: u32, before: u32, n: u32)
    requires
        n < KEY_COUNT,
    ensures
        mixed(now, before, (n + 1) as u32) == if key_held(now, n) != key_held(before, n) {
            with_key(mixed(now, before, n), n, key_held(now, n))
        } else {
            mixed(now, before, n)
        },
{
    let m = ((1u32 << n) - 1) as u32;
    let n1 = (n + 1) as u32;
    let m1 = ((1u32 << n1) - 1) as u32;
    let a = (now & m) | (before & !m);
    let b = (now & m1) | (before & !m1);
    let held = (now >> n) & 1 == 1;
    let was = (before >> n) & 1 == 1;
    assert(b == if held != was {
        if held {
            a | (1u32 << n)
        } else {
            a & !(1u32 << n)
        }
    } else {
        a
    }) by (bit_vector)
        requires
            n < 15,
            n1 == n + 1,
            m == ((1u32 << n) - 1) as u32,
            m1 == ((1u32 << n1) - 1) as u32,
            a == (now & m) | (before & !m),
            b == (now & m1) | (before & !m1),
            held == ((now >> n) & 1 == 1),
            was == ((before >> n) & 1 == 1),
    ;
}

proof fn lemma_replay_keys(s: PadState, now: u32, n: nat)
    requires
        n <= KEY_COUNT,
    ensures
        replay(s, key_events(now, s.keys, n)) == (PadState {
            keys: mixed(now, s.keys, n as u32),
            ..s
        }),
    decreases n,
{
    if n == 0 {
        let before = s.keys;
        let m = ((1u32 << 0u32) - 1) as u32;
        assert((now & m) | (before & !m) == before) by (bit_vector)
            requires
                m == ((1u32 << 0u32) - 1) as u32,
        ;
    } else {
        let i = (n - 1) as nat;
        lemma_replay_keys(s, now, i);
        lemma_mixed_step(now, s.keys, i as u32);
        let rest = key_events(now, s.keys, i);
        let all = key_events(now, s.keys, n);
        law_key_index_inverts_key_codes(key_codes()[i as int]);
        if key_held(now, i as u32) != key_held(s.keys, i as u32) {
            assert(all.drop_last() =~= rest);
        }
    }
}

proof fn lemma_replay_axis(s: PadState, code: u16, now: i32, before: i32)
    ensures
        replay(s, axis_event(code, now, before)) == if now != before {
            replay_one(s, InputEvent { type_: EV_ABS, code, value: now })
        } else {
            s
        },
{
    let e = axis_event(code, now, before);
    if now != before {
        assert(e.drop_last() =~= Seq::<InputEvent>::empty());
        assert(replay(s, e.drop_last()) == s);
    }
}

/// A report carries the whole change: whoever knew the state before and
/// follows the events knows the state after.
pub proof fn law_a_report_carries_the_whole_change(now: PadState, before: PadState)
    requires
        now.keys < 0x8000,
        before.keys < 0x8000,
    ensures
        replay(before, report(now, before)) == now,
{
    if now != before {
        let keys = key_events(now.keys, before.keys, KEY_COUNT as nat);
        lemma_replay_keys(before, now.keys, KEY_COUNT as nat);
        let (nk, bk) = (now.keys, before.keys);
        let m = ((1u32 << 15u32) - 1) as u32;
        assert((nk & m) | (bk & !m) == nk) by (bit_vector)
            requires
                nk < 0x8000,
                bk < 0x8000,
                m == ((1u32 << 15u32) - 1) as u32,
        ;
        let s0 = PadState { keys: nk, ..before };
        let e1 = axis_event(ABS_HAT0X, now.hat_x, before.hat_x);
        let e2 = axis_event(ABS_HAT0Y, now.hat_y, before.hat_y);
        let e3 = axis_event(ABS_RX, now.rx, before.rx);
        let e4 = axis_event(ABS_RY, now.ry, before.ry);
        let e5 = axis_event(ABS_RZ, now.rz, before.rz);
        let s1 = PadState { hat_x: now.hat_x, ..s0 };
        let s2 = PadState { hat_y: now.hat_y, ..s1 };
        let s3 = PadState { rx: now.rx, ..s2 };
        let s4 = PadState { ry: now.ry, ..s3 };
        lemma_replay_axis(s0, ABS_HAT0X, now.hat_x, before.hat_x);
        lemma_replay_axis(s1, ABS_HAT0Y, now.hat_y, before.hat_y);
        lemma_replay_axis(s2, ABS_RX, now.rx, before.rx);
        lemma_replay_axis(s3, ABS_RY, now.ry, before.ry);
        lemma_replay_axis(s4, ABS_RZ, now.rz, before.rz);
        lemma_replay_concat(s0, e1, e2);
        lemma_replay_concat(s0, e1 + e2, e3);
        lemma_replay_concat(s0, e1 + e2 + e3, e4);
        lemma_replay_concat(s0, e1 + e2 + e3 + e4, e5);
        lemma_replay_concat(before, keys, axis_events(now, before));
        let body = keys + axis_events(now, before);
        let all = report(now, before);
        assert(all.drop_last() =~= body);
        assert(all.last() == syn_event());
    }
}

proof fn lemma_key_events_are_changes(now: u32, before: u32, n: nat, k: int)
    requires
        n <= KEY_COUNT,
        0 <= k < key_events(now, before, n).len(),
    ensures
        ({
            let e = key_events(now, before, n)[k];
            &&& e.type_ == EV_KEY
            &&& exists|i: u32|
                i < KEY_COUNT && e == key_event(key_codes()[i as int], key_held(now, i))
                    && #[trigger] key_held(now, i) != key_held(before, i)
        }),
    decreases n,
{
    let i = (n - 1) as nat;
    let rest = key_events(now, before, i);
    if k < rest.len() {
        lemma_key_events_are_changes(now, before, i, k);
    } else {
        assert(key_held(now, i as u32) != key_held(before, i as u32));
    }
}

/// A report ends once, at its end, and every key event in it is a key that
/// did change.
pub proof fn law_a_report_repeats_nothing(now: PadState, before: PadState, k: int)
    requires
        0 <= k < report(now, before).len(),
    ensures
        ({
            let e = report(now, before)[k];
            &&& e.type_ == EV_SYN <==> k == report(now, before).len() - 1
            &&& e.type_ == EV_KEY ==> exists|i: u32|
                i < KEY_COUNT && e == key_event(key_codes()[i as int], key_held(now.keys, i))
                    && #[trigger] key_held(now.keys, i) != key_held(before.keys, i)
        }),
{
    let keys = key_events(now.keys, before.keys, KEY_COUNT as nat);
    if k < keys.len() {
        lemma_key_events_are_changes(now.keys, before.keys, KEY_COUNT as nat, k);
        assert(report(now, before)[k] == keys[k]);
    } else if k < report(now, before).len() - 1 {
        assert(report(now, before)[k] == axis_events(now, before)[k - keys.len()]);
        assert(axis_events(now, before)[k - keys.len()].type_ == EV_ABS);
    }
}

proof fn lemma_changed_key_is_listed(now: u32, before: u32, n: nat, i: u32)
    requires
        n <= KEY_COUNT,
        i < n,
        key_held(now, i) != key_held(before, i),
    ensures
        key_events(now, before, n).contains(key_event(key_codes()[i as int], key_held(now, i))),
    decreases n,
{
    let rest = key_events(now, before, (n - 1) as nat);
    let all = key_events(now, before, n);
    let e = key_event(key_codes()[i as int], key_held(now, i));
    if i < n - 1 {
        lemma_changed_key_is_listed(now, before, (n - 1) as nat, i);
        let k = choose|k: int| 0 <= k < rest.len() && rest[k] == e;
        assert(all[k] == e);
    } else {
        assert(all.last() == e);
    }
}

/// A key that changed is reported: under its own code, as an event of type 1,
/// with 1 for pressed and 0 for released.
pub proof fn law_a_changed_key_is_reported(now: PadState, before: PadState, code: u16)
    requires
        holds(now, code) != holds(before, code),
    ensures
        report(now, before).contains(
            InputEvent {
                type_: 1,
                code,
                value: if holds(now, code) {
                    1
                } else {
                    0
                },
            },
        ),
{
    let i = key_index(code)->0;
    law_key_index_inverts_key_codes(code);
    lemma_changed_key_is_listed(now.keys, before.keys, KEY_COUNT as nat, i);
    let keys = key_events(now.keys, before.keys, KEY_COUNT as nat);
    let e = key_event(code, key_held(now.keys, i));
    let k = choose|k: int| 0 <= k < keys.len() && keys[k] == e;
    assert(report(now, before)[k] == e);
}

proof fn lemma_axes_are_reported(now: PadState, before: PadState, e: InputEvent)
    requires
        now != before,
        axis_events(now, before).contains(e),
    ensures
        report(now, before).contains(e),
{
    let keys = key_events(now.keys, before.keys, KEY_COUNT as nat);
    let axes = axis_events(now, before);
    let k = choose|k: int| 0 <= k < axes.len() && axes[k] == e;
    assert(report(now, before)[keys.len() + k] == e);
}

/// An axis that moved is reported with where it is now, as an event of type 3:
/// the hat under 16 and 17, the stick under 3 and 4 and the trigger under 5.
/// The horizontal one comes first of each pair.
pub proof fn law_a_moved_axis_is_reported(now: PadState, before: PadState)
    ensures
        now.hat_x != before.hat_x ==> report(now, before).contains(
            InputEvent { type_: 3, code: 16, value: now.hat_x },
        ),
        now.hat_y != before.hat_y ==> report(now, before).contains(
            InputEvent { type_: 3, code: 17, value: now.hat_y },
        ),
        now.rx != before.rx ==> report(now, before).contains(
            InputEvent { type_: 3, code: 3, value: now.rx },
        ),
        now.ry != before.ry ==> report(now, before).contains(
            InputEvent { type_: 3, code: 4, value: now.ry },
        ),
        now.rz != before.rz ==> report(now, before).contains(
            InputEvent { type_: 3, code: 5, value: now.rz },
        ),
{
    let e1 = axis_event(ABS_HAT0X, now.hat_x, before.hat_x);
    let e2 = axis_event(ABS_HAT0Y, now.hat_y, before.hat_y);
    let e3 = axis_event(ABS_RX, now.rx, before.rx);
    let e4 = axis_event(ABS_RY, now.ry, before.ry);
    let all = axis_events(now, before);
    if now.hat_x != before.hat_x {
        assert(all[0] == InputEvent { type_: 3, code: 16, value: now.hat_x });
        lemma_axes_are_reported(now, before, all[0]);
    }
    if now.hat_y != before.hat_y {
        let k = e1.len() as int;
        assert(all[k] == InputEvent { type_: 3, code: 17, value: now.hat_y });
        lemma_axes_are_reported(now, before, all[k]);
    }
    if now.rx != before.rx {
        let k = (e1.len() + e2.len()) as int;
        assert(all[k] == InputEvent { type_: 3, code: 3, value: now.rx });
        lemma_axes_are_reported(now, before, all[k]);
    }
    if now.ry != before.ry {
        let k = (e1.len() + e2.len() + e3.len()) as int;
        assert(all[k] == InputEvent { type_: 3, code: 4, value: now.ry });
        lemma_axes_are_reported(now, before, all[k]);
    }
    if now.rz != before.rz {
        let k = (e1.len() + e2.len() + e3.len() + e4.len()) as int;
        assert(all[k] == InputEvent { type_: 3, code: 5, value: now.rz });
        lemma_axes_are_reported(now, before, all[k]);
    }
}

/// A report is empty exactly where nothing changed; otherwise it ends with the
/// event of type 0, code 0 and value 0.
pub proof fn law_a_report_ends_itself(now: PadState, before: PadState)
    ensures
        now == before <==> report(now, before).len() == 0,
        now != before ==> report(now, before).last() == (InputEvent {
            type_: 0,
            code: 0,
            value: 0,
        }),
{
}

/// Every event of a report was declared, which the kernel rejects otherwise, and
/// an axis stays within the range it was declared with.
pub proof fn law_every_reported_event_is_declared(now: PadState, before: PadState, k: int)
    requires
        now.wf(),
        0 <= k < report(now, before).len(),
    ensures
        ({
            let e = report(now, before)[k];
            &&& e.type_ == 1 ==> capabilities().contains(Capability::Key(e.code))
            &&& e.type_ == 3 ==> capabilities().contains(Capability::Abs(e.code)) && exists|a: Axis|
                #[trigger] axes().contains(a) && a.code == e.code && a.min <= e.value <= a.max
            &&& capabilities().contains(Capability::Event(e.type_))
        }),
{
    let all = report(now, before);
    let e = all[k];
    let caps = capabilities();
    let codes = key_codes().map_values(|c: u16| Capability::Key(c));
    let abs = axes().map_values(|a: Axis| Capability::Abs(a.code));
    assert(caps[0] == Capability::Event(1) && caps[1] == Capability::Event(3) && caps[2]
        == Capability::Event(0));
    law_a_report_repeats_nothing(now, before, k);
    if e.type_ == 1 {
        let i = choose|i: u32|
            i < KEY_COUNT && e == key_event(key_codes()[i as int], key_held(now.keys, i))
                && #[trigger] key_held(now.keys, i) != key_held(before.keys, i);
        assert(codes[i as int] == Capability::Key(e.code));
        assert(caps[3 + i] == codes[i as int]);
    } else if k < all.len() - 1 {
        let keys = key_events(now.keys, before.keys, KEY_COUNT as nat);
        if k < keys.len() {
            lemma_key_events_are_changes(now.keys, before.keys, KEY_COUNT as nat, k);
        }
        let axis = axis_events(now, before)[k - keys.len()];
        assert(e == axis);
        assert(axes()[0].code == 3 && axes()[1].code == 4 && axes()[2].code == 5 && axes()[3].code
            == 16 && axes()[4].code == 17);
        let j: int = if e.code == 3 {
            0
        } else if e.code == 4 {
            1
        } else if e.code == 5 {
            2
        } else if e.code == 16 {
            3
        } else {
            4
        };
        assert(e.code == axes()[j].code);
        assert(abs[j] == Capability::Abs(e.code));
        assert(caps[18 + j] == abs[j]);
        assert(axes().contains(axes()[j]));
    }
}

} // verus!
