//! PIN entry: four digits, one cursor.
use crate::control::copy_text;
use crate::screens;
use crate::screens::client_label;
use crate::text::push_decimal;
use crate::ui;
use crate::ui::{a_b_hints, Buttons, Draw};
use vstd::prelude::*;

verus! {

/// What to do after a frame.
#[derive(Clone, Debug, PartialEq, Eq)]
pub enum PinAction {
    /// Nothing.
    Nothing,
    /// A: submit the four digits, in order.
    Submit(String),
    /// B: abandon pairing.
    Back,
}

/// PIN entry for pairing one client.
pub struct Pin {
    client_id: String,
    client_name: Option<String>,
    client_address: Option<String>,
    digits: [u8; 4],
    cursor: usize,
    /// A message under the digits, gone with the next edit.
    pub error: Option<String>,
}

/// The digits and where the cursor is.
pub struct PinEntry {
    pub digits: Seq<u8>,
    pub cursor: int,
}

/// The entry after a frame's buttons: left and right move the cursor without
/// wrapping, and then up and down turn the digit under it, which wraps.
pub open spec fn entered(e: PinEntry, b: Buttons) -> PinEntry {
    let cursor = if b.left && e.cursor > 0 {
        e.cursor - 1
    } else if b.right && e.cursor + 1 < 4 {
        e.cursor + 1
    } else {
        e.cursor
    };
    let digits = if b.up {
        e.digits.update(cursor, ((e.digits[cursor] + 1) % 10) as u8)
    } else if b.down {
        e.digits.update(cursor, ((e.digits[cursor] + 9) % 10) as u8)
    } else {
        e.digits
    };
    PinEntry { digits, cursor }
}

/// A frame's buttons edit the entry: they move the cursor or turn a digit.
pub open spec fn edits(e: PinEntry, b: Buttons) -> bool {
    ||| b.left && e.cursor > 0
    ||| b.right && e.cursor + 1 < 4
    ||| b.up
    ||| b.down
}

/// The PIN as text.
pub open spec fn pin_text(digits: Seq<u8>) -> Seq<char> {
    crate::text::decimal(digits[0] as nat) + crate::text::decimal(digits[1] as nat)
        + crate::text::decimal(digits[2] as nat) + crate::text::decimal(digits[3] as nat)
}

impl Pin {
    pub closed spec fn id(self) -> Seq<char> {
        self.client_id@
    }

    pub closed spec fn name(self) -> Option<Seq<char>> {
        screens::string_view(self.client_name)
    }

    pub closed spec fn address(self) -> Option<Seq<char>> {
        screens::string_view(self.client_address)
    }

    pub closed spec fn entry(self) -> PinEntry {
        PinEntry { digits: self.digits@, cursor: self.cursor as int }
    }

    pub closed spec fn note(self) -> Option<Seq<char>> {
        screens::string_view(self.error)
    }

    /// What the client is called on this screen.
    pub open spec fn caption(self) -> Seq<char> {
        screens::label_of(self.name(), self.address(), self.id())
    }

    pub open spec fn wf(self) -> bool {
        &&& self.entry().digits.len() == 4
        &&& 0 <= self.entry().cursor < 4
        &&& forall|i: int| 0 <= i < 4 ==> (#[trigger] self.entry().digits[i]) < 10
    }

    /// An entry of four zeros, for a client whose address is not known.
    pub fn new(client_id: String, client_name: Option<String>) -> (p: Pin)
        ensures
            p.id() == client_id@,
            p.name() == screens::string_view(client_name),
            p.address() is None,
            p.entry().digits == seq![0u8, 0u8, 0u8, 0u8],
            p.entry().cursor == 0,
            p.note() is None,
            p.wf(),
    {
        Self::for_client(client_id, client_name, None)
    }

    /// An entry of four zeros, for a client with this name and address, as far
    /// as either is known. It is labelled as on the home screen.
    pub fn for_client(
        client_id: String,
        client_name: Option<String>,
        client_address: Option<String>,
    ) -> (p: Pin)
        ensures
            p.id() == client_id@,
            p.name() == screens::string_view(client_name),
            p.address() == screens::string_view(client_address),
            p.entry().digits == seq![0u8, 0u8, 0u8, 0u8],
            p.entry().cursor == 0,
            p.note() is None,
            p.wf(),
    {
        let p: Pin = Pin {
            client_id,
            client_name,
            client_address,
            digits: [0u8, 0u8, 0u8, 0u8],
            cursor: 0,
            error: None,
        };
        assert(p.digits@ =~= seq![0u8, 0u8, 0u8, 0u8]);
        p
    }

    /// The client that is being paired.
    pub fn client_id(&self) -> (s: &str)
        ensures
            s@ == self.id(),
    {
        self.client_id.as_str()
    }

    /// The label of the client that is being paired.
    pub fn label(&self) -> (s: String)
        ensures
            s@ == self.caption(),
    {
        let name: Option<&str> = match &self.client_name {
            Some(n) => Some(n.as_str()),
            None => None,
        };
        let address: Option<&str> = match &self.client_address {
            Some(a) => Some(a.as_str()),
            None => None,
        };
        client_label(name, address, self.client_id.as_str())
    }

    /// Edits the entry, and submits it or leaves. B counts before anything
    /// else, and then nothing is edited.
    pub fn update(&mut self, buttons: &Buttons) -> (action: PinAction)
        requires
            old(self).wf(),
        ensures
            final(self).wf(),
            final(self).id() == old(self).id(),
            final(self).name() == old(self).name(),
            final(self).address() == old(self).address(),
            if buttons.b {
                &&& action == PinAction::Back
                &&& final(self).entry() == old(self).entry()
                &&& final(self).note() == old(self).note()
            } else {
                &&& final(self).entry() == entered(old(self).entry(), *buttons)
                &&& final(self).note() == if edits(old(self).entry(), *buttons) {
                    None
                } else {
                    old(self).note()
                }
                &&& if buttons.a {
                    action matches PinAction::Submit(s) && s@ == pin_text(
                        final(self).entry().digits,
                    )
                } else {
                    action == PinAction::Nothing
                }
            },
    {
        if buttons.b {
            return PinAction::Back;
        }
        if buttons.left && self.cursor > 0 {
            self.cursor = self.cursor - 1;
            self.error = None;
        } else if buttons.right && self.cursor + 1 < 4 {
            self.cursor = self.cursor + 1;
            self.error = None;
        }
        let ghost before = self.digits@;
        assert forall|i: int| 0 <= i < 4 implies (#[trigger] before[i]) < 10 by {
            assert(old(self).entry().digits[i] < 10);
        }
        if buttons.up {
            let d: u8 = self.digits[self.cursor];
            self.digits[self.cursor] = (d + 1) % 10;
            self.error = None;
        } else if buttons.down {
            let d: u8 = self.digits[self.cursor];
            self.digits[self.cursor] = (d + 9) % 10;
            self.error = None;
        }
        assert(self.entry().digits =~= entered(old(self).entry(), *buttons).digits);
        if buttons.a {
            let mut pin: String = String::new();
            push_decimal(&mut pin, self.digits[0] as u64);
            push_decimal(&mut pin, self.digits[1] as u64);
            push_decimal(&mut pin, self.digits[2] as u64);
            push_decimal(&mut pin, self.digits[3] as u64);
            assert(pin@ =~= pin_text(self.digits@));
            return PinAction::Submit(pin);
        }
        PinAction::Nothing
    }

    pub fn digits(&self) -> (d: [u8; 4])
        ensures
            d@ == self.entry().digits,
    {
        self.digits
    }

    pub fn cursor(&self) -> (c: usize)
        ensures
            c == self.entry().cursor,
    {
        self.cursor
    }

    /// Shows a message under the digits, until the next edit.
    pub fn set_error(&mut self, msg: &str)
        ensures
            final(self).note() == Some(msg@),
            final(self).id() == old(self).id(),
            final(self).name() == old(self).name(),
            final(self).address() == old(self).address(),
            final(self).entry() == old(self).entry(),
    {
        self.error = Some(String::from_str(msg));
    }

    /// `v` draws this screen: the title, the note where there is one, the
    /// digits and the hints.
    pub open spec fn is_drawn(self, v: Seq<Draw>) -> bool {
        let n: int = if self.note() is Some {
            1
        } else {
            0
        };
        &&& v.len() == 3 + n
        &&& ui::draws_header(v[0], "Pair with "@ + self.caption())
        &&& self.note() is Some ==> ui::draws_row(v[1], self.note()->0, None, 0, false)
        &&& v[1 + n] matches Draw::PinEntry { digits, cursor } && digits@ == self.entry().digits
            && cursor == self.entry().cursor
        &&& ui::draws_a_b(v[2 + n], "Submit"@, "Back"@)
    }

    pub fn draw(&self) -> (v: Vec<Draw>)
        ensures
            self.is_drawn(v@),
    {
        let mut v: Vec<Draw> = Vec::new();
        let label: String = self.label();
        v.push(Draw::Header(String::from_str("Pair with ").concat(label.as_str())));
        if let Some(err) = &self.error {
            v.push(Draw::Row { label: err.clone(), value: None, index: 0, selected: false });
        }
        v.push(Draw::PinEntry { digits: self.digits, cursor: self.cursor });
        v.push(a_b_hints("Submit", "Back"));
        v
    }
}

/// Up undoes down on a digit, and down undoes up.
pub proof fn law_up_and_down_undo_each_other(e: PinEntry, b: Buttons)
    requires
        e.digits.len() == 4,
        0 <= e.cursor < 4,
        forall|i: int| 0 <= i < 4 ==> (#[trigger] e.digits[i]) < 10,
        !b.left && !b.right,
    ensures
        ({
            let up = Buttons { up: true, down: false, ..b };
            let down = Buttons { up: false, down: true, ..b };
            &&& entered(entered(e, up), down).digits =~= e.digits
            &&& entered(entered(e, down), up).digits =~= e.digits
            &&& entered(entered(e, up), down).cursor == e.cursor
        }),
{
}

/// A submitted PIN is exactly four digits long.
pub proof fn law_a_pin_is_four_digits(digits: Seq<u8>)
    requires
        digits.len() == 4,
        forall|i: int| 0 <= i < 4 ==> (#[trigger] digits[i]) < 10,
    ensures
        pin_text(digits) =~= Seq::new(4, |i: int| crate::text::digit(digits[i] as int)),
{
    assert(digits[0] < 10 && digits[1] < 10 && digits[2] < 10 && digits[3] < 10);
}

/// Left undoes right and right undoes left, and neither touches a digit. Away
/// from the ends each moves the cursor by one; at the ends it stays.
pub proof fn law_left_and_right_undo_each_other(e: PinEntry, left: Buttons, right: Buttons)
    requires
        e.digits.len() == 4,
        0 <= e.cursor < 4,
        left.left && !left.right && !left.up && !left.down,
        right.right && !right.left && !right.up && !right.down,
    ensures
        entered(e, left).digits == e.digits,
        entered(e, right).digits == e.digits,
        e.cursor > 0 ==> entered(e, left).cursor == e.cursor - 1,
        e.cursor == 0 ==> entered(e, left).cursor == 0,
        e.cursor < 3 ==> entered(e, right).cursor == e.cursor + 1,
        e.cursor == 3 ==> entered(e, right).cursor == 3,
        e.cursor < 3 ==> entered(entered(e, right), left) == e,
        e.cursor > 0 ==> entered(entered(e, left), right) == e,
{
}

/// The entry after frames that all press the same buttons.
pub open spec fn entered_often(e: PinEntry, b: Buttons, n: nat) -> PinEntry
    decreases n,
{
    if n == 0 {
        e
    } else {
        entered(entered_often(e, b, (n - 1) as nat), b)
    }
}

/// Every digit can be reached from every other, by as many presses as there
/// are digits between them, and all digits stay as they were.
pub proof fn law_every_digit_can_be_reached(
    e: PinEntry,
    to: int,
    left: Buttons,
    right: Buttons,
    n: nat,
)
    requires
        e.digits.len() == 4,
        0 <= e.cursor < 4,
        0 <= to < 4,
        left.left && !left.right && !left.up && !left.down,
        right.right && !right.left && !right.up && !right.down,
    ensures
        to == e.cursor - n ==> entered_often(e, left, n) == (PinEntry { cursor: to, ..e }),
        to == e.cursor + n ==> entered_often(e, right, n) == (PinEntry { cursor: to, ..e }),
    decreases n,
{
    if n > 0 {
        if to == e.cursor - n {
            law_every_digit_can_be_reached(e, to + 1, left, right, (n - 1) as nat);
        }
        if to == e.cursor + n {
            law_every_digit_can_be_reached(e, to - 1, left, right, (n - 1) as nat);
        }
    }
}

/// Up adds one to the digit under the cursor and down takes one off, around the
/// ten digits, and no other digit changes. Ten presses of either bring it back.
pub proof fn law_up_and_down_turn_one_digit(e: PinEntry, up: Buttons, down: Buttons, i: int)
    requires
        e.digits.len() == 4,
        0 <= e.cursor < 4,
        forall|i: int| 0 <= i < 4 ==> (#[trigger] e.digits[i]) < 10,
        up.up && !up.left && !up.right,
        down.down && !down.up && !down.left && !down.right,
        0 <= i < 4,
    ensures
        ({
            let (d, u) = (entered(e, down), entered(e, up));
            &&& d.cursor == e.cursor && u.cursor == e.cursor
            &&& i != e.cursor ==> d.digits[i] == e.digits[i] && u.digits[i] == e.digits[i]
            &&& i == e.cursor ==> {
                &&& u.digits[i] == e.digits[i] + 1 || e.digits[i] == 9 && u.digits[i] == 0
                &&& d.digits[i] == e.digits[i] - 1 || e.digits[i] == 0 && d.digits[i] == 9
            }
        }),
{
    assert(e.digits[e.cursor] < 10);
}

/// A submitted PIN shows the digits in the order they stand in: its character
/// at a place is that of the digit there, from the character 0 upwards.
pub proof fn law_a_pin_reads_in_order(digits: Seq<u8>, i: int)
    requires
        digits.len() == 4,
        forall|i: int| 0 <= i < 4 ==> (#[trigger] digits[i]) < 10,
        0 <= i < 4,
    ensures
        pin_text(digits).len() == 4,
        pin_text(digits)[i] as int - '0' as int == digits[i],
{
    law_a_pin_is_four_digits(digits);
    assert(digits[i] < 10);
}

/// Two entries that look the same are the same: what is drawn shows the four
/// digits, the cursor and the client's label, and a message where there is one.
pub proof fn law_an_entry_is_drawn_in_full(p: Pin, q: Pin, v: Seq<Draw>)
    requires
        p.is_drawn(v),
        q.is_drawn(v),
    ensures
        p.entry() == q.entry(),
        p.note() == q.note(),
        p.caption() == q.caption(),
{
    let title = "Pair with "@;
    assert((title + p.caption()).skip(title.len() as int) =~= p.caption());
    assert((title + q.caption()).skip(title.len() as int) =~= q.caption());
}

/// Where buttons come together, the cursor moves first and then the digit that
/// it came to turns: a frame with both is a frame with the one and then one with
/// the other. Left counts before right, and up before down.
pub proof fn law_the_cursor_moves_before_the_digit_turns(
    e: PinEntry,
    b: Buttons,
    across: Buttons,
    along: Buttons,
)
    requires
        e.digits.len() == 4,
        0 <= e.cursor < 4,
        across.left == b.left && across.right == b.right && !across.up && !across.down,
        along.up == b.up && along.down == b.down && !along.left && !along.right,
    ensures
        entered(e, b) == entered(entered(e, across), along),
        b.left && e.cursor > 0 ==> entered(e, b).cursor == e.cursor - 1,
        b.up && b.down ==> entered(e, b) == entered(e, Buttons { down: false, ..b }),
{
}

/// A message is gone with any edit and stays without one: an edit is a button
/// that moves the cursor or turns a digit. A button at its end edits nothing.
pub proof fn law_only_an_edit_clears_the_message(e: PinEntry, b: Buttons)
    requires
        e.digits.len() == 4,
        0 <= e.cursor < 4,
        forall|i: int| 0 <= i < 4 ==> (#[trigger] e.digits[i]) < 10,
    ensures
        edits(e, b) <==> entered(e, b) != e,
{
    assert(e.digits[e.cursor] < 10);
    let f = entered(e, b);
    if edits(e, b) {
        if b.up || b.down {
            assert(e.digits[f.cursor] < 10);
            assert(f.digits[f.cursor] != e.digits[f.cursor]);
        } else {
            assert(f.cursor != e.cursor);
        }
    }
}

} // verus!
