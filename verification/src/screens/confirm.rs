//! "Are you sure": A on a paired client lands here before anything is
//! unpaired. Unpairing is destructive and easy to hit by accident on a d-pad.
use crate::ui;
use crate::ui::{a_b_hints, Buttons, Draw};
use vstd::prelude::*;

verus! {

/// What to do after a frame.
#[derive(Clone, Copy, Debug, PartialEq, Eq, Structural)]
pub enum ConfirmAction {
    /// Nothing.
    Nothing,
    /// A: go through with it.
    Confirm,
    /// B: back out, nothing changes.
    Cancel,
}

/// Asks before the client with the given certificate fingerprint is unpaired.
pub struct Confirm {
    fingerprint: String,
    label: String,
}

/// What a frame's buttons mean here.
pub open spec fn confirm_action(b: Buttons) -> ConfirmAction {
    if b.a {
        ConfirmAction::Confirm
    } else if b.b {
        ConfirmAction::Cancel
    } else {
        ConfirmAction::Nothing
    }
}

impl Confirm {
    pub closed spec fn subject(self) -> Seq<char> {
        self.fingerprint@
    }

    pub closed spec fn caption(self) -> Seq<char> {
        self.label@
    }

    pub fn new(fingerprint: String, label: String) -> (c: Confirm)
        ensures
            c.subject() == fingerprint@,
            c.caption() == label@,
    {
        Confirm { fingerprint, label }
    }

    /// The fingerprint that is asked about.
    pub fn fingerprint(&self) -> (s: &str)
        ensures
            s@ == self.subject(),
    {
        self.fingerprint.as_str()
    }

    /// The label that the screen was made with, for naming the outcome.
    pub fn label(&self) -> (s: &str)
        ensures
            s@ == self.caption(),
    {
        self.label.as_str()
    }

    pub fn update(&self, buttons: &Buttons) -> (action: ConfirmAction)
        ensures
            action == confirm_action(*buttons),
    {
        if buttons.a {
            ConfirmAction::Confirm
        } else if buttons.b {
            ConfirmAction::Cancel
        } else {
            ConfirmAction::Nothing
        }
    }

    /// `v` draws this screen.
    pub open spec fn is_drawn(self, v: Seq<Draw>) -> bool {
        v.len() == 2 && ui::draws_message(v[0], "Unpair "@ + self.caption() + "?"@) && ui::draws_a_b(v[1], "Unpair"@, "Cancel"@)
    }

    pub fn draw(&self) -> (v: Vec<Draw>)
        ensures
            self.is_drawn(v@),
    {
        let mut v: Vec<Draw> = Vec::new();
        let text: String = String::from_str("Unpair ").concat(self.label.as_str()).concat("?");
        v.push(Draw::FullScreen(text));
        v.push(a_b_hints("Unpair", "Cancel"));
        v
    }
}

} // verus!
