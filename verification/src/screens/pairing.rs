//! A PIN was sent off and its answer is outstanding.
use crate::ui;
use crate::ui::{one_hint, Buttons, Draw};
use vstd::prelude::*;

verus! {

/// What to do after a frame.
#[derive(Clone, Copy, Debug, PartialEq, Eq, Structural)]
pub enum PairingAction {
    /// Nothing: still waiting.
    Nothing,
    /// B: stop waiting. The PIN is not taken back, and the daemon may still
    /// complete the pairing.
    Cancel,
}

/// What a frame's buttons mean here.
pub open spec fn pairing_action(b: Buttons) -> PairingAction {
    if b.b {
        PairingAction::Cancel
    } else {
        PairingAction::Nothing
    }
}

pub fn update(buttons: &Buttons) -> (action: PairingAction)
    ensures
        action == pairing_action(*buttons),
{
    if buttons.b {
        PairingAction::Cancel
    } else {
        PairingAction::Nothing
    }
}

/// `v` draws this screen.
pub open spec fn is_drawn(v: Seq<Draw>) -> bool {
    v.len() == 2 && ui::draws_message(v[0], "Pairing..."@) && ui::draws_hint(v[1], "B"@, "Cancel"@)
}

pub fn draw() -> (v: Vec<Draw>)
    ensures
        is_drawn(v@),
{
    let mut v: Vec<Draw> = Vec::new();
    v.push(Draw::FullScreen(String::from_str("Pairing...")));
    v.push(one_hint("B", "Cancel"));
    v
}

} // verus!
