//! An unpairing was asked for and its answer is outstanding.
use crate::ui;
use crate::ui::{one_hint, Buttons, Draw};
use vstd::prelude::*;

verus! {

/// What to do after a frame.
#[derive(Clone, Copy, Debug, PartialEq, Eq, Structural)]
pub enum UnpairingAction {
    /// Nothing: still waiting.
    Nothing,
    /// B: stop waiting. The request is not taken back.
    Cancel,
}

/// What a frame's buttons mean here.
pub open spec fn unpairing_action(b: Buttons) -> UnpairingAction {
    if b.b {
        UnpairingAction::Cancel
    } else {
        UnpairingAction::Nothing
    }
}

pub fn update(buttons: &Buttons) -> (action: UnpairingAction)
    ensures
        action == unpairing_action(*buttons),
{
    if buttons.b {
        UnpairingAction::Cancel
    } else {
        UnpairingAction::Nothing
    }
}

/// `v` draws this screen.
pub open spec fn is_drawn(v: Seq<Draw>) -> bool {
    v.len() == 2 && ui::draws_message(v[0], "Unpairing..."@) && ui::draws_hint(v[1], "B"@, "Cancel"@)
}

pub fn draw() -> (v: Vec<Draw>)
    ensures
        is_drawn(v@),
{
    let mut v: Vec<Draw> = Vec::new();
    v.push(Draw::FullScreen(String::from_str("Unpairing...")));
    v.push(one_hint("B", "Cancel"));
    v
}

} // verus!
