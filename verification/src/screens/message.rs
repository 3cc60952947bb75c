//! A message that is the whole screen, with one way out.
use crate::ui;
use crate::ui::{one_hint, Buttons, Draw};
use vstd::prelude::*;

verus! {

/// A short message of the program's own.
pub struct Message {
    text: String,
}

impl Message {
    pub closed spec fn says(self) -> Seq<char> {
        self.text@
    }

    pub fn new(text: &str) -> (m: Message)
        ensures
            m.says() == text@,
    {
        Message { text: String::from_str(text) }
    }

    /// True on B: go back to the home screen.
    pub fn update(&self, buttons: &Buttons) -> (done: bool)
        ensures
            done == buttons.b,
    {
        buttons.b
    }

    /// `v` draws this screen.
    pub open spec fn is_drawn(self, v: Seq<Draw>) -> bool {
        v.len() == 2 && ui::draws_message(v[0], self.says()) && ui::draws_hint(v[1], "B"@, "Back"@)
    }

    pub fn draw(&self) -> (v: Vec<Draw>)
        ensures
            self.is_drawn(v@),
    {
        let mut v: Vec<Draw> = Vec::new();
        v.push(Draw::FullScreen(self.text.clone()));
        v.push(one_hint("B", "Back"));
        v
    }
}

} // verus!
