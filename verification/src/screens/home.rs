//! The home screen: one vertical list, the service first, then one row for
//! each client that waits to be paired.
use crate::control::{CastState, PendingEntry};
use crate::screens;
use crate::screens::client_label;
use crate::ui;
use crate::ui::{a_b_hints, Buttons, Draw};
use vstd::prelude::*;

verus! {

/// What to do after a frame.
#[derive(Clone, Debug, PartialEq, Eq)]
pub enum HomeAction {
    /// Nothing.
    Nothing,
    /// A on the service row: start it if stopped, stop it if running.
    Toggle,
    /// A on a pending row: open PIN entry for the client with this id.
    Pair(String),
    /// B: leave.
    Exit,
}

/// How many rows are drawn: the service row and the pending ones, as far as
/// they fit. There is no scrolling; a client beyond that has no row until an
/// earlier one clears.
pub open spec fn row_count(state: CastState) -> int {
    if 1 + state.pending@.len() < ui::MAIN_ROW_COUNT {
        1 + state.pending@.len() as int
    } else {
        ui::MAIN_ROW_COUNT as int
    }
}

/// How many rows are drawn.
pub fn visible_row_count(state: &CastState) -> (n: usize)
    ensures
        n == row_count(*state),
        1 <= n <= ui::MAIN_ROW_COUNT,
{
    let cap: usize = ui::MAIN_ROW_COUNT as usize;
    if state.pending.len() < cap - 1 {
        1 + state.pending.len()
    } else {
        cap
    }
}

/// The cursor held to the rows that exist now. A row can go away between two
/// frames while the cursor sits on it.
pub open spec fn held(selected: int, rows: int) -> int {
    if selected >= rows {
        rows - 1
    } else {
        selected
    }
}

/// Where the cursor is after a frame's buttons.
pub open spec fn moved(selected: int, rows: int, b: Buttons) -> int {
    let at = held(selected, rows);
    if b.b {
        at
    } else if b.down && at + 1 < rows {
        at + 1
    } else if b.up && at > 0 {
        at - 1
    } else {
        at
    }
}

/// The home screen's cursor.
pub struct Home {
    selected: usize,
}

/// The status of the service: down where the socket is, running where it is
/// up, and casting where a client streams on top of that.
pub open spec fn service_text(state: CastState, connected: bool) -> Seq<char> {
    if !connected {
        "Stopped"@
    } else if state.casting {
        match state.client {
            Some(name) => "Casting ("@ + name@ + ")"@,
            None => "Casting"@,
        }
    } else {
        "Running"@
    }
}

/// What A does on the selected row.
pub open spec fn a_text(selected: int, connected: bool) -> Seq<char> {
    if selected == 0 {
        if connected {
            "Stop"@
        } else {
            "Start"@
        }
    } else {
        "Pair"@
    }
}

/// The label of a pending client.
pub open spec fn entry_label(e: PendingEntry) -> Seq<char> {
    screens::label_of(screens::string_view(e.name), screens::string_view(e.address), e.id@)
}

fn label_entry(e: &PendingEntry) -> (s: String)
    ensures
        s@ == entry_label(*e),
{
    let name: Option<&str> = match &e.name {
        Some(n) => Some(n.as_str()),
        None => None,
    };
    let address: Option<&str> = match &e.address {
        Some(a) => Some(a.as_str()),
        None => None,
    };
    client_label(name, address, e.id.as_str())
}

impl Home {
    pub closed spec fn cursor(self) -> int {
        self.selected as int
    }

    /// The cursor on the service row.
    pub fn new() -> (h: Home)
        ensures
            h.cursor() == 0,
    {
        Home { selected: 0 }
    }

    /// Moves the cursor and acts on the row it is on. The rows are those of
    /// the state at hand, never remembered ones, so A cannot act on a row that
    /// is gone or that is not drawn.
    pub fn update(&mut self, buttons: &Buttons, state: &CastState) -> (action: HomeAction)
        ensures
            final(self).cursor() == moved(old(self).cursor(), row_count(*state), *buttons),
            0 <= final(self).cursor() < row_count(*state),
            if buttons.b {
                action == HomeAction::Exit
            } else if !buttons.a {
                action == HomeAction::Nothing
            } else if final(self).cursor() == 0 {
                action == HomeAction::Toggle
            } else {
                action == HomeAction::Pair(state.pending@[final(self).cursor() - 1].id)
            },
    {
        let rows: usize = visible_row_count(state);
        if self.selected >= rows {
            self.selected = rows - 1;
        }
        if buttons.b {
            return HomeAction::Exit;
        }
        if buttons.down && self.selected + 1 < rows {
            self.selected = self.selected + 1;
        } else if buttons.up && self.selected > 0 {
            self.selected = self.selected - 1;
        }
        if buttons.a {
            if self.selected == 0 {
                return HomeAction::Toggle;
            }
            return HomeAction::Pair(state.pending[self.selected - 1].id.clone());
        }
        HomeAction::Nothing
    }

    /// What the hint bar says for A: always what A is about to do. On the
    /// service row that follows whether the daemon is up, not whether it
    /// casts.
    pub fn a_hint(&self, connected: bool) -> (s: &'static str)
        ensures
            s@ == a_text(self.cursor(), connected),
    {
        if self.selected == 0 {
            if connected {
                "Stop"
            } else {
                "Start"
            }
        } else {
            "Pair"
        }
    }

    /// The service row's text.
    pub fn status_text(state: &CastState, connected: bool) -> (s: String)
        ensures
            s@ == service_text(*state, connected),
    {
        if !connected {
            String::from_str("Stopped")
        } else if state.casting {
            match &state.client {
                Some(name) => String::from_str("Casting (").concat(name.as_str()).concat(")"),
                None => String::from_str("Casting"),
            }
        } else {
            String::from_str("Running")
        }
    }

    /// `v` draws this screen: the status pill, the title, the rows that fit
    /// and the hints.
    pub open spec fn is_drawn(self, state: CastState, connected: bool, v: Seq<Draw>) -> bool {
        let rows = row_count(state);
        &&& v.len() == rows + 3
        &&& v[0] == Draw::HardwareGroup
        &&& ui::draws_header(v[1], "Cast"@)
        &&& ui::draws_row(
            v[2],
            "Service"@,
            Some(service_text(state, connected)),
            0,
            self.cursor() == 0,
        )
        &&& forall|i: int|
            1 <= i < rows ==> ui::draws_row(
                #[trigger] v[2 + i],
                entry_label(state.pending@[i - 1]),
                None,
                i,
                self.cursor() == i,
            )
        &&& ui::draws_a_b(v[rows + 2], a_text(self.cursor(), connected), "Exit"@)
    }

    pub fn draw(&self, state: &CastState, connected: bool) -> (v: Vec<Draw>)
        ensures
            self.is_drawn(*state, connected, v@),
    {
        let mut v: Vec<Draw> = Vec::new();
        v.push(Draw::HardwareGroup);
        v.push(Draw::Header(String::from_str("Cast")));
        v.push(
            Draw::Row {
                label: String::from_str("Service"),
                value: Some(Self::status_text(state, connected)),
                index: 0,
                selected: self.selected == 0,
            },
        );
        let rows: usize = visible_row_count(state);
        let mut i: usize = 1;
        while i < rows
            invariant
                1 <= i <= rows,
                rows == row_count(*state),
                rows <= ui::MAIN_ROW_COUNT,
                v@.len() == 2 + i,
                v@[0] == Draw::HardwareGroup,
                ui::draws_header(v@[1], "Cast"@),
                ui::draws_row(
                    v@[2],
                    "Service"@,
                    Some(service_text(*state, connected)),
                    0,
                    self.cursor() == 0,
                ),
                forall|k: int|
                    1 <= k < i ==> ui::draws_row(
                        #[trigger] v@[2 + k],
                        entry_label(state.pending@[k - 1]),
                        None,
                        k,
                        self.cursor() == k,
                    ),
            decreases rows - i,
        {
            let row: Draw = Draw::Row {
                label: label_entry(&state.pending[i - 1]),
                value: None,
                index: i as i32,
                selected: self.selected == i,
            };
            let ghost before = v@;
            v.push(row);
            assert forall|k: int| 1 <= k < i + 1 implies ui::draws_row(
                #[trigger] v@[2 + k],
                entry_label(state.pending@[k - 1]),
                None,
                k,
                self.cursor() == k,
            ) by {
                if k < i {
                    assert(v@[2 + k] == before[2 + k]);
                }
            }
            i = i + 1;
        }
        let ghost before = v@;
        v.push(a_b_hints(self.a_hint(connected), "Exit"));
        assert forall|k: int| 1 <= k < rows implies ui::draws_row(
            #[trigger] v@[2 + k],
            entry_label(state.pending@[k - 1]),
            None,
            k,
            self.cursor() == k,
        ) by {
            assert(v@[2 + k] == before[2 + k]);
        }
        v
    }
}

impl Default for Home {
    fn default() -> (h: Home)
        ensures
            h.cursor() == 0,
    {
        Home::new()
    }
}

/// The cursor is always on a row that is drawn, whatever the list did between
/// two frames; and a pending row it is on belongs to a client in the list.
pub proof fn law_the_cursor_is_on_a_drawn_row(selected: int, state: CastState, b: Buttons)
    requires
        selected >= 0,
    ensures
        ({
            let at = moved(selected, row_count(state), b);
            &&& 0 <= at < row_count(state) <= ui::MAIN_ROW_COUNT
            &&& at > 0 ==> at - 1 < state.pending@.len()
        }),
{
}

/// A stale "casting" from before the connection was lost never shows: without
/// a connection the service reads as stopped.
pub proof fn law_no_connection_reads_stopped(state: CastState)
    ensures
        service_text(state, false) == "Stopped"@,
        a_text(0, false) == "Start"@,
{
}

/// Down goes one row on and up one back, so that each undoes the other; at the
/// first and the last row the cursor stays. A cursor whose row is gone counts
/// as on the last one. B moves nothing.
pub proof fn law_up_and_down_undo_each_other(at: int, rows: int, up: Buttons, down: Buttons)
    requires
        0 <= at < rows,
        up.up && !up.down && !up.b,
        down.down && !down.up && !down.b,
    ensures
        at < rows - 1 ==> moved(at, rows, down) == at + 1 && moved(
            moved(at, rows, down),
            rows,
            up,
        ) == at,
        at > 0 ==> moved(at, rows, up) == at - 1 && moved(moved(at, rows, up), rows, down) == at,
        moved(rows - 1, rows, down) == rows - 1,
        moved(0, rows, up) == 0,
{
}

/// Without up and down, or with B, the cursor keeps its row, or takes the last
/// one where its own is gone.
pub proof fn law_the_cursor_moves_only_when_told(at: int, rows: int, b: Buttons)
    requires
        0 <= at,
        0 < rows,
        b.b || !b.up && !b.down,
    ensures
        at < rows ==> moved(at, rows, b) == at,
        at >= rows ==> moved(at, rows, b) == rows - 1,
{
}

/// There is a row for the service and one for each client that waits, up to six
/// rows in all: either every client has one, or six are full.
pub proof fn law_clients_have_rows_while_there_is_room(state: CastState)
    ensures
        1 <= row_count(state) <= 6,
        row_count(state) <= 1 + state.pending@.len(),
        row_count(state) == 6 || row_count(state) == 1 + state.pending@.len(),
{
}

/// While a client is cast to, the service row names it, if it has a name.
pub proof fn law_the_service_row_names_the_client(state: CastState, name: String, at: int)
    requires
        state.casting,
        state.client == Some(name),
        0 <= at < name@.len(),
    ensures
        service_text(state, true).len() == "Casting ("@.len() + name@.len() + 1,
        service_text(state, true)[("Casting ("@.len() + at) as int] == name@[at],
{
    reveal_strlit(")");
}

/// Exactly one row is highlighted, the one that the cursor is on, and every
/// client with a row is drawn in it, in the list's order.
pub proof fn law_one_row_is_highlighted(
    h: Home,
    state: CastState,
    connected: bool,
    v: Seq<Draw>,
    i: int,
)
    requires
        h.is_drawn(state, connected, v),
        0 <= h.cursor() < row_count(state),
        0 <= i < row_count(state),
    ensures
        v.len() == row_count(state) + 3,
        v[2 + i] matches Draw::Row { label, value, index, selected } && {
            &&& index == i
            &&& selected <==> i == h.cursor()
            &&& i > 0 ==> label@ == entry_label(state.pending@[i - 1]) && value is None
            &&& i == 0 ==> (value matches Some(t) && t@ == service_text(state, connected))
        },
{
}

/// Where up and down come together, down counts.
pub proof fn law_down_counts_before_up(at: int, rows: int, both: Buttons, down: Buttons)
    requires
        0 <= at < rows - 1,
        both.up && both.down && !both.b,
        down.down && !down.up && !down.b,
    ensures
        moved(at, rows, both) == moved(at, rows, down),
        moved(at, rows, both) == at + 1,
{
}

} // verus!
