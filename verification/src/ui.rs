//! The display: opening and closing it, reading its buttons, and where things
//! are drawn on it.
use crate::convert;
use crate::sys;
use crate::text::push_signed;
use vstd::prelude::*;

verus! {

/// Space around things, unscaled. The toolkit decides this at run time, but on
/// the one panel size that is accepted it is always this.
pub const PADDING: i32 = 10;

/// Rows that fit between the header and the hint bar.
pub const MAIN_ROW_COUNT: i32 = 6;

/// The cell of a digit in number entry, unscaled.
pub const DIGIT_WIDTH: i32 = 10;

pub const DIGIT_HEIGHT: i32 = 16;

/// From the top of the digits down to the cursor's underline, unscaled.
pub const CURSOR_GAP: i32 = 19;

/// The panel, in real pixels.
pub const PANEL_W: i32 = 720;

pub const PANEL_H: i32 = 480;

/// Which buttons fired this frame.
#[derive(Clone, Copy, Debug, PartialEq, Eq, Structural)]
pub struct Buttons {
    pub up: bool,
    pub down: bool,
    pub left: bool,
    pub right: bool,
    pub a: bool,
    pub b: bool,
}

impl Default for Buttons {
    fn default() -> (b: Self)
        ensures
            b == (Buttons { up: false, down: false, left: false, right: false, a: false, b: false }),
    {
        Buttons { up: false, down: false, left: false, right: false, a: false, b: false }
    }
}

/// The button with this bit is in the mask.
pub open spec fn in_mask(mask: i32, bit: u32) -> bool {
    mask & (bit as i32) != 0
}

/// The buttons in a mask.
pub open spec fn buttons_of(mask: i32) -> Buttons {
    Buttons {
        up: in_mask(mask, sys::BTN_DPAD_UP),
        down: in_mask(mask, sys::BTN_DPAD_DOWN),
        left: in_mask(mask, sys::BTN_DPAD_LEFT),
        right: in_mask(mask, sys::BTN_DPAD_RIGHT),
        a: in_mask(mask, sys::BTN_A),
        b: in_mask(mask, sys::BTN_B),
    }
}

/// `bit` where `on`, nothing otherwise.
pub open spec fn bit_if(on: bool, bit: u32) -> i32 {
    if on {
        bit as i32
    } else {
        0
    }
}

/// The mask of the buttons.
pub open spec fn mask_of(b: Buttons) -> i32 {
    bit_if(b.up, sys::BTN_DPAD_UP) | bit_if(b.down, sys::BTN_DPAD_DOWN) | bit_if(
        b.left,
        sys::BTN_DPAD_LEFT,
    ) | bit_if(b.right, sys::BTN_DPAD_RIGHT) | bit_if(b.a, sys::BTN_A) | bit_if(b.b, sys::BTN_B)
}

impl Buttons {
    /// The buttons in a mask of button bits.
    pub fn from_mask(mask: i32) -> (b: Self)
        ensures
            b == buttons_of(mask),
    {
        Buttons {
            up: mask & (sys::BTN_DPAD_UP as i32) != 0,
            down: mask & (sys::BTN_DPAD_DOWN as i32) != 0,
            left: mask & (sys::BTN_DPAD_LEFT as i32) != 0,
            right: mask & (sys::BTN_DPAD_RIGHT as i32) != 0,
            a: mask & (sys::BTN_A as i32) != 0,
            b: mask & (sys::BTN_B as i32) != 0,
        }
    }

    /// The mask with this button added where it fired.
    pub fn add_to_mask(mask: i32, bit: u32, fired: bool) -> (r: i32)
        ensures
            r == mask | bit_if(fired, bit),
    {
        if fired {
            mask | (bit as i32)
        } else {
            assert(mask | 0i32 == mask) by (bit_vector);
            mask
        }
    }
}

/// A mask of buttons decodes to the buttons that went in.
pub proof fn law_buttons_read_back(b: Buttons)
    ensures
        buttons_of(mask_of(b)) == b,
{
    let (u, d, l, r, a, c) = (
        bit_if(b.up, 0x01),
        bit_if(b.down, 0x02),
        bit_if(b.left, 0x04),
        bit_if(b.right, 0x08),
        bit_if(b.a, 0x10),
        bit_if(b.b, 0x20),
    );
    let m = u | d | l | r | a | c;
    assert((m & 0x01i32 == u) && (m & 0x02i32 == d) && (m & 0x04i32 == l) && (m & 0x08i32 == r) && (m
        & 0x10i32 == a) && (m & 0x20i32 == c)) by (bit_vector)
        requires
            m == u | d | l | r | a | c,
            u == 0 || u == 0x01,
            d == 0 || d == 0x02,
            l == 0 || l == 0x04,
            r == 0 || r == 0x08,
            a == 0 || a == 0x10,
            c == 0 || c == 0x20,
    ;
}

/// Where row `index` starts, in real pixels: below the band that the title and
/// the status pill share.
pub open spec fn row_top(index: int) -> int {
    20 + 60 * (index + 1)
}

/// Where row `index` starts, in real pixels.
pub fn row_y(index: i32) -> (y: i32)
    requires
        index < i32::MAX,
        convert::fits_i32(60 * (index + 1)),
        convert::fits_i32(row_top(index as int)),
    ensures
        y == row_top(index as int),
{
    sys::scale1(PADDING) + sys::scale1(sys::PILL_SIZE) * (index + 1)
}

/// Rows lie one under the other without overlapping: each starts where the one
/// above ends, the first below the header band.
pub proof fn law_rows_stack(index: int)
    ensures
        row_top(index + 1) == row_top(index) + sys::PILL_SIZE * sys::FIXED_SCALE,
        row_top(0) == (PADDING + sys::PILL_SIZE) * sys::FIXED_SCALE,
{
}

/// All rows that are ever drawn end above the bottom edge of the panel.
pub proof fn law_rows_fit_the_panel(index: int)
    requires
        0 <= index < MAIN_ROW_COUNT,
    ensures
        row_top(index) + sys::PILL_SIZE * sys::FIXED_SCALE <= PANEL_H,
{
}

/// Half of `v`, rounded toward zero.
pub open spec fn half(v: int) -> int {
    if v >= 0 {
        v / 2
    } else {
        -((-v) / 2)
    }
}

fn halved(v: i32) -> (r: i32)
    ensures
        r == half(v as int),
{
    if v >= 0 {
        v / 2
    } else if v == i32::MIN {
        -1_073_741_824
    } else {
        -((-v) / 2)
    }
}

#[derive(Clone, Copy, Debug, PartialEq, Eq, Structural)]
pub struct Rect {
    pub x: i32,
    pub y: i32,
    pub w: i32,
    pub h: i32,
}

/// Where the parts of a row go.
#[derive(Clone, Copy, Debug, PartialEq, Eq, Structural)]
pub struct RowLayout {
    /// The highlight behind a selected row. Its text is dark, other text is
    /// light.
    pub pill: Option<Rect>,
    pub text_y: i32,
    pub label_x: i32,
    /// The label is shortened to this, so that it never runs into the value.
    pub label_max_width: i32,
    /// The value's left edge, where there is a value.
    pub value_x: Option<i32>,
}

/// The layout of row `index` on a panel `w` pixels wide, with text `text_h`
/// pixels high and a value `value_w` pixels wide.
pub open spec fn row_layout_of(
    w: int,
    index: int,
    selected: bool,
    text_h: int,
    value_w: Option<i32>,
) -> RowLayout {
    RowLayout {
        pill: if selected {
            Some(Rect { x: 20, y: row_top(index) as i32, w: (w - 40) as i32, h: 60 })
        } else {
            None
        },
        text_y: (row_top(index) + half(60 - text_h)) as i32,
        label_x: 40,
        label_max_width: (match value_w {
            Some(v) => w - 40 - v - 60,
            None => w - 80,
        }) as i32,
        value_x: match value_w {
            Some(v) => Some((w - 40 - v) as i32),
            None => None,
        },
    }
}

/// The layout of a row. The text is centred on the row by the font's height,
/// so that all baselines line up.
pub fn row_layout(w: i32, index: i32, selected: bool, text_h: i32, value_w: Option<i32>) -> (l:
    RowLayout)
    requires
        index < i32::MAX,
        convert::fits_i32(60 * (index + 1)),
        convert::fits_i32(row_top(index as int)),
        convert::fits_i32(60 - text_h),
        convert::fits_i32(row_top(index as int) + half(60 - text_h)),
        match value_w {
            Some(v) => convert::fits_i32(w - 40) && convert::fits_i32(w - 40 - v)
                && convert::fits_i32(w - 40 - v - 20) && convert::fits_i32(w - 40 - v - 60),
            None => convert::fits_i32(w - 40) && convert::fits_i32(w - 80),
        },
    ensures
        l == row_layout_of(w as int, index as int, selected, text_h as int, value_w),
{
    let y: i32 = row_y(index);
    let pill_h: i32 = sys::scale1(sys::PILL_SIZE);
    let pad: i32 = sys::scale1(PADDING);
    let value_x: Option<i32> = match value_w {
        Some(v) => Some(w - pad * 2 - v),
        None => None,
    };
    RowLayout {
        pill: if selected {
            Some(Rect { x: pad, y, w: w - 2 * pad, h: pill_h })
        } else {
            None
        },
        text_y: y + halved(pill_h - text_h),
        label_x: pad * 2,
        label_max_width: match value_x {
            Some(x) => x - pad - pad * 2,
            None => w - pad * 2 - pad * 2,
        },
        value_x,
    }
}

/// A label that keeps to its width ends at least a padding before the value,
/// and the value ends a double padding before the panel's edge.
pub proof fn law_a_label_never_meets_its_value(
    w: int,
    index: int,
    selected: bool,
    text_h: int,
    value_w: i32,
)
    requires
        convert::fits_i32(w - 40 - value_w),
        convert::fits_i32(w - 40 - value_w - 60),
    ensures
        ({
            let l = row_layout_of(w, index, selected, text_h, Some(value_w));
            &&& l.value_x matches Some(x)
            &&& l.label_x + l.label_max_width + 20 == x
            &&& x + value_w == w - 40
        }),
{
}

/// The top-left corner of the first digit cell of a PIN.
pub open spec fn pin_corner(w: int, h: int) -> (int, int) {
    (half(w - 80), half(h - 92))
}

/// A digit goes centred in its cell.
pub open spec fn pin_digit_at(w: int, h: int, i: int, text_w: int, text_h: int) -> (int, int) {
    (
        pin_corner(w, h).0 + i * 20 + half(20 - text_w),
        pin_corner(w, h).1 + half(32 - text_h),
    )
}

/// The underline that marks the selected digit. Its height is the toolkit's
/// own.
pub open spec fn pin_bar_at(w: int, h: int, cursor: int) -> Rect {
    Rect {
        x: (pin_corner(w, h).0 + cursor * 20) as i32,
        y: (pin_corner(w, h).1 + 38) as i32,
        w: 20,
        h: 0,
    }
}

/// Where digit `i` of a PIN goes on a panel of the given size, given the size
/// of its text.
pub fn pin_digit(w: i32, h: i32, i: usize, text_w: i32, text_h: i32) -> (at: (i32, i32))
    requires
        i < 4,
        convert::fits_i32(w - 80),
        convert::fits_i32(h - 92),
        convert::fits_i32(h - 60),
        convert::fits_i32(20 - text_w),
        convert::fits_i32(32 - text_h),
        convert::fits_i32(pin_corner(w as int, h as int).0 + i * 20),
        convert::fits_i32(
            pin_digit_at(w as int, h as int, i as int, text_w as int, text_h as int).0,
        ),
        convert::fits_i32(
            pin_digit_at(w as int, h as int, i as int, text_w as int, text_h as int).1,
        ),
    ensures
        (at.0 as int, at.1 as int) == pin_digit_at(
            w as int,
            h as int,
            i as int,
            text_w as int,
            text_h as int,
        ),
{
    let cell_w: i32 = sys::scale1(DIGIT_WIDTH);
    let y: i32 = halved(h - sys::scale1(sys::PILL_SIZE) - sys::scale1(DIGIT_HEIGHT));
    let x0: i32 = halved(w - 4 * cell_w);
    let cell_x: i32 = x0 + (i as i32) * cell_w;
    (cell_x + halved(cell_w - text_w), y + halved(sys::scale1(DIGIT_HEIGHT) - text_h))
}

/// Where the underline of the selected digit goes.
pub fn pin_bar(w: i32, h: i32, cursor: usize) -> (r: Rect)
    requires
        cursor < 4,
        convert::fits_i32(w - 80),
        convert::fits_i32(h - 92),
        convert::fits_i32(h - 60),
        convert::fits_i32(pin_corner(w as int, h as int).0 + cursor * 20),
        convert::fits_i32(pin_corner(w as int, h as int).1 + 38),
    ensures
        r == pin_bar_at(w as int, h as int, cursor as int),
{
    let cell_w: i32 = sys::scale1(DIGIT_WIDTH);
    let y: i32 = halved(h - sys::scale1(sys::PILL_SIZE) - sys::scale1(DIGIT_HEIGHT));
    let x0: i32 = halved(w - 4 * cell_w);
    Rect { x: x0 + (cursor as i32) * cell_w, y: y + sys::scale1(CURSOR_GAP), w: cell_w, h: 0 }
}

/// Whether a digit of a PIN is drawn: one that is not yet entered is not.
pub fn digit_shown(d: u8) -> (r: bool)
    ensures
        r == (d <= 9),
{
    d <= 9
}

/// The text can be handed to the toolkit: no character of it ends a string
/// early.
pub open spec fn drawable(s: Seq<char>) -> bool {
    forall|i: int| 0 <= i < s.len() ==> #[trigger] s[i] != '\0'
}

/// Whether the text can be handed to the toolkit.
pub fn is_drawable(s: &str) -> (r: bool)
    ensures
        r == drawable(s@),
{
    let n: usize = s.unicode_len();
    let mut i: usize = 0;
    while i < n
        invariant
            i <= n,
            n == s@.len(),
            forall|k: int| 0 <= k < i ==> #[trigger] s@[k] != '\0',
        decreases n - i,
    {
        if s.get_char(i) == '\0' {
            return false;
        }
        i = i + 1;
    }
    true
}

/// A button with what it does.
#[derive(Debug, PartialEq, Eq)]
pub struct Hint {
    pub button: String,
    pub label: String,
}

/// The hints that can be drawn among the first `n`, in order.
pub open spec fn drawable_hints(hints: Seq<Hint>, n: nat) -> Seq<Hint>
    decreases n,
{
    if n == 0 {
        Seq::empty()
    } else {
        let rest = drawable_hints(hints, (n - 1) as nat);
        let h = hints[n - 1];
        if drawable(h.button@) && drawable(h.label@) {
            rest.push(h)
        } else {
            rest
        }
    }
}

/// The hints that can be drawn. A pair with text that cannot be is left out as
/// a whole.
pub fn hints(pairs: &Vec<Hint>) -> (v: Vec<Hint>)
    ensures
        v@ == drawable_hints(pairs@, pairs@.len()),
{
    let mut v: Vec<Hint> = Vec::new();
    let mut i: usize = 0;
    while i < pairs.len()
        invariant
            i <= pairs@.len(),
            v@ == drawable_hints(pairs@, i as nat),
        decreases pairs.len() - i,
    {
        if is_drawable(pairs[i].button.as_str()) && is_drawable(pairs[i].label.as_str()) {
            v.push(Hint { button: pairs[i].button.clone(), label: pairs[i].label.clone() });
        }
        i = i + 1;
    }
    v
}

/// Why the display could not be opened.
#[derive(Clone, Copy, Debug, PartialEq, Eq, Structural)]
pub enum UiError {
    NoScreen,
    WrongSize { w: i32, h: i32 },
}

/// The text of a display error.
pub open spec fn ui_error_text(e: UiError) -> Seq<char> {
    match e {
        UiError::NoScreen => "GFX_init returned null"@,
        UiError::WrongSize { w, h } => "panel reported "@ + crate::text::signed_decimal(w as int)
            + "x"@ + crate::text::signed_decimal(h as int)
            + ", expected 720x480 for the RGSP — set DEVICE=rgsp and RGXX_MODEL=RGSP (and PLATFORM=h700) so platform.c's is_rgsp picks the RGSP geometry instead of the generic 640x480 default"@,
    }
}

impl UiError {
    pub fn to_string(&self) -> (s: String)
        ensures
            s@ == ui_error_text(*self),
    {
        match *self {
            UiError::NoScreen => String::from_str("GFX_init returned null"),
            UiError::WrongSize { w, h } => {
                let mut s: String = String::from_str("panel reported ");
                push_signed(&mut s, w as i64);
                s.append("x");
                push_signed(&mut s, h as i64);
                s.append(
                    ", expected 720x480 for the RGSP — set DEVICE=rgsp and RGXX_MODEL=RGSP (and PLATFORM=h700) so platform.c's is_rgsp picks the RGSP geometry instead of the generic 640x480 default",
                );
                s
            },
        }
    }
}

/// Something of the display to close.
#[derive(Clone, Copy, Debug, PartialEq, Eq, Structural)]
pub enum UiRelease {
    QuitPower,
    QuitInput,
    QuitScreen,
    QuitSettings,
}

/// What of the display is open.
#[derive(Clone, Copy, Debug, PartialEq, Eq, Structural)]
pub struct UiHeld {
    pub settings: bool,
    pub screen: bool,
    pub input: bool,
    pub power: bool,
}

/// What is closed, in the reverse of the order in which it is opened.
pub open spec fn ui_releases(h: UiHeld) -> Seq<UiRelease> {
    (if h.power {
        seq![UiRelease::QuitPower]
    } else {
        Seq::empty()
    }) + (if h.input {
        seq![UiRelease::QuitInput]
    } else {
        Seq::empty()
    }) + (if h.screen {
        seq![UiRelease::QuitScreen]
    } else {
        Seq::empty()
    }) + (if h.settings {
        seq![UiRelease::QuitSettings]
    } else {
        Seq::empty()
    })
}

/// The display being opened, and then open. It knows what was opened, so that
/// exactly that is closed, however the program ends: a display that stays open
/// breaks the console's launcher until the next boot.
pub struct Ui {
    held: UiHeld,
    w: i32,
    h: i32,
}

impl Ui {
    pub closed spec fn holds(self) -> UiHeld {
        self.held
    }

    pub closed spec fn dims(self) -> (i32, i32) {
        (self.w, self.h)
    }

    /// The settings were opened, the first of the four.
    pub fn new() -> (ui: Self)
        ensures
            ui.holds() == (UiHeld { settings: true, screen: false, input: false, power: false }),
            ui.dims() == (0i32, 0i32),
    {
        Ui {
            held: UiHeld { settings: true, screen: false, input: false, power: false },
            w: 0,
            h: 0,
        }
    }

    /// The screen was asked for: its size, or nothing where there is none. A
    /// screen of any other size than the panel's is refused: on this console a
    /// missing setting in the environment gives a plausible wrong one. It is
    /// open all the same, and has to be closed.
    pub fn on_screen(&mut self, size: Option<(i32, i32)>) -> (r: Result<(), UiError>)
        ensures
            final(self).holds() == (UiHeld { screen: old(self).holds().screen || size is Some, ..old(
                self,
            ).holds() }),
            match size {
                None => r == Err::<(), UiError>(UiError::NoScreen) && final(self).dims() == old(
                    self,
                ).dims(),
                Some((w, h)) => if w == PANEL_W && h == PANEL_H {
                    r == Ok::<(), UiError>(()) && final(self).dims() == (w, h)
                } else {
                    r == Err::<(), UiError>(UiError::WrongSize { w, h }) && final(self).dims()
                        == old(self).dims()
                },
            },
    {
        match size {
            None => Err(UiError::NoScreen),
            Some((w, h)) => {
                self.held.screen = true;
                if w != PANEL_W || h != PANEL_H {
                    return Err(UiError::WrongSize { w, h });
                }
                self.w = w;
                self.h = h;
                Ok(())
            },
        }
    }

    /// The buttons were opened.
    pub fn on_input(&mut self)
        ensures
            final(self).holds() == (UiHeld { input: true, ..old(self).holds() }),
            final(self).dims() == old(self).dims(),
    {
        self.held.input = true;
    }

    /// Power management was opened, the last of the four.
    pub fn on_power(&mut self)
        ensures
            final(self).holds() == (UiHeld { power: true, ..old(self).holds() }),
            final(self).dims() == old(self).dims(),
    {
        self.held.power = true;
    }

    /// The size of the panel.
    pub fn size(&self) -> (s: (i32, i32))
        ensures
            s == self.dims(),
    {
        (self.w, self.h)
    }

    /// What to close when the display goes, in order.
    pub fn teardown(&self) -> (v: Vec<UiRelease>)
        ensures
            v@ == ui_releases(self.holds()),
    {
        let mut v: Vec<UiRelease> = Vec::new();
        if self.held.power {
            v.push(UiRelease::QuitPower);
        }
        if self.held.input {
            v.push(UiRelease::QuitInput);
        }
        if self.held.screen {
            v.push(UiRelease::QuitScreen);
        }
        if self.held.settings {
            v.push(UiRelease::QuitSettings);
        }
        assert(v@ =~= ui_releases(self.holds()));
        v
    }
}

/// A display closes exactly what it opened, once each.
pub proof fn law_a_display_closes_what_it_opened(h: UiHeld)
    ensures
        ui_releases(h).no_duplicates(),
        ui_releases(h).contains(UiRelease::QuitPower) == h.power,
        ui_releases(h).contains(UiRelease::QuitInput) == h.input,
        ui_releases(h).contains(UiRelease::QuitScreen) == h.screen,
        ui_releases(h).contains(UiRelease::QuitSettings) == h.settings,
{
    let r = ui_releases(h);
    let p: int = if h.power {
        1
    } else {
        0
    };
    let i: int = if h.input {
        p + 1
    } else {
        p
    };
    let s: int = if h.screen {
        i + 1
    } else {
        i
    };
    if h.power {
        assert(r[0] == UiRelease::QuitPower);
    }
    if h.input {
        assert(r[p] == UiRelease::QuitInput);
    }
    if h.screen {
        assert(r[i] == UiRelease::QuitScreen);
    }
    if h.settings {
        assert(r[s] == UiRelease::QuitSettings);
    }
}

/// One thing to draw.
#[derive(Debug, PartialEq, Eq)]
pub enum Draw {
    /// The status pill in the corner.
    HardwareGroup,
    /// The page title.
    Header(String),
    /// A menu row.
    Row { label: String, value: Option<String>, index: i32, selected: bool },
    /// PIN entry.
    PinEntry { digits: [u8; 4], cursor: usize },
    /// A message that is the whole screen.
    FullScreen(String),
    /// The hint bar.
    Hints(Vec<Hint>),
}

pub open spec fn draws_header(d: Draw, title: Seq<char>) -> bool {
    d matches Draw::Header(t) && t@ == title
}

pub open spec fn draws_message(d: Draw, message: Seq<char>) -> bool {
    d matches Draw::FullScreen(t) && t@ == message
}

/// A row with this label, and this value or none.
pub open spec fn draws_row(
    d: Draw,
    row_label: Seq<char>,
    row_value: Option<Seq<char>>,
    at: int,
    highlighted: bool,
) -> bool {
    d matches Draw::Row { label, value, index, selected } && label@ == row_label && (match value {
        Some(v) => Some(v@),
        None => None,
    }) == row_value && index == at && selected == highlighted
}

pub open spec fn is_hint(h: Hint, button: Seq<char>, label: Seq<char>) -> bool {
    h.button@ == button && h.label@ == label
}

/// A hint bar with one hint.
pub open spec fn draws_hint(d: Draw, button: Seq<char>, label: Seq<char>) -> bool {
    d matches Draw::Hints(v) && v@.len() == 1 && is_hint(v@[0], button, label)
}

/// A hint bar with a hint for A and one for B.
pub open spec fn draws_a_b(d: Draw, a: Seq<char>, b: Seq<char>) -> bool {
    d matches Draw::Hints(v) && v@.len() == 2 && is_hint(v@[0], "A"@, a) && is_hint(
        v@[1],
        "B"@,
        b,
    )
}

/// A hint bar with one hint.
pub fn one_hint(button: &str, label: &str) -> (d: Draw)
    ensures
        draws_hint(d, button@, label@),
{
    let mut v: Vec<Hint> = Vec::new();
    v.push(Hint { button: String::from_str(button), label: String::from_str(label) });
    Draw::Hints(v)
}

/// A hint bar with a hint for A and one for B.
pub fn a_b_hints(a: &str, b: &str) -> (d: Draw)
    ensures
        draws_a_b(d, a@, b@),
{
    let mut v: Vec<Hint> = Vec::new();
    v.push(Hint { button: String::from_str("A"), label: String::from_str(a) });
    v.push(Hint { button: String::from_str("B"), label: String::from_str(b) });
    Draw::Hints(v)
}

/// Half of a length is within half a pixel of it, on the side of zero.
pub proof fn law_half_is_in_the_middle(v: int)
    ensures
        -1 <= v - 2 * half(v) <= 1,
        v >= 0 ==> 0 <= 2 * half(v) <= v,
        v <= 0 ==> v <= 2 * half(v) <= 0,
{
}

/// A row's text stands in the middle of its row, to a pixel; the highlight of a
/// selected row covers exactly the row, a padding in from either side, and its
/// text begins inside it. Only a selected row has one.
pub proof fn law_a_rows_parts_line_up(
    w: int,
    index: int,
    selected: bool,
    text_h: int,
    value_w: Option<i32>,
)
    requires
        convert::fits_i32(w),
        convert::fits_i32(w - 40),
        convert::fits_i32(row_top(index)),
        convert::fits_i32(row_top(index) + half(60 - text_h)),
        w >= 80,
    ensures
        ({
            let l = row_layout_of(w, index, selected, text_h, value_w);
            let top = 20 + 60 * (index + 1);
            let (above, below) = (l.text_y - top, top + 60 - (l.text_y + text_h));
            &&& -1 <= above - below <= 1
            &&& l.pill is Some <==> selected
            &&& l.pill matches Some(r) ==> {
                &&& r.y == top && r.h == 60
                &&& r.x == 20 && r.x + r.w == w - 20
                &&& r.x < l.label_x < r.x + r.w
            }
            &&& l.label_x == 40
        }),
{
}

/// The four cells of a PIN stand side by side, each 20 pixels wide, and in the
/// middle of the panel, to a pixel.
pub proof fn law_a_pin_stands_in_the_middle(w: int, h: int)
    ensures
        ({
            let (x, y) = pin_corner(w, h);
            let (left, right) = (x, w - (x + 4 * 20));
            let (above, below) = (y, (h - 60) - (y + 32));
            &&& -1 <= left - right <= 1
            &&& -1 <= above - below <= 1
        }),
{
}

/// A digit stands in the middle of its own cell, to a pixel, and the underline
/// is as wide as the cell of the digit under the cursor and lies below it.
pub proof fn law_the_underline_marks_its_digit(
    w: int,
    h: int,
    i: int,
    text_w: int,
    text_h: int,
)
    requires
        0 <= i < 4,
        convert::fits_i32(pin_corner(w, h).0 + i * 20),
        convert::fits_i32(pin_corner(w, h).1 + 38),
    ensures
        ({
            let (x, y) = pin_digit_at(w, h, i, text_w, text_h);
            let bar = pin_bar_at(w, h, i);
            let (left, right) = (x - bar.x, bar.x + bar.w - (x + text_w));
            let cell_y = pin_corner(w, h).1;
            let (above, below) = (y - cell_y, cell_y + 32 - (y + text_h));
            &&& bar.w == 20
            &&& bar.x == pin_corner(w, h).0 + 20 * i
            &&& -1 <= left - right <= 1
            &&& -1 <= above - below <= 1
            &&& bar.y > cell_y + 32
        }),
{
}

/// In which order the display is closed: what was opened last goes first.
pub open spec fn ui_release_rank(r: UiRelease) -> int {
    match r {
        UiRelease::QuitPower => 0,
        UiRelease::QuitInput => 1,
        UiRelease::QuitScreen => 2,
        UiRelease::QuitSettings => 3,
    }
}

/// The display is closed in the reverse of the order in which it is opened.
pub proof fn law_a_display_closes_in_reverse(h: UiHeld, i: int, j: int)
    requires
        0 <= i < j < ui_releases(h).len(),
    ensures
        ui_release_rank(ui_releases(h)[i]) < ui_release_rank(ui_releases(h)[j]),
{
}

/// Every hint that can be drawn is drawn, and no other: those among the first
/// `n` without a character that would end their text early.
pub proof fn law_exactly_the_drawable_hints_are_drawn(hints: Seq<Hint>, n: nat, h: Hint)
    requires
        n <= hints.len(),
    ensures
        drawable_hints(hints, n).contains(h) <==> hints.take(n as int).contains(h) && !h.button@.contains(
            '\0',
        ) && !h.label@.contains('\0'),
    decreases n,
{
    let shown = drawable_hints(hints, n);
    let all = hints.take(n as int);
    if n > 0 {
        let rest = drawable_hints(hints, (n - 1) as nat);
        let front = hints.take(n - 1);
        law_exactly_the_drawable_hints_are_drawn(hints, (n - 1) as nat, h);
        let last = hints[n - 1];
        assert(all =~= front.push(last));
        lemma_drawable(last.button@);
        lemma_drawable(last.label@);
        assert(all.contains(h) <==> front.contains(h) || h == last) by {
            if front.contains(h) {
                let k = choose|k: int| 0 <= k < front.len() && front[k] == h;
                assert(all[k] == h);
            }
            assert(all[n - 1] == last);
        }
        if drawable(last.button@) && drawable(last.label@) {
            assert(shown =~= rest.push(last));
            assert(shown.contains(h) <==> rest.contains(h) || h == last) by {
                if rest.contains(h) {
                    let k = choose|k: int| 0 <= k < rest.len() && rest[k] == h;
                    assert(shown[k] == h);
                }
                assert(shown[rest.len() as int] == last);
            }
        }
    }
}

proof fn lemma_drawable(s: Seq<char>)
    ensures
        drawable(s) <==> !s.contains('\0'),
{
    if s.contains('\0') {
        let k = choose|k: int| 0 <= k < s.len() && s[k] == '\0';
        assert(s[k] == '\0');
    }
}

} // verus!
