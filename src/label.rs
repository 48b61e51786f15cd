//! Text label widget.
use vstd::prelude::*;
use crate::area::{Dim, Pos};
use crate::input::{Action, FocusEvent, ModKeys, MouseEvent};
use crate::layout::{AreaBound, LengthBound};
use crate::widget::{Border, Widget};
use unicode_width::UnicodeWidthStr;

verus! {

/// Number of terminal columns that a text takes
pub uninterp spec fn text_width(s: Seq<char>) -> nat;

/// The lines of a text wrapped to a width
pub uninterp spec fn wrapped(s: Seq<char>, width: int) -> Seq<Seq<char>>;

/// Relies on unicode_width's `UnicodeWidthStr::width`: the display width of
/// a text, which depends on its characters alone.
#[verifier::external_body]
fn display_width(s: &str) -> (r: usize)
    ensures
        r == text_width(s@),
{
    UnicodeWidthStr::width(s)
}

/// A character that has the same display width alone as within a text of
/// such characters: printable ASCII, or a CJK unified ideograph
pub open spec fn plain_char(c: char) -> bool {
    (0x20 <= c as u32 && c as u32 <= 0x7E) || (0x4E00 <= c as u32 && c as u32 <= 0x9FFF)
}

/// A text of plain characters only: no control characters, and none that
/// joins, selects or modifies a neighbour
pub open spec fn plain_text(s: Seq<char>) -> bool {
    forall|i: int| 0 <= i < s.len() ==> plain_char(#[trigger] s[i])
}

/// Whether a text holds plain characters only
pub fn is_plain(s: &str) -> (r: bool)
    ensures
        r == plain_text(s@),
{
    let n = s.unicode_len();
    let mut i: usize = 0;
    while i < n
        invariant
            n == s@.len(),
            i <= n,
            forall|k: int| 0 <= k < i ==> plain_char(#[trigger] s@[k]),
        decreases n - i,
    {
        let v = s.get_char(i) as u32;
        if !((0x20 <= v && v <= 0x7E) || (0x4E00 <= v && v <= 0x9FFF)) {
            return false;
        }
        i = i + 1;
    }
    true
}

/// Relies on textwrap's `wrap`: the lines of a text wrapped to `width`
/// columns, which depend on the text and the width alone.  `wrap` measures a
/// line once character by character and once as a whole text; where the two
/// differ (control characters, emoji sequences) its arithmetic can underflow,
/// so only plain texts are passed.
#[verifier::external_body]
fn wrap_lines(s: &str, width: usize) -> (r: Vec<String>)
    requires
        width >= 1,
        plain_text(s@),
    ensures
        r@.len() == wrapped(s@, width as int).len(),
        forall|i: int| 0 <= i < r@.len() ==> (#[trigger] r@[i])@ == wrapped(s@, width as int)[i],
{
    textwrap::wrap(s, width).into_iter().map(|line| line.into_owned()).collect()
}

/// Text label widget
pub struct Label {
    txt: String,
}

/// Rows of a label of text width `w`: one per 24 columns, started
pub open spec fn label_rows(w: int) -> int {
    w / 24 + 1
}

/// Columns of a label of text width `w` spread over its rows
pub open spec fn label_cols(w: int) -> int {
    w / label_rows(w) + 1
}

/// Size bounds of a label whose text is `width` columns wide (at most the
/// largest length)
pub open spec fn label_bound(width: int) -> AreaBound {
    let w = if width > 0xFFFF { 0xFFFF } else { width };
    AreaBound {
        col: LengthBound { min: label_cols(w) as u16, max: (label_cols(w) + 2) as u16 },
        row: LengthBound { min: label_rows(w) as u16, max: label_rows(w) as u16 },
    }
}

/// Size bounds of a label whose text is `width` columns wide: rows for
/// every 24 columns, and the text spread evenly over them, with room for two
/// more columns
pub fn bound_for_width(width: usize) -> (r: AreaBound)
    ensures
        r == label_bound(width as int),
{
    let w: u16 = if width > 0xFFFF {
        0xFFFF
    } else {
        width as u16
    };
    let rows: u16 = w / 24 + 1;
    assert(w as int / rows as int <= 0xFFFF) by (nonlinear_arith)
        requires
            rows >= 1,
            w <= 0xFFFF,
    ;
    assert(w as int / rows as int <= 24) by (nonlinear_arith)
        requires
            rows == w as int / 24 + 1,
            w <= 0xFFFF,
    ;
    let cols: u16 = w / rows + 1;
    AreaBound {
        col: LengthBound { min: cols, max: cols + 2 },
        row: LengthBound { min: rows, max: rows },
    }
}

impl Label {
    /// Create a new label widget
    pub fn new(txt: &str) -> (r: Label)
        ensures
            r.text() == txt@,
    {
        let txt = txt.to_string();
        Label { txt }
    }

    /// The label's text
    pub closed spec fn text(&self) -> Seq<char> {
        self.txt@
    }

    /// Get the label's text
    pub fn txt(&self) -> (r: &str)
        ensures
            r@ == self.text(),
    {
        self.txt.as_str()
    }

    /// The lines to draw in an area `width` columns wide and `height` rows
    /// high: the text wrapped to the width, as many lines as fit
    pub fn lines(&self, width: u16, height: u16) -> (r: Vec<String>)
        requires
            width == 0 || plain_text(self.text()),
        ensures
            width == 0 ==> r@.len() == 0,
            width > 0 ==> r@.len() == if wrapped(self.text(), width as int).len() < height {
                wrapped(self.text(), width as int).len() as int
            } else {
                height as int
            },
            width > 0 ==> forall|i: int|
                0 <= i < r@.len() ==> (#[trigger] r@[i])@ == wrapped(self.text(), width as int)[i],
    {
        if width == 0 {
            return Vec::new();
        }
        let all = wrap_lines(self.txt.as_str(), width as usize);
        fit_lines(&all, height)
    }
}

impl Label {
    /// The lines to draw in an area `width` columns wide and `height` rows
    /// high, when the text is plain; `None` for other texts in an area with
    /// columns, which are not wrapped
    pub fn try_lines(&self, width: u16, height: u16) -> (r: Option<Vec<String>>)
        ensures
            r is None <==> (width > 0 && !plain_text(self.text())),
            r is Some && width == 0 ==> r.unwrap()@.len() == 0,
            r is Some && width > 0 ==> r.unwrap()@.len() == if wrapped(self.text(), width as int).len()
                < height {
                wrapped(self.text(), width as int).len() as int
            } else {
                height as int
            },
            r is Some && width > 0 ==> forall|i: int|
                0 <= i < r.unwrap()@.len() ==> (#[trigger] r.unwrap()@[i])@ == wrapped(
                    self.text(),
                    width as int,
                )[i],
    {
        if width > 0 && !is_plain(self.txt.as_str()) {
            None
        } else {
            Some(self.lines(width, height))
        }
    }
}

/// The first `height` of the given lines, or all of them when fewer
pub fn fit_lines(all: &Vec<String>, height: u16) -> (r: Vec<String>)
    ensures
        r@.len() == if all@.len() < height { all@.len() as int } else { height as int },
        forall|i: int| 0 <= i < r@.len() ==> (#[trigger] r@[i])@ == all@[i]@,
{
    let mut r: Vec<String> = Vec::new();
    let mut i: usize = 0;
    while i < all.len() && i < height as usize
        invariant
            i <= all@.len(),
            i <= height,
            r@.len() == i,
            forall|k: int| 0 <= k < i ==> (#[trigger] r@[k])@ == all@[k]@,
        decreases all@.len() - i,
    {
        r.push(all[i].clone());
        i = i + 1;
    }
    r
}

impl Widget for Label {
    open spec fn bounds_post(&self, r: AreaBound) -> bool {
        r == label_bound(text_width(self.text()) as int)
    }

    open spec fn border_post(&self, r: Option<Border>) -> bool {
        r is None
    }

    open spec fn focus_post(&self, fev: FocusEvent, after: &Self, r: Option<Action>) -> bool {
        after.text() == self.text() && r is None
    }

    open spec fn mouse_post(&self, mev: MouseEvent, after: &Self, r: Option<Action>) -> bool {
        after.text() == self.text() && r is None
    }

    /// Rows for every 24 columns of text, and the text spread evenly over them
    fn bounds(&self) -> (r: AreaBound) {
        self.text_bounds()
    }

    /// A label has no border
    fn border(&self) -> (r: Option<Border>) {
        None
    }

    /// A label ignores focus
    fn focus(&mut self, fev: FocusEvent) -> (r: Option<Action>) {
        None
    }

    /// A label ignores the mouse
    fn mouse_event(&mut self, mev: MouseEvent, mods: ModKeys, dim: Dim, pos: Pos) -> (r: Option<Action>) {
        None
    }
}

impl Label {
    /// Size bounds of the label: those of its text's display width
    pub fn text_bounds(&self) -> (r: AreaBound)
        ensures
            r == label_bound(text_width(self.text()) as int),
    {
        bound_for_width(display_width(self.txt.as_str()))
    }
}

} // verus!
