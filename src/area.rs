//! Rectangular areas of text cells, and the edges they are split or trimmed from.
use vstd::prelude::*;

verus! {

/// A set of area edges, named by the sides it holds
#[allow(non_camel_case_types)]
#[derive(Clone, Copy, Debug, PartialEq, Eq, Structural)]
pub enum Edge {
    NONE,
    TOP,
    BOTTOM,
    LEFT,
    RIGHT,
    TOP_LEFT,
    TOP_RIGHT,
    BOTTOM_LEFT,
    BOTTOM_RIGHT,
    TOP_BOTTOM,
    LEFT_RIGHT,
    TOP_BOTTOM_LEFT,
    TOP_BOTTOM_RIGHT,
    TOP_LEFT_RIGHT,
    BOTTOM_LEFT_RIGHT,
    ALL,
}

impl Edge {
    /// Whether the set holds the top edge
    pub open spec fn has_top(self) -> bool {
        match self {
            Edge::TOP | Edge::TOP_LEFT | Edge::TOP_RIGHT | Edge::TOP_BOTTOM | Edge::TOP_BOTTOM_LEFT | Edge::TOP_BOTTOM_RIGHT | Edge::TOP_LEFT_RIGHT | Edge::ALL => true,
            _ => false,
        }
    }

    /// Whether the set holds the bottom edge
    pub open spec fn has_bottom(self) -> bool {
        match self {
            Edge::BOTTOM | Edge::BOTTOM_LEFT | Edge::BOTTOM_RIGHT | Edge::TOP_BOTTOM | Edge::TOP_BOTTOM_LEFT | Edge::TOP_BOTTOM_RIGHT | Edge::BOTTOM_LEFT_RIGHT | Edge::ALL => true,
            _ => false,
        }
    }

    /// Whether the set holds the left edge
    pub open spec fn has_left(self) -> bool {
        match self {
            Edge::LEFT | Edge::TOP_LEFT | Edge::BOTTOM_LEFT | Edge::LEFT_RIGHT | Edge::TOP_BOTTOM_LEFT | Edge::TOP_LEFT_RIGHT | Edge::BOTTOM_LEFT_RIGHT | Edge::ALL => true,
            _ => false,
        }
    }

    /// Whether the set holds the right edge
    pub open spec fn has_right(self) -> bool {
        match self {
            Edge::RIGHT | Edge::TOP_RIGHT | Edge::BOTTOM_RIGHT | Edge::LEFT_RIGHT | Edge::TOP_BOTTOM_RIGHT | Edge::TOP_LEFT_RIGHT | Edge::BOTTOM_LEFT_RIGHT | Edge::ALL => true,
            _ => false,
        }
    }

    /// The edge set holding the given sides
    pub fn from_sides(top: bool, bottom: bool, left: bool, right: bool) -> (r: Edge)
        ensures
            r.has_top() == top,
            r.has_bottom() == bottom,
            r.has_left() == left,
            r.has_right() == right,
    {
        match (top, bottom, left, right) {
            (false, false, false, false) => Edge::NONE,
            (true, false, false, false) => Edge::TOP,
            (false, true, false, false) => Edge::BOTTOM,
            (false, false, true, false) => Edge::LEFT,
            (false, false, false, true) => Edge::RIGHT,
            (true, false, true, false) => Edge::TOP_LEFT,
            (true, false, false, true) => Edge::TOP_RIGHT,
            (false, true, true, false) => Edge::BOTTOM_LEFT,
            (false, true, false, true) => Edge::BOTTOM_RIGHT,
            (true, true, false, false) => Edge::TOP_BOTTOM,
            (false, false, true, true) => Edge::LEFT_RIGHT,
            (true, true, true, false) => Edge::TOP_BOTTOM_LEFT,
            (true, true, false, true) => Edge::TOP_BOTTOM_RIGHT,
            (true, false, true, true) => Edge::TOP_LEFT_RIGHT,
            (false, true, true, true) => Edge::BOTTOM_LEFT_RIGHT,
            (true, true, true, true) => Edge::ALL,
        }
    }

    /// Whether the set holds the top edge
    pub fn top(self) -> (r: bool)
        ensures
            r == self.has_top(),
    {
        matches!(self, Edge::TOP | Edge::TOP_LEFT | Edge::TOP_RIGHT | Edge::TOP_BOTTOM | Edge::TOP_BOTTOM_LEFT | Edge::TOP_BOTTOM_RIGHT | Edge::TOP_LEFT_RIGHT | Edge::ALL)
    }

    /// Whether the set holds the bottom edge
    pub fn bottom(self) -> (r: bool)
        ensures
            r == self.has_bottom(),
    {
        matches!(self, Edge::BOTTOM | Edge::BOTTOM_LEFT | Edge::BOTTOM_RIGHT | Edge::TOP_BOTTOM | Edge::TOP_BOTTOM_LEFT | Edge::TOP_BOTTOM_RIGHT | Edge::BOTTOM_LEFT_RIGHT | Edge::ALL)
    }

    /// Whether the set holds the left edge
    pub fn left(self) -> (r: bool)
        ensures
            r == self.has_left(),
    {
        matches!(self, Edge::LEFT | Edge::TOP_LEFT | Edge::BOTTOM_LEFT | Edge::LEFT_RIGHT | Edge::TOP_BOTTOM_LEFT | Edge::TOP_LEFT_RIGHT | Edge::BOTTOM_LEFT_RIGHT | Edge::ALL)
    }

    /// Whether the set holds the right edge
    pub fn right(self) -> (r: bool)
        ensures
            r == self.has_right(),
    {
        matches!(self, Edge::RIGHT | Edge::TOP_RIGHT | Edge::BOTTOM_RIGHT | Edge::LEFT_RIGHT | Edge::TOP_BOTTOM_RIGHT | Edge::TOP_LEFT_RIGHT | Edge::BOTTOM_LEFT_RIGHT | Edge::ALL)
    }

    /// Union of two edge sets
    pub fn union(self, other: Edge) -> (r: Edge)
        ensures
            r.has_top() == (self.has_top() || other.has_top()),
            r.has_bottom() == (self.has_bottom() || other.has_bottom()),
            r.has_left() == (self.has_left() || other.has_left()),
            r.has_right() == (self.has_right() || other.has_right()),
    {
        Edge::from_sides(
            self.top() || other.top(),
            self.bottom() || other.bottom(),
            self.left() || other.left(),
            self.right() || other.right(),
        )
    }

    /// Check whether every edge of `other` is in this set
    pub fn contains(self, other: Edge) -> (r: bool)
        ensures
            r == ((other.has_top() ==> self.has_top()) && (other.has_bottom() ==> self.has_bottom())
                && (other.has_left() ==> self.has_left()) && (other.has_right()
                ==> self.has_right())),
    {
        (!other.top() || self.top()) && (!other.bottom() || self.bottom()) && (!other.left()
            || self.left()) && (!other.right() || self.right())
    }

    /// An edge set that a split can start from: one edge, or two opposite edges
    pub open spec fn is_split_edge(self) -> bool {
        self == Edge::TOP || self == Edge::BOTTOM || self == Edge::LEFT || self == Edge::RIGHT
            || self == Edge::TOP_BOTTOM || self == Edge::LEFT_RIGHT
    }
}

/// Dimensions in text cells
#[derive(Clone, Copy, Debug, PartialEq, Eq, Structural)]
pub struct Dim {
    pub width: u16,
    pub height: u16,
}

impl Dim {
    /// Create new dimensions
    pub fn new(width: u16, height: u16) -> (r: Dim)
        ensures
            r.width == width,
            r.height == height,
    {
        Dim { width, height }
    }

    /// Check whether the dimensions hold no cell
    pub fn is_empty(self) -> (r: bool)
        ensures
            r == (self.width == 0 || self.height == 0),
    {
        self.width == 0 || self.height == 0
    }
}

/// Position of a text cell
#[derive(Clone, Copy, Debug, PartialEq, Eq, Structural)]
pub struct Pos {
    pub col: u16,
    pub row: u16,
}

impl Pos {
    /// Create a new position
    pub fn new(col: u16, row: u16) -> (r: Pos)
        ensures
            r.col == col,
            r.row == row,
    {
        Pos { col, row }
    }
}

/// Rectangular area of text cells
#[derive(Clone, Copy, Debug, PartialEq, Eq, Structural)]
pub struct Area {
    /// Left column
    pub col: u16,
    /// Top row
    pub row: u16,
    /// Size in cells
    pub dim: Dim,
}

/// The smaller of two cell counts
pub open spec fn min16(a: u16, b: u16) -> u16 {
    if a < b { a } else { b }
}

/// The smaller of two integers
pub open spec fn min_int(a: int, b: int) -> int {
    if a < b { a } else { b }
}

/// Largest cell coordinate that an area may reach
pub const LIMIT: u16 = 0xFFFF;

impl Area {
    /// The area ends within the addressable cell range
    pub open spec fn wf(self) -> bool {
        self.col + self.dim.width <= LIMIT && self.row + self.dim.height <= LIMIT
    }

    /// Whether a cell lies within the area
    pub open spec fn holds(self, col: int, row: int) -> bool {
        self.col <= col < self.col + self.dim.width && self.row <= row < self.row
            + self.dim.height
    }

    /// Create a new area
    pub fn new(col: u16, row: u16, width: u16, height: u16) -> (r: Area)
        requires
            col + width <= LIMIT,
            row + height <= LIMIT,
        ensures
            r.col == col,
            r.row == row,
            r.dim.width == width,
            r.dim.height == height,
            r.wf(),
    {
        let dim = Dim::new(width, height);
        Area { col, row, dim }
    }

    /// Get the column
    pub fn col(self) -> (r: u16)
        ensures
            r == self.col,
    {
        self.col
    }

    /// Get the row
    pub fn row(self) -> (r: u16)
        ensures
            r == self.row,
    {
        self.row
    }

    /// Get the width
    pub fn width(self) -> (r: u16)
        ensures
            r == self.dim.width,
    {
        self.dim.width
    }

    /// Get the height
    pub fn height(self) -> (r: u16)
        ensures
            r == self.dim.height,
    {
        self.dim.height
    }

    /// Get the dimensions
    pub fn dim(self) -> (r: Dim)
        ensures
            r == self.dim,
    {
        self.dim
    }

    /// Split into two areas starting from a given edge.
    ///
    /// The first area is the one next to the edge; for two opposite edges the
    /// area is halved, the first half taking the left or top side.
    pub fn split(self, edge: Edge, cells: u16) -> (r: (Area, Area))
        requires
            self.wf(),
            edge.is_split_edge(),
        ensures
            r.0.wf(),
            r.1.wf(),
            edge == Edge::LEFT ==> r == self.split_left_spec(cells),
            edge == Edge::RIGHT ==> r == self.split_right_spec(cells),
            edge == Edge::LEFT_RIGHT ==> r == self.split_left_spec(self.dim.width / 2),
            edge == Edge::TOP ==> r == self.split_top_spec(cells),
            edge == Edge::BOTTOM ==> r == self.split_bottom_spec(cells),
            edge == Edge::TOP_BOTTOM ==> r == self.split_top_spec(self.dim.height / 2),
    {
        if edge == Edge::LEFT {
            self.split_left(cells)
        } else if edge == Edge::RIGHT {
            self.split_right(cells)
        } else if edge == Edge::LEFT_RIGHT {
            self.split_horiz()
        } else if edge == Edge::TOP {
            self.split_top(cells)
        } else if edge == Edge::BOTTOM {
            self.split_bottom(cells)
        } else {
            self.split_vert()
        }
    }

    /// The two parts of a split from the left edge: (left, right)
    pub open spec fn split_left_spec(self, cells: u16) -> (Area, Area) {
        let w = if cells < self.dim.width { cells } else { self.dim.width };
        (
            Area { dim: Dim { width: w, ..self.dim }, ..self },
            Area { col: (self.col + w) as u16, dim: Dim { width: (self.dim.width - w) as u16, ..self.dim }, ..self },
        )
    }

    /// The two parts of a split from the right edge: (right, left)
    pub open spec fn split_right_spec(self, cells: u16) -> (Area, Area) {
        let w = if cells < self.dim.width { cells } else { self.dim.width };
        (
            Area { col: (self.col + self.dim.width - w) as u16, dim: Dim { width: w, ..self.dim }, ..self },
            Area { dim: Dim { width: (self.dim.width - w) as u16, ..self.dim }, ..self },
        )
    }

    /// The two parts of a split from the top edge: (top, bottom)
    pub open spec fn split_top_spec(self, cells: u16) -> (Area, Area) {
        let h = if cells < self.dim.height { cells } else { self.dim.height };
        (
            Area { dim: Dim { height: h, ..self.dim }, ..self },
            Area { row: (self.row + h) as u16, dim: Dim { height: (self.dim.height - h) as u16, ..self.dim }, ..self },
        )
    }

    /// The two parts of a split from the bottom edge: (bottom, top)
    pub open spec fn split_bottom_spec(self, cells: u16) -> (Area, Area) {
        let h = if cells < self.dim.height { cells } else { self.dim.height };
        (
            Area { row: (self.row + self.dim.height - h) as u16, dim: Dim { height: h, ..self.dim }, ..self },
            Area { dim: Dim { height: (self.dim.height - h) as u16, ..self.dim }, ..self },
        )
    }

    /// Split from left edge
    fn split_left(self, width: u16) -> (r: (Area, Area))
        requires
            self.wf(),
        ensures
            r == self.split_left_spec(width),
    {
        let mut left = self;
        left.dim.width = if width < self.dim.width { width } else { self.dim.width };
        let mut right = self;
        right.col = self.col + left.dim.width;
        right.dim.width = self.dim.width - left.dim.width;
        (left, right)
    }

    /// Split from right edge
    fn split_right(self, width: u16) -> (r: (Area, Area))
        requires
            self.wf(),
        ensures
            r == self.split_right_spec(width),
    {
        let mut right = self;
        right.dim.width = if width < self.dim.width { width } else { self.dim.width };
        right.col = self.col + self.dim.width - right.dim.width;
        let mut left = self;
        left.dim.width = self.dim.width - right.dim.width;
        (right, left)
    }

    /// Split horizontally
    fn split_horiz(self) -> (r: (Area, Area))
        requires
            self.wf(),
        ensures
            r == self.split_left_spec(self.dim.width / 2),
    {
        self.split_left(self.dim.width / 2)
    }

    /// Split from top edge
    fn split_top(self, height: u16) -> (r: (Area, Area))
        requires
            self.wf(),
        ensures
            r == self.split_top_spec(height),
    {
        let mut top = self;
        top.dim.height = if height < self.dim.height { height } else { self.dim.height };
        let mut bottom = self;
        bottom.dim.height = self.dim.height - top.dim.height;
        bottom.row = self.row + top.dim.height;
        (top, bottom)
    }

    /// Split from bottom edge
    fn split_bottom(self, height: u16) -> (r: (Area, Area))
        requires
            self.wf(),
        ensures
            r == self.split_bottom_spec(height),
    {
        let mut bottom = self;
        bottom.dim.height = if height < self.dim.height { height } else { self.dim.height };
        bottom.row = self.row + self.dim.height - bottom.dim.height;
        let mut top = self;
        top.dim.height = self.dim.height - bottom.dim.height;
        (bottom, top)
    }

    /// Split vertically
    fn split_vert(self) -> (r: (Area, Area))
        requires
            self.wf(),
        ensures
            r == self.split_top_spec(self.dim.height / 2),
    {
        self.split_top(self.dim.height / 2)
    }

    /// The area left after trimming cells from the given edges
    pub open spec fn trim_spec(self, edge: Edge, cells: u16) -> Area {
        let w1 = if edge.has_left() { min16(cells, self.dim.width) } else { 0 };
        let w2 = if edge.has_right() { min16(cells, (self.dim.width - w1) as u16) } else { 0 };
        let h1 = if edge.has_top() { min16(cells, self.dim.height) } else { 0 };
        let h2 = if edge.has_bottom() { min16(cells, (self.dim.height - h1) as u16) } else { 0 };
        Area {
            col: (self.col + w1) as u16,
            row: (self.row + h1) as u16,
            dim: Dim {
                width: (self.dim.width - w1 - w2) as u16,
                height: (self.dim.height - h1 - h2) as u16,
            },
        }
    }

    /// Trim cells from the given edges
    pub fn trim(self, edge: Edge, cells: u16) -> (r: Area)
        requires
            self.wf(),
        ensures
            r == self.trim_spec(edge, cells),
            r.wf(),
    {
        let mut area = self;
        if edge.left() {
            area.trim_left(cells);
        }
        if edge.right() {
            area.trim_right(cells);
        }
        if edge.top() {
            area.trim_top(cells);
        }
        if edge.bottom() {
            area.trim_bottom(cells);
        }
        area
    }

    /// Trim cells from left edge
    fn trim_left(&mut self, cells: u16)
        requires
            old(self).wf(),
        ensures
            final(self).wf(),
            final(self).col == old(self).col + min16(cells, old(self).dim.width),
            final(self).dim.width == old(self).dim.width - min16(cells, old(self).dim.width),
            final(self).row == old(self).row,
            final(self).dim.height == old(self).dim.height,
    {
        let cells = if cells < self.dim.width { cells } else { self.dim.width };
        self.col = self.col + cells;
        self.dim.width = self.dim.width - cells;
    }

    /// Trim cells from right edge
    fn trim_right(&mut self, cells: u16)
        requires
            old(self).wf(),
        ensures
            final(self).wf(),
            final(self).col == old(self).col,
            final(self).dim.width == old(self).dim.width - min16(cells, old(self).dim.width),
            final(self).row == old(self).row,
            final(self).dim.height == old(self).dim.height,
    {
        let cells = if cells < self.dim.width { cells } else { self.dim.width };
        self.dim.width = self.dim.width - cells;
    }

    /// Trim cells from top edge
    fn trim_top(&mut self, cells: u16)
        requires
            old(self).wf(),
        ensures
            final(self).wf(),
            final(self).row == old(self).row + min16(cells, old(self).dim.height),
            final(self).dim.height == old(self).dim.height - min16(cells, old(self).dim.height),
            final(self).col == old(self).col,
            final(self).dim.width == old(self).dim.width,
    {
        let cells = if cells < self.dim.height { cells } else { self.dim.height };
        self.row = self.row + cells;
        self.dim.height = self.dim.height - cells;
    }

    /// Trim cells from bottom edge
    fn trim_bottom(&mut self, cells: u16)
        requires
            old(self).wf(),
        ensures
            final(self).wf(),
            final(self).row == old(self).row,
            final(self).dim.height == old(self).dim.height - min16(cells, old(self).dim.height),
            final(self).col == old(self).col,
            final(self).dim.width == old(self).dim.width,
    {
        let cells = if cells < self.dim.height { cells } else { self.dim.height };
        self.dim.height = self.dim.height - cells;
    }

    /// The cells that two areas share
    pub open spec fn clip_spec(self, other: Area) -> Area {
        let col = if self.col < other.col { other.col } else { self.col };
        let row = if self.row < other.row { other.row } else { self.row };
        let end_col = min_int(self.col + self.dim.width, other.col + other.dim.width);
        let end_row = min_int(self.row + self.dim.height, other.row + other.dim.height);
        Area {
            col,
            row,
            dim: Dim {
                width: if col < end_col { (end_col - col) as u16 } else { 0 },
                height: if row < end_row { (end_row - row) as u16 } else { 0 },
            },
        }
    }

    /// Clip to the cells within another area
    pub fn clip(self, other: Area) -> (r: Area)
        requires
            self.wf(),
            other.wf(),
        ensures
            r == self.clip_spec(other),
            r.wf(),
            forall|c: int, w: int| r.holds(c, w) <==> (self.holds(c, w) && other.holds(c, w)),
    {
        let col = if self.col < other.col { other.col } else { self.col };
        let row = if self.row < other.row { other.row } else { self.row };
        let end_a = self.col + self.dim.width;
        let end_b = other.col + other.dim.width;
        let end_col = if end_a < end_b { end_a } else { end_b };
        let end_a = self.row + self.dim.height;
        let end_b = other.row + other.dim.height;
        let end_row = if end_a < end_b { end_a } else { end_b };
        let width: u16 = if col < end_col { end_col - col } else { 0 };
        let height: u16 = if row < end_row { end_row - row } else { 0 };
        Area { col, row, dim: Dim { width, height } }
    }

    /// Whether the area holds a cell
    pub fn contains(self, pos: Pos) -> (r: bool)
        requires
            self.wf(),
        ensures
            r == self.holds(pos.col as int, pos.row as int),
    {
        pos.col >= self.col && pos.col < self.col + self.dim.width && pos.row >= self.row
            && pos.row < self.row + self.dim.height
    }

    /// The position of a cell relative to the area's top left, if the area holds it
    pub fn within(self, pos: Pos) -> (r: Option<Pos>)
        requires
            self.wf(),
        ensures
            r.is_some() == self.holds(pos.col as int, pos.row as int),
            r.is_some() ==> r.unwrap().col == pos.col - self.col && r.unwrap().row == pos.row
                - self.row,
    {
        if self.contains(pos) {
            Some(Pos { col: pos.col - self.col, row: pos.row - self.row })
        } else {
            None
        }
    }
}

/// Splitting from the left edge partitions the width: the near part starts at
/// the area's column and the far part right after it.
pub proof fn lemma_split_left_partitions(a: Area, cells: u16)
    requires
        a.wf(),
    ensures
        ({
            let (near, far) = a.split_left_spec(cells);
            &&& near.dim.width + far.dim.width == a.dim.width
            &&& near.col == a.col
            &&& far.col == near.col + near.dim.width
            &&& near.dim.width == min16(cells, a.dim.width)
            &&& near.row == a.row && far.row == a.row
            &&& near.dim.height == a.dim.height && far.dim.height == a.dim.height
        }),
{
}

/// Trimming never takes more than an area holds: each trimmed side stays
/// within the area, and trimming an area again, by any amount, leaves a width
/// and height no larger than before and zero once the cells run out.
pub proof fn lemma_trim_saturates(a: Area, edge: Edge, cells: u16)
    requires
        a.wf(),
    ensures
        ({
            let t = a.trim_spec(edge, cells);
            &&& t.wf()
            &&& t.dim.width <= a.dim.width && t.dim.height <= a.dim.height
            &&& a.col <= t.col && t.col + t.dim.width <= a.col + a.dim.width
            &&& a.row <= t.row && t.row + t.dim.height <= a.row + a.dim.height
            &&& (edge.has_left() && cells >= a.dim.width) ==> t.dim.width == 0
            &&& (edge.has_right() && cells >= a.dim.width) ==> t.dim.width == 0
            &&& (edge.has_top() && cells >= a.dim.height) ==> t.dim.height == 0
            &&& (edge.has_bottom() && cells >= a.dim.height) ==> t.dim.height == 0
            &&& (edge.has_left() || edge.has_right()) ==> t.dim.width == if a.dim.width
                <= cells { 0 } else { a.dim.width - cells - (if edge.has_left()
                && edge.has_right() { min16(cells, (a.dim.width - cells) as u16) } else { 0 }) }
            &&& (edge.has_top() || edge.has_bottom()) ==> t.dim.height == if a.dim.height
                <= cells { 0 } else { a.dim.height - cells - (if edge.has_top()
                && edge.has_bottom() { min16(cells, (a.dim.height - cells) as u16) } else { 0 }) }
        }),
{
}

/// Trimming again never grows an area, and an area trimmed to nothing stays
/// empty however often it is trimmed
pub proof fn lemma_trim_twice(a: Area, edge: Edge, cells: u16)
    requires
        a.wf(),
    ensures
        ({
            let t = a.trim_spec(edge, cells);
            let tt = t.trim_spec(edge, cells);
            &&& tt.wf()
            &&& tt.dim.width <= t.dim.width && tt.dim.height <= t.dim.height
            &&& t.dim.width == 0 ==> tt.dim.width == 0
            &&& t.dim.height == 0 ==> tt.dim.height == 0
            &&& (edge.has_left() || edge.has_right()) && cells >= a.dim.width ==> tt.dim.width == 0
            &&& (edge.has_top() || edge.has_bottom()) && cells >= a.dim.height ==> tt.dim.height == 0
        }),
{
    lemma_trim_saturates(a, edge, cells);
    lemma_trim_saturates(a.trim_spec(edge, cells), edge, cells);
}

} // verus!
