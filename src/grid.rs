//! Grid templates: a matrix of cell labels, where each label covers a
//! rectangle of cells that one widget is placed on.
use vstd::prelude::*;

verus! {

/// The label of a cell that holds no widget
pub const FILLER: char = '.';

/// The rectangle of grid cells that one label covers
#[derive(Clone, Copy, Debug, PartialEq, Eq, Structural)]
pub struct Span {
    /// Cell label
    pub label: char,
    /// Index of the widget the label refers to
    pub widget: usize,
    /// Left grid column
    pub col: usize,
    /// Top grid row
    pub row: usize,
    /// Number of grid columns
    pub width: usize,
    /// Number of grid rows
    pub height: usize,
}

/// A rejected grid template
#[derive(Clone, Copy, Debug, PartialEq, Eq, Structural)]
pub enum TemplateError {
    /// A row has another number of cells than the first row
    RaggedRow(usize),
    /// The cells of a label do not form a rectangle
    NotRectangle(char),
    /// A label refers to no widget
    Unmapped(char),
    /// A row holds a label of more than one character
    LongLabel(usize),
}

/// A validated grid template
#[derive(Clone, Debug)]
pub struct GridTemplate {
    /// Number of grid columns
    pub n_cols: usize,
    /// Number of grid rows
    pub n_rows: usize,
    /// Label rectangles, in the order their labels first occur (row by row)
    pub spans: Vec<Span>,
}

/// The labels of a matrix of cells
pub open spec fn cells_view(m: Seq<Vec<char>>) -> Seq<Seq<char>> {
    m.map_values(|row: Vec<char>| row@)
}

/// Number of columns of a matrix: the length of its first row
pub open spec fn width_of(m: Seq<Seq<char>>) -> int {
    if m.len() == 0 { 0 } else { m[0].len() as int }
}

/// Every row has as many cells as the first
pub open spec fn rows_even(m: Seq<Seq<char>>) -> bool {
    forall|i: int| 0 <= i < m.len() ==> #[trigger] m[i].len() == width_of(m)
}

/// A cell of an even matrix
pub open spec fn in_grid(m: Seq<Seq<char>>, i: int, j: int) -> bool {
    0 <= i < m.len() && 0 <= j < width_of(m)
}

/// Cell (i, j) comes before cell (r, c), reading row by row
pub open spec fn before(i: int, j: int, r: int, c: int) -> bool {
    i < r || (i == r && j < c)
}

/// The cells labelled `l` form a rectangle: any cell between two of them,
/// on both axes, is labelled `l` too
pub open spec fn label_is_rect(m: Seq<Seq<char>>, l: char) -> bool {
    forall|i1: int, j1: int, i2: int, j2: int, i: int, j: int|
        in_grid(m, i1, j1) && in_grid(m, i2, j2) && #[trigger] m[i1][j1] == l && #[trigger] m[i2][j2]
            == l && (i1 <= i <= i2 || i2 <= i <= i1) && (j1 <= j <= j2 || j2 <= j <= j1)
            ==> #[trigger] m[i][j] == l
}

/// Every label of a cell before (r, c) forms a rectangle
pub open spec fn rects_before(m: Seq<Seq<char>>, r: int, c: int) -> bool {
    forall|i: int, j: int|
        in_grid(m, i, j) && before(i, j, r, c) && #[trigger] m[i][j] != FILLER ==> label_is_rect(
            m,
            m[i][j],
        )
}

/// Every label of a cell before (r, c) is among the given labels
pub open spec fn mapped_before(m: Seq<Seq<char>>, labels: Seq<char>, r: int, c: int) -> bool {
    forall|i: int, j: int|
        in_grid(m, i, j) && before(i, j, r, c) && #[trigger] m[i][j] != FILLER ==> labels.contains(
            m[i][j],
        )
}

impl Span {
    /// The span covers grid cell (i, j)
    pub open spec fn covers(self, i: int, j: int) -> bool {
        self.row <= i < self.row + self.height && self.col <= j < self.col + self.width
    }

    /// The span covers exactly the cells of its label
    pub open spec fn exact_in(self, m: Seq<Seq<char>>) -> bool {
        &&& self.label != FILLER
        &&& self.width >= 1 && self.height >= 1
        &&& self.row + self.height <= m.len()
        &&& self.col + self.width <= width_of(m)
        &&& forall|i: int, j: int| in_grid(m, i, j) ==> (#[trigger] m[i][j] == self.label <==> self.covers(i, j))
    }
}

/// Spans that cover their labels exactly, with distinct labels, ordered by their top left cells
pub open spec fn spans_valid(m: Seq<Seq<char>>, spans: Seq<Span>) -> bool {
    &&& forall|s: int| 0 <= s < spans.len() ==> #[trigger] spans[s].exact_in(m)
    &&& forall|a: int, b: int|
        0 <= a < b < spans.len() ==> before(
            #[trigger] spans[a].row as int,
            spans[a].col as int,
            #[trigger] spans[b].row as int,
            spans[b].col as int,
        )
}

/// Some span has the label
pub open spec fn has_label(spans: Seq<Span>, l: char) -> bool {
    exists|s: int| 0 <= s < spans.len() && #[trigger] spans[s].label == l
}

/// Every label of the matrix has a span
pub open spec fn spans_cover(m: Seq<Seq<char>>, spans: Seq<Span>) -> bool {
    forall|i: int, j: int| in_grid(m, i, j) && #[trigger] m[i][j] != FILLER ==> has_label(spans, m[i][j])
}

/// A span that covers its label exactly forms a rectangle
proof fn lemma_exact_is_rect(m: Seq<Seq<char>>, s: Span)
    requires
        s.exact_in(m),
    ensures
        label_is_rect(m, s.label),
{
    assert forall|i1: int, j1: int, i2: int, j2: int, i: int, j: int|
        in_grid(m, i1, j1) && in_grid(m, i2, j2) && #[trigger] m[i1][j1] == s.label && #[trigger] m[i2][j2]
            == s.label && (i1 <= i <= i2 || i2 <= i <= i1) && (j1 <= j <= j2 || j2 <= j <= j1)
        implies #[trigger] m[i][j] == s.label by {
        assert(s.covers(i1, j1) && s.covers(i2, j2));
        assert(in_grid(m, i, j));
    }
}

/// Index of the first row whose length differs from the first row's
fn ragged_row(m: &Vec<Vec<char>>) -> (r: Option<usize>)
    ensures
        match r {
            None => rows_even(cells_view(m@)),
            Some(i) => {
                &&& 0 < i < m@.len()
                &&& m@[i as int]@.len() != m@[0]@.len()
                &&& forall|k: int| 0 <= k < i ==> #[trigger] m@[k]@.len() == m@[0]@.len()
            },
        },
{
    let ghost g = cells_view(m@);
    if m.len() == 0 {
        return None;
    }
    let w = m[0].len();
    let mut i: usize = 1;
    while i < m.len()
        invariant
            1 <= i <= m@.len(),
            w == m@[0]@.len(),
            g == cells_view(m@),
            forall|k: int| 0 <= k < i ==> #[trigger] m@[k]@.len() == w,
        decreases m@.len() - i,
    {
        if m[i].len() != w {
            return Some(i);
        }
        i = i + 1;
    }
    assert forall|k: int| 0 <= k < g.len() implies #[trigger] g[k].len() == width_of(g) by {
        assert(g[k] == m@[k]@);
    }
    None
}


/// Spans that cover their labels exactly have rectangular labels
proof fn lemma_covered_rects(m: Seq<Seq<char>>, spans: Seq<Span>, r: int, c: int)
    requires
        spans_valid(m, spans),
        forall|i: int, j: int|
            in_grid(m, i, j) && before(i, j, r, c) && #[trigger] m[i][j] != FILLER ==> has_label(
                spans,
                m[i][j],
            ),
    ensures
        rects_before(m, r, c),
{
    assert forall|i: int, j: int|
        in_grid(m, i, j) && before(i, j, r, c) && #[trigger] m[i][j] != FILLER implies label_is_rect(
            m,
            m[i][j],
        ) by {
        assert(has_label(spans, m[i][j]));
        let s = choose|s: int| 0 <= s < spans.len() && #[trigger] spans[s].label == m[i][j];
        assert(spans[s].exact_in(m));
        lemma_exact_is_rect(m, spans[s]);
    }
}

/// A label whose first cell (r, c) starts a run of w cells to the right and
/// h cells downward, and that differs somewhere from that rectangle, forms no
/// rectangle
proof fn lemma_not_rect(
    m: Seq<Seq<char>>,
    l: char,
    r: int,
    c: int,
    w: int,
    h: int,
    i: int,
    j: int,
)
    requires
        rows_even(m),
        in_grid(m, r, c),
        in_grid(m, i, j),
        w >= 1,
        h >= 1,
        c + w <= width_of(m),
        r + h <= m.len(),
        forall|t: int| 0 <= t < w ==> #[trigger] m[r][c + t] == l,
        c + w == width_of(m) || m[r][c + w] != l,
        forall|t: int| 0 <= t < h ==> #[trigger] m[r + t][c] == l,
        r + h == m.len() || m[r + h][c] != l,
        forall|a: int, b: int| in_grid(m, a, b) && before(a, b, r, c) ==> #[trigger] m[a][b] != l,
        (m[i][j] == l) != (r <= i < r + h && c <= j < c + w),
    ensures
        !label_is_rect(m, l),
{
    if label_is_rect(m, l) {
        if r <= i < r + h && c <= j < c + w {
            assert(m[r + (i - r)][c] == l);
            assert(m[r][c + (j - c)] == l);
            assert(m[i][c] == l && m[r][j] == l && m[i][j] == l);
        } else if before(i, j, r, c) {
            assert(m[i][j] != l);
        } else if i == r {
            assert(m[r][c + 0] == l);
            assert(m[r][c] == l && m[r][j] == l && m[r][c + w] == l);
        } else if j < c {
            assert(m[r][c + 0] == l);
            assert(before(r, j, r, c));
            assert(m[r][c] == l && m[i][j] == l && m[r][j] == l);
        } else if j < c + w {
            assert(m[r][c + 0] == l);
            assert(m[r][c] == l && m[i][j] == l && m[r + h][c] == l);
        } else {
            assert(m[r][c + 0] == l);
            assert(m[r][c] == l && m[i][j] == l && m[r][c + w] == l);
        }
    }
}

/// A span found at its label's first cell keeps the found spans valid
proof fn lemma_push_span(m: Seq<Seq<char>>, spans: Seq<Span>, span: Span)
    requires
        rows_even(m),
        in_grid(m, span.row as int, span.col as int),
        span.width >= 1,
        span.height >= 1,
        span.label != FILLER,
        span.row + span.height <= m.len(),
        span.col + span.width <= width_of(m),
        forall|i: int, j: int| in_grid(m, i, j) ==> (#[trigger] m[i][j] == span.label <==> span.covers(i, j)),
        spans_valid(m, spans),
        forall|s: int|
            0 <= s < spans.len() ==> before(
                #[trigger] spans[s].row as int,
                spans[s].col as int,
                span.row as int,
                span.col as int,
            ),
        forall|i: int, j: int|
            in_grid(m, i, j) && before(i, j, span.row as int, span.col as int) && #[trigger] m[i][j]
                != FILLER ==> has_label(spans, m[i][j]),
    ensures
        spans_valid(m, spans.push(span)),
        forall|s: int|
            0 <= s < spans.push(span).len() ==> before(
                #[trigger] spans.push(span)[s].row as int,
                spans.push(span)[s].col as int,
                span.row as int,
                span.col + 1,
            ),
        forall|i: int, j: int|
            in_grid(m, i, j) && before(i, j, span.row as int, span.col + 1) && #[trigger] m[i][j]
                != FILLER ==> has_label(spans.push(span), m[i][j]),
{
    let n = spans.push(span);
    assert(n[spans.len() as int] == span);
    assert forall|s: int| 0 <= s < n.len() implies #[trigger] n[s].exact_in(m) by {
        if s < spans.len() {
            assert(spans[s] == n[s]);
        }
    }
    assert forall|a: int, b: int| 0 <= a < b < n.len() implies before(
        #[trigger] n[a].row as int,
        n[a].col as int,
        #[trigger] n[b].row as int,
        n[b].col as int,
    ) by {
        assert(spans[a] == n[a]);
        if b < spans.len() {
            assert(spans[b] == n[b]);
        }
    }
    assert forall|i: int, j: int|
        in_grid(m, i, j) && before(i, j, span.row as int, span.col + 1) && #[trigger] m[i][j]
            != FILLER implies has_label(n, m[i][j]) by {
        if before(i, j, span.row as int, span.col as int) {
            assert(has_label(spans, m[i][j]));
            let s = choose|s: int| 0 <= s < spans.len() && #[trigger] spans[s].label == m[i][j];
            assert(n[s] == spans[s]);
        } else {
            assert(span.covers(i, j));
            assert(n[spans.len() as int].label == m[i][j]);
        }
    }
    assert forall|s: int| 0 <= s < n.len() implies before(
        #[trigger] n[s].row as int,
        n[s].col as int,
        span.row as int,
        span.col + 1,
    ) by {
        if s < spans.len() {
            assert(spans[s] == n[s]);
        }
    }
}

/// Whether a span with the label was found already
fn has_span(spans: &Vec<Span>, l: char) -> (r: bool)
    ensures
        r == has_label(spans@, l),
{
    let mut s: usize = 0;
    while s < spans.len()
        invariant
            s <= spans@.len(),
            forall|t: int| 0 <= t < s ==> #[trigger] spans@[t].label != l,
        decreases spans@.len() - s,
    {
        if spans[s].label == l {
            return true;
        }
        s = s + 1;
    }
    false
}

/// Number of cells labelled `l` from (r, c) rightward
fn run_right(m: &Vec<Vec<char>>, r: usize, c: usize, l: char) -> (w: usize)
    requires
        rows_even(cells_view(m@)),
        in_grid(cells_view(m@), r as int, c as int),
        cells_view(m@)[r as int][c as int] == l,
    ensures
        w >= 1,
        c + w <= width_of(cells_view(m@)),
        forall|t: int| 0 <= t < w ==> #[trigger] cells_view(m@)[r as int][c + t] == l,
        c + w == width_of(cells_view(m@)) || cells_view(m@)[r as int][c + w] != l,
{
    let ghost g = cells_view(m@);
    let n = m[r].len();
    assert(g[r as int] == m@[r as int]@);
    let mut w: usize = 1;
    while c + w < n && m[r][c + w] == l
        invariant
            g == cells_view(m@),
            rows_even(g),
            in_grid(g, r as int, c as int),
            n == g[r as int].len(),
            n == width_of(g),
            g[r as int] == m@[r as int]@,
            1 <= w,
            c + w <= n,
            forall|t: int| 0 <= t < w ==> #[trigger] g[r as int][c + t] == l,
        decreases n - w,
    {
        w = w + 1;
    }
    w
}

/// Number of cells labelled `l` from (r, c) downward
fn run_down(m: &Vec<Vec<char>>, r: usize, c: usize, l: char) -> (h: usize)
    requires
        rows_even(cells_view(m@)),
        in_grid(cells_view(m@), r as int, c as int),
        cells_view(m@)[r as int][c as int] == l,
    ensures
        h >= 1,
        r + h <= m@.len(),
        forall|t: int| 0 <= t < h ==> #[trigger] cells_view(m@)[r + t][c as int] == l,
        r + h == m@.len() || cells_view(m@)[r + h][c as int] != l,
{
    let ghost g = cells_view(m@);
    let n = m.len();
    let mut h: usize = 1;
    loop
        invariant
            n == m@.len(),
            g == cells_view(m@),
            rows_even(g),
            in_grid(g, r as int, c as int),
            m@.len() == g.len(),
            1 <= h,
            r + h <= m@.len(),
            forall|t: int| 0 <= t < h ==> #[trigger] g[r + t][c as int] == l,
        ensures
            1 <= h,
            r + h <= m@.len(),
            forall|t: int| 0 <= t < h ==> #[trigger] g[r + t][c as int] == l,
            r + h == m@.len() || g[r + h][c as int] != l,
        decreases m@.len() - h,
    {
        if r + h >= n {
            break;
        }
        assert(g[r + h] == m@[r + h]@);
        assert(g[r + h].len() == width_of(g));
        if m[r + h][c] != l {
            break;
        }
        h = h + 1;
    }
    h
}

/// A cell whose label does not match the rectangle at (r, c) of w by h cells
fn rect_mismatch(m: &Vec<Vec<char>>, r: usize, c: usize, w: usize, h: usize, l: char) -> (res:
    Option<(usize, usize)>)
    requires
        rows_even(cells_view(m@)),
    ensures
        match res {
            None => forall|i: int, j: int|
                in_grid(cells_view(m@), i, j) ==> (#[trigger] cells_view(m@)[i][j] == l <==> (r
                    <= i < r + h && c <= j < c + w)),
            Some((i, j)) => in_grid(cells_view(m@), i as int, j as int) && (cells_view(
                m@,
            )[i as int][j as int] == l) != (r <= i < r + h && c <= j < c + w),
        },
{
    let ghost g = cells_view(m@);
    let n_rows = m.len();
    let mut i: usize = 0;
    while i < n_rows
        invariant
            g == cells_view(m@),
            rows_even(g),
            n_rows == g.len(),
            i <= n_rows,
            forall|a: int, b: int|
                in_grid(g, a, b) && a < i ==> (#[trigger] g[a][b] == l <==> (r <= a < r + h && c
                    <= b < c + w)),
        decreases n_rows - i,
    {
        assert(g[i as int] == m@[i as int]@);
        assert(g[i as int].len() == width_of(g));
        let n_cols = m[i].len();
        let mut j: usize = 0;
        while j < n_cols
            invariant
                g == cells_view(m@),
                rows_even(g),
                n_rows == g.len(),
                i < n_rows,
                j <= n_cols,
                n_cols == width_of(g),
                g[i as int] == m@[i as int]@,
                forall|a: int, b: int|
                    in_grid(g, a, b) && (a < i || (a == i && b < j)) ==> (#[trigger] g[a][b] == l
                        <==> (r <= a < r + h && c <= b < c + w)),
            decreases n_cols - j,
        {
            let inside = r <= i && i - r < h && c <= j && j - c < w;
            if (m[i][j] == l) != inside {
                return Some((i, j));
            }
            j = j + 1;
        }
        i = i + 1;
    }
    None
}

/// Label rectangles of an even matrix, in the order their labels first
/// occur, or the first label whose cells form no rectangle
fn find_spans(m: &Vec<Vec<char>>) -> (res: Result<Vec<Span>, char>)
    requires
        rows_even(cells_view(m@)),
    ensures
        match res {
            Ok(spans) => {
                &&& spans_valid(cells_view(m@), spans@)
                &&& spans_cover(cells_view(m@), spans@)
                &&& forall|s: int| 0 <= s < spans@.len() ==> #[trigger] spans@[s].widget == 0
            },
            Err(l) => exists|i: int, j: int|
                in_grid(cells_view(m@), i, j) && #[trigger] cells_view(m@)[i][j] == l && l
                    != FILLER && !label_is_rect(cells_view(m@), l) && rects_before(
                    cells_view(m@),
                    i,
                    j,
                ),
        },
{
    let ghost g = cells_view(m@);
    let n_rows = m.len();
    let n_cols = if n_rows == 0 {
        0
    } else {
        m[0].len()
    };
    let mut spans: Vec<Span> = Vec::new();
    let mut r: usize = 0;
    while r < n_rows
        invariant
            g == cells_view(m@),
            rows_even(g),
            n_rows == g.len(),
            n_cols == width_of(g),
            r <= n_rows,
            spans_valid(g, spans@),
            forall|s: int| 0 <= s < spans@.len() ==> #[trigger] spans@[s].widget == 0,
            forall|s: int|
                0 <= s < spans@.len() ==> before(
                    #[trigger] spans@[s].row as int,
                    spans@[s].col as int,
                    r as int,
                    0,
                ),
            forall|i: int, j: int|
                in_grid(g, i, j) && before(i, j, r as int, 0) && #[trigger] g[i][j] != FILLER
                    ==> has_label(spans@, g[i][j]),
        decreases n_rows - r,
    {
        assert(g[r as int] == m@[r as int]@);
        assert(g[r as int].len() == width_of(g));
        let mut c: usize = 0;
        while c < n_cols
            invariant
                g == cells_view(m@),
                rows_even(g),
                n_rows == g.len(),
                n_cols == width_of(g),
                r < n_rows,
                c <= n_cols,
                g[r as int] == m@[r as int]@,
                spans_valid(g, spans@),
                forall|s: int| 0 <= s < spans@.len() ==> #[trigger] spans@[s].widget == 0,
                forall|s: int|
                    0 <= s < spans@.len() ==> before(
                        #[trigger] spans@[s].row as int,
                        spans@[s].col as int,
                        r as int,
                        c as int,
                    ),
                forall|i: int, j: int|
                    in_grid(g, i, j) && before(i, j, r as int, c as int) && #[trigger] g[i][j]
                        != FILLER ==> has_label(spans@, g[i][j]),
            decreases n_cols - c,
        {
            let l = m[r][c];
            if l != FILLER && !has_span(&spans, l) {
                let w = run_right(m, r, c, l);
                let h = run_down(m, r, c, l);
                assert forall|a: int, b: int|
                    in_grid(g, a, b) && before(a, b, r as int, c as int) implies #[trigger] g[a][b]
                    != l by {
                    if g[a][b] == l {
                        assert(has_label(spans@, g[a][b]));
                    }
                }
                match rect_mismatch(m, r, c, w, h, l) {
                    Some((i, j)) => {
                        proof {
                            lemma_not_rect(
                                g,
                                l,
                                r as int,
                                c as int,
                                w as int,
                                h as int,
                                i as int,
                                j as int,
                            );
                            lemma_covered_rects(g, spans@, r as int, c as int);
                            assert(g[r as int][c as int] == l);
                        }
                        return Err(l);
                    },
                    None => {},
                }
                let span = Span { label: l, widget: 0, col: c, row: r, width: w, height: h };
                let ghost old_spans = spans@;
                spans.push(span);
                proof {
                    lemma_push_span(g, old_spans, span);
                }
            }
            assert forall|i: int, j: int|
                in_grid(g, i, j) && before(i, j, r as int, c + 1) && #[trigger] g[i][j] != FILLER
                    implies has_label(spans@, g[i][j]) by {
                if !before(i, j, r as int, c as int) {
                    assert(i == r && j == c);
                    if l != FILLER {
                        assert(has_label(spans@, l));
                    }
                }
            }
            c = c + 1;
        }
        assert forall|i: int, j: int|
            in_grid(g, i, j) && before(i, j, r + 1, 0) && #[trigger] g[i][j] != FILLER implies has_label(
                spans@,
                g[i][j],
            ) by {
            assert(before(i, j, r as int, c as int));
        }
        r = r + 1;
    }
    Ok(spans)
}


impl GridTemplate {
    /// Every span has cells and lies within the grid
    pub open spec fn wf(self) -> bool {
        forall|s: int|
            0 <= s < self.spans@.len() ==> {
                let sp = #[trigger] self.spans@[s];
                &&& sp.width >= 1
                &&& sp.height >= 1
                &&& sp.col + sp.width <= self.n_cols
                &&& sp.row + sp.height <= self.n_rows
            }
    }
}

/// Every label of the matrix forms a rectangle
pub open spec fn all_rects(m: Seq<Seq<char>>) -> bool {
    rects_before(m, m.len() as int, 0)
}

/// Every label of the matrix is among the given labels
pub open spec fn all_mapped(m: Seq<Seq<char>>, labels: Seq<char>) -> bool {
    mapped_before(m, labels, m.len() as int, 0)
}

/// `k` is the first index of `l` in `labels`
pub open spec fn first_index(labels: Seq<char>, k: int, l: char) -> bool {
    &&& 0 <= k < labels.len()
    &&& labels[k] == l
    &&& forall|t: int| 0 <= t < k ==> #[trigger] labels[t] != l
}

/// A span covers no cell before its top left cell
proof fn lemma_covers_not_before(s: Span, a: int, b: int)
    requires
        s.covers(a, b),
    ensures
        !before(a, b, s.row as int, s.col as int),
{
}

/// When the spans before `s0` have mapped labels, so has every cell before
/// the top left cell of span `s0`
proof fn lemma_mapped_before_span(
    m: Seq<Seq<char>>,
    spans: Seq<Span>,
    labels: Seq<char>,
    s0: int,
)
    requires
        0 <= s0 < spans.len(),
        spans_valid(m, spans),
        spans_cover(m, spans),
        forall|t: int| 0 <= t < s0 ==> labels.contains(#[trigger] spans[t].label),
    ensures
        mapped_before(m, labels, spans[s0].row as int, spans[s0].col as int),
{
    assert forall|a: int, b: int|
        in_grid(m, a, b) && before(a, b, spans[s0].row as int, spans[s0].col as int)
            && #[trigger] m[a][b] != FILLER implies labels.contains(m[a][b]) by {
        assert(has_label(spans, m[a][b]));
        let t = choose|t: int| 0 <= t < spans.len() && #[trigger] spans[t].label == m[a][b];
        assert(spans[t].exact_in(m));
        assert(spans[t].covers(a, b));
        lemma_covers_not_before(spans[t], a, b);
        if t >= s0 {
            if t > s0 {
                assert(before(
                    spans[s0].row as int,
                    spans[s0].col as int,
                    spans[t].row as int,
                    spans[t].col as int,
                ));
            }
            assert(false);
        }
    }
}

/// Spans that cover every label form rectangles, and map when their labels do
proof fn lemma_spans_complete(m: Seq<Seq<char>>, spans: Seq<Span>, labels: Seq<char>)
    requires
        spans_valid(m, spans),
        spans_cover(m, spans),
        forall|t: int| 0 <= t < spans.len() ==> labels.contains(#[trigger] spans[t].label),
    ensures
        all_rects(m),
        all_mapped(m, labels),
{
    lemma_covered_rects(m, spans, m.len() as int, 0);
    assert forall|a: int, b: int|
        in_grid(m, a, b) && before(a, b, m.len() as int, 0) && #[trigger] m[a][b]
            != FILLER implies labels.contains(m[a][b]) by {
        assert(has_label(spans, m[a][b]));
        let t = choose|t: int| 0 <= t < spans.len() && #[trigger] spans[t].label == m[a][b];
    }
}

/// `res` is the outcome of validating matrix `m` with widget labels `labels`:
/// the first row of another length than the first row, else the first label
/// whose cells form no rectangle, else the first label that refers to no
/// widget, else the label rectangles in the order labels first occur
pub open spec fn validates(m: Seq<Seq<char>>, labels: Seq<char>, res: Result<GridTemplate, TemplateError>) -> bool {
    match res {
        Err(TemplateError::RaggedRow(i)) => {
            &&& 0 < i < m.len()
            &&& m[i as int].len() != m[0].len()
            &&& forall|k: int| 0 <= k < i ==> #[trigger] m[k].len() == m[0].len()
        },
        Err(TemplateError::NotRectangle(l)) => {
            &&& rows_even(m)
            &&& exists|i: int, j: int|
                in_grid(m, i, j) && #[trigger] m[i][j] == l && l != FILLER && !label_is_rect(m, l)
                    && rects_before(m, i, j)
        },
        Err(TemplateError::Unmapped(l)) => {
            &&& rows_even(m)
            &&& all_rects(m)
            &&& exists|i: int, j: int|
                in_grid(m, i, j) && #[trigger] m[i][j] == l && l != FILLER && !labels.contains(l)
                    && mapped_before(m, labels, i, j)
        },
        Err(TemplateError::LongLabel(_)) => false,
        Ok(t) => {
            &&& t.wf()
            &&& rows_even(m)
            &&& all_rects(m)
            &&& all_mapped(m, labels)
            &&& t.n_rows == m.len()
            &&& t.n_cols == width_of(m)
            &&& spans_valid(m, t.spans@)
            &&& spans_cover(m, t.spans@)
            &&& forall|s: int|
                0 <= s < t.spans@.len() ==> first_index(
                    labels,
                    #[trigger] t.spans@[s].widget as int,
                    t.spans@[s].label,
                )
        },
    }
}

/// Index of the first label equal to `l`
fn widget_index(labels: &Vec<char>, l: char) -> (r: Option<usize>)
    ensures
        match r {
            None => !labels@.contains(l),
            Some(k) => first_index(labels@, k as int, l),
        },
{
    let mut k: usize = 0;
    while k < labels.len()
        invariant
            k <= labels@.len(),
            forall|t: int| 0 <= t < k ==> #[trigger] labels@[t] != l,
        decreases labels@.len() - k,
    {
        if labels[k] == l {
            return Some(k);
        }
        k = k + 1;
    }
    None
}

impl GridTemplate {
    /// Validate a matrix of cell labels.
    ///
    /// `labels[k]` is the label of widget `k`; a label listed twice refers to
    /// its first widget.  Rows are checked for equal length first, then each
    /// label's cells for forming a rectangle, in the order labels first occur,
    /// then each label for referring to a widget, in the same order.
    pub fn new(cells: &Vec<Vec<char>>, labels: &Vec<char>) -> (res: Result<GridTemplate, TemplateError>)
        ensures
            validates(cells_view(cells@), labels@, res),
    {
        let ghost g = cells_view(cells@);
        if let Some(i) = ragged_row(cells) {
            assert(g[i as int] == cells@[i as int]@ && g[0] == cells@[0]@);
            assert forall|k: int| 0 <= k < i implies #[trigger] g[k].len() == g[0].len() by {
                assert(g[k] == cells@[k]@);
            }
            return Err(TemplateError::RaggedRow(i));
        }
        let found = match find_spans(cells) {
            Ok(found) => found,
            Err(l) => {
                return Err(TemplateError::NotRectangle(l));
            },
        };
        proof {
            lemma_covered_rects(g, found@, g.len() as int, 0);
        }
        let mut spans: Vec<Span> = Vec::new();
        let mut s: usize = 0;
        while s < found.len()
            invariant
                g == cells_view(cells@),
                rows_even(g),
                all_rects(g),
                s <= found@.len(),
                spans@.len() == s,
                spans_valid(g, found@),
                spans_cover(g, found@),
                forall|t: int|
                    0 <= t < s ==> #[trigger] spans@[t].label == found@[t].label && spans@[t].col
                        == found@[t].col && spans@[t].row == found@[t].row && spans@[t].width
                        == found@[t].width && spans@[t].height == found@[t].height,
                forall|t: int|
                    0 <= t < s ==> first_index(
                        labels@,
                        #[trigger] spans@[t].widget as int,
                        spans@[t].label,
                    ),
            decreases found@.len() - s,
        {
            let span = found[s];
            match widget_index(labels, span.label) {
                None => {
                    proof {
                        assert forall|t: int| 0 <= t < s implies labels@.contains(
                            #[trigger] found@[t].label,
                        ) by {
                            assert(spans@[t].label == found@[t].label);
                            assert(labels@[spans@[t].widget as int] == found@[t].label);
                        }
                        lemma_mapped_before_span(g, found@, labels@, s as int);
                        assert(found@[s as int].exact_in(g));
                        assert(found@[s as int].covers(span.row as int, span.col as int));
                        assert(g[span.row as int][span.col as int] == span.label);
                    }
                    return Err(TemplateError::Unmapped(span.label));
                },
                Some(k) => {
                    spans.push(Span { widget: k, ..span });
                },
            }
            s = s + 1;
        }
        proof {
            assert forall|t: int| 0 <= t < spans@.len() implies #[trigger] spans@[t].exact_in(g) by {
                assert(spans@[t].label == found@[t].label);
                assert(found@[t].exact_in(g));
            }
            assert forall|a: int, b: int| 0 <= a < b < spans@.len() implies before(
                #[trigger] spans@[a].row as int,
                spans@[a].col as int,
                #[trigger] spans@[b].row as int,
                spans@[b].col as int,
            ) by {
                assert(spans@[a].label == found@[a].label);
                assert(spans@[b].label == found@[b].label);
                assert(before(
                    found@[a].row as int,
                    found@[a].col as int,
                    found@[b].row as int,
                    found@[b].col as int,
                ));
            }
            assert forall|i: int, j: int|
                in_grid(g, i, j) && #[trigger] g[i][j] != FILLER implies has_label(spans@, g[i][j]) by {
                assert(has_label(found@, g[i][j]));
                let t = choose|t: int| 0 <= t < found@.len() && #[trigger] found@[t].label == g[i][j];
                assert(spans@[t].label == g[i][j]);
            }
            assert forall|t: int| 0 <= t < spans@.len() implies labels@.contains(
                #[trigger] spans@[t].label,
            ) by {
                assert(labels@[spans@[t].widget as int] == spans@[t].label);
            }
            lemma_spans_complete(g, spans@, labels@);
        }
        let n_rows = cells.len();
        let n_cols = if n_rows == 0 {
            0
        } else {
            cells[0].len()
        };
        let t = GridTemplate { n_cols, n_rows, spans };
        assert(t.n_cols == width_of(g));
        assert forall|s: int| 0 <= s < t.spans@.len() implies {
            let sp = #[trigger] t.spans@[s];
            &&& sp.width >= 1
            &&& sp.height >= 1
            &&& sp.col + sp.width <= t.n_cols
            &&& sp.row + sp.height <= t.n_rows
        } by {
            assert(t.spans@[s].exact_in(g));
        }
        Ok(t)
    }
}

/// A character between labels
pub open spec fn is_gap(c: char) -> bool {
    c == ' ' || c == '\t'
}

/// The labels of a row of text: its characters other than spaces and tabs
pub open spec fn row_labels(s: Seq<char>) -> Seq<char>
    decreases s.len(),
{
    if s.len() == 0 {
        Seq::empty()
    } else {
        let prev = row_labels(s.drop_last());
        if is_gap(s.last()) { prev } else { prev.push(s.last()) }
    }
}

/// Every label of a row of text is one character: no two labels touch
pub open spec fn labels_apart(s: Seq<char>) -> bool {
    forall|i: int| 0 <= i < s.len() - 1 && !is_gap(#[trigger] s[i]) ==> is_gap(s[i + 1])
}

/// The label matrix of rows of text
pub open spec fn text_cells(rows: Seq<&str>) -> Seq<Seq<char>> {
    rows.map_values(|r: &str| row_labels(r@))
}

/// The labels of one row of text, if each is one character
fn row_cells(s: &str) -> (r: Option<Vec<char>>)
    ensures
        r is None <==> !labels_apart(s@),
        r is Some ==> r.unwrap()@ == row_labels(s@),
{
    let n = s.unicode_len();
    let mut r: Vec<char> = Vec::new();
    let mut prev_label = false;
    let mut i: usize = 0;
    while i < n
        invariant
            n == s@.len(),
            i <= n,
            r@ == row_labels(s@.take(i as int)),
            prev_label == (i > 0 && !is_gap(s@[i - 1])),
            forall|k: int| 0 <= k < i - 1 && !is_gap(#[trigger] s@[k]) ==> is_gap(s@[k + 1]),
        decreases n - i,
    {
        let c = s.get_char(i);
        assert(s@.take(i + 1).drop_last() =~= s@.take(i as int));
        assert(s@.take(i + 1).last() == c);
        if c == ' ' || c == '\t' {
            prev_label = false;
        } else {
            if prev_label {
                assert(!is_gap(s@[i - 1]) && !is_gap(s@[(i - 1) + 1]));
                return None;
            }
            r.push(c);
            prev_label = true;
        }
        i = i + 1;
    }
    assert(s@.take(n as int) =~= s@);
    Some(r)
}

impl GridTemplate {
    /// Validate rows of text, each a row of labels apart by spaces, with
    /// `FILLER` for cells that hold no widget.
    ///
    /// A row where two labels touch is rejected first; the rest is checked as
    /// `new` checks a matrix.
    pub fn parse(rows: &Vec<&str>, labels: &Vec<char>) -> (res: Result<GridTemplate, TemplateError>)
        ensures
            match res {
                Err(TemplateError::LongLabel(i)) => {
                    &&& i < rows@.len()
                    &&& !labels_apart(rows@[i as int]@)
                    &&& forall|k: int| 0 <= k < i ==> labels_apart(#[trigger] rows@[k]@)
                },
                _ => {
                    &&& forall|k: int| 0 <= k < rows@.len() ==> labels_apart(#[trigger] rows@[k]@)
                    &&& validates(text_cells(rows@), labels@, res)
                },
            },
    {
        let mut cells: Vec<Vec<char>> = Vec::new();
        let mut i: usize = 0;
        while i < rows.len()
            invariant
                i <= rows@.len(),
                cells@.len() == i,
                forall|k: int| 0 <= k < i ==> labels_apart(#[trigger] rows@[k]@),
                forall|k: int| 0 <= k < i ==> (#[trigger] cells@[k])@ == row_labels(rows@[k]@),
            decreases rows@.len() - i,
        {
            match row_cells(rows[i]) {
                None => {
                    return Err(TemplateError::LongLabel(i));
                },
                Some(row) => {
                    cells.push(row);
                },
            }
            i = i + 1;
        }
        assert(cells_view(cells@) =~= text_cells(rows@));
        GridTemplate::new(&cells, labels)
    }
}

} // verus!
