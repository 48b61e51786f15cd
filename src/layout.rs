//! Widget size preferences and the layout of a grid template in an area.
use vstd::prelude::*;
use crate::area::{Area, Dim};
use crate::grid::{GridTemplate, Span};
use crate::solve::{
    axis_lengths, count_above, fill_end, filled, min_of, solve_axis, sum_of, sum_to, lemma_sum_prefix_le,
    lemma_sum_to_nonneg,
};

verus! {

/// The maximum length of a widget that takes any length
pub const UNBOUNDED: u16 = 0xFFFF;

/// Acceptable lengths of a widget along one axis, both ends included
#[derive(Clone, Copy, Debug, PartialEq, Eq, Structural)]
pub struct LengthBound {
    /// Minimum length in cells
    pub min: u16,
    /// Maximum length in cells; `UNBOUNDED` for no maximum
    pub max: u16,
}

/// Acceptable widths and heights of a widget
#[derive(Clone, Copy, Debug, PartialEq, Eq, Structural)]
pub struct AreaBound {
    /// Acceptable widths, in columns
    pub col: LengthBound,
    /// Acceptable heights, in rows
    pub row: LengthBound,
}

impl Default for AreaBound {
    /// Any width and height
    fn default() -> (r: AreaBound)
        ensures
            r.col == (LengthBound { min: 0, max: UNBOUNDED }),
            r.row == (LengthBound { min: 0, max: UNBOUNDED }),
    {
        let any = LengthBound { min: 0, max: UNBOUNDED };
        AreaBound { col: any, row: any }
    }
}

impl AreaBound {
    /// Set the acceptable widths
    pub fn with_columns(self, min: u16, max: u16) -> (r: AreaBound)
        ensures
            r.col == (LengthBound { min, max }),
            r.row == self.row,
    {
        AreaBound { col: LengthBound { min, max }, ..self }
    }

    /// Set the acceptable heights
    pub fn with_rows(self, min: u16, max: u16) -> (r: AreaBound)
        ensures
            r.row == (LengthBound { min, max }),
            r.col == self.col,
    {
        AreaBound { row: LengthBound { min, max }, ..self }
    }
}

/// Part `k` of `total` cells shared evenly among `len` tracks, the rest one
/// cell each to the first tracks
pub open spec fn share(total: int, len: int, k: int) -> int {
    total / len + if k < total % len { 1int } else { 0 }
}

/// First track of a span along the column (`cols`) or row axis
pub open spec fn span_start(s: Span, cols: bool) -> int {
    if cols { s.col as int } else { s.row as int }
}

/// Number of tracks of a span along the column (`cols`) or row axis
pub open spec fn span_len(s: Span, cols: bool) -> int {
    if cols { s.width as int } else { s.height as int }
}

/// A widget's bound along the column (`cols`) or row axis
pub open spec fn bound_on(b: AreaBound, cols: bool) -> LengthBound {
    if cols { b.col } else { b.row }
}

/// A span's part of its widget's minimum (`low`) or maximum length on track `t`,
/// zero when it does not cross the track
pub open spec fn span_part(s: Span, bounds: Seq<AreaBound>, cols: bool, low: bool, t: int) -> int {
    let b = bound_on(bounds[s.widget as int], cols);
    let start = span_start(s, cols);
    let len = span_len(s, cols);
    if start <= t < start + len {
        share(if low { b.min as int } else { b.max as int }, len, t - start)
    } else {
        0
    }
}

/// Largest part on track `t` among the first `k` spans
pub open spec fn track_limit(
    spans: Seq<Span>,
    bounds: Seq<AreaBound>,
    cols: bool,
    low: bool,
    t: int,
    k: int,
) -> int
    decreases k,
{
    if k <= 0 {
        0
    } else {
        let prev = track_limit(spans, bounds, cols, low, t, k - 1);
        let here = span_part(spans[k - 1], bounds, cols, low, t);
        if prev < here { here } else { prev }
    }
}

/// Minimum (`low`) or maximum lengths of `n` tracks: on each track the
/// largest part of a crossing widget's bound
pub open spec fn track_limits(
    spans: Seq<Span>,
    bounds: Seq<AreaBound>,
    cols: bool,
    low: bool,
    n: int,
) -> Seq<u16> {
    Seq::new(n as nat, |t: int| track_limit(spans, bounds, cols, low, t, spans.len() as int) as u16)
}

/// Lengths of the tracks along the column (`cols`) or row axis in `avail` cells
pub open spec fn track_lengths(
    g: GridTemplate,
    bounds: Seq<AreaBound>,
    cols: bool,
    avail: int,
) -> Seq<u16> {
    let n = if cols { g.n_cols as int } else { g.n_rows as int };
    axis_lengths(
        track_limits(g.spans@, bounds, cols, true, n),
        track_limits(g.spans@, bounds, cols, false, n),
        avail,
    )
}

/// The area a span is placed on, from the track lengths of both axes
pub open spec fn placed_area(s: Span, bbox: Area, col_lens: Seq<u16>, row_lens: Seq<u16>) -> Area {
    Area {
        col: (bbox.col + sum_to(col_lens, s.col as int)) as u16,
        row: (bbox.row + sum_to(row_lens, s.row as int)) as u16,
        dim: Dim {
            width: (sum_to(col_lens, s.col + s.width) - sum_to(col_lens, s.col as int)) as u16,
            height: (sum_to(row_lens, s.row + s.height) - sum_to(row_lens, s.row as int)) as u16,
        },
    }
}

/// The placement of every span of a template in `bbox`: its widget and area
pub open spec fn layout_of(g: GridTemplate, bbox: Area, bounds: Seq<AreaBound>) -> Seq<(usize, Area)> {
    let col_lens = track_lengths(g, bounds, true, bbox.dim.width as int);
    let row_lens = track_lengths(g, bounds, false, bbox.dim.height as int);
    Seq::new(
        g.spans@.len(),
        |i: int| (g.spans@[i].widget, placed_area(g.spans@[i], bbox, col_lens, row_lens)),
    )
}

/// A share of a length fits in the length
proof fn lemma_share_fits(total: int, len: int, k: int)
    requires
        0 <= total,
        1 <= len,
        0 <= k,
    ensures
        0 <= share(total, len, k) <= total,
{
    assert(0 <= total / len <= total) by (nonlinear_arith)
        requires
            0 <= total,
            1 <= len,
    ;
    if k < total % len {
        assert(total / len + 1 <= total) by (nonlinear_arith)
            requires
                0 <= total,
                1 <= len,
                0 < total % len,
        ;
    }
}

proof fn lemma_track_limit_fits(spans: Seq<Span>, bounds: Seq<AreaBound>, cols: bool, low: bool, t: int, k: int)
    requires
        0 <= k <= spans.len(),
        forall|s: int| 0 <= s < spans.len() ==> span_len(#[trigger] spans[s], cols) >= 1,
    ensures
        0 <= track_limit(spans, bounds, cols, low, t, k) <= 0xFFFF,
    decreases k,
{
    if k > 0 {
        lemma_track_limit_fits(spans, bounds, cols, low, t, k - 1);
        let s = spans[k - 1];
        let b = bound_on(bounds[s.widget as int], cols);
        let start = span_start(s, cols);
        if start <= t < start + span_len(s, cols) {
            lemma_share_fits(if low { b.min as int } else { b.max as int }, span_len(s, cols), t - start);
        }
    }
}

/// Minimum (`low`) or maximum lengths of `n` tracks
fn limits(spans: &Vec<Span>, bounds: &Vec<AreaBound>, cols: bool, low: bool, n: usize) -> (r: Vec<u16>)
    requires
        forall|s: int| 0 <= s < spans@.len() ==> span_len(#[trigger] spans@[s], cols) >= 1,
        forall|s: int| 0 <= s < spans@.len() ==> (#[trigger] spans@[s]).widget < bounds@.len(),
    ensures
        r@ == track_limits(spans@, bounds@, cols, low, n as int),
{
    let mut r: Vec<u16> = Vec::new();
    let mut t: usize = 0;
    while t < n
        invariant
            t <= n,
            r@.len() == t,
            forall|s: int| 0 <= s < spans@.len() ==> span_len(#[trigger] spans@[s], cols) >= 1,
            forall|s: int| 0 <= s < spans@.len() ==> (#[trigger] spans@[s]).widget < bounds@.len(),
            forall|u: int| 0 <= u < t ==> #[trigger] r@[u] == track_limit(spans@, bounds@, cols, low, u, spans@.len() as int) as u16,
        decreases n - t,
    {
        let mut best: u16 = 0;
        let mut k: usize = 0;
        while k < spans.len()
            invariant
                t < n,
                k <= spans@.len(),
                best == track_limit(spans@, bounds@, cols, low, t as int, k as int),
                forall|s: int| 0 <= s < spans@.len() ==> span_len(#[trigger] spans@[s], cols) >= 1,
                forall|s: int| 0 <= s < spans@.len() ==> (#[trigger] spans@[s]).widget < bounds@.len(),
            decreases spans@.len() - k,
        {
            let s = spans[k];
            let b = if cols { bounds[s.widget].col } else { bounds[s.widget].row };
            let start = if cols { s.col } else { s.row };
            let len = if cols { s.width } else { s.height };
            let total = if low { b.min } else { b.max };
            proof {
                if start <= t {
                    lemma_share_fits(total as int, len as int, t - start);
                }
            }
            let part: u16 = if start <= t && t - start < len {
                let q = (total as usize) / len;
                let extra: usize = if t - start < (total as usize) % len { 1 } else { 0 };
                (q + extra) as u16
            } else {
                0
            };
            if best < part {
                best = part;
            }
            k = k + 1;
        }
        proof {
            lemma_track_limit_fits(spans@, bounds@, cols, low, t as int, spans@.len() as int);
        }
        r.push(best);
        t = t + 1;
    }
    assert(r@ =~= track_limits(spans@, bounds@, cols, low, n as int));
    r
}

/// Start of each track, and the end of the last: `origin` plus the lengths before it
fn offsets(lens: &Vec<u16>, origin: u16, avail: u16) -> (r: Vec<u16>)
    requires
        sum_of(lens@) <= avail,
        origin + avail <= 0xFFFF,
    ensures
        r@.len() == lens@.len() + 1,
        forall|t: int| 0 <= t <= lens@.len() ==> #[trigger] r@[t] == origin + sum_to(lens@, t),
{
    let n = lens.len();
    let mut r: Vec<u16> = Vec::new();
    let mut at: u16 = origin;
    r.push(origin);
    let mut t: usize = 0;
    while t < n
        invariant
            n == lens@.len(),
            sum_of(lens@) <= avail,
            origin + avail <= 0xFFFF,
            t <= n,
            r@.len() == t + 1,
            at == origin + sum_to(lens@, t as int),
            forall|u: int| 0 <= u <= t ==> #[trigger] r@[u] == origin + sum_to(lens@, u),
        decreases n - t,
    {
        proof {
            lemma_sum_prefix_le(lens@, t + 1, n as int);
        }
        at = at + lens[t];
        r.push(at);
        t = t + 1;
    }
    r
}

impl GridTemplate {
    /// Place the widget of each span in `bbox`, in span order, given the
    /// size bounds of the widgets.
    ///
    /// The track lengths along each axis never add up to more than `bbox`
    /// has, and a widget's area is the union of the tracks its span crosses.
    pub fn widget_boxes(&self, bbox: Area, bounds: &Vec<AreaBound>) -> (r: Vec<(usize, Area)>)
        requires
            self.wf(),
            bbox.wf(),
            self.n_cols <= 0xFFFF_FFFF,
            self.n_rows <= 0xFFFF_FFFF,
            forall|s: int| 0 <= s < self.spans@.len() ==> (#[trigger] self.spans@[s]).widget < bounds@.len(),
        ensures
            r@ == layout_of(*self, bbox, bounds@),
            sum_of(track_lengths(*self, bounds@, true, bbox.dim.width as int)) <= bbox.dim.width,
            sum_of(track_lengths(*self, bounds@, false, bbox.dim.height as int)) <= bbox.dim.height,
            forall|i: int| 0 <= i < r@.len() ==> (#[trigger] r@[i]).1.wf(),
    {
        let col_mins = limits(&self.spans, bounds, true, true, self.n_cols);
        let col_maxs = limits(&self.spans, bounds, true, false, self.n_cols);
        let row_mins = limits(&self.spans, bounds, false, true, self.n_rows);
        let row_maxs = limits(&self.spans, bounds, false, false, self.n_rows);
        let col_lens = solve_axis(&col_mins, &col_maxs, bbox.dim.width);
        let row_lens = solve_axis(&row_mins, &row_maxs, bbox.dim.height);
        let col_at = offsets(&col_lens, bbox.col, bbox.dim.width);
        let row_at = offsets(&row_lens, bbox.row, bbox.dim.height);
        let ghost cl = col_lens@;
        let ghost rl = row_lens@;
        let mut r: Vec<(usize, Area)> = Vec::new();
        let mut i: usize = 0;
        while i < self.spans.len()
            invariant
                self.wf(),
                bbox.wf(),
                cl == track_lengths(*self, bounds@, true, bbox.dim.width as int),
                rl == track_lengths(*self, bounds@, false, bbox.dim.height as int),
                cl.len() == self.n_cols,
                rl.len() == self.n_rows,
                sum_of(cl) <= bbox.dim.width,
                sum_of(rl) <= bbox.dim.height,
                col_at@.len() == cl.len() + 1,
                row_at@.len() == rl.len() + 1,
                forall|t: int| 0 <= t <= cl.len() ==> #[trigger] col_at@[t] == bbox.col + sum_to(cl, t),
                forall|t: int| 0 <= t <= rl.len() ==> #[trigger] row_at@[t] == bbox.row + sum_to(rl, t),
                i <= self.spans@.len(),
                r@.len() == i,
                forall|k: int| 0 <= k < i ==> #[trigger] r@[k] == layout_of(*self, bbox, bounds@)[k],
                forall|k: int| 0 <= k < i ==> (#[trigger] r@[k]).1.wf(),
            decreases self.spans@.len() - i,
        {
            let s = self.spans[i];
            assert(self.spans@[i as int] == s);
            proof {
                lemma_sum_prefix_le(cl, s.col as int, s.col + s.width);
                lemma_sum_prefix_le(cl, s.col + s.width, cl.len() as int);
                lemma_sum_prefix_le(rl, s.row as int, s.row + s.height);
                lemma_sum_prefix_le(rl, s.row + s.height, rl.len() as int);
                lemma_sum_to_nonneg(cl, s.col as int);
                lemma_sum_to_nonneg(rl, s.row as int);
            }
            let col = col_at[s.col];
            let row = row_at[s.row];
            let width = col_at[s.col + s.width] - col;
            let height = row_at[s.row + s.height] - row;
            let area = Area { col, row, dim: Dim { width, height } };
            r.push((s.widget, area));
            i = i + 1;
        }
        assert(r@ =~= layout_of(*self, bbox, bounds@));
        r
    }
}

/// Layout is deterministic: two placements of the same template in the same
/// area with the same size bounds are identical.
pub proof fn lemma_layout_deterministic(
    g: GridTemplate,
    bbox: Area,
    bounds: Seq<AreaBound>,
    first: Seq<(usize, Area)>,
    second: Seq<(usize, Area)>,
)
    requires
        first == layout_of(g, bbox, bounds),
        second == layout_of(g, bbox, bounds),
    ensures
        first == second,
        first.len() == g.spans@.len(),
{
}

/// A track's limit is at least the part of each span crossing it
proof fn lemma_track_limit_ge(
    spans: Seq<Span>,
    bounds: Seq<AreaBound>,
    cols: bool,
    low: bool,
    t: int,
    j: int,
    k: int,
)
    requires
        0 <= j < k,
    ensures
        track_limit(spans, bounds, cols, low, t, k) >= span_part(spans[j], bounds, cols, low, t),
    decreases k,
{
    if j < k - 1 {
        lemma_track_limit_ge(spans, bounds, cols, low, t, j, k - 1);
    }
}

/// The first `j` shares of `total` among `len` tracks add up to
/// `j * (total / len)` plus one for each of them before the rest runs out
proof fn lemma_share_sum(total: int, len: int, j: int) -> (sum: int)
    requires
        0 <= total,
        1 <= len,
        0 <= j <= len,
    ensures
        sum == j * (total / len) + min_of(j, total % len),
        j == len ==> sum == total,
    decreases j,
{
    vstd::arithmetic::div_mod::lemma_fundamental_div_mod(total, len);
    if j == 0 {
        0
    } else {
        let prev = lemma_share_sum(total, len, j - 1);
        assert(j * (total / len) == (j - 1) * (total / len) + total / len) by (nonlinear_arith);
        prev + share(total, len, j - 1)
    }
}

/// Sharing from a non-negative level ends at a non-negative level and extra
proof fn lemma_fill_end_nonneg(mins: Seq<u16>, caps: Seq<u16>, level: int, left: int)
    requires
        level >= 0,
    ensures
        fill_end(mins, caps, level, left).0 >= 0,
        fill_end(mins, caps, level, left).1 >= 0,
    decreases left,
{
    let g = count_above(mins, caps, level, mins.len() as int);
    if g > 0 && left > 0 && left >= g {
        lemma_fill_end_nonneg(mins, caps, level + 1, left - g);
    }
}

/// Where the minimums fit, every track is at least its minimum
proof fn lemma_lengths_reach_mins(mins: Seq<u16>, maxs: Seq<u16>, avail: int, t: int)
    requires
        mins.len() == maxs.len(),
        0 <= t < mins.len(),
        sum_of(mins) <= avail,
    ensures
        axis_lengths(mins, maxs, avail)[t] >= mins[t],
{
    let (level, extra) = fill_end(mins, maxs, 0, avail - sum_of(mins));
    lemma_fill_end_nonneg(mins, maxs, 0, avail - sum_of(mins));
    let f = filled(mins, maxs, level, extra, t);
    assert(mins[t] <= f <= 0xFFFF);
}

/// Number of tracks along the column (`cols`) or row axis
pub open spec fn n_tracks(g: GridTemplate, cols: bool) -> int {
    if cols { g.n_cols as int } else { g.n_rows as int }
}

/// Cells of an area along the column (`cols`) or row axis
pub open spec fn extent(bbox: Area, cols: bool) -> int {
    if cols { bbox.dim.width as int } else { bbox.dim.height as int }
}

/// The first `j` tracks of span `i` add up to at least the first `j` shares
/// of its widget's minimum length
proof fn lemma_span_tracks(g: GridTemplate, bbox: Area, bounds: Seq<AreaBound>, cols: bool, i: int, j: int)
    requires
        g.wf(),
        forall|s: int| 0 <= s < g.spans@.len() ==> (#[trigger] g.spans@[s]).widget < bounds.len(),
        0 <= i < g.spans@.len(),
        0 <= j <= span_len(g.spans@[i], cols),
        sum_of(track_limits(g.spans@, bounds, cols, true, n_tracks(g, cols))) <= extent(bbox, cols),
    ensures
        ({
            let s = g.spans@[i];
            let tl = track_lengths(g, bounds, cols, extent(bbox, cols));
            let m = bound_on(bounds[s.widget as int], cols).min as int;
            let w = span_len(s, cols);
            let c = span_start(s, cols);
            sum_to(tl, c + j) - sum_to(tl, c) >= j * (m / w) + min_of(j, m % w)
        }),
    decreases j,
{
    let s = g.spans@[i];
    let n = n_tracks(g, cols);
    let mins = track_limits(g.spans@, bounds, cols, true, n);
    let maxs = track_limits(g.spans@, bounds, cols, false, n);
    let m = bound_on(bounds[s.widget as int], cols).min as int;
    let w = span_len(s, cols);
    let c = span_start(s, cols);
    assert(w >= 1 && c + w <= n);
    vstd::arithmetic::div_mod::lemma_mod_pos_bound(m, w);
    if j > 0 {
        lemma_span_tracks(g, bbox, bounds, cols, i, j - 1);
        let t = c + j - 1;
        assert forall|x: int| 0 <= x < g.spans@.len() implies span_len(#[trigger] g.spans@[x], cols)
            >= 1 by {}
        lemma_track_limit_ge(g.spans@, bounds, cols, true, t, i, g.spans@.len() as int);
        lemma_track_limit_fits(g.spans@, bounds, cols, true, t, g.spans@.len() as int);
        lemma_lengths_reach_mins(mins, maxs, extent(bbox, cols), t);
        assert(mins[t] == track_limit(g.spans@, bounds, cols, true, t, g.spans@.len() as int));
        assert(span_part(s, bounds, cols, true, t) == share(m, w, j - 1));
        assert(j * (m / w) == (j - 1) * (m / w) + m / w) by (nonlinear_arith);
        let tl = track_lengths(g, bounds, cols, extent(bbox, cols));
        assert(tl == axis_lengths(mins, maxs, extent(bbox, cols)));
        assert(tl[t] >= mins[t]);
        assert(mins[t] >= share(m, w, j - 1));
        assert(sum_to(tl, c + j) == sum_to(tl, c + j - 1) + tl[t]);
        assert(sum_to(tl, c + (j - 1)) - sum_to(tl, c) >= (j - 1) * (m / w) + min_of(j - 1, m % w));
        assert(min_of(j, m % w) == min_of(j - 1, m % w) + if j - 1 < m % w { 1int } else { 0 });
        assert(sum_to(tl, c + j) - sum_to(tl, c) >= j * (m / w) + min_of(j, m % w));
    } else {
        assert(0 * (m / w) == 0) by (nonlinear_arith);
    }
}

/// Where the track minimums along an axis fit in the area, the tracks a span
/// crosses add up to at least its widget's minimum length on that axis: a
/// widget gets the width and height it asks for, spread over its tracks
pub proof fn lemma_min_length_met(g: GridTemplate, bbox: Area, bounds: Seq<AreaBound>, cols: bool, i: int)
    requires
        g.wf(),
        forall|s: int| 0 <= s < g.spans@.len() ==> (#[trigger] g.spans@[s]).widget < bounds.len(),
        0 <= i < g.spans@.len(),
        sum_of(track_limits(g.spans@, bounds, cols, true, n_tracks(g, cols))) <= extent(bbox, cols),
    ensures
        ({
            let s = g.spans@[i];
            let tl = track_lengths(g, bounds, cols, extent(bbox, cols));
            let c = span_start(s, cols);
            sum_to(tl, c + span_len(s, cols)) - sum_to(tl, c) >= bound_on(bounds[s.widget as int], cols).min
        }),
{
    let s = g.spans@[i];
    assert(span_len(s, cols) >= 1);
    lemma_span_tracks(g, bbox, bounds, cols, i, span_len(s, cols));
    lemma_share_sum(bound_on(bounds[s.widget as int], cols).min as int, span_len(s, cols), span_len(s, cols));
}

/// Two spans cross no common track along the column (`cols`) or row axis
pub open spec fn tracks_apart(a: Span, b: Span, cols: bool) -> bool {
    span_start(a, cols) + span_len(a, cols) <= span_start(b, cols) || span_start(b, cols) + span_len(
        b,
        cols,
    ) <= span_start(a, cols)
}

/// A larger length has no smaller shares
proof fn lemma_share_monotone(m1: int, m2: int, w: int, k: int)
    requires
        0 <= m1 <= m2,
        1 <= w,
        0 <= k,
    ensures
        share(m1, w, k) <= share(m2, w, k),
{
    vstd::arithmetic::div_mod::lemma_div_is_ordered(m1, m2, w);
    vstd::arithmetic::div_mod::lemma_fundamental_div_mod(m1, w);
    vstd::arithmetic::div_mod::lemma_fundamental_div_mod(m2, w);
    vstd::arithmetic::div_mod::lemma_mod_pos_bound(m1, w);
    vstd::arithmetic::div_mod::lemma_mod_pos_bound(m2, w);
    if m1 / w == m2 / w {
        assert(m1 % w <= m2 % w);
    }
}

/// Where the minimums fit, no track passes the larger of its minimum and maximum
proof fn lemma_lengths_within(mins: Seq<u16>, maxs: Seq<u16>, avail: int, t: int)
    requires
        mins.len() == maxs.len(),
        0 <= t < mins.len(),
        sum_of(mins) <= avail,
    ensures
        axis_lengths(mins, maxs, avail)[t] <= if mins[t] < maxs[t] { maxs[t] } else { mins[t] },
{
    let (level, extra) = fill_end(mins, maxs, 0, avail - sum_of(mins));
    lemma_fill_end_nonneg(mins, maxs, 0, avail - sum_of(mins));
    let f = filled(mins, maxs, level, extra, t);
    assert(mins[t] <= f <= 0xFFFF);
}

/// On a track that only span `i` crosses, the limit is span `i`'s part
proof fn lemma_track_limit_alone(
    spans: Seq<Span>,
    bounds: Seq<AreaBound>,
    cols: bool,
    low: bool,
    t: int,
    i: int,
    k: int,
)
    requires
        0 <= i < spans.len(),
        0 <= k <= spans.len(),
        forall|s: int| 0 <= s < spans.len() ==> span_len(#[trigger] spans[s], cols) >= 1,
        forall|s: int|
            0 <= s < spans.len() && s != i ==> !(span_start(#[trigger] spans[s], cols) <= t
                < span_start(spans[s], cols) + span_len(spans[s], cols)),
        span_start(spans[i], cols) <= t,
    ensures
        track_limit(spans, bounds, cols, low, t, k) <= span_part(spans[i], bounds, cols, low, t),
    decreases k,
{
    let b = bound_on(bounds[spans[i].widget as int], cols);
    lemma_share_fits(
        if low { b.min as int } else { b.max as int },
        span_len(spans[i], cols),
        t - span_start(spans[i], cols),
    );
    if k > 0 {
        lemma_track_limit_alone(spans, bounds, cols, low, t, i, k - 1);
    }
}

/// The first `j` tracks of span `i`, which no other span crosses, add up to
/// at most the first `j` shares of its widget's maximum length
proof fn lemma_span_tracks_max(g: GridTemplate, bbox: Area, bounds: Seq<AreaBound>, cols: bool, i: int, j: int)
    requires
        g.wf(),
        forall|s: int| 0 <= s < g.spans@.len() ==> (#[trigger] g.spans@[s]).widget < bounds.len(),
        0 <= i < g.spans@.len(),
        0 <= j <= span_len(g.spans@[i], cols),
        sum_of(track_limits(g.spans@, bounds, cols, true, n_tracks(g, cols))) <= extent(bbox, cols),
        bound_on(bounds[g.spans@[i].widget as int], cols).min <= bound_on(bounds[g.spans@[i].widget as int], cols).max,
        forall|s: int|
            0 <= s < g.spans@.len() && s != i ==> tracks_apart(#[trigger] g.spans@[s], g.spans@[i], cols),
    ensures
        ({
            let s = g.spans@[i];
            let tl = track_lengths(g, bounds, cols, extent(bbox, cols));
            let m = bound_on(bounds[s.widget as int], cols).max as int;
            let w = span_len(s, cols);
            let c = span_start(s, cols);
            sum_to(tl, c + j) - sum_to(tl, c) <= j * (m / w) + min_of(j, m % w)
        }),
    decreases j,
{
    let s = g.spans@[i];
    let n = n_tracks(g, cols);
    let mins = track_limits(g.spans@, bounds, cols, true, n);
    let maxs = track_limits(g.spans@, bounds, cols, false, n);
    let lo = bound_on(bounds[s.widget as int], cols).min as int;
    let m = bound_on(bounds[s.widget as int], cols).max as int;
    let w = span_len(s, cols);
    let c = span_start(s, cols);
    assert(w >= 1 && c + w <= n);
    vstd::arithmetic::div_mod::lemma_mod_pos_bound(m, w);
    if j > 0 {
        lemma_span_tracks_max(g, bbox, bounds, cols, i, j - 1);
        let t = c + j - 1;
        assert forall|x: int| 0 <= x < g.spans@.len() implies span_len(#[trigger] g.spans@[x], cols)
            >= 1 by {}
        assert forall|x: int|
            0 <= x < g.spans@.len() && x != i implies !(span_start(#[trigger] g.spans@[x], cols) <= t
            < span_start(g.spans@[x], cols) + span_len(g.spans@[x], cols)) by {
            assert(tracks_apart(g.spans@[x], g.spans@[i], cols));
        }
        lemma_track_limit_alone(g.spans@, bounds, cols, true, t, i, g.spans@.len() as int);
        lemma_track_limit_alone(g.spans@, bounds, cols, false, t, i, g.spans@.len() as int);
        lemma_track_limit_fits(g.spans@, bounds, cols, true, t, g.spans@.len() as int);
        lemma_track_limit_fits(g.spans@, bounds, cols, false, t, g.spans@.len() as int);
        lemma_lengths_within(mins, maxs, extent(bbox, cols), t);
        lemma_share_monotone(lo, m, w, j - 1);
        assert(mins[t] == track_limit(g.spans@, bounds, cols, true, t, g.spans@.len() as int));
        assert(maxs[t] == track_limit(g.spans@, bounds, cols, false, t, g.spans@.len() as int));
        assert(span_part(s, bounds, cols, false, t) == share(m, w, j - 1));
        assert(span_part(s, bounds, cols, true, t) == share(lo, w, j - 1));
        assert(j * (m / w) == (j - 1) * (m / w) + m / w) by (nonlinear_arith);
        let tl = track_lengths(g, bounds, cols, extent(bbox, cols));
        assert(tl == axis_lengths(mins, maxs, extent(bbox, cols)));
        assert(tl[t] <= share(m, w, j - 1));
        assert(sum_to(tl, c + j) == sum_to(tl, c + j - 1) + tl[t]);
        assert(sum_to(tl, c + (j - 1)) - sum_to(tl, c) <= (j - 1) * (m / w) + min_of(j - 1, m % w));
        assert(min_of(j, m % w) == min_of(j - 1, m % w) + if j - 1 < m % w { 1int } else { 0 });
    } else {
        assert(0 * (m / w) == 0) by (nonlinear_arith);
    }
}

/// Where the track minimums along an axis fit in the area, a span whose
/// tracks no other span crosses gets no more than its widget's maximum
/// length on that axis (given a maximum no smaller than the minimum)
pub proof fn lemma_max_length_met(g: GridTemplate, bbox: Area, bounds: Seq<AreaBound>, cols: bool, i: int)
    requires
        g.wf(),
        forall|s: int| 0 <= s < g.spans@.len() ==> (#[trigger] g.spans@[s]).widget < bounds.len(),
        0 <= i < g.spans@.len(),
        sum_of(track_limits(g.spans@, bounds, cols, true, n_tracks(g, cols))) <= extent(bbox, cols),
        bound_on(bounds[g.spans@[i].widget as int], cols).min <= bound_on(bounds[g.spans@[i].widget as int], cols).max,
        forall|s: int|
            0 <= s < g.spans@.len() && s != i ==> tracks_apart(#[trigger] g.spans@[s], g.spans@[i], cols),
    ensures
        ({
            let s = g.spans@[i];
            let tl = track_lengths(g, bounds, cols, extent(bbox, cols));
            let c = span_start(s, cols);
            sum_to(tl, c + span_len(s, cols)) - sum_to(tl, c) <= bound_on(bounds[s.widget as int], cols).max
        }),
{
    let s = g.spans@[i];
    assert(span_len(s, cols) >= 1);
    lemma_span_tracks_max(g, bbox, bounds, cols, i, span_len(s, cols));
    lemma_share_sum(bound_on(bounds[s.widget as int], cols).max as int, span_len(s, cols), span_len(s, cols));
}

/// The conditions a layout needs: a well formed template with countable
/// tracks, an area within the cell range, and bounds for every span's widget
pub open spec fn layout_ready(g: GridTemplate, bbox: Area, bounds: Seq<AreaBound>) -> bool {
    &&& g.wf()
    &&& bbox.wf()
    &&& g.n_cols <= 0xFFFF_FFFF
    &&& g.n_rows <= 0xFFFF_FFFF
    &&& forall|s: int| 0 <= s < g.spans@.len() ==> (#[trigger] g.spans@[s]).widget < bounds.len()
}

impl GridTemplate {
    /// Place the widget of each span in `bbox`, as `widget_boxes` does, or
    /// `None` when the template, the area or the bounds do not allow it
    pub fn layout(&self, bbox: Area, bounds: &Vec<AreaBound>) -> (r: Option<Vec<(usize, Area)>>)
        ensures
            r is Some <==> layout_ready(*self, bbox, bounds@),
            r is Some ==> r.unwrap()@ == layout_of(*self, bbox, bounds@),
            r is Some ==> sum_of(track_lengths(*self, bounds@, true, bbox.dim.width as int))
                <= bbox.dim.width,
            r is Some ==> sum_of(track_lengths(*self, bounds@, false, bbox.dim.height as int))
                <= bbox.dim.height,
    {
        if bbox.dim.width > 0xFFFF - bbox.col || bbox.dim.height > 0xFFFF - bbox.row {
            return None;
        }
        if self.n_cols > 0xFFFF_FFFF || self.n_rows > 0xFFFF_FFFF {
            return None;
        }
        let mut i: usize = 0;
        while i < self.spans.len()
            invariant
                i <= self.spans@.len(),
                forall|k: int|
                    0 <= k < i ==> {
                        let sp = #[trigger] self.spans@[k];
                        &&& sp.width >= 1
                        &&& sp.height >= 1
                        &&& sp.col + sp.width <= self.n_cols
                        &&& sp.row + sp.height <= self.n_rows
                        &&& sp.widget < bounds@.len()
                    },
            decreases self.spans@.len() - i,
        {
            let sp = self.spans[i];
            if sp.width < 1 || sp.height < 1 || sp.col > self.n_cols || sp.width > self.n_cols - sp.col
                || sp.row > self.n_rows || sp.height > self.n_rows - sp.row || sp.widget >= bounds.len() {
                return None;
            }
            i = i + 1;
        }
        Some(self.widget_boxes(bbox, bounds))
    }
}

} // verus!
