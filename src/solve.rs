//! Size negotiation along one axis: the lengths of a row of tracks (grid
//! columns or grid rows) from their minimum and maximum lengths and the cells
//! available.
use vstd::prelude::*;
use vstd::arithmetic::div_mod::{lemma_fundamental_div_mod, lemma_mod_pos_bound};
use vstd::arithmetic::mul::lemma_mul_inequality;

verus! {

/// Sum of the first `k` lengths
pub open spec fn sum_to(s: Seq<u16>, k: int) -> int
    decreases k,
{
    if k <= 0 { 0 } else { sum_to(s, k - 1) + s[k - 1] }
}

/// Sum of all lengths
pub open spec fn sum_of(s: Seq<u16>) -> int {
    sum_to(s, s.len() as int)
}

/// Sum of the first `k` proportional shares `mins[i] * avail / total`, rounded down
pub open spec fn floor_sum(mins: Seq<u16>, avail: int, total: int, k: int) -> int
    decreases k,
{
    if k <= 0 { 0 } else { floor_sum(mins, avail, total, k - 1) + mins[k - 1] * avail / total }
}

/// Cells left over after every track got its rounded down proportional share
pub open spec fn scale_rem(mins: Seq<u16>, avail: int) -> int {
    avail - floor_sum(mins, avail, sum_of(mins), mins.len() as int)
}

/// Length of track `i` when the minimums do not fit: its proportional share
/// rounded down, plus one for each of the first tracks until the rest is used
pub open spec fn scaled(mins: Seq<u16>, avail: int, i: int) -> int {
    mins[i] * avail / sum_of(mins) + if i < scale_rem(mins, avail) { 1int } else { 0 }
}

pub(crate) proof fn lemma_sum_to_nonneg(s: Seq<u16>, k: int)
    requires
        0 <= k <= s.len(),
    ensures
        0 <= sum_to(s, k),
        sum_to(s, k) <= k * 0xFFFF,
    decreases k,
{
    if k > 0 {
        lemma_sum_to_nonneg(s, k - 1);
    }
}

/// Changing one length changes the sum by the difference
proof fn lemma_sum_update(s: Seq<u16>, i: int, v: u16, k: int)
    requires
        0 <= i < s.len(),
        0 <= k <= s.len(),
    ensures
        sum_to(s.update(i, v), k) == sum_to(s, k) + if i < k { v - s[i] } else { 0 },
    decreases k,
{
    if k > 0 {
        lemma_sum_update(s, i, v, k - 1);
    }
}

/// Sequences that agree on a prefix have the same sum over it
proof fn lemma_sum_prefix(s: Seq<u16>, t: Seq<u16>, k: int)
    requires
        0 <= k <= s.len(),
        k <= t.len(),
        forall|i: int| 0 <= i < k ==> s[i] == t[i],
    ensures
        sum_to(s, k) == sum_to(t, k),
    decreases k,
{
    if k > 0 {
        lemma_sum_prefix(s, t, k - 1);
    }
}

/// The rounded down shares add up to at most `avail * sum`, and lose less
/// than one cell each
proof fn lemma_floor_sum_bounds(mins: Seq<u16>, avail: int, total: int, k: int)
    requires
        0 <= k <= mins.len(),
        avail >= 0,
        total > 0,
    ensures
        total * floor_sum(mins, avail, total, k) <= avail * sum_to(mins, k),
        total * floor_sum(mins, avail, total, k) >= avail * sum_to(mins, k) - k * (total - 1),
        floor_sum(mins, avail, total, k) >= 0,
    decreases k,
{
    if k > 0 {
        lemma_floor_sum_bounds(mins, avail, total, k - 1);
        let x = mins[k - 1] * avail;
        assert(x >= 0) by (nonlinear_arith)
            requires
                x == mins[k - 1] * avail,
                mins[k - 1] >= 0,
                avail >= 0,
        ;
        lemma_fundamental_div_mod(x, total);
        lemma_mod_pos_bound(x, total);
        assert(k * (total - 1) == (k - 1) * (total - 1) + (total - 1)) by (nonlinear_arith);
        assert(x / total >= 0) by (nonlinear_arith)
            requires
                x >= 0,
                total > 0,
        ;
        assert(avail * sum_to(mins, k) == avail * sum_to(mins, k - 1) + x) by (nonlinear_arith)
            requires
                sum_to(mins, k) == sum_to(mins, k - 1) + mins[k - 1],
                x == mins[k - 1] * avail,
        ;
        assert(total * floor_sum(mins, avail, total, k) == total * floor_sum(
            mins,
            avail,
            total,
            k - 1,
        ) + total * (x / total)) by (nonlinear_arith)
            requires
                floor_sum(mins, avail, total, k) == floor_sum(mins, avail, total, k - 1) + x
                    / total,
        ;
    }
}

/// The rest after rounding down is less than the number of tracks
proof fn lemma_scale_rem_bounds(mins: Seq<u16>, avail: int)
    requires
        0 <= avail < sum_of(mins),
    ensures
        0 <= scale_rem(mins, avail) < mins.len(),
{
    let total = sum_of(mins);
    let n = mins.len() as int;
    let sf = floor_sum(mins, avail, total, n);
    lemma_floor_sum_bounds(mins, avail, total, n);
    if n == 0 {
        assert(false);
    }
    assert(sf <= avail) by (nonlinear_arith)
        requires
            total * sf <= avail * total,
            total > 0,
    ;
    assert(sf > avail - n) by (nonlinear_arith)
        requires
            total * sf >= avail * total - n * (total - 1),
            total > 0,
            n > 0,
    ;
}

/// Lengths of tracks whose minimums do not fit in `avail` cells: each gets
/// its proportional share, rounded down, and the first tracks one cell more
/// until `avail` is used up
fn scale_down(mins: &Vec<u16>, avail: u16, total: u64) -> (r: Vec<u16>)
    requires
        total == sum_of(mins@),
        avail < total,
    ensures
        r@.len() == mins@.len(),
        forall|i: int| 0 <= i < r@.len() ==> #[trigger] r@[i] == scaled(mins@, avail as int, i),
        sum_of(r@) == avail,
{
    let n = mins.len();
    proof {
        lemma_sum_to_nonneg(mins@, n as int);
    }
    let mut floors: Vec<u16> = Vec::new();
    let mut used: u64 = 0;
    let mut i: usize = 0;
    while i < n
        invariant
            n == mins@.len(),
            total == sum_of(mins@),
            avail < total,
            total <= n * 0xFFFF,
            i <= n,
            floors@.len() == i,
            used == floor_sum(mins@, avail as int, total as int, i as int),
            used == sum_to(floors@, i as int),
            forall|k: int| 0 <= k < i ==> #[trigger] floors@[k] == mins@[k] as int * avail as int / total as int,
            used <= avail,
        decreases n - i,
    {
        proof {
            lemma_floor_sum_bounds(mins@, avail as int, total as int, i + 1);
            lemma_sum_to_nonneg(mins@, i + 1);
            lemma_sum_to_nonneg(mins@, n as int);
            lemma_sum_prefix_le(mins@, i + 1, n as int);
        }
        assert(mins[i as int] as u64 * avail as u64 <= 0xFFFF * 0xFFFF) by (nonlinear_arith)
            requires
                mins[i as int] <= 0xFFFF,
                avail <= 0xFFFF,
        ;
        let x: u64 = mins[i] as u64 * avail as u64;
        let f: u64 = x / total;
        proof {
            assert(floor_sum(mins@, avail as int, total as int, i + 1) <= avail) by (nonlinear_arith)
                requires
                    total * floor_sum(mins@, avail as int, total as int, i + 1) <= avail * sum_to(
                        mins@,
                        i + 1,
                    ),
                    sum_to(mins@, i + 1) <= total,
                    total > 0,
                    avail >= 0,
            ;
        }
        let ghost before = floors@;
        floors.push(f as u16);
        proof {
            lemma_sum_prefix(before, floors@, i as int);
        }
        used = used + f;
        i = i + 1;
    }
    proof {
        lemma_scale_rem_bounds(mins@, avail as int);
    }
    let rem: u64 = avail as u64 - used;
    let mut r: Vec<u16> = Vec::new();
    let mut k: usize = 0;
    while k < n
        invariant
            n == mins@.len(),
            floors@.len() == n,
            total == sum_of(mins@),
            rem == scale_rem(mins@, avail as int),
            rem < n,
            used == sum_to(floors@, n as int),
            used + rem == avail,
            forall|j: int| 0 <= j < n ==> #[trigger] floors@[j] == mins@[j] as int * avail as int / total as int,
            k <= n,
            r@.len() == k,
            forall|j: int| 0 <= j < k ==> #[trigger] r@[j] == scaled(mins@, avail as int, j),
            sum_to(r@, k as int) == sum_to(floors@, k as int) + if k < rem { k as int } else { rem as int },
        decreases n - k,
    {
        let extra: u16 = if (k as u64) < rem {
            1
        } else {
            0
        };
        proof {
            lemma_sum_to_nonneg(floors@, k + 1);
            lemma_sum_to_nonneg(floors@, n as int);
            lemma_sum_to_nonneg(floors@, k as int);
            lemma_sum_prefix_le(floors@, k + 1, n as int);
            assert(floors@[k as int] <= sum_to(floors@, n as int));
        }
        let ghost before = r@;
        r.push(floors[k] + extra);
        proof {
            lemma_sum_prefix(before, r@, k as int);
        }
        k = k + 1;
    }
    r
}

/// A longer prefix sums to at least as much
pub(crate) proof fn lemma_sum_prefix_le(s: Seq<u16>, j: int, k: int)
    requires
        0 <= j <= k <= s.len(),
    ensures
        sum_to(s, j) <= sum_to(s, k),
    decreases k - j,
{
    if j < k {
        lemma_sum_prefix_le(s, j, k - 1);
    }
}

/// Cells a track may grow by: from its minimum up to its maximum
pub open spec fn room(mins: Seq<u16>, caps: Seq<u16>, i: int) -> int {
    if caps[i] > mins[i] { caps[i] - mins[i] } else { 0 }
}

/// Number of the first `k` tracks with more room than `level`
pub open spec fn count_above(mins: Seq<u16>, caps: Seq<u16>, level: int, k: int) -> int
    decreases k,
{
    if k <= 0 {
        0
    } else {
        count_above(mins, caps, level, k - 1) + if room(mins, caps, k - 1) > level { 1int } else { 0 }
    }
}

/// The smaller of two integers
pub open spec fn min_of(a: int, b: int) -> int {
    if a < b { a } else { b }
}

/// Length of track `i` after growing every track by `level` cells, or less
/// where its room ends, and the first `extra` tracks that still have room by
/// one cell more
pub open spec fn filled(mins: Seq<u16>, caps: Seq<u16>, level: int, extra: int, i: int) -> int {
    mins[i] + min_of(room(mins, caps, i), level) + if room(mins, caps, i) > level && count_above(
        mins,
        caps,
        level,
        i,
    ) < extra {
        1int
    } else {
        0
    }
}

proof fn lemma_count_above_bounds(mins: Seq<u16>, caps: Seq<u16>, level: int, j: int, k: int)
    requires
        0 <= j <= k,
    ensures
        0 <= count_above(mins, caps, level, j) <= count_above(mins, caps, level, k),
        count_above(mins, caps, level, k) - count_above(mins, caps, level, j) <= k - j,
    decreases k,
{
    if j < k {
        lemma_count_above_bounds(mins, caps, level, j, k - 1);
    } else if k > 0 {
        lemma_count_above_bounds(mins, caps, level, k - 1, k - 1);
    }
}

/// Grow each track that still has room at `level` by one cell, the first `extra` of them
/// only when `extra` is below their number
fn grow_round(cur: &mut Vec<u16>, mins: &Vec<u16>, caps: &Vec<u16>, Ghost(level): Ghost<int>, extra: u16) -> (added: u16)
    requires
        old(cur)@.len() == mins@.len(),
        caps@.len() == mins@.len(),
        level >= 0,
        forall|i: int|
            0 <= i < mins@.len() ==> #[trigger] old(cur)@[i] == filled(mins@, caps@, level, 0, i),
    ensures
        final(cur)@.len() == mins@.len(),
        added == min_of(extra as int, count_above(mins@, caps@, level, mins@.len() as int)),
        sum_of(final(cur)@) == sum_of(old(cur)@) + added,
        forall|i: int|
            0 <= i < mins@.len() ==> #[trigger] final(cur)@[i] == filled(mins@, caps@, level, extra as int, i),
{
    let n = cur.len();
    let mut i: usize = 0;
    let mut added: u16 = 0;
    while i < n
        invariant
            n == cur@.len(),
            n == mins@.len(),
            caps@.len() == n,
            level >= 0,
            i <= n,
            added == min_of(extra as int, count_above(mins@, caps@, level, i as int)),
            sum_of(cur@) == sum_of(old(cur)@) + added,
            forall|k: int| 0 <= k < i ==> #[trigger] cur@[k] == filled(mins@, caps@, level, extra as int, k),
            forall|k: int| i <= k < n ==> #[trigger] cur@[k] == old(cur)@[k],
            forall|k: int| 0 <= k < n ==> #[trigger] old(cur)@[k] == filled(mins@, caps@, level, 0, k),
        decreases n - i,
    {
        let c = cur[i];
        if c < caps[i] && added < extra {
            proof {
                lemma_sum_update(cur@, i as int, (c + 1) as u16, n as int);
            }
            cur.set(i, c + 1);
            added = added + 1;
        }
        i = i + 1;
    }
    added
}

/// Number of tracks still below their maximum
fn count_open(cur: &Vec<u16>, mins: &Vec<u16>, caps: &Vec<u16>, Ghost(level): Ghost<int>) -> (g: usize)
    requires
        cur@.len() == mins@.len(),
        caps@.len() == mins@.len(),
        level >= 0,
        forall|i: int| 0 <= i < mins@.len() ==> #[trigger] cur@[i] == filled(mins@, caps@, level, 0, i),
    ensures
        g == count_above(mins@, caps@, level, mins@.len() as int),
{
    let n = cur.len();
    let mut i: usize = 0;
    let mut g: usize = 0;
    while i < n
        invariant
            n == cur@.len(),
            n == mins@.len(),
            caps@.len() == n,
            level >= 0,
            i <= n,
            g == count_above(mins@, caps@, level, i as int),
            g <= i,
            forall|k: int| 0 <= k < n ==> #[trigger] cur@[k] == filled(mins@, caps@, level, 0, k),
        decreases n - i,
    {
        proof {
            lemma_count_above_bounds(mins@, caps@, level, i + 1, i + 1);
            lemma_count_above_bounds(mins@, caps@, level, 0, i + 1);
        }
        if cur[i] < caps[i] {
            g = g + 1;
        }
        i = i + 1;
    }
    g
}

/// Growing every track with room by one cell reaches the next level
proof fn lemma_round_complete(mins: Seq<u16>, caps: Seq<u16>, level: int, i: int)
    requires
        0 <= i < mins.len(),
        level >= 0,
    ensures
        filled(mins, caps, level, count_above(mins, caps, level, mins.len() as int), i) == filled(
            mins,
            caps,
            level + 1,
            0,
            i,
        ),
{
    lemma_count_above_bounds(mins, caps, level, i + 1, mins.len() as int);
    lemma_count_above_bounds(mins, caps, level + 1, i, i);
}

/// The level and extra cells that sharing `left` cells from `level` on ends
/// at: whole rounds of one cell for each track with room, then one cell each
/// for the first tracks with room while cells remain
pub open spec fn fill_end(mins: Seq<u16>, caps: Seq<u16>, level: int, left: int) -> (int, int)
    decreases left,
{
    let g = count_above(mins, caps, level, mins.len() as int);
    if g <= 0 || left <= 0 {
        (level, 0)
    } else if left < g {
        (level, left)
    } else {
        fill_end(mins, caps, level + 1, left - g)
    }
}

/// Track lengths after sharing `leftover` cells among tracks of the given
/// minimum and maximum lengths
pub open spec fn grown(mins: Seq<u16>, caps: Seq<u16>, leftover: int) -> Seq<u16> {
    let (level, extra) = fill_end(mins, caps, 0, leftover);
    Seq::new(mins.len(), |i: int| filled(mins, caps, level, extra, i) as u16)
}

/// `r` is the tracks grown to `level`, and the first `extra` with room left
/// one cell more
pub open spec fn is_fill(mins: Seq<u16>, caps: Seq<u16>, r: Seq<u16>, level: int, extra: int) -> bool {
    &&& level >= 0
    &&& 0 <= extra
    &&& (extra == 0 || extra < count_above(mins, caps, level, mins.len() as int))
    &&& r.len() == mins.len()
    &&& forall|i: int| 0 <= i < mins.len() ==> #[trigger] r[i] == filled(mins, caps, level, extra, i)
}

/// Share `leftover` cells among the tracks, in equal parts, the rest going
/// one cell each to the first tracks, no track growing past its maximum; a
/// part that a track cannot take is shared again among the others
fn grow(mins: &Vec<u16>, caps: &Vec<u16>, leftover: u16) -> (r: Vec<u16>)
    requires
        caps@.len() == mins@.len(),
    ensures
        r@ == grown(mins@, caps@, leftover as int),
        exists|level: int, extra: int| #[trigger] is_fill(mins@, caps@, r@, level, extra),
        sum_of(r@) <= sum_of(mins@) + leftover,
        sum_of(r@) < sum_of(mins@) + leftover ==> forall|i: int|
            0 <= i < mins@.len() ==> #[trigger] r@[i] >= caps@[i],
{
    let n = mins.len();
    let mut cur: Vec<u16> = Vec::new();
    let mut i: usize = 0;
    while i < n
        invariant
            n == mins@.len(),
            i <= n,
            cur@.len() == i,
            forall|k: int| 0 <= k < i ==> #[trigger] cur@[k] == mins@[k],
        decreases n - i,
    {
        cur.push(mins[i]);
        i = i + 1;
    }
    proof {
        lemma_sum_prefix(cur@, mins@, n as int);
        assert forall|k: int| 0 <= k < n implies #[trigger] cur@[k] == filled(mins@, caps@, 0, 0, k) by {
            lemma_count_above_bounds(mins@, caps@, 0, k, k);
        }
    }
    let ghost mut level: int = 0;
    let ghost mut extra: int = 0;
    let mut left: u16 = leftover;
    let mut done = false;
    while !done
        invariant
            n == mins@.len(),
            caps@.len() == n,
            cur@.len() == n,
            level >= 0,
            extra >= 0,
            forall|k: int| 0 <= k < n ==> #[trigger] cur@[k] == filled(mins@, caps@, level, extra, k),
            !done ==> extra == 0,
            extra == 0 || extra < count_above(mins@, caps@, level, n as int),
            sum_of(cur@) + left == sum_of(mins@) + leftover,
            done ==> (left == 0 || forall|k: int| 0 <= k < n ==> #[trigger] cur@[k] >= caps@[k]),
            !done ==> fill_end(mins@, caps@, level, left as int) == fill_end(mins@, caps@, 0, leftover as int),
            done ==> (level, extra) == fill_end(mins@, caps@, 0, leftover as int),
            forall|k: int| 0 <= k < n ==> #[trigger] cur@[k] <= 0xFFFF,
        decreases left, if done { 0int } else { 1int },
    {
        let g = count_open(&cur, mins, caps, Ghost(level));
        if g == 0 || left == 0 {
            proof {
                if g == 0 {
                    assert forall|k: int| 0 <= k < n implies #[trigger] cur@[k] >= caps@[k] by {
                        lemma_count_above_bounds(mins@, caps@, level, k, k + 1);
                        lemma_count_above_bounds(mins@, caps@, level, k + 1, n as int);
                    }
                }
            }
            done = true;
        } else if (left as usize) < g {
            let added = grow_round(&mut cur, mins, caps, Ghost(level), left);
            proof {
                extra = left as int;
            }
            left = 0;
            done = true;
        } else {
            let added = grow_round(&mut cur, mins, caps, Ghost(level), g as u16);
            proof {
                assert forall|k: int| 0 <= k < n implies #[trigger] cur@[k] == filled(
                    mins@,
                    caps@,
                    level + 1,
                    0,
                    k,
                ) by {
                    lemma_round_complete(mins@, caps@, level, k);
                }
                level = level + 1;
            }
            left = left - g as u16;
        }
    }
    assert(is_fill(mins@, caps@, cur@, level, extra));
    assert(cur@ =~= grown(mins@, caps@, leftover as int));
    cur
}

/// Track lengths along one axis: scaled down when the minimums do not fit,
/// else grown from the minimums by the cells left over
pub open spec fn axis_lengths(mins: Seq<u16>, maxs: Seq<u16>, avail: int) -> Seq<u16> {
    if sum_of(mins) > avail {
        Seq::new(mins.len(), |i: int| scaled(mins, avail, i) as u16)
    } else {
        grown(mins, maxs, avail - sum_of(mins))
    }
}

/// Solve the lengths of a row of tracks with minimum lengths `mins` and
/// maximum lengths `maxs` in `avail` cells.
///
/// When the minimums do not fit, every track is scaled down in proportion and
/// the lengths use `avail` exactly.  Otherwise each track gets its minimum and
/// the rest is shared among the tracks below their maximum; what nobody can
/// take stays unused after the last track.
pub fn solve_axis(mins: &Vec<u16>, maxs: &Vec<u16>, avail: u16) -> (r: Vec<u16>)
    requires
        mins@.len() == maxs@.len(),
        mins@.len() <= 0xFFFF_FFFF,
    ensures
        r@ == axis_lengths(mins@, maxs@, avail as int),
        r@.len() == mins@.len(),
        sum_of(r@) <= avail,
        sum_of(mins@) > avail ==> sum_of(r@) == avail,
        sum_of(mins@) > avail ==> forall|i: int|
            0 <= i < r@.len() ==> #[trigger] r@[i] == scaled(mins@, avail as int, i),
        sum_of(mins@) <= avail ==> forall|i: int|
            0 <= i < r@.len() ==> mins@[i] <= #[trigger] r@[i] && (r@[i] <= maxs@[i] || r@[i]
                == mins@[i]),
        sum_of(mins@) <= avail && sum_of(r@) < avail ==> forall|i: int|
            0 <= i < r@.len() ==> #[trigger] r@[i] >= maxs@[i],
{
    let n = mins.len();
    let mut total: u64 = 0;
    let mut i: usize = 0;
    while i < n
        invariant
            n == mins@.len(),
            n <= 0xFFFF_FFFF,
            i <= n,
            total == sum_to(mins@, i as int),
            total <= i * 0xFFFF,
        decreases n - i,
    {
        total = total + mins[i] as u64;
        i = i + 1;
    }
    if total > avail as u64 {
        let r = scale_down(mins, avail, total);
        assert(r@ =~= axis_lengths(mins@, maxs@, avail as int));
        r
    } else {
        let r = grow(mins, maxs, avail - total as u16);
        proof {
            let (level, extra) = choose|level: int, extra: int| #[trigger] is_fill(mins@, maxs@, r@, level, extra);
            assert forall|i: int| 0 <= i < r@.len() implies mins@[i] <= #[trigger] r@[i] && (r@[i]
                <= maxs@[i] || r@[i] == mins@[i]) by {
                assert(r@[i] == filled(mins@, maxs@, level, extra, i));
            }
        }
        r
    }
}

} // verus!
