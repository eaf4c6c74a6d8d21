//! Window selection and curve interpolation.
//!
//! Given the full point list and a reference day, the selector keeps the
//! points relevant to a rolling 48-hour span and maps each to chart
//! coordinates, reflecting points of the previous and next day across
//! the day boundary so the drawn curve stays continuous at the chart
//! edges. The interpolator then fills each gap between consecutive
//! extrema with a fixed-resolution half-cosine ease, which has zero
//! slope at both endpoints like a real tide curve.
//!
//! Coordinates are integer pairs: x is a minute offset from the
//! reference day's midnight, y a sea level in thousandths of a unit.

use crate::tides::{TidePoint, LEVEL_CAP_MILLI};
use crate::timestamp::Timestamp;
use vstd::prelude::*;

verus! {

/// Minutes in a day: the x-shift applied to reflected boundary points.
pub const DAY_MINUTES: i64 = 1440;

/// Largest x-coordinate magnitude the interpolator accepts. Window
/// coordinates stay far below it.
pub const X_CAP: i64 = 10_000_000;

/// A point is relevant to the chart of `today` when it lies within
/// half a day before that day's midnight and a day and a half after.
pub open spec fn in_window(p: TidePoint, today: Timestamp) -> bool {
    let m = p.dt.linear_minutes();
    let t = today.linear_minutes();
    t - 720 <= m < t + 2160
}

/// Chart coordinates of a selected point: its minute of the day,
/// shifted a day left for points before `today`'s midnight and a day
/// right for points after the following midnight, and its level.
pub open spec fn coord_of(p: TidePoint, today: Timestamp) -> (i64, i64) {
    let m = p.dt.linear_minutes();
    let t = today.linear_minutes();
    let x0 = p.dt.minute_of_day();
    let x = if m < t {
        x0 - 1440
    } else if m > t + 1440 {
        x0 + 1440
    } else {
        x0
    };
    (x as i64, p.level)
}

/// What the window selector produces: the in-window points, in input
/// order, each as chart coordinates.
pub open spec fn window_coords(ps: Seq<TidePoint>, today: Timestamp) -> Seq<(i64, i64)> {
    ps.filter(|p: TidePoint| in_window(p, today)).map_values(|p: TidePoint| coord_of(p, today))
}

/// Appending one point extends the selection by its coordinates exactly
/// when it falls inside the window.
proof fn lemma_window_coords_push(ps: Seq<TidePoint>, p: TidePoint, today: Timestamp)
    ensures
        window_coords(ps.push(p), today) == window_coords(ps, today) + (if in_window(p, today) {
            seq![coord_of(p, today)]
        } else {
            Seq::<(i64, i64)>::empty()
        }),
{
    let pred = |q: TidePoint| in_window(q, today);
    let f = |q: TidePoint| coord_of(q, today);
    assert(ps.push(p) =~= ps + seq![p]);
    Seq::filter_distributes_over_add(ps, seq![p], pred);
    reveal_with_fuel(Seq::filter, 2);
    assert(seq![p].drop_last() =~= Seq::<TidePoint>::empty());
    if pred(p) {
        assert(seq![p].filter(pred) =~= seq![p]);
        assert((ps.filter(pred) + seq![p]).map_values(f) =~= ps.filter(pred).map_values(f)
            + seq![f(p)]);
    } else {
        assert(seq![p].filter(pred) =~= Seq::<TidePoint>::empty());
        assert((ps.filter(pred)).map_values(f) =~= window_coords(ps, today));
        assert(ps.filter(pred) + Seq::<TidePoint>::empty() =~= ps.filter(pred));
    }
}

/// Select the points relevant to `today` and map them to chart
/// coordinates, reflecting out-of-day points across the day boundary.
pub fn select_window(points: &Vec<TidePoint>, today: &Timestamp) -> (r: Vec<(i64, i64)>)
    requires
        today.wf(),
        forall|i: int| 0 <= i < points@.len() ==> points@[i].wf(),
    ensures
        r@ == window_coords(points@, *today),
        forall|i: int|
            0 <= i < r@.len() ==> -DAY_MINUTES <= (#[trigger] r@[i]).0 < 2 * DAY_MINUTES
                && -LEVEL_CAP_MILLI <= r@[i].1 <= LEVEL_CAP_MILLI,
{
    let t = today.total_minutes();
    let mut out: Vec<(i64, i64)> = Vec::new();
    let mut i: usize = 0;
    proof {
        assert(points@.take(0) =~= Seq::<TidePoint>::empty());
        assert(Seq::<TidePoint>::empty().filter(|p: TidePoint| in_window(p, *today))
            =~= Seq::<TidePoint>::empty());
        assert(window_coords(points@.take(0), *today) =~= Seq::<(i64, i64)>::empty());
    }
    while i < points.len()
        invariant
            0 <= i <= points@.len(),
            today.wf(),
            t == today.linear_minutes(),
            forall|j: int| 0 <= j < points@.len() ==> points@[j].wf(),
            out@ == window_coords(points@.take(i as int), *today),
            forall|j: int|
                0 <= j < out@.len() ==> -DAY_MINUTES <= (#[trigger] out@[j]).0 < 2 * DAY_MINUTES
                    && -LEVEL_CAP_MILLI <= out@[j].1 <= LEVEL_CAP_MILLI,
        decreases points@.len() - i,
    {
        let p = &points[i];
        proof {
            today.lemma_linear_minutes_bound();
            p.dt.lemma_linear_minutes_bound();
            assert(points@.take(i + 1) =~= points@.take(i as int).push(points@[i as int]));
            lemma_window_coords_push(points@.take(i as int), points@[i as int], *today);
        }
        let m = p.dt.total_minutes();
        if t - 720 <= m && m < t + 2160 {
            let x0 = (p.dt.hour * 60 + p.dt.minute) as i64;
            let x = if m < t {
                x0 - 1440
            } else if m > t + 1440 {
                x0 + 1440
            } else {
                x0
            };
            out.push((x, p.level));
        }
        i = i + 1;
    }
    proof {
        assert(points@.take(points@.len() as int) =~= points@);
    }
    out
}

/// A point belongs to the reference day's markers when it falls
/// strictly between that day's midnight and the next.
pub open spec fn on_day(p: TidePoint, today: Timestamp) -> bool {
    let m = p.dt.linear_minutes();
    let t = today.linear_minutes();
    t < m < t + 1440
}

/// The discrete points of the reference day itself, for marker
/// placement beside the interpolated curve.
pub fn points_of_day(points: &Vec<TidePoint>, today: &Timestamp) -> (r: Vec<TidePoint>)
    requires
        today.wf(),
        forall|i: int| 0 <= i < points@.len() ==> points@[i].wf(),
    ensures
        r@ == points@.filter(|p: TidePoint| on_day(p, *today)),
        forall|i: int| 0 <= i < r@.len() ==> (#[trigger] r@[i]).wf(),
{
    let t = today.total_minutes();
    let mut out: Vec<TidePoint> = Vec::new();
    let mut i: usize = 0;
    proof {
        assert(points@.take(0) =~= Seq::<TidePoint>::empty());
        assert(points@.take(0).filter(|p: TidePoint| on_day(p, *today))
            =~= Seq::<TidePoint>::empty());
    }
    while i < points.len()
        invariant
            0 <= i <= points@.len(),
            today.wf(),
            t == today.linear_minutes(),
            forall|j: int| 0 <= j < points@.len() ==> points@[j].wf(),
            out@ == points@.take(i as int).filter(|p: TidePoint| on_day(p, *today)),
            forall|j: int| 0 <= j < out@.len() ==> (#[trigger] out@[j]).wf(),
        decreases points@.len() - i,
    {
        let p = &points[i];
        proof {
            today.lemma_linear_minutes_bound();
            p.dt.lemma_linear_minutes_bound();
            let pred = |q: TidePoint| on_day(q, *today);
            assert(points@.take(i + 1) =~= points@.take(i as int) + seq![points@[i as int]]);
            Seq::filter_distributes_over_add(points@.take(i as int), seq![points@[i as int]], pred);
            reveal_with_fuel(Seq::filter, 2);
            assert(seq![points@[i as int]].drop_last() =~= Seq::<TidePoint>::empty());
            if pred(points@[i as int]) {
                assert(seq![points@[i as int]].filter(pred) =~= seq![points@[i as int]]);
            } else {
                assert(seq![points@[i as int]].filter(pred) =~= Seq::<TidePoint>::empty());
                assert(points@.take(i as int).filter(pred) + Seq::<TidePoint>::empty()
                    =~= points@.take(i as int).filter(pred));
            }
        }
        let m = p.dt.total_minutes();
        if t < m && m < t + 1440 {
            out.push(*p);
        }
        i = i + 1;
    }
    proof {
        assert(points@.take(points@.len() as int) =~= points@);
    }
    out
}

/// How far a point's reflected x-coordinate stands from its plain one:
/// points of the previous day are carried a day to the left, points of
/// the next day a day to the right, and points of the reference day are
/// not moved; the level is carried unchanged in every case.
pub proof fn lemma_ghost_shift(p: TidePoint, today: Timestamp)
    requires
        p.wf(),
        today.wf(),
    ensures
        p.dt.linear_minutes() < today.linear_minutes() ==> coord_of(p, today).0
            == p.dt.minute_of_day() - DAY_MINUTES,
        p.dt.linear_minutes() > today.linear_minutes() + DAY_MINUTES ==> coord_of(p, today).0
            == p.dt.minute_of_day() + DAY_MINUTES,
        today.linear_minutes() <= p.dt.linear_minutes() <= today.linear_minutes() + DAY_MINUTES
            ==> coord_of(p, today).0 == p.dt.minute_of_day(),
        coord_of(p, today).1 == p.level,
{
}

/// The half-cosine ease shape, sampled at twenty-fifths of a segment
/// and scaled by 10000: weight(k) stands for
/// (1 + cos(k/25 * pi + pi)) / 2, which rises from 0 at k = 0 to 10000
/// at k = 25 with zero slope at both ends.
pub open spec fn ease_weight(k: int) -> int {
    if k <= 0 {
        0
    } else if k == 1 {
        39
    } else if k == 2 {
        157
    } else if k == 3 {
        351
    } else if k == 4 {
        618
    } else if k == 5 {
        955
    } else if k == 6 {
        1355
    } else if k == 7 {
        1813
    } else if k == 8 {
        2321
    } else if k == 9 {
        2871
    } else if k == 10 {
        3455
    } else if k == 11 {
        4063
    } else if k == 12 {
        4686
    } else if k == 13 {
        5314
    } else if k == 14 {
        5937
    } else if k == 15 {
        6545
    } else if k == 16 {
        7129
    } else if k == 17 {
        7679
    } else if k == 18 {
        8187
    } else if k == 19 {
        8645
    } else if k == 20 {
        9045
    } else if k == 21 {
        9382
    } else if k == 22 {
        9649
    } else if k == 23 {
        9843
    } else if k == 24 {
        9961
    } else {
        10000
    }
}

/// The ease weight of an interior sub-step.
fn ease_weight_at(k: u64) -> (w: u64)
    requires
        1 <= k <= 24,
    ensures
        w == ease_weight(k as int),
        0 < w < 10000,
{
    match k {
        1 => 39,
        2 => 157,
        3 => 351,
        4 => 618,
        5 => 955,
        6 => 1355,
        7 => 1813,
        8 => 2321,
        9 => 2871,
        10 => 3455,
        11 => 4063,
        12 => 4686,
        13 => 5314,
        14 => 5937,
        15 => 6545,
        16 => 7129,
        17 => 7679,
        18 => 8187,
        19 => 8645,
        20 => 9045,
        21 => 9382,
        22 => 9649,
        23 => 9843,
        _ => 9961,
    }
}

/// A level delta scaled by an ease weight, rounded toward zero.
pub open spec fn scale_delta(d: int, w: int) -> int {
    if d >= 0 {
        (d * w) / 10000
    } else {
        -(((-d) * w) / 10000)
    }
}

/// The k-th interior sample of the segment from `p` to `q`,
/// 1 <= k <= 24: x advances by k twenty-fifths of the gap, y by the
/// eased share of the level delta.
pub open spec fn sub_sample(p: (i64, i64), q: (i64, i64), k: int) -> (i64, i64) {
    let dx = q.0 - p.0;
    let dy = q.1 - p.1;
    ((p.0 + (k * dx) / 25) as i64, (p.1 + scale_delta(dy, ease_weight(k))) as i64)
}

/// Whether the k-th twenty-fifth step reaches a new whole-minute
/// x-offset. On a segment narrower than 25 minutes several steps floor
/// to the same offset; only the first step of each run is emitted, so
/// no two samples ever share an x-coordinate.
pub open spec fn advances(p: (i64, i64), q: (i64, i64), k: int) -> bool {
    (k * (q.0 - p.0)) / 25 > ((k - 1) * (q.0 - p.0)) / 25
}

/// The interior samples contributed by the first k twenty-fifth steps
/// of a forward segment: one sample per distinct x-offset, taken at
/// the first step that reaches it.
pub open spec fn interior_samples(p: (i64, i64), q: (i64, i64), k: int) -> Seq<(i64, i64)>
    decreases k,
{
    if k <= 0 {
        Seq::<(i64, i64)>::empty()
    } else {
        interior_samples(p, q, k - 1) + if advances(p, q, k) {
            seq![sub_sample(p, q, k)]
        } else {
            Seq::<(i64, i64)>::empty()
        }
    }
}

/// All samples a segment contributes: its origin point, then, when the
/// segment has positive width, up to 24 eased interior samples with
/// strictly increasing x. The target point is never emitted; the next
/// segment supplies it as its origin.
pub open spec fn segment_samples(p: (i64, i64), q: (i64, i64)) -> Seq<(i64, i64)> {
    seq![p] + if q.0 > p.0 {
        interior_samples(p, q, 24)
    } else {
        Seq::<(i64, i64)>::empty()
    }
}

/// The whole interpolated curve: the concatenated samples of every
/// consecutive pair. Fewer than two points yield no curve at all.
pub open spec fn curve(points: Seq<(i64, i64)>) -> Seq<(i64, i64)>
    decreases points.len(),
{
    if points.len() < 2 {
        Seq::<(i64, i64)>::empty()
    } else {
        curve(points.drop_last()) + segment_samples(
            points[points.len() - 2],
            points[points.len() - 1],
        )
    }
}

/// Interior x-offsets stay properly inside a forward segment:
/// k twenty-fifths of the gap lie between nothing and the whole gap.
proof fn lemma_sub_x_bounds(dx: int, k: int)
    requires
        dx >= 1,
        1 <= k <= 24,
    ensures
        0 <= (k * dx) / 25 <= dx - 1,
{
    assert(k * dx >= 0) by (nonlinear_arith)
        requires
            k >= 1 && dx >= 1,
    ;
    assert(k * dx <= 24 * dx) by (nonlinear_arith)
        requires
            k <= 24 && dx >= 1,
    ;
    vstd::arithmetic::div_mod::lemma_div_is_ordered(0, k * dx, 25);
    vstd::arithmetic::div_mod::lemma_div_is_ordered(k * dx, 25 * (dx - 1) + 24, 25);
    vstd::arithmetic::div_mod::lemma_fundamental_div_mod_converse(25 * (dx - 1) + 24, 25, dx - 1, 24);
}

/// An eased share of a delta never overshoots it: scaling by a weight
/// within [0, 10000] keeps the step between zero and the delta itself.
proof fn lemma_scale_delta_bounds(d: int, w: int)
    requires
        0 <= w <= 10000,
    ensures
        d >= 0 ==> 0 <= scale_delta(d, w) <= d,
        d < 0 ==> d <= scale_delta(d, w) <= 0,
{
    if d >= 0 {
        assert(d * w >= 0) by (nonlinear_arith)
            requires
                d >= 0 && w >= 0,
        ;
        assert(d * w <= d * 10000) by (nonlinear_arith)
            requires
                d >= 0 && w <= 10000,
        ;
        vstd::arithmetic::div_mod::lemma_div_is_ordered(0, d * w, 10000);
        vstd::arithmetic::div_mod::lemma_div_is_ordered(d * w, d * 10000, 10000);
        vstd::arithmetic::div_mod::lemma_fundamental_div_mod_converse(d * 10000, 10000, d, 0);
    } else {
        let m = -d;
        assert(m * w >= 0) by (nonlinear_arith)
            requires
                m >= 0 && w >= 0,
        ;
        assert(m * w <= m * 10000) by (nonlinear_arith)
            requires
                m >= 0 && w <= 10000,
        ;
        vstd::arithmetic::div_mod::lemma_div_is_ordered(0, m * w, 10000);
        vstd::arithmetic::div_mod::lemma_div_is_ordered(m * w, m * 10000, 10000);
        vstd::arithmetic::div_mod::lemma_fundamental_div_mod_converse(m * 10000, 10000, m, 0);
    }
}

/// The ease weights stay within their scale.
proof fn lemma_ease_weight_range(k: int)
    ensures
        0 <= ease_weight(k) <= 10000,
{
}

/// What the interior samples of a forward segment look like, step by
/// step: at most one per step, x strictly increasing and properly
/// inside the gap, y between the two levels, and the last sample
/// standing exactly at the k-th step's floored offset.
proof fn lemma_interior_props(p: (i64, i64), q: (i64, i64), k: int)
    requires
        p.0 < q.0,
        0 <= k <= 24,
    ensures
        interior_samples(p, q, k).len() <= k,
        forall|j: int|
            0 <= j < interior_samples(p, q, k).len() ==> p.0 < (#[trigger] interior_samples(
                p,
                q,
                k,
            )[j]).0 < q.0,
        forall|j: int|
            0 <= j < interior_samples(p, q, k).len() ==> (p.1 <= (#[trigger] interior_samples(
                p,
                q,
                k,
            )[j]).1 <= q.1 || q.1 <= interior_samples(p, q, k)[j].1 <= p.1),
        forall|j: int|
            0 <= j < interior_samples(p, q, k).len() - 1 ==> (#[trigger] interior_samples(
                p,
                q,
                k,
            )[j]).0 < interior_samples(p, q, k)[j + 1].0,
        interior_samples(p, q, k).len() > 0 ==> interior_samples(p, q, k).last().0 == p.0 + (k * (
        q.0 - p.0)) / 25,
        interior_samples(p, q, k).len() == 0 ==> (k * (q.0 - p.0)) / 25 == 0,
    decreases k,
{
    let dx = q.0 - p.0;
    if k > 0 {
        lemma_interior_props(p, q, k - 1);
        lemma_sub_x_bounds(dx, k);
        lemma_ease_weight_range(k);
        lemma_scale_delta_bounds(q.1 - p.1, ease_weight(k));
        assert((k - 1) * dx <= k * dx) by (nonlinear_arith)
            requires
                dx >= 0 && k >= 1,
        ;
        vstd::arithmetic::div_mod::lemma_div_is_ordered((k - 1) * dx, k * dx, 25);
        if k - 1 >= 1 {
            vstd::arithmetic::div_mod::lemma_div_pos_is_pos((k - 1) * dx, 25);
            assert((k - 1) * dx >= 0) by (nonlinear_arith)
                requires
                    dx >= 1 && k >= 2,
            ;
        }
        let rest = interior_samples(p, q, k - 1);
        if advances(p, q, k) {
            assert(interior_samples(p, q, k) == rest + seq![sub_sample(p, q, k)]);
        } else {
            assert((k * dx) / 25 == ((k - 1) * dx) / 25);
            assert(interior_samples(p, q, k) =~= rest);
        }
    }
}

/// A segment drawn left to right starts at its origin sample; its
/// sample x-coordinates strictly increase and never reach the
/// target's; its y-samples stay between the two levels.
pub proof fn lemma_segment_bounds(p: (i64, i64), q: (i64, i64))
    requires
        p.0 < q.0,
    ensures
        1 <= segment_samples(p, q).len() <= 25,
        segment_samples(p, q)[0] == p,
        forall|j: int|
            0 <= j < segment_samples(p, q).len() ==> p.0 <= (#[trigger] segment_samples(p, q)[j]).0
                < q.0,
        forall|j: int|
            0 <= j < segment_samples(p, q).len() ==> (p.1 <= (#[trigger] segment_samples(p, q)[j]).1
                <= q.1 || q.1 <= segment_samples(p, q)[j].1 <= p.1),
        forall|j: int|
            0 <= j < segment_samples(p, q).len() - 1 ==> (#[trigger] segment_samples(p, q)[j]).0
                < segment_samples(p, q)[j + 1].0,
{
    lemma_interior_props(p, q, 24);
    let s = segment_samples(p, q);
    let interior = interior_samples(p, q, 24);
    assert(s == seq![p] + interior);
    assert(forall|j: int| 1 <= j < s.len() ==> s[j] == interior[j - 1]);
    assert(s[0] == p);
}

/// Over a whole point list drawn left to right, every curve sample's
/// x-coordinate stays between the first point and (strictly below) the
/// last: segments start at their origin and never overshoot their
/// target, so neither does the curve.
pub proof fn lemma_curve_within_range(points: Seq<(i64, i64)>)
    requires
        points.len() >= 2,
        forall|i: int| 0 <= i < points.len() - 1 ==> (#[trigger] points[i]).0 < points[i + 1].0,
    ensures
        forall|k: int|
            0 <= k < curve(points).len() ==> points[0].0 <= (#[trigger] curve(points)[k]).0
                < points[points.len() - 1].0,
    decreases points.len(),
{
    let n = points.len() as int;
    let p = points[n - 2];
    let q = points[n - 1];
    lemma_segment_bounds(p, q);
    if n == 2 {
        assert(curve(points) == curve(points.drop_last()) + segment_samples(p, q));
        assert(curve(points.drop_last()).len() == 0);
        assert(forall|k: int|
            0 <= k < curve(points).len() ==> curve(points)[k] == segment_samples(p, q)[k]);
    } else {
        let front = points.drop_last();
        lemma_curve_within_range(front);
        assert(front[0] == points[0]);
        assert(points[0].0 < p.0) by {
            lemma_sorted_first_below(points, n - 2);
        }
        assert(forall|k: int|
            0 <= k < curve(front).len() ==> #[trigger] curve(points)[k] == curve(front)[k]);
        assert(forall|k: int|
            curve(front).len() <= k < curve(points).len() ==> #[trigger] curve(points)[k]
                == segment_samples(p, q)[k - curve(front).len()]);
    }
}

/// In a strictly increasing point list, the first x-coordinate stays
/// below every later one.
proof fn lemma_sorted_first_below(points: Seq<(i64, i64)>, j: int)
    requires
        0 < j < points.len(),
        forall|i: int| 0 <= i < points.len() - 1 ==> (#[trigger] points[i]).0 < points[i + 1].0,
    ensures
        points[0].0 < points[j].0,
    decreases j,
{
    if j > 1 {
        lemma_sorted_first_below(points, j - 1);
    }
}

/// Over a whole point list with strictly increasing x-coordinates,
/// the emitted sample x-coordinates strictly increase across the whole
/// curve: each segment starts past everything before it and climbs
/// strictly toward (never reaching) its target.
pub proof fn lemma_curve_strictly_increasing(points: Seq<(i64, i64)>)
    requires
        points.len() >= 2,
        forall|i: int| 0 <= i < points.len() - 1 ==> (#[trigger] points[i]).0 < points[i + 1].0,
    ensures
        curve(points).len() >= 1,
        curve(points)[0] == points[0],
        forall|k: int|
            0 <= k < curve(points).len() - 1 ==> (#[trigger] curve(points)[k]).0 < curve(
                points,
            )[k + 1].0,
    decreases points.len(),
{
    let n = points.len() as int;
    let p = points[n - 2];
    let q = points[n - 1];
    lemma_segment_bounds(p, q);
    if n == 2 {
        assert(curve(points) == curve(points.drop_last()) + segment_samples(p, q));
        assert(curve(points.drop_last()).len() == 0);
        assert(forall|k: int|
            0 <= k < curve(points).len() ==> curve(points)[k] == segment_samples(p, q)[k]);
    } else {
        let front = points.drop_last();
        lemma_curve_strictly_increasing(front);
        lemma_curve_within_range(front);
        assert(front[front.len() - 1] == p);
        let m = curve(front).len() as int;
        assert(forall|k: int|
            0 <= k < m ==> #[trigger] curve(points)[k] == curve(front)[k]);
        assert(forall|k: int|
            m <= k < curve(points).len() ==> #[trigger] curve(points)[k] == segment_samples(
                p,
                q,
            )[k - m]);
        // The seam: the last sample before this segment lies strictly
        // below p.0, the segment's first sample.
        assert(curve(front)[m - 1].0 < p.0);
        assert(curve(points)[m] == segment_samples(p, q)[0]);
    }
}

/// A zero-width (or backward) segment contributes exactly its origin
/// sample: no interior samples are synthesized, so no division by the
/// zero gap is ever attempted.
pub proof fn lemma_degenerate_segment(p: (i64, i64), q: (i64, i64))
    requires
        q.0 <= p.0,
    ensures
        segment_samples(p, q) =~= seq![p],
{
}

/// Interpolate a dense curve through the given chart points: for every
/// consecutive pair, the pair's origin followed by the half-cosine
/// eased interior samples at distinct whole-minute offsets; fewer than
/// two points yield the empty curve.
pub fn interpolate(xys: &Vec<(i64, i64)>) -> (r: Vec<(i64, i64)>)
    requires
        forall|i: int|
            0 <= i < xys@.len() ==> -X_CAP <= (#[trigger] xys@[i]).0 <= X_CAP && -LEVEL_CAP_MILLI
                <= xys@[i].1 <= LEVEL_CAP_MILLI,
    ensures
        r@ == curve(xys@),
{
    let n = xys.len();
    let mut out: Vec<(i64, i64)> = Vec::new();
    if n < 2 {
        return out;
    }
    let mut i: usize = 1;
    proof {
        assert(curve(xys@.take(1)) =~= Seq::<(i64, i64)>::empty());
    }
    while i < n
        invariant
            1 <= i <= n,
            n == xys@.len(),
            forall|j: int|
                0 <= j < xys@.len() ==> -X_CAP <= (#[trigger] xys@[j]).0 <= X_CAP
                    && -LEVEL_CAP_MILLI <= xys@[j].1 <= LEVEL_CAP_MILLI,
            out@ == curve(xys@.take(i as int)),
        decreases n - i,
    {
        let p = xys[i - 1];
        let q = xys[i];
        out.push(p);
        if q.0 > p.0 {
            let dx = (q.0 - p.0) as u64;
            let mut k: u64 = 1;
            let mut last_off: u64 = 0;
            proof {
                assert(interior_samples(p, q, 0) =~= Seq::<(i64, i64)>::empty());
            }
            while k <= 24
                invariant
                    1 <= k <= 25,
                    1 <= i < n == xys@.len(),
                    p == xys@[i - 1],
                    q == xys@[i as int],
                    -X_CAP <= p.0 <= X_CAP,
                    -X_CAP <= q.0 <= X_CAP,
                    -LEVEL_CAP_MILLI <= p.1 <= LEVEL_CAP_MILLI,
                    -LEVEL_CAP_MILLI <= q.1 <= LEVEL_CAP_MILLI,
                    q.0 > p.0,
                    dx == q.0 - p.0,
                    last_off == ((k - 1) * dx) / 25,
                    out@ == curve(xys@.take(i as int)) + seq![p] + interior_samples(
                        p,
                        q,
                        k - 1,
                    ),
                decreases 25 - k,
            {
                proof {
                    lemma_sub_x_bounds(dx as int, k as int);
                    assert((k - 1) * dx <= k * dx) by (nonlinear_arith)
                        requires
                            dx >= 0 && k >= 1,
                    ;
                    vstd::arithmetic::div_mod::lemma_div_is_ordered(
                        ((k - 1) * dx) as int,
                        (k * dx) as int,
                        25,
                    );
                }
                let off = (k * dx) / 25;
                if off > last_off {
                    let w = ease_weight_at(k);
                    let xk = p.0 + off as i64;
                    let yk: i64 = if q.1 >= p.1 {
                        let d = (q.1 - p.1) as u64;
                        proof {
                            assert(d * w <= d * 10000) by (nonlinear_arith)
                                requires
                                    w <= 10000,
                            ;
                            lemma_scale_delta_bounds(d as int, w as int);
                        }
                        let step = (d * w) / 10000;
                        p.1 + step as i64
                    } else {
                        let d = (p.1 - q.1) as u64;
                        proof {
                            assert(d * w <= d * 10000) by (nonlinear_arith)
                                requires
                                    w <= 10000,
                            ;
                            lemma_scale_delta_bounds(-(d as int), w as int);
                        }
                        let step = (d * w) / 10000;
                        p.1 - step as i64
                    };
                    proof {
                        assert(advances(p, q, k as int));
                        assert((xk, yk) == sub_sample(p, q, k as int));
                        assert(interior_samples(p, q, k as int) == interior_samples(
                            p,
                            q,
                            k - 1,
                        ) + seq![sub_sample(p, q, k as int)]);
                    }
                    out.push((xk, yk));
                } else {
                    proof {
                        assert(!advances(p, q, k as int));
                        assert(interior_samples(p, q, k as int) =~= interior_samples(p, q, k - 1));
                    }
                }
                last_off = off;
                k = k + 1;
            }
            proof {
                assert(out@ == curve(xys@.take(i as int)) + seq![p] + interior_samples(p, q, 24));
                assert(out@ =~= curve(xys@.take(i as int)) + segment_samples(p, q));
            }
        } else {
            proof {
                assert(segment_samples(p, q) =~= seq![p]);
                assert(out@ =~= curve(xys@.take(i as int)) + segment_samples(p, q));
            }
        }
        proof {
            let s = xys@.take(i + 1);
            assert(s.drop_last() =~= xys@.take(i as int));
            assert(s[s.len() - 2] == p && s[s.len() - 1] == q);
            assert(curve(s) == curve(xys@.take(i as int)) + segment_samples(p, q));
        }
        i = i + 1;
    }
    proof {
        assert(xys@.take(n as int) =~= xys@);
    }
    out
}

/// The full chart pipeline behind the renderer: select the points
/// relevant to `today`, then interpolate the dense curve between them.
pub fn coordinates_from_prediction(tv: &Vec<TidePoint>, today: &Timestamp) -> (r: Vec<(i64, i64)>)
    requires
        today.wf(),
        forall|i: int| 0 <= i < tv@.len() ==> tv@[i].wf(),
    ensures
        r@ == curve(window_coords(tv@, *today)),
{
    let xys = select_window(tv, today);
    interpolate(&xys)
}

} // verus!
