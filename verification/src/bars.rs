//! Which one-minute bars make up each bar of a coarser timescale, and which
//! timescale drives a replay. The prices of a bucket are folded by the caller; this
//! module decides the grouping.

use vstd::prelude::*;
use crate::clock::{
    aligned_bucket_start, align_to_bucket, eastern_day, eastern_minute_of_day, is_regular_hours,
    regular_hours_spec, ts_in_range, weekday_of,
};
use crate::order::{key_position_sorted, same_members, stable_sort_positions, strictly_increasing};
use crate::model::Timescale;

verus! {

/// Bars `first..end` (end exclusive) of the input form one output bar stamped
/// `start_ms`.
#[derive(Debug, Clone, Copy, PartialEq, Eq)]
pub struct BucketRun {
    pub start_ms: i64,
    pub first: usize,
    pub end: usize,
}

/// Every timestamp can be read on the wall clock.
pub open spec fn all_in_range(ts: Seq<i64>) -> bool {
    forall|i: int| 0 <= i < ts.len() ==> ts_in_range(#[trigger] ts[i] as int)
}

/// `runs` cut `0..n` into consecutive non-empty ranges, in order.
pub open spec fn runs_partition(runs: Seq<BucketRun>, n: int) -> bool {
    &&& (runs.len() == 0 <==> n == 0)
    &&& runs.len() > 0 ==> runs[0].first == 0 && runs[runs.len() - 1].end == n
    &&& forall|k: int| 0 <= k < runs.len() ==> (#[trigger] runs[k]).first < runs[k].end
    &&& forall|k: int| 0 <= k < runs.len() - 1 ==> (#[trigger] runs[k]).end == runs[k + 1].first
}

/// Each run holds the bars of one clock-aligned bucket of `bucket` minutes and is
/// stamped with that bucket's start; neighbouring runs lie in different buckets.
/// (Bars that come back to an earlier bucket after leaving it open a new run.)
pub open spec fn runs_follow_buckets(runs: Seq<BucketRun>, ts: Seq<i64>, bucket: int) -> bool {
    &&& forall|k: int, i: int|
        0 <= k < runs.len() && runs[k].first <= i < runs[k].end ==> aligned_bucket_start(
            #[trigger] ts[i] as int,
            bucket,
        ) == (#[trigger] runs[k]).start_ms
    &&& forall|k: int|
        0 <= k < runs.len() - 1 ==> (#[trigger] runs[k]).start_ms != runs[k + 1].start_ms
}

/// Group consecutive bars that fall in the same clock-aligned bucket of
/// `bucket_minutes` minutes.
pub fn bucket_runs(ts: &Vec<i64>, bucket_minutes: u32) -> (runs: Vec<BucketRun>)
    requires
        all_in_range(ts@),
        bucket_minutes > 0,
    ensures
        runs_partition(runs@, ts@.len() as int),
        runs_follow_buckets(runs@, ts@, bucket_minutes as int),
{
    let mut runs: Vec<BucketRun> = Vec::new();
    let n = ts.len();
    if n == 0 {
        return runs;
    }
    let mut cur_start = align_to_bucket(ts[0], bucket_minutes);
    let mut cur_first: usize = 0;
    let mut i: usize = 1;
    while i < n
        invariant
            n == ts@.len(),
            0 <= cur_first < i <= n,
            all_in_range(ts@),
            bucket_minutes > 0,
            runs@.len() == 0 <==> cur_first == 0,
            runs@.len() > 0 ==> runs@[0].first == 0 && runs@[runs@.len() - 1].end == cur_first
                && runs@[runs@.len() - 1].start_ms != cur_start,
            forall|k: int| 0 <= k < runs@.len() ==> (#[trigger] runs@[k]).first < runs@[k].end,
            forall|k: int|
                0 <= k < runs@.len() - 1 ==> (#[trigger] runs@[k]).end == runs@[k + 1].first,
            runs_follow_buckets(runs@, ts@, bucket_minutes as int),
            forall|j: int|
                cur_first <= j < i ==> aligned_bucket_start(#[trigger] ts@[j] as int, bucket_minutes as int)
                    == cur_start,
        decreases n - i,
    {
        let this_bucket = align_to_bucket(ts[i], bucket_minutes);
        if this_bucket != cur_start {
            let ghost old_runs = runs@;
            runs.push(BucketRun { start_ms: cur_start, first: cur_first, end: i });
            proof {
                assert forall|k: int, j: int|
                    0 <= k < runs@.len() && runs@[k].first <= j < runs@[k].end implies aligned_bucket_start(
                    #[trigger] ts@[j] as int,
                    bucket_minutes as int,
                ) == (#[trigger] runs@[k]).start_ms by {
                    if k < old_runs.len() {
                        assert(runs@[k] == old_runs[k]);
                    }
                }
            }
            cur_start = this_bucket;
            cur_first = i;
        }
        i = i + 1;
    }
    let ghost old_runs = runs@;
    runs.push(BucketRun { start_ms: cur_start, first: cur_first, end: n });
    proof {
        assert forall|k: int, j: int|
            0 <= k < runs@.len() && runs@[k].first <= j < runs@[k].end implies aligned_bucket_start(
            #[trigger] ts@[j] as int,
            bucket_minutes as int,
        ) == (#[trigger] runs@[k]).start_ms by {
            if k < old_runs.len() {
                assert(runs@[k] == old_runs[k]);
            }
        }
    }
    runs
}

/// Minutes per bucket of an intraday timescale that is built by clock-aligned
/// bucketing; none for one-minute bars (kept as they are) and for daily and monthly
/// bars (all bars in one).
pub open spec fn bucket_minutes_of(t: Timescale) -> Option<u32> {
    match t {
        Timescale::FiveMinute => Some(5u32),
        Timescale::OneHour => Some(60u32),
        _ => None,
    }
}

/// The grouping of one-minute bars that makes the bars of `timescale`: one-minute
/// bars are kept one by one with their own stamps, five-minute and hourly bars are
/// clock-aligned buckets, daily and monthly bars fold everything into one bar
/// stamped with the first bar's time.
pub fn aggregation_runs(ts: &Vec<i64>, timescale: Timescale) -> (runs: Vec<BucketRun>)
    requires
        all_in_range(ts@),
    ensures
        runs_partition(runs@, ts@.len() as int),
        match timescale {
            Timescale::OneMinute => runs@.len() == ts@.len() && forall|i: int|
                0 <= i < runs@.len() ==> #[trigger] runs@[i] == (BucketRun {
                    start_ms: ts@[i],
                    first: i as usize,
                    end: (i + 1) as usize,
                }),
            Timescale::FiveMinute => runs_follow_buckets(runs@, ts@, 5),
            Timescale::OneHour => runs_follow_buckets(runs@, ts@, 60),
            _ => runs@.len() <= 1 && (runs@.len() == 1 ==> runs@[0].start_ms == ts@[0]),
        },
{
    match timescale {
        Timescale::OneMinute => {
            let mut runs: Vec<BucketRun> = Vec::new();
            let mut i: usize = 0;
            while i < ts.len()
                invariant
                    i <= ts@.len(),
                    runs@.len() == i,
                    forall|k: int|
                        0 <= k < i ==> #[trigger] runs@[k] == (BucketRun {
                            start_ms: ts@[k],
                            first: k as usize,
                            end: (k + 1) as usize,
                        }),
                decreases ts@.len() - i,
            {
                runs.push(BucketRun { start_ms: ts[i], first: i, end: i + 1 });
                i = i + 1;
            }
            runs
        },
        Timescale::FiveMinute => bucket_runs(ts, 5),
        Timescale::OneHour => bucket_runs(ts, 60),
        _ => {
            let mut runs: Vec<BucketRun> = Vec::new();
            if ts.len() > 0 {
                runs.push(BucketRun { start_ms: ts[0], first: 0, end: ts.len() });
            }
            runs
        },
    }
}

/// The finest of one-minute, five-minute and hourly bars among `required`; one-minute
/// bars when none of the three is required.
pub open spec fn primary_timescale_spec(required: Seq<Timescale>) -> Timescale {
    if required.contains(Timescale::OneMinute) {
        Timescale::OneMinute
    } else if required.contains(Timescale::FiveMinute) {
        Timescale::FiveMinute
    } else if required.contains(Timescale::OneHour) {
        Timescale::OneHour
    } else {
        Timescale::OneMinute
    }
}

fn requires_timescale(required: &Vec<Timescale>, t: Timescale) -> (b: bool)
    ensures
        b == required@.contains(t),
{
    let mut i: usize = 0;
    while i < required.len()
        invariant
            i <= required@.len(),
            forall|j: int| 0 <= j < i ==> required@[j] != t,
        decreases required@.len() - i,
    {
        if required[i] == t {
            proof {
                assert(required@[i as int] == t);
            }
            return true;
        }
        i = i + 1;
    }
    false
}

/// The timescale that drives a replay: the finest intraday timescale required.
pub fn primary_timescale(required: &Vec<Timescale>) -> (t: Timescale)
    ensures
        t == primary_timescale_spec(required@),
{
    if requires_timescale(required, Timescale::OneMinute) {
        Timescale::OneMinute
    } else if requires_timescale(required, Timescale::FiveMinute) {
        Timescale::FiveMinute
    } else if requires_timescale(required, Timescale::OneHour) {
        Timescale::OneHour
    } else {
        Timescale::OneMinute
    }
}

/// The bar stamped `t` falls inside regular trading hours.
pub open spec fn in_regular_hours(t: i64) -> bool {
    regular_hours_spec(weekday_of(eastern_day(t)), eastern_minute_of_day(t))
}

/// Positions of the bars inside regular trading hours, in the order they came.
pub fn regular_hours_positions(ts: &Vec<i64>) -> (r: Vec<usize>)
    requires
        all_in_range(ts@),
    ensures
        strictly_increasing(r@),
        forall|x: usize| r@.contains(x) <==> (x < ts@.len() && in_regular_hours(ts@[x as int])),
        forall|j: int| 0 <= j < r.len() ==> r@[j] < ts.len(),
{
    let mut r: Vec<usize> = Vec::new();
    let mut i: usize = 0;
    while i < ts.len()
        invariant
            i <= ts.len(),
            all_in_range(ts@),
            strictly_increasing(r@),
            forall|j: int| 0 <= j < r.len() ==> r@[j] < i,
            forall|x: usize| r@.contains(x) <==> (x < i && in_regular_hours(ts@[x as int])),
        decreases ts.len() - i,
    {
        let inside = is_regular_hours(ts[i]);
        let ghost old_r = r@;
        if inside {
            r.push(i);
        }
        proof {
            assert forall|x: usize| r@.contains(x) <==> (x < i + 1 && in_regular_hours(ts@[x as int])) by {
                if r@.contains(x) {
                    let k = choose|k: int| 0 <= k < r@.len() && r@[k] == x;
                    if k < old_r.len() {
                        assert(old_r[k] == x);
                        assert(old_r.contains(x));
                    }
                }
                if x < i + 1 && in_regular_hours(ts@[x as int]) {
                    if x < i {
                        assert(old_r.contains(x));
                        let k = choose|k: int| 0 <= k < old_r.len() && old_r[k] == x;
                        assert(r@[k] == x);
                    } else {
                        assert(r@[r@.len() - 1] == x);
                    }
                }
            }
        }
        i = i + 1;
    }
    r
}

/// Which fetched bars to keep and in what order: those inside regular trading
/// hours, by time, bars with equal stamps in the order they came.
pub fn regular_hours_order(ts: &Vec<i64>) -> (r: Vec<usize>)
    requires
        all_in_range(ts@),
    ensures
        forall|x: usize| r@.contains(x) <==> (x < ts@.len() && in_regular_hours(ts@[x as int])),
        key_position_sorted(ts@, r@),
        r@.no_duplicates(),
        forall|j: int| 0 <= j < r.len() ==> r@[j] < ts.len(),
{
    let sel = regular_hours_positions(ts);
    let r = stable_sort_positions(ts, &sel);
    proof {
        assert forall|a: int, b: int| 0 <= a < r@.len() && 0 <= b < r@.len() && a != b implies r@[a] != r@[b] by {
            if a < b {
                assert(key_position_sorted(ts@, r@));
            } else {
                assert(key_position_sorted(ts@, r@));
            }
        }
    }
    r
}

/// `t` lies in the window `start..=end`.
pub open spec fn in_window(t: i64, start: i64, end: i64) -> bool {
    start <= t && t <= end
}

/// Bar `x` lies in the window and no earlier bar in the window has its stamp.
pub open spec fn first_of_stamp(ts: Seq<i64>, start: i64, end: i64, x: int) -> bool {
    &&& 0 <= x < ts.len()
    &&& in_window(ts[x], start, end)
    &&& forall|y: int| 0 <= y < x && in_window(ts[y], start, end) ==> ts[y] != ts[x]
}

fn window_positions(ts: &Vec<i64>, start: i64, end: i64) -> (r: Vec<usize>)
    ensures
        strictly_increasing(r@),
        forall|x: usize| r@.contains(x) <==> (x < ts@.len() && in_window(ts@[x as int], start, end)),
        forall|j: int| 0 <= j < r.len() ==> r@[j] < ts.len(),
{
    let mut r: Vec<usize> = Vec::new();
    let mut i: usize = 0;
    while i < ts.len()
        invariant
            i <= ts.len(),
            strictly_increasing(r@),
            forall|j: int| 0 <= j < r.len() ==> r@[j] < i,
            forall|x: usize| r@.contains(x) <==> (x < i && in_window(ts@[x as int], start, end)),
        decreases ts.len() - i,
    {
        let ghost old_r = r@;
        if start <= ts[i] && ts[i] <= end {
            r.push(i);
        }
        proof {
            assert forall|x: usize| r@.contains(x) <==> (x < i + 1 && in_window(ts@[x as int], start, end)) by {
                if r@.contains(x) {
                    let k = choose|k: int| 0 <= k < r@.len() && r@[k] == x;
                    if k < old_r.len() {
                        assert(old_r[k] == x);
                        assert(old_r.contains(x));
                    }
                }
                if x < i + 1 && in_window(ts@[x as int], start, end) {
                    if x < i {
                        assert(old_r.contains(x));
                        let k = choose|k: int| 0 <= k < old_r.len() && old_r[k] == x;
                        assert(r@[k] == x);
                    } else {
                        assert(r@[r@.len() - 1] == x);
                    }
                }
            }
        }
        i = i + 1;
    }
    r
}

/// Position `a` of the sorted list starts a run of equal stamps.
pub open spec fn starts_stamp(ts: Seq<i64>, s: Seq<usize>, a: int) -> bool {
    a == 0 || ts[s[a - 1] as int] != ts[s[a] as int]
}

proof fn lemma_run_starts_are_firsts(ts: Seq<i64>, sel: Seq<usize>, s: Seq<usize>, start: i64, end: i64, x: usize)
    requires
        forall|y: usize| sel.contains(y) <==> (y < ts.len() && in_window(ts[y as int], start, end)),
        same_members(s, sel),
        key_position_sorted(ts, s),
        forall|j: int| 0 <= j < s.len() ==> s[j] < ts.len(),
    ensures
        (exists|a: int| 0 <= a < s.len() && s[a] == x && starts_stamp(ts, s, a)) <==> first_of_stamp(
            ts,
            start,
            end,
            x as int,
        ),
{
    if exists|a: int| 0 <= a < s.len() && s[a] == x && starts_stamp(ts, s, a) {
        let a = choose|a: int| 0 <= a < s.len() && s[a] == x && starts_stamp(ts, s, a);
        assert(s.contains(x));
        assert(sel.contains(x));
        assert forall|y: int| 0 <= y < x && in_window(ts[y], start, end) implies ts[y] != ts[x as int] by {
            if ts[y] == ts[x as int] {
                let yu = y as usize;
                assert(sel.contains(yu));
                assert(s.contains(yu));
                let b = choose|b: int| 0 <= b < s.len() && s[b] == yu;
                if b > a {
                    assert(key_position_sorted(ts, s));
                    assert(ts[s[a] as int] < ts[s[b] as int] || (ts[s[a] as int] == ts[s[b] as int] && s[a] < s[b]));
                } else {
                    assert(b < a);
                    assert(ts[s[b] as int] <= ts[s[a - 1] as int]) by {
                        if b < a - 1 {
                            assert(ts[s[b] as int] < ts[s[a - 1] as int] || ts[s[b] as int] == ts[s[a - 1] as int]);
                        }
                    }
                    assert(ts[s[a - 1] as int] <= ts[s[a] as int]);
                }
            }
        }
    }
    if first_of_stamp(ts, start, end, x as int) {
        assert(sel.contains(x));
        assert(s.contains(x));
        let a = choose|a: int| 0 <= a < s.len() && s[a] == x;
        if a > 0 {
            let y = s[a - 1];
            assert(ts[y as int] < ts[x as int] || (ts[y as int] == ts[x as int] && y < x));
            assert(s.contains(y));
            assert(sel.contains(y));
        }
        assert(starts_stamp(ts, s, a));
    }
}

/// Which cached bars a replay of `start..=end` reads and in what order: the bars
/// in the window, by time, one per time stamp (the first one read).
pub fn cached_bar_order(ts: &Vec<i64>, start: i64, end: i64) -> (r: Vec<usize>)
    ensures
        forall|x: usize| r@.contains(x) <==> first_of_stamp(ts@, start, end, x as int),
        forall|a: int, b: int| 0 <= a < b < r@.len() ==> ts@[r@[a] as int] < ts@[r@[b] as int],
        forall|j: int| 0 <= j < r@.len() ==> r@[j] < ts@.len(),
{
    let sel = window_positions(ts, start, end);
    let s = stable_sort_positions(ts, &sel);
    let mut r: Vec<usize> = Vec::new();
    let mut i: usize = 0;
    while i < s.len()
        invariant
            i <= s.len(),
            key_position_sorted(ts@, s@),
            forall|j: int| 0 <= j < s.len() ==> s@[j] < ts.len(),
            forall|x: usize| r@.contains(x) <==> exists|a: int| 0 <= a < i && s@[a] == x && starts_stamp(ts@, s@, a),
            forall|p: int, q: int| 0 <= p < q < r@.len() ==> ts@[r@[p] as int] < ts@[r@[q] as int],
            i == 0 ==> r@.len() == 0,
            i > 0 ==> r@.len() > 0 && ts@[r@[r@.len() - 1] as int] == ts@[s@[i - 1] as int],
            forall|j: int| 0 <= j < r@.len() ==> r@[j] < ts@.len(),
        decreases s.len() - i,
    {
        let x = s[i];
        let ghost old_r = r@;
        let fresh = i == 0 || ts[s[i - 1]] != ts[x];
        if fresh {
            r.push(x);
        }
        proof {
            assert(fresh == starts_stamp(ts@, s@, i as int));
            if i > 0 {
                assert(ts@[s@[i - 1] as int] <= ts@[x as int]) by {
                    assert(key_position_sorted(ts@, s@));
                    assert(ts@[s@[i - 1] as int] < ts@[s@[i as int] as int] || ts@[s@[i - 1] as int] == ts@[s@[i as int] as int]);
                }
            }
            assert forall|y: usize| r@.contains(y) <==> exists|a: int| 0 <= a < i + 1 && s@[a] == y && starts_stamp(ts@, s@, a) by {
                if r@.contains(y) {
                    let k = choose|k: int| 0 <= k < r@.len() && r@[k] == y;
                    if k < old_r.len() {
                        assert(old_r[k] == y);
                        assert(old_r.contains(y));
                    } else {
                        assert(y == x);
                        assert(s@[i as int] == y);
                    }
                }
                if exists|a: int| 0 <= a < i + 1 && s@[a] == y && starts_stamp(ts@, s@, a) {
                    let a = choose|a: int| 0 <= a < i + 1 && s@[a] == y && starts_stamp(ts@, s@, a);
                    if a < i {
                        assert(old_r.contains(y));
                        let k = choose|k: int| 0 <= k < old_r.len() && old_r[k] == y;
                        assert(r@[k] == y);
                    } else {
                        assert(r@[r@.len() - 1] == y);
                    }
                }
            }
        }
        i = i + 1;
    }
    proof {
        assert forall|x: usize| r@.contains(x) <==> first_of_stamp(ts@, start, end, x as int) by {
            lemma_run_starts_are_firsts(ts@, sel@, s@, start, end, x);
        }
    }
    r
}

fn add_missing(r: &mut Vec<Timescale>, from: &Vec<Timescale>)
    requires
        old(r)@.no_duplicates(),
    ensures
        final(r)@.no_duplicates(),
        forall|t: Timescale| #[trigger] final(r)@.contains(t) <==> (old(r)@.contains(t) || from@.contains(t)),
{
    let ghost r0 = r@;
    let mut i: usize = 0;
    while i < from.len()
        invariant
            i <= from@.len(),
            r@.no_duplicates(),
            forall|t: Timescale| #[trigger] r@.contains(t) <==> (r0.contains(t) || from@.take(i as int).contains(t)),
        decreases from@.len() - i,
    {
        let t = from[i];
        let ghost before = r@;
        let ghost t0 = from@.take(i as int);
        let ghost t1 = from@.take(i + 1);
        let present = requires_timescale(r, t);
        if !present {
            r.push(t);
        }
        proof {
            assert(t1 == t0.push(t));
            assert forall|u: Timescale| #[trigger] r@.contains(u) <==> (r0.contains(u) || t1.contains(u)) by {
                assert(before.contains(u) <==> (r0.contains(u) || t0.contains(u)));
                assert(t1.contains(u) <==> (t0.contains(u) || u == t)) by {
                    if t1.contains(u) {
                        let k = choose|k: int| 0 <= k < t1.len() && t1[k] == u;
                        if k < t0.len() {
                            assert(t0[k] == u);
                        }
                    }
                    if t0.contains(u) {
                        let k = choose|k: int| 0 <= k < t0.len() && t0[k] == u;
                        assert(t1[k] == u);
                    }
                    if u == t {
                        assert(t1[t0.len() as int] == u);
                    }
                }
                if present {
                    assert(r@ == before);
                } else {
                    assert(r@ == before.push(t));
                    if r@.contains(u) {
                        let k = choose|k: int| 0 <= k < r@.len() && r@[k] == u;
                        if k < before.len() {
                            assert(before[k] == u);
                        }
                    }
                    if before.contains(u) {
                        let k = choose|k: int| 0 <= k < before.len() && before[k] == u;
                        assert(r@[k] == u);
                    }
                    if u == t {
                        assert(r@[before.len() as int] == u);
                    }
                }
            }
            if !present {
                assert(r@.no_duplicates()) by {
                    assert forall|a: int, b: int| 0 <= a < r@.len() && 0 <= b < r@.len() && a != b implies r@[a] != r@[b] by {
                        if a < before.len() && b < before.len() {
                            assert(before[a] == r@[a] && before[b] == r@[b]);
                        } else if a < before.len() {
                            assert(before[a] == r@[a]);
                            assert(before.contains(r@[a]));
                        } else if b < before.len() {
                            assert(before[b] == r@[b]);
                            assert(before.contains(r@[b]));
                        }
                    }
                }
            }
        }
        i = i + 1;
    }
    proof {
        assert(from@.take(from@.len() as int) == from@);
    }
}

/// The timescales a replay builds bars for: every timescale an indicator runs on
/// or a scoring weight names, each once.
pub fn collect_timescales(indicator_ts: &Vec<Timescale>, weight_ts: &Vec<Timescale>) -> (r: Vec<Timescale>)
    ensures
        r@.no_duplicates(),
        forall|t: Timescale| r@.contains(t) <==> (indicator_ts@.contains(t) || weight_ts@.contains(t)),
{
    let mut r: Vec<Timescale> = Vec::new();
    add_missing(&mut r, indicator_ts);
    add_missing(&mut r, weight_ts);
    r
}

/// What is kept of a replay's trades for the target day: the positions of the
/// trades entered within `open..=close`, in order; the positions of their entry
/// scores, where a trade has one (the first `n_scores` trades do); and, for each
/// kept trade, the position of its entry reason where it has one (the first
/// `n_reasons` do), an empty reason standing in otherwise.
pub open spec fn session_trades(entry_ms: Seq<i64>, n_scores: nat, n_reasons: nat, open: i64, close: i64) -> (
    Seq<usize>,
    Seq<usize>,
    Seq<Option<usize>>,
)
    decreases entry_ms.len(),
{
    if entry_ms.len() == 0 {
        (Seq::empty(), Seq::empty(), Seq::empty())
    } else {
        let i = (entry_ms.len() - 1) as int;
        let (t, sc, re) = session_trades(entry_ms.drop_last(), n_scores, n_reasons, open, close);
        if open <= entry_ms[i] && entry_ms[i] <= close {
            (
                t.push(i as usize),
                if i < n_scores {
                    sc.push(i as usize)
                } else {
                    sc
                },
                re.push(
                    if i < n_reasons {
                        Some(i as usize)
                    } else {
                        None
                    },
                ),
            )
        } else {
            (t, sc, re)
        }
    }
}

/// The trades of a replay kept for the target day, with their scores and
/// reasons kept alongside (see `session_trades`).
pub fn session_trade_positions(entry_ms: &Vec<i64>, n_scores: usize, n_reasons: usize, open: i64, close: i64) -> (r: (
    Vec<usize>,
    Vec<usize>,
    Vec<Option<usize>>,
))
    ensures
        (r.0@, r.1@, r.2@) == session_trades(entry_ms@, n_scores as nat, n_reasons as nat, open, close),
{
    let mut t: Vec<usize> = Vec::new();
    let mut sc: Vec<usize> = Vec::new();
    let mut re: Vec<Option<usize>> = Vec::new();
    let mut i: usize = 0;
    while i < entry_ms.len()
        invariant
            i <= entry_ms.len(),
            (t@, sc@, re@) == session_trades(entry_ms@.take(i as int), n_scores as nat, n_reasons as nat, open, close),
        decreases entry_ms.len() - i,
    {
        proof {
            assert(entry_ms@.take(i + 1).drop_last() =~= entry_ms@.take(i as int));
            assert(entry_ms@.take(i + 1)[i as int] == entry_ms@[i as int]);
        }
        let e = entry_ms[i];
        if open <= e && e <= close {
            t.push(i);
            if i < n_scores {
                sc.push(i);
            }
            re.push(if i < n_reasons { Some(i) } else { None });
        }
        i = i + 1;
    }
    proof {
        assert(entry_ms@.take(entry_ms.len() as int) =~= entry_ms@);
    }
    (t, sc, re)
}

/// The trades kept for the target day are exactly those entered within
/// `open..=close`, in their replay order; the k-th kept trade carries its own
/// entry reason (where the replay gave one), and when the replay scored every
/// trade, its own scores.
pub proof fn lemma_session_trades_kept(entry_ms: Seq<i64>, n_scores: nat, n_reasons: nat, open: i64, close: i64)
    requires
        entry_ms.len() <= usize::MAX,
    ensures
        ({
            let (t, sc, re) = session_trades(entry_ms, n_scores, n_reasons, open, close);
            &&& forall|k: int| 0 <= k < t.len() ==> (#[trigger] t[k]) < entry_ms.len() && open <= entry_ms[t[k] as int] <= close
            &&& forall|a: int, b: int| 0 <= a < b < t.len() ==> #[trigger] t[a] < #[trigger] t[b]
            &&& forall|i: int| 0 <= i < entry_ms.len() && open <= #[trigger] entry_ms[i] <= close ==> t.contains(i as usize)
            &&& re.len() == t.len()
            &&& forall|k: int| 0 <= k < t.len() ==> #[trigger] re[k] == (if t[k] < n_reasons { Some(t[k]) } else { None::<usize> })
            &&& n_scores >= entry_ms.len() ==> sc == t
        }),
    decreases entry_ms.len(),
{
    if entry_ms.len() > 0 {
        let dl = entry_ms.drop_last();
        lemma_session_trades_kept(dl, n_scores, n_reasons, open, close);
        let (t0, sc0, re0) = session_trades(dl, n_scores, n_reasons, open, close);
        let (t, sc, re) = session_trades(entry_ms, n_scores, n_reasons, open, close);
        let last = (entry_ms.len() - 1) as int;
        let inside = open <= entry_ms[last] && entry_ms[last] <= close;
        assert forall|k: int| 0 <= k < t0.len() implies (#[trigger] t0[k]) < last && open <= entry_ms[t0[k] as int] <= close by {
            assert(dl[t0[k] as int] == entry_ms[t0[k] as int]);
        }
        if inside {
            assert(t == t0.push(last as usize));
            assert(re == re0.push(if last < n_reasons { Some(last as usize) } else { None }));
            if n_scores >= entry_ms.len() {
                assert(sc == sc0.push(last as usize));
            }
            assert(t.len() == t0.len() + 1);
            assert(t[t.len() - 1] == last as usize);
            assert(t[t.len() - 1] as int == last);
            assert(re[t.len() - 1] == (if last < n_reasons { Some(last as usize) } else { None::<usize> }));
        } else {
            assert(t == t0);
            assert(re == re0);
            assert(sc == sc0);
        }
        assert(re0.len() == t0.len());
        assert(forall|k: int| 0 <= k < t0.len() ==> t[k] == t0[k] && re[k] == re0[k]);
        assert forall|k: int| 0 <= k < t.len() implies (#[trigger] t[k]) < entry_ms.len() && open <= entry_ms[t[k] as int] <= close by {
            if k < t0.len() {
                assert(t[k] == t0[k]);
            } else {
                assert(inside && t[k] as int == last);
            }
        }
        assert forall|i: int| 0 <= i < entry_ms.len() && open <= #[trigger] entry_ms[i] <= close implies t.contains(i as usize) by {
            if i < last {
                assert(dl[i] == entry_ms[i]);
                assert(t0.contains(i as usize));
                let k = choose|k: int| 0 <= k < t0.len() && t0[k] == i as usize;
                assert(t[k] == i as usize);
            } else {
                assert(t[t.len() - 1] == i as usize);
            }
        }
        assert forall|k: int| 0 <= k < t.len() implies #[trigger] re[k] == (if t[k] < n_reasons { Some(t[k]) } else { None::<usize> }) by {
            if k < t0.len() {
                assert(t[k] == t0[k]);
                assert(re[k] == re0[k]);
            } else {
                assert(inside && t[k] as int == last);
            }
        }
    }
}

} // verus!
