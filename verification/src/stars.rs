//! Star history: binning stargazer timestamps into sparklines, and
//! predicting the next star milestone.
use vstd::prelude::*;
use crate::clock::{in_range, is_instant, now_seconds, ClockError, whole_days_between, SECONDS_PER_DAY, days_between};
use crate::health::{star_fn, star_sum};
use crate::models::{Fraction, StarHistory};
use crate::sums::{lemma_seq_sum_step, lemma_seq_sum_update, lemma_seq_sum_zeros, seq_sum};

verus! {

/// `t` lies in the window from `start` to `now`, both included.
pub open spec fn in_window(t: i64, start: i64, now: i64) -> bool {
    start <= t && t <= now
}

/// The bucket that an instant `t` of the window falls in: the window is
/// cut into `n` equal spans, and the last bucket also takes `now`.
pub open spec fn bucket_of(t: int, start: int, total: int, n: int) -> int {
    let idx = (t - start) * n / total;
    if idx > n - 1 {
        n - 1
    } else {
        idx
    }
}

/// The timestamps of `ts` that land in bucket `b`.
pub open spec fn bucket_tally(ts: Seq<i64>, start: i64, now: i64, n: int, b: int) -> nat {
    ts.filter(|t: i64| in_window(t, start, now) && bucket_of(t as int, start as int, now - start, n) == b).len()
}

/// Number of timestamps of `ts` inside the window.
pub open spec fn window_count(ts: Seq<i64>, start: i64, now: i64) -> nat {
    ts.filter(|t: i64| in_window(t, start, now)).len()
}

/// The sparkline of `ts` over the window from `start` to `now`, in `n`
/// buckets: empty without buckets, all zeros for an empty window.
pub open spec fn sparkline(ts: Seq<i64>, start: i64, now: i64, n: nat) -> Seq<u32> {
    if n == 0 {
        Seq::empty()
    } else if now - start <= 0 {
        Seq::new(n, |b: int| 0u32)
    } else {
        Seq::new(n, |b: int| bucket_tally(ts, start, now, n as int, b) as u32)
    }
}

proof fn lemma_bucket_in_range(t: int, start: int, total: int, n: int)
    requires
        start <= t <= start + total,
        total > 0,
        n > 0,
    ensures
        0 <= bucket_of(t, start, total, n) < n,
{
    assert((t - start) * n >= 0) by (nonlinear_arith)
        requires
            t - start >= 0,
            n > 0,
    ;
    vstd::arithmetic::div_mod::lemma_div_pos_is_pos((t - start) * n, total);
}

/// Bins the timestamps in `[period_start, now]` into `bucket_count`
/// equal-width buckets and counts each bucket.
pub fn generate_sparkline_at(timestamps: &Vec<i64>, period_start: i64, bucket_count: usize, now: i64) -> (r: Vec<u32>)
    requires
        is_instant(period_start),
        is_instant(now),
        timestamps@.len() <= u32::MAX,
    ensures
        r@ == sparkline(timestamps@, period_start, now, bucket_count as nat),
        r@.len() == bucket_count,
        bucket_count > 0 && now > period_start ==> star_sum(r@) == window_count(
            timestamps@,
            period_start,
            now,
        ),
{
    let n = bucket_count;
    if n == 0 {
        assert(sparkline(timestamps@, period_start, now, 0) =~= Seq::<u32>::empty());
        return Vec::new();
    }
    let total: i64 = now - period_start;
    let mut buckets: Vec<u32> = Vec::new();
    let mut k: usize = 0;
    while k < n
        invariant
            k <= n,
            buckets@.len() == k,
            forall|j: int| 0 <= j < k ==> buckets@[j] == 0,
        decreases n - k,
    {
        buckets.push(0);
        k = k + 1;
    }
    if total <= 0 {
        assert(buckets@ =~= sparkline(timestamps@, period_start, now, n as nat));
        return buckets;
    }
    let ghost ts = timestamps@;
    let ghost win = |t: i64| in_window(t, period_start, now);
    proof {
        lemma_seq_sum_zeros(buckets@, star_fn());
        reveal(Seq::filter);
        assert(ts.take(0).filter(win) =~= Seq::<i64>::empty());
        assert forall|b: int| 0 <= b < n implies #[trigger] buckets@[b] == bucket_tally(
            ts.take(0),
            period_start,
            now,
            n as int,
            b,
        ) by {
            let p = |t: i64| in_window(t, period_start, now) && bucket_of(t as int, period_start as int, now - period_start, n as int) == b;
            assert(ts.take(0).filter(p) =~= Seq::<i64>::empty());
        }
    }
    let mut i: usize = 0;
    while i < timestamps.len()
        invariant
            ts == timestamps@,
            ts.len() <= u32::MAX,
            i <= ts.len(),
            n == bucket_count,
            n > 0,
            total == now - period_start,
            total > 0,
            is_instant(period_start),
            is_instant(now),
            buckets@.len() == n,
            win == (|t: i64| in_window(t, period_start, now)),
            forall|b: int| 0 <= b < n ==> #[trigger] buckets@[b] == bucket_tally(
                ts.take(i as int),
                period_start,
                now,
                n as int,
                b,
            ),
            forall|b: int| 0 <= b < n ==> #[trigger] buckets@[b] <= i,
            star_sum(buckets@) == ts.take(i as int).filter(win).len(),
        decreases ts.len() - i,
    {
        let t = timestamps[i];
        let ghost before = buckets@;
        assert(ts.take(i + 1).drop_last() =~= ts.take(i as int));
        assert(ts.take(i + 1).last() == t);
        proof {
            reveal(Seq::filter);
        }
        if period_start <= t && t <= now {
            let elapsed: i128 = (t as i128) - (period_start as i128);
            assert(0 <= elapsed * (n as i128) <= 0x2000_0000_0000 * 0x1_0000_0000_0000_0000) by (nonlinear_arith)
                requires
                    0 <= elapsed <= 0x2000_0000_0000,
                    0 <= n <= 0x1_0000_0000_0000_0000,
            ;
            let q: i128 = elapsed * (n as i128) / (total as i128);
            let idx: usize = if q > (n as i128) - 1 {
                n - 1
            } else {
                q as usize
            };
            proof {
                lemma_bucket_in_range(t as int, period_start as int, total as int, n as int);
                assert(idx as int == bucket_of(t as int, period_start as int, total as int, n as int));
            }
            let v = buckets[idx];
            buckets.set(idx, v + 1);
            proof {
                lemma_seq_sum_update(before, star_fn(), idx as int, (v + 1) as u32);
                assert forall|b: int| 0 <= b < n implies #[trigger] buckets@[b] == bucket_tally(
                    ts.take(i + 1),
                    period_start,
                    now,
                    n as int,
                    b,
                ) by {
                    assert(before[b] == bucket_tally(ts.take(i as int), period_start, now, n as int, b));
                }
            }
        } else {
            proof {
                assert forall|b: int| 0 <= b < n implies #[trigger] buckets@[b] == bucket_tally(
                    ts.take(i + 1),
                    period_start,
                    now,
                    n as int,
                    b,
                ) by {
                    assert(before[b] == bucket_tally(ts.take(i as int), period_start, now, n as int, b));
                }
            }
        }
        i = i + 1;
    }
    assert(ts.take(i as int) =~= ts);
    assert(buckets@ =~= sparkline(timestamps@, period_start, now, n as nat));
    buckets
}

/// Bins the timestamps from `period_start` up to now into
/// `bucket_count` equal-width buckets; an error when the system clock
/// cannot be read.
pub fn generate_sparkline(timestamps: &Vec<i64>, period_start: i64, bucket_count: usize) -> (r: Result<Vec<u32>, ClockError>)
    requires
        is_instant(period_start),
        timestamps@.len() <= u32::MAX,
    ensures
        r matches Ok(v) ==> (exists|now: i64| is_instant(now) && v@ == sparkline(timestamps@, period_start, now, bucket_count as nat))
            && v@.len() == bucket_count,
{
    let now = now_seconds()?;
    Ok(generate_sparkline_at(timestamps, period_start, bucket_count, now))
}

} // verus!

verus! {

/// A predicted star milestone.
#[derive(Clone, Copy, Debug, PartialEq, Eq, Structural)]
pub struct MilestonePrediction {
    /// The next milestone above the current star count.
    pub next_milestone: u64,
    /// Days until it is reached at the current rate, rounded up.
    pub estimated_days: u64,
    /// Weighted mean of stars per day.
    pub daily_rate: Fraction,
}

/// The star counts celebrated as milestones, in ascending order.
pub const MILESTONES: [u64; 8] = [100, 500, 1000, 5000, 10000, 25000, 50000, 100000];

/// The milestones as a sequence.
pub open spec fn milestone_seq() -> Seq<u64> {
    seq![100, 500, 1000, 5000, 10000, 25000, 50000, 100000]
}

/// The first milestone of `ms` above `current`, if any.
pub open spec fn first_above(ms: Seq<u64>, current: u64) -> Option<u64>
    decreases ms.len(),
{
    if ms.len() == 0 {
        None
    } else if ms[0] > current {
        Some(ms[0])
    } else {
        first_above(ms.skip(1), current)
    }
}

/// Stars per day over `period_days`, from a sparkline: zero for an empty
/// sparkline or period.
pub open spec fn daily_rate_of(sparkline: Seq<u32>, period_days: u64) -> (int, int) {
    if sparkline.len() == 0 || period_days == 0 {
        (0, 1)
    } else {
        (star_sum(sparkline) as int, period_days as int)
    }
}

pub(crate) fn sum_stars(s: &Vec<u32>) -> (t: u64)
    requires
        star_sum(s@) <= u64::MAX,
    ensures
        t == star_sum(s@),
{
    let mut t: u64 = 0;
    let mut i: usize = 0;
    while i < s.len()
        invariant
            i <= s@.len(),
            t == star_sum(s@.subrange(0, i as int)),
            star_sum(s@) <= u64::MAX,
        decreases s@.len() - i,
    {
        proof {
            lemma_seq_sum_step(s@, star_fn(), i as int);
            crate::sums::lemma_seq_sum_prefix_le(s@, star_fn(), i + 1);
        }
        t = t + s[i] as u64;
        i = i + 1;
    }
    assert(s@.subrange(0, i as int) =~= s@);
    t
}

/// Stars per day over `period_days`: the sparkline's total divided by the
/// period, or zero for an empty sparkline or period.
pub fn calculate_daily_rate(sparkline: &Vec<u32>, period_days: u64) -> (r: Fraction)
    requires
        star_sum(sparkline@) <= i64::MAX,
    ensures
        (r.numer as int, r.denom as int) == daily_rate_of(sparkline@, period_days),
        r.wf(),
{
    if sparkline.len() == 0 || period_days == 0 {
        return Fraction { numer: 0, denom: 1 };
    }
    let total = sum_stars(sparkline);
    Fraction { numer: total as i64, denom: period_days }
}

/// Numerator of the weighted daily rate over a denominator of 300: 70% of
/// the 30-day rate plus 30% of the 90-day rate.
pub open spec fn weighted_rate_numer(h: StarHistory) -> int {
    (7 * star_sum(h.sparkline_30d@) + star_sum(h.sparkline_90d@)) as int
}

/// The prediction for a star history, if growth is positive and a
/// milestone lies ahead.
pub open spec fn prediction_for(h: StarHistory) -> Option<MilestonePrediction> {
    let w = weighted_rate_numer(h);
    if w <= 0 {
        None
    } else {
        match first_above(milestone_seq(), h.total_count) {
            None => None,
            Some(m) => {
                let needed = m - h.total_count;
                Some(
                    MilestonePrediction {
                        next_milestone: m,
                        estimated_days: ((needed * 300 + w - 1) / w) as u64,
                        daily_rate: Fraction { numer: w as i64, denom: 300 },
                    },
                )
            },
        }
    }
}

/// Predicts the next star milestone from the 30- and 90-day sparklines.
///
/// The daily rate weighs the 30-day rate at 70% and the 90-day rate at
/// 30%; the estimate is the stars still needed divided by that rate,
/// rounded up. `None` when the rate is zero or the count is past every
/// milestone.
pub fn predict_milestone(star_history: &StarHistory) -> (r: Option<MilestonePrediction>)
    requires
        weighted_rate_numer(*star_history) <= i64::MAX,
    ensures
        r == prediction_for(*star_history),
{
    let s30 = sum_stars(&star_history.sparkline_30d);
    let s90 = sum_stars(&star_history.sparkline_90d);
    let w: u64 = 7 * s30 + s90;
    if w == 0 {
        return None;
    }
    let current = star_history.total_count;
    let mut i: usize = 0;
    let ghost ms = milestone_seq();
    proof {
        assert(MILESTONES@ == ms);
        assert(ms.skip(0) =~= ms);
    }
    while i < 8
        invariant
            i <= 8,
            MILESTONES@ == ms,
            ms == milestone_seq(),
            current == star_history.total_count,
            first_above(ms, current) == first_above(ms.skip(i as int), current),
            w == weighted_rate_numer(*star_history),
            w > 0,
            w <= i64::MAX,
        decreases 8 - i,
    {
        let m = MILESTONES[i];
        assert(ms.skip(i as int)[0] == m);
        assert(ms.skip(i as int).skip(1) =~= ms.skip(i + 1));
        if m > current {
            let needed: u64 = m - current;
            let days: u64 = (needed * 300 + w - 1) / w;
            assert(first_above(ms.skip(i as int), current) == Some(m));
            assert(days as int == ((m - current) * 300 + w - 1) / (w as int));
            proof {
                let wi = weighted_rate_numer(*star_history);
                assert(wi == w as int);
                assert(wi as i64 == w as i64);
                assert((((m - current) * 300 + wi - 1) / wi) as u64 == days);
                assert(first_above(milestone_seq(), star_history.total_count) == Some(m));
                assert(prediction_for(*star_history) == Some(
                    MilestonePrediction {
                        next_milestone: m,
                        estimated_days: days,
                        daily_rate: Fraction { numer: w as i64, denom: 300 },
                    },
                ));
            }
            return Some(
                MilestonePrediction {
                    next_milestone: m,
                    estimated_days: days,
                    daily_rate: Fraction { numer: w as i64, denom: 300 },
                },
            );
        }
        i = i + 1;
    }
    assert(ms.skip(8) =~= Seq::<u64>::empty());
    None
}

proof fn lemma_first_above(ms: Seq<u64>, c: u64)
    requires
        forall|i: int, j: int| 0 <= i < j < ms.len() ==> ms[i] < ms[j],
    ensures
        match first_above(ms, c) {
            Some(m) => m > c && ms.contains(m) && forall|k: int|
                0 <= k < ms.len() && #[trigger] ms[k] > c ==> ms[k] >= m,
            None => forall|k: int| 0 <= k < ms.len() ==> #[trigger] ms[k] <= c,
        },
    decreases ms.len(),
{
    if ms.len() > 0 {
        let rest = ms.skip(1);
        assert forall|i: int, j: int| 0 <= i < j < rest.len() implies rest[i] < rest[j] by {
            assert(rest[i] == ms[i + 1] && rest[j] == ms[j + 1]);
        }
        lemma_first_above(rest, c);
        if ms[0] > c {
            assert(ms[0] == ms[0]);
            assert forall|k: int| 0 <= k < ms.len() && #[trigger] ms[k] > c implies ms[k] >= ms[0] by {
                if k > 0 {
                    assert(ms[0] < ms[k]);
                }
            }
        } else {
            match first_above(rest, c) {
                Some(m) => {
                    let k0 = choose|k: int| 0 <= k < rest.len() && rest[k] == m;
                    assert(ms[k0 + 1] == m);
                    assert forall|k: int| 0 <= k < ms.len() && #[trigger] ms[k] > c implies ms[k] >= m by {
                        if k > 0 {
                            assert(rest[k - 1] == ms[k]);
                        }
                    }
                },
                None => {
                    assert forall|k: int| 0 <= k < ms.len() implies #[trigger] ms[k] <= c by {
                        if k > 0 {
                            assert(rest[k - 1] == ms[k]);
                        }
                    }
                },
            }
        }
    }
}

/// A prediction names the smallest milestone above the current star count,
/// and the fewest whole days in which stars arriving at the weighted daily
/// rate (`w / 300` a day) make up the difference.
pub proof fn lemma_prediction_is_next_milestone(h: StarHistory)
    requires
        prediction_for(h) is Some,
    ensures
        ({
            let p = prediction_for(h)->Some_0;
            let w = weighted_rate_numer(h);
            let needed = p.next_milestone - h.total_count;
            &&& p.next_milestone > h.total_count
            &&& milestone_seq().contains(p.next_milestone)
            &&& forall|k: int|
                0 <= k < milestone_seq().len() && #[trigger] milestone_seq()[k] > h.total_count
                    ==> milestone_seq()[k] >= p.next_milestone
            &&& p.estimated_days >= 1
            &&& p.estimated_days * w >= needed * 300
            &&& (p.estimated_days - 1) * w < needed * 300
        }),
{
    let ms = milestone_seq();
    assert forall|i: int, j: int| 0 <= i < j < ms.len() implies ms[i] < ms[j] by {}
    lemma_first_above(ms, h.total_count);
    let w = weighted_rate_numer(h);
    let m = first_above(ms, h.total_count)->Some_0;
    let needed: int = m - h.total_count;
    assert(0 < needed <= 100000) by {
        assert(ms.contains(m));
    }
    let n = needed * 300;
    let d = (n + w - 1) / w;
    assert(w > 0);
    assert(d * w <= n + w - 1 && n + w - 1 < d * w + w) by (nonlinear_arith)
        requires
            d == (n + w - 1) / w,
            w > 0,
            n > 0,
    ;
    assert(d >= 1 && d <= n) by (nonlinear_arith)
        requires
            d == (n + w - 1) / w,
            w > 0,
            n > 0,
    ;
    assert(d * w >= n) by (nonlinear_arith)
        requires
            n + w - 1 < d * w + w,
    ;
    assert((d - 1) * w < n) by (nonlinear_arith)
        requires
            d * w <= n + w - 1,
    ;
    assert(d as u64 == d);
}

} // verus!

verus! {

/// Seconds in a year of 365 days.
pub const SECONDS_PER_YEAR: i64 = 31_536_000;

/// The creation time to use: the repository's, or a year before `now`
/// when it is unknown.
pub fn created_or_year_ago(created: Option<i64>, now: i64) -> (t: i64)
    requires
        in_range(now - SECONDS_PER_YEAR),
    ensures
        t == (match created {
            Some(c) => c,
            None => (now - SECONDS_PER_YEAR) as i64,
        }),
{
    match created {
        Some(c) => c,
        None => now - SECONDS_PER_YEAR,
    }
}

/// Start and bucket count of the one-year sparkline. A repository younger
/// than a year that has stars is shown from its creation, one bucket per
/// week of its age (1 to 52); otherwise the last 365 days in 12 buckets.
pub open spec fn year_plan(age_days: int, has_stars: bool, now: i64, created: i64) -> (i64, nat) {
    if age_days < 365 && has_stars {
        let active = if age_days < 1 {
            1
        } else {
            age_days
        };
        let w = active / 7;
        let weeks: nat = if w < 1 {
            1
        } else if w > 52 {
            52
        } else {
            w as nat
        };
        (created, weeks)
    } else {
        ((now - SECONDS_PER_YEAR) as i64, 12)
    }
}

/// The star history of a repository with `total_count` stars whose recent
/// stargazers starred at `timestamps`, seen at `now`: sparklines over the
/// last 30 days (daily), 90 days (13 buckets) and the year plan.
pub fn star_history_at(total_count: u64, timestamps: &Vec<i64>, now: i64, repo_created_at: i64) -> (h: StarHistory)
    requires
        is_instant(now),
        in_range(now - SECONDS_PER_YEAR),
        is_instant(repo_created_at),
        timestamps@.len() <= u32::MAX,
    ensures
        h.total_count == total_count,
        h.sparkline_30d@ == sparkline(timestamps@, (now - 30 * SECONDS_PER_DAY) as i64, now, 30),
        h.sparkline_90d@ == sparkline(timestamps@, (now - 90 * SECONDS_PER_DAY) as i64, now, 13),
        ({
            let plan = year_plan(
                whole_days_between(now as int, repo_created_at as int),
                timestamps@.len() > 0,
                now,
                repo_created_at,
            );
            h.sparkline_365d@ == sparkline(timestamps@, plan.0, now, plan.1)
        }),
{
    let s30 = generate_sparkline_at(timestamps, now - 30 * SECONDS_PER_DAY, 30, now);
    let s90 = generate_sparkline_at(timestamps, now - 90 * SECONDS_PER_DAY, 13, now);
    let age_days = days_between(now, repo_created_at);
    let (start, buckets): (i64, usize) = if age_days < 365 && timestamps.len() > 0 {
        let active = if age_days < 1 {
            1
        } else {
            age_days
        };
        let w = active / 7;
        let weeks: usize = if w < 1 {
            1
        } else if w > 52 {
            52
        } else {
            w as usize
        };
        (repo_created_at, weeks)
    } else {
        (now - SECONDS_PER_YEAR, 12)
    };
    let s365 = generate_sparkline_at(timestamps, start, buckets, now);
    StarHistory { total_count, sparkline_30d: s30, sparkline_90d: s90, sparkline_365d: s365 }
}

} // verus!
