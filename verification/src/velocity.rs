//! Weekly velocity: the week boundaries of the last weeks, and counting
//! opened and closed items into them.
use vstd::prelude::*;
use crate::clock::{is_instant, now_seconds, ClockError};
use crate::models::WeeklyActivity;

verus! {

/// Seconds in a week.
pub const SECONDS_PER_WEEK: i64 = 604_800;

/// The first Monday after the Unix epoch (1970-01-05 00:00 UTC), in
/// seconds.
pub const FIRST_MONDAY: i64 = 345_600;

/// Whole weeks added before dividing, so that every admitted instant is
/// shifted to a non-negative number without changing its weekday.
const WEEK_SHIFT: i64 = 17_592_240_960_000;

/// Monday 00:00 UTC of the week that contains `t`.
pub open spec fn monday_of(t: int) -> int {
    t - (t - FIRST_MONDAY) % (SECONDS_PER_WEEK as int)
}

/// Start of week `i` of the last `n` weeks before `now`, oldest first: the
/// last one is the current week.
pub open spec fn week_start(now: int, n: int, i: int) -> int {
    monday_of(now) - (n - 1 - i) * SECONDS_PER_WEEK
}

/// `t` is a Monday at 00:00 UTC.
pub open spec fn is_monday_midnight(t: int) -> bool {
    (t - FIRST_MONDAY) % (SECONDS_PER_WEEK as int) == 0
}

/// The Monday that starts the current week lies at most a week back.
pub proof fn lemma_monday_of(t: int)
    ensures
        monday_of(t) <= t < monday_of(t) + SECONDS_PER_WEEK,
        is_monday_midnight(monday_of(t)),
{
    let w = SECONDS_PER_WEEK as int;
    vstd::arithmetic::div_mod::lemma_mod_bound(t - FIRST_MONDAY, w);
    vstd::arithmetic::div_mod::lemma_fundamental_div_mod(t - FIRST_MONDAY, w);
    let q = (t - FIRST_MONDAY) / w;
    assert(monday_of(t) - FIRST_MONDAY == w * q);
    vstd::arithmetic::div_mod::lemma_mod_multiples_vanish(q, 0, w);
}

fn current_monday(now: i64) -> (m: i64)
    requires
        is_instant(now),
    ensures
        m == monday_of(now as int),
{
    let shifted: i64 = now - FIRST_MONDAY + WEEK_SHIFT;
    let rem: i64 = shifted % SECONDS_PER_WEEK;
    proof {
        let w = SECONDS_PER_WEEK as int;
        assert(WEEK_SHIFT == w * 29_087_700);
        vstd::arithmetic::div_mod::lemma_mod_multiples_vanish(29_087_700, now - FIRST_MONDAY, w);
        assert(shifted as int == w * 29_087_700 + (now - FIRST_MONDAY));
    }
    now - rem
}

/// The starts (Monday 00:00 UTC) of the last `n` weeks before `now`,
/// oldest first; the last is the start of the current week.
pub fn compute_week_starts_at(n: usize, now: i64) -> (r: Vec<i64>)
    requires
        is_instant(now),
        n <= 1_000_000,
    ensures
        r@.len() == n,
        forall|i: int| 0 <= i < n ==> #[trigger] r@[i] == week_start(now as int, n as int, i),
        forall|i: int| 0 <= i < n ==> is_monday_midnight(#[trigger] r@[i] as int),
        forall|i: int| 0 <= i < n - 1 ==> #[trigger] r@[i + 1] - r@[i] == SECONDS_PER_WEEK,
        n > 0 ==> r@[n - 1] <= now < r@[n - 1] + SECONDS_PER_WEEK,
{
    let monday = current_monday(now);
    proof {
        lemma_monday_of(now as int);
    }
    let mut r: Vec<i64> = Vec::new();
    let mut i: usize = 0;
    while i < n
        invariant
            i <= n,
            n <= 1_000_000,
            is_instant(now),
            monday == monday_of(now as int),
            is_monday_midnight(monday as int),
            r@.len() == i,
            forall|k: int| 0 <= k < i ==> #[trigger] r@[k] == week_start(now as int, n as int, k),
        decreases n - i,
    {
        let back: i64 = ((n - 1 - i) as i64) * SECONDS_PER_WEEK;
        r.push(monday - back);
        i = i + 1;
    }
    proof {
        assert forall|k: int| 0 <= k < n implies is_monday_midnight(#[trigger] r@[k] as int) by {
            let w = SECONDS_PER_WEEK as int;
            let d = n - 1 - k;
            assert(r@[k] - FIRST_MONDAY == (monday - FIRST_MONDAY) + w * (-d)) by (nonlinear_arith)
                requires
                    r@[k] == monday - d * w,
            ;
            vstd::arithmetic::div_mod::lemma_mod_multiples_vanish(-d, monday - FIRST_MONDAY, w);
        }
    }
    r
}

/// The starts of the last `n` weeks, measured now; an error when the
/// system clock cannot be read.
pub fn compute_week_starts(n: usize) -> (r: Result<Vec<i64>, ClockError>)
    requires
        n <= 1_000_000,
    ensures
        r matches Ok(w) ==> exists|now: i64|
            is_instant(now) && w@.len() == n && forall|i: int|
                0 <= i < n ==> #[trigger] w@[i] == week_start(now as int, n as int, i),
{
    let now = now_seconds()?;
    Ok(compute_week_starts_at(n, now))
}

/// The last of the first `k` week starts that `t` is at or after.
pub open spec fn last_start_at_or_before(ws: Seq<i64>, t: i64, k: int) -> Option<int>
    decreases k,
{
    if k <= 0 {
        None
    } else if t >= ws[k - 1] {
        Some(k - 1)
    } else {
        last_start_at_or_before(ws, t, k - 1)
    }
}

/// The week that `t` falls in: the last week whose start is at or before
/// `t` (the last week runs on without end).
pub open spec fn week_index_of(ws: Seq<i64>, t: i64) -> Option<int> {
    last_start_at_or_before(ws, t, ws.len() as int)
}

/// Finds the week that `dt` falls in; `None` before the first week.
pub fn find_week_index(week_starts: &Vec<i64>, dt: i64) -> (r: Option<usize>)
    ensures
        match r {
            None => week_index_of(week_starts@, dt) is None,
            Some(i) => week_index_of(week_starts@, dt) == Some(i as int),
        },
{
    let mut k: usize = week_starts.len();
    while k > 0
        invariant
            k <= week_starts@.len(),
            week_index_of(week_starts@, dt) == last_start_at_or_before(week_starts@, dt, k as int),
        decreases k,
    {
        if dt >= week_starts[k - 1] {
            return Some(k - 1);
        }
        k = k - 1;
    }
    None
}

/// An instant at or after the first week start always falls in a week,
/// and the week it falls in starts at or before it.
pub proof fn lemma_week_index_found(ws: Seq<i64>, t: i64, k: int)
    requires
        0 < k <= ws.len(),
        t >= ws[0],
    ensures
        last_start_at_or_before(ws, t, k) matches Some(i) && 0 <= i < k && ws[i] <= t,
    decreases k,
{
    if k > 1 && t < ws[k - 1] {
        lemma_week_index_found(ws, t, k - 1);
    }
}

/// One zeroed activity entry per week start.
pub open spec fn zeroed_weeks(ws: Seq<i64>) -> Seq<WeeklyActivity> {
    ws.map_values(|w: i64| WeeklyActivity { week_start: w, opened: 0, closed: 0 })
}

/// One zeroed activity entry per week start.
pub fn init_weekly(week_starts: &Vec<i64>) -> (r: Vec<WeeklyActivity>)
    ensures
        r@ == zeroed_weeks(week_starts@),
{
    let mut r: Vec<WeeklyActivity> = Vec::new();
    let mut i: usize = 0;
    while i < week_starts.len()
        invariant
            i <= week_starts@.len(),
            r@ == zeroed_weeks(week_starts@.take(i as int)),
        decreases week_starts@.len() - i,
    {
        r.push(WeeklyActivity { week_start: week_starts[i], opened: 0, closed: 0 });
        i = i + 1;
        assert(r@ =~= zeroed_weeks(week_starts@.take(i as int)));
    }
    assert(week_starts@.take(i as int) =~= week_starts@);
    r
}

} // verus!

verus! {

/// The instants of `ts` at or after `cutoff` that fall in week `i`.
pub open spec fn week_tally(ws: Seq<i64>, ts: Seq<i64>, cutoff: i64, i: int) -> nat {
    ts.filter(|t: i64| t >= cutoff && week_index_of(ws, t) == Some(i)).len()
}

/// The instants of `ts` at or after `cutoff` that fall in some week.
pub open spec fn tallied(ws: Seq<i64>, ts: Seq<i64>, cutoff: i64) -> nat {
    ts.filter(|t: i64| t >= cutoff && week_index_of(ws, t) is Some).len()
}

/// A count per week, as a summand.
pub open spec fn count_fn() -> spec_fn(u64) -> nat {
    |c: u64| c as nat
}

/// Counts, for each week, the instants of `times` at or after `cutoff`
/// that fall in it.
pub fn count_by_week(week_starts: &Vec<i64>, times: &Vec<i64>, cutoff: i64) -> (r: Vec<u64>)
    ensures
        r@.len() == week_starts@.len(),
        forall|i: int| 0 <= i < r@.len() ==> #[trigger] r@[i] == week_tally(
            week_starts@,
            times@,
            cutoff,
            i,
        ),
        crate::sums::seq_sum(r@, count_fn()) == tallied(week_starts@, times@, cutoff),
{
    let ws = week_starts;
    let ghost ts = times@;
    let mut r: Vec<u64> = Vec::new();
    let mut k: usize = 0;
    while k < ws.len()
        invariant
            k <= ws@.len(),
            r@.len() == k,
            forall|j: int| 0 <= j < k ==> r@[j] == 0,
        decreases ws@.len() - k,
    {
        r.push(0);
        k = k + 1;
    }
    proof {
        crate::sums::lemma_seq_sum_zeros(r@, count_fn());
        reveal(Seq::filter);
        assert(ts.take(0) =~= Seq::<i64>::empty());
    }
    let mut i: usize = 0;
    while i < times.len()
        invariant
            ts == times@,
            i <= ts.len(),
            r@.len() == ws@.len(),
            forall|j: int| 0 <= j < r@.len() ==> #[trigger] r@[j] == week_tally(
                ws@,
                ts.take(i as int),
                cutoff,
                j,
            ),
            forall|j: int| 0 <= j < r@.len() ==> #[trigger] r@[j] <= i,
            crate::sums::seq_sum(r@, count_fn()) == tallied(ws@, ts.take(i as int), cutoff),
        decreases ts.len() - i,
    {
        let t = times[i];
        let ghost before = r@;
        assert(ts.take(i + 1).drop_last() =~= ts.take(i as int));
        assert(ts.take(i + 1).last() == t);
        proof {
            reveal(Seq::filter);
        }
        if t >= cutoff {
            match find_week_index(ws, t) {
                Some(idx) => {
                    proof {
                        if idx >= ws@.len() {
                            lemma_found_in_range(ws@, t, ws@.len() as int);
                        }
                        lemma_found_in_range(ws@, t, ws@.len() as int);
                    }
                    let c = r[idx];
                    r.set(idx, c + 1);
                    proof {
                        crate::sums::lemma_seq_sum_update(before, count_fn(), idx as int, (c + 1) as u64);
                        assert forall|j: int| 0 <= j < r@.len() implies #[trigger] r@[j] == week_tally(
                            ws@,
                            ts.take(i + 1),
                            cutoff,
                            j,
                        ) by {
                            assert(before[j] == week_tally(ws@, ts.take(i as int), cutoff, j));
                        }
                    }
                },
                None => {
                    proof {
                        assert forall|j: int| 0 <= j < r@.len() implies #[trigger] r@[j] == week_tally(
                            ws@,
                            ts.take(i + 1),
                            cutoff,
                            j,
                        ) by {
                            assert(before[j] == week_tally(ws@, ts.take(i as int), cutoff, j));
                        }
                    }
                },
            }
        } else {
            proof {
                assert forall|j: int| 0 <= j < r@.len() implies #[trigger] r@[j] == week_tally(
                    ws@,
                    ts.take(i + 1),
                    cutoff,
                    j,
                ) by {
                    assert(before[j] == week_tally(ws@, ts.take(i as int), cutoff, j));
                }
            }
        }
        i = i + 1;
    }
    assert(ts.take(i as int) =~= ts);
    r
}

/// A found week is one of the listed weeks.
pub proof fn lemma_found_in_range(ws: Seq<i64>, t: i64, k: int)
    requires
        0 <= k <= ws.len(),
    ensures
        last_start_at_or_before(ws, t, k) matches Some(i) ==> 0 <= i < k,
    decreases k,
{
    if k > 0 && t < ws[k - 1] {
        lemma_found_in_range(ws, t, k - 1);
    }
}

/// Weekly activity for pull requests: per week, the creation times of open
/// and closed pull requests (`opened`) and the merge times (`merged`) at or
/// after `cutoff` that fall in it.
pub fn pr_velocity(week_starts: &Vec<i64>, opened: &Vec<i64>, merged: &Vec<i64>, cutoff: i64) -> (r: Vec<WeeklyActivity>)
    ensures
        r@.len() == week_starts@.len(),
        forall|i: int| 0 <= i < r@.len() ==> (#[trigger] r@[i]).week_start == week_starts@[i]
            && r@[i].opened == week_tally(week_starts@, opened@, cutoff, i) && r@[i].closed
            == week_tally(week_starts@, merged@, cutoff, i),
{
    let o = count_by_week(week_starts, opened, cutoff);
    let c = count_by_week(week_starts, merged, cutoff);
    let mut r: Vec<WeeklyActivity> = Vec::new();
    let mut i: usize = 0;
    while i < week_starts.len()
        invariant
            i <= week_starts@.len(),
            o@.len() == week_starts@.len(),
            c@.len() == week_starts@.len(),
            r@.len() == i,
            forall|k: int| 0 <= k < i ==> (#[trigger] r@[k]).week_start == week_starts@[k] && r@[k].opened
                == o@[k] && r@[k].closed == c@[k],
        decreases week_starts@.len() - i,
    {
        r.push(WeeklyActivity { week_start: week_starts[i], opened: o[i], closed: c[i] });
        i = i + 1;
    }
    r
}

/// When counting starts at the first week, every instant at or after it is
/// counted in some week.
pub proof fn lemma_all_recent_counted(ws: Seq<i64>, ts: Seq<i64>)
    requires
        ws.len() > 0,
    ensures
        tallied(ws, ts, ws[0]) == ts.filter(|t: i64| t >= ws[0]).len(),
{
    let p1 = |t: i64| t >= ws[0] && week_index_of(ws, t) is Some;
    let p2 = |t: i64| t >= ws[0];
    assert forall|t: i64| #[trigger] p1(t) == p2(t) by {
        if p2(t) {
            lemma_week_index_found(ws, t, ws.len() as int);
        }
    }
    assert(ts.filter(p1) =~= ts.filter(p2)) by {
        lemma_filter_same(ts, p1, p2);
    }
}

proof fn lemma_filter_same(s: Seq<i64>, p: spec_fn(i64) -> bool, q: spec_fn(i64) -> bool)
    requires
        forall|t: i64| #[trigger] p(t) == q(t),
    ensures
        s.filter(p) == s.filter(q),
    decreases s.len(),
{
    reveal(Seq::filter);
    if s.len() > 0 {
        lemma_filter_same(s.drop_last(), p, q);
    }
}

} // verus!

verus! {

/// The first and last instant whose dates bound week `i` in a search: the
/// week's start, and the day before the next week starts (or `now` for
/// the current week).
pub open spec fn week_date_range(ws: Seq<i64>, i: int, now: i64) -> (i64, i64) {
    if i + 1 < ws.len() {
        (ws[i], (ws[i + 1] - crate::clock::SECONDS_PER_DAY) as i64)
    } else {
        (ws[i], now)
    }
}

/// The instants whose dates bound week `i` in a search.
pub fn week_search_range(week_starts: &Vec<i64>, i: usize, now: i64) -> (r: (i64, i64))
    requires
        i < week_starts@.len(),
        forall|k: int| 0 <= k < week_starts@.len() ==> is_instant(#[trigger] week_starts@[k]),
    ensures
        r == week_date_range(week_starts@, i as int, now),
{
    if i < week_starts.len() - 1 {
        (week_starts[i], week_starts[i + 1] - crate::clock::SECONDS_PER_DAY)
    } else {
        (week_starts[i], now)
    }
}

/// The search query for issues of `owner/repo` whose `field` date
/// (`created` or `closed`) lies from the date of `start` to that of `end`.
pub fn issue_search_query(owner: &str, repo: &str, field: &str, start: i64, end: i64) -> (q: String)
    requires
        crate::clock::is_datable(start),
        crate::clock::is_datable(end),
    ensures
        q@ == "repo:"@ + owner@ + "/"@ + repo@ + " type:issue "@ + field@ + ":"@
            + crate::clock::ymd_text(start) + ".."@ + crate::clock::ymd_text(end),
{
    let from = crate::clock::format_ymd(start);
    let to = crate::clock::format_ymd(end);
    String::from_str("repo:").concat(owner).concat("/").concat(repo).concat(" type:issue ").concat(
        field,
    ).concat(":").concat(from.as_str()).concat("..").concat(to.as_str())
}

} // verus!
