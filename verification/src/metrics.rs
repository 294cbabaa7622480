//! The metrics computed from what the GitHub API returns: releases, pull
//! requests, contributors, CI runs, security alerts and community health.
//! Each fetched item arrives as a plain record; the functions here decide
//! what the dashboard shows of them.
use vstd::prelude::*;
use crate::order::{in_order, insert_pos, insertion_sorted, lemma_insertion_sorted, weak_order};
use crate::clock::{days_between, is_instant, whole_days_between, SECONDS_PER_DAY};
use crate::models::{
    CIStatus, CommunityHealth, Contributor, Fraction, MergedPr, PrStats, Release, SecurityAlerts,
    WorkflowRun,
};

verus! {

/// A release as the API lists it.
pub struct ReleaseRecord {
    pub tag_name: String,
    pub name: Option<String>,
    pub created_at: Option<i64>,
    pub published_at: Option<i64>,
    pub prerelease: bool,
    pub draft: bool,
}

/// The whole-day intervals between consecutive published releases of `ps`
/// from index `k` on (a pair counts only when both are published).
pub open spec fn intervals_from(ps: Seq<Option<i64>>, k: int) -> Seq<int>
    decreases ps.len() - k,
{
    if k < 0 || k + 1 >= ps.len() {
        Seq::empty()
    } else {
        let rest = intervals_from(ps, k + 1);
        match (ps[k], ps[k + 1]) {
            (Some(a), Some(b)) => seq![whole_days_between(a as int, b as int)] + rest,
            _ => rest,
        }
    }
}

/// Sum of a sequence of integers.
pub open spec fn int_sum(s: Seq<int>) -> int
    decreases s.len(),
{
    if s.len() == 0 {
        0
    } else {
        s[0] + int_sum(s.skip(1))
    }
}

/// The mean interval, in days, between consecutive releases (newest
/// first), when there are at least two releases with an interval.
pub open spec fn average_interval_of(ps: Seq<Option<i64>>) -> Option<(int, int)> {
    let iv = intervals_from(ps, 0);
    if ps.len() > 1 && iv.len() > 0 {
        Some((int_sum(iv), iv.len() as int))
    } else {
        None
    }
}

/// The publication times are instants, and few enough to sum.
pub open spec fn publications_ok(ps: Seq<Option<i64>>) -> bool {
    &&& ps.len() <= 1_000_000
    &&& forall|k: int| 0 <= k < ps.len() ==> (#[trigger] ps[k] matches Some(t) ==> is_instant(t))
}

proof fn lemma_day_bound(a: i64, b: i64)
    requires
        is_instant(a),
        is_instant(b),
    ensures
        -500_000_000 <= whole_days_between(a as int, b as int) <= 500_000_000,
{
    let d = a - b;
    if d >= 0 {
        vstd::arithmetic::div_mod::lemma_div_is_ordered(d, 2 * crate::clock::INSTANT_BOUND, 86400);
    } else {
        vstd::arithmetic::div_mod::lemma_div_is_ordered(-d, 2 * crate::clock::INSTANT_BOUND, 86400);
    }
}

/// The mean whole-day interval between consecutive published releases,
/// newest first; `None` with fewer than two releases or no interval.
pub fn average_interval(published: &Vec<Option<i64>>) -> (r: Option<Fraction>)
    requires
        publications_ok(published@),
    ensures
        match r {
            None => average_interval_of(published@) is None,
            Some(f) => average_interval_of(published@) == Some((f.numer as int, f.denom as int))
                && f.wf(),
        },
{
    let n = published.len();
    if n <= 1 {
        return None;
    }
    let mut sum: i64 = 0;
    let mut count: u64 = 0;
    let mut k: usize = n - 1;
    proof {
        assert(intervals_from(published@, (n - 1) as int) =~= Seq::<int>::empty());
    }
    while k > 0
        invariant
            n == published@.len(),
            n > 1,
            k < n,
            publications_ok(published@),
            sum == int_sum(intervals_from(published@, k as int)),
            count == intervals_from(published@, k as int).len(),
            count <= n - 1 - k,
            -500_000_000 * count <= sum <= 500_000_000 * count,
        decreases k,
    {
        let i = k - 1;
        let ghost rest = intervals_from(published@, k as int);
        match (published[i], published[k]) {
            (Some(a), Some(b)) => {
                proof {
                    assert(published@[i as int] matches Some(t) ==> is_instant(t));
                    assert(published@[k as int] matches Some(t) ==> is_instant(t));
                    lemma_day_bound(a, b);
                    let s = seq![whole_days_between(a as int, b as int)] + rest;
                    assert(s.skip(1) =~= rest);
                }
                let d = days_between(a, b);
                sum = sum + d;
                count = count + 1;
            },
            _ => {},
        }
        k = i;
    }
    if count == 0 {
        None
    } else {
        Some(Fraction { numer: sum, denom: count })
    }
}

/// The release shown for a fetched one at `now`: days since publication,
/// creation defaulting to `now`, and the given mean interval.
pub open spec fn release_of(r: ReleaseRecord, now: i64, avg: Option<Fraction>) -> Release {
    Release {
        tag_name: r.tag_name,
        name: r.name,
        created_at: match r.created_at {
            Some(c) => c,
            None => now,
        },
        published_at: r.published_at,
        prerelease: r.prerelease,
        draft: r.draft,
        days_since: match r.published_at {
            Some(p) => Some(whole_days_between(now as int, p as int) as i64),
            None => None,
        },
        avg_interval: avg,
    }
}

/// Publication times of a list of fetched releases.
pub open spec fn publication_times(rs: Seq<ReleaseRecord>) -> Seq<Option<i64>> {
    rs.map_values(|r: ReleaseRecord| r.published_at)
}

/// The releases shown for the fetched ones (newest first) at `now`: each
/// with its days since publication; the newest also carries the mean
/// interval between consecutive releases.
pub fn releases_at(records: Vec<ReleaseRecord>, now: i64) -> (r: Vec<Release>)
    requires
        is_instant(now),
        publications_ok(publication_times(records@)),
    ensures
        r@.len() == records@.len(),
        forall|i: int| 0 <= i < r@.len() ==> #[trigger] r@[i] == release_of(
            records@[i],
            now,
            if i == 0 {
                match average_interval_of(publication_times(records@)) {
                    Some((s, c)) => Some(Fraction { numer: s as i64, denom: c as u64 }),
                    None => None,
                }
            } else {
                None
            },
        ),
{
    let ghost orig = records@;
    let mut published: Vec<Option<i64>> = Vec::new();
    let mut i: usize = 0;
    while i < records.len()
        invariant
            records@ == orig,
            i <= orig.len(),
            published@ == publication_times(orig).take(i as int),
        decreases orig.len() - i,
    {
        published.push(records[i].published_at);
        i = i + 1;
        assert(published@ =~= publication_times(orig).take(i as int));
    }
    assert(published@ =~= publication_times(orig));
    let avg = average_interval(&published);
    let ghost avg_spec = match average_interval_of(publication_times(orig)) {
        Some((s, c)) => Some(Fraction { numer: s as i64, denom: c as u64 }),
        None => None,
    };
    assert(avg == avg_spec);
    let mut rest = records;
    let mut out: Vec<Release> = Vec::new();
    let n = rest.len();
    let mut j: usize = 0;
    while j < n
        invariant
            n == orig.len(),
            j <= n,
            rest@ == orig.skip(j as int),
            out@.len() == j,
            avg == avg_spec,
            is_instant(now),
            publications_ok(publication_times(orig)),
            forall|k: int| 0 <= k < j ==> #[trigger] out@[k] == release_of(
                orig[k],
                now,
                if k == 0 {
                    avg_spec
                } else {
                    None
                },
            ),
        decreases n - j,
    {
        let rec = rest.remove(0);
        assert(rec == orig[j as int]);
        assert(rest@ =~= orig.skip(j + 1));
        proof {
            assert(publication_times(orig)[j as int] == rec.published_at);
            assert(publication_times(orig)[j as int] matches Some(t) ==> is_instant(t));
        }
        let days_since = match rec.published_at {
            Some(p) => Some(days_between(now, p)),
            None => None,
        };
        let created_at = match rec.created_at {
            Some(c) => c,
            None => now,
        };
        out.push(
            Release {
                tag_name: rec.tag_name,
                name: rec.name,
                created_at,
                published_at: rec.published_at,
                prerelease: rec.prerelease,
                draft: rec.draft,
                days_since,
                avg_interval: if j == 0 {
                    avg
                } else {
                    None
                },
            },
        );
        assert(out@[j as int] == release_of(orig[j as int], now, if j == 0 { avg_spec } else { None }));
        j = j + 1;
    }
    out
}

} // verus!

verus! {

/// A closed pull request as the API lists it.
pub struct ClosedPrRecord {
    pub number: u64,
    pub title: Option<String>,
    /// The author's login, when the API names a user.
    pub author: Option<String>,
    pub created_at: Option<i64>,
    pub merged_at: Option<i64>,
}

/// Seconds in 30 days.
pub const THIRTY_DAYS: i64 = 2_592_000;

/// Merged after `cutoff` (closed without merging does not count).
pub open spec fn merged_after(p: ClosedPrRecord, cutoff: i64) -> bool {
    p.merged_at matches Some(m) && m > cutoff
}

/// The closed pull requests merged after `cutoff`, in order.
pub open spec fn merged_since(ps: Seq<ClosedPrRecord>, cutoff: i64) -> Seq<ClosedPrRecord> {
    ps.filter(|p: ClosedPrRecord| merged_after(p, cutoff))
}

/// Creation time of a pull request, defaulting to `now`.
pub open spec fn created_or(p: ClosedPrRecord, now: i64) -> i64 {
    match p.created_at {
        Some(c) => c,
        None => now,
    }
}

/// Seconds from creation to merge.
pub open spec fn merge_seconds(p: ClosedPrRecord, now: i64) -> int {
    p.merged_at->Some_0 - created_or(p, now)
}

/// `m` shows the merged pull request `p` at `now`: title defaulting to
/// `PR #<number>`, author to `unknown`, creation to `now`, and the hours
/// to merge as seconds over 3600.
pub open spec fn shows_merged_pr(m: MergedPr, p: ClosedPrRecord, now: i64) -> bool {
    &&& m.number == p.number
    &&& m.title@ == (match p.title {
        Some(t) => t@,
        None => "PR #"@ + crate::text::decimal_digits(p.number as nat),
    })
    &&& m.author@ == (match p.author {
        Some(a) => a@,
        None => "unknown"@,
    })
    &&& m.created_at == created_or(p, now)
    &&& Some(m.merged_at) == p.merged_at
    &&& m.time_to_merge_hours.numer == merge_seconds(p, now)
    &&& m.time_to_merge_hours.denom == 3600
}

/// Sum of the seconds to merge of `ps`.
pub open spec fn total_merge_seconds(ps: Seq<ClosedPrRecord>, now: i64) -> int
    decreases ps.len(),
{
    if ps.len() == 0 {
        0
    } else {
        total_merge_seconds(ps.drop_last(), now) + merge_seconds(ps.last(), now)
    }
}

/// Number of open pull requests marked as drafts.
pub open spec fn draft_total(drafts: Seq<Option<bool>>) -> nat {
    drafts.filter(|d: Option<bool>| d == Some(true)).len()
}

/// The times of the closed pull requests are instants, and few enough to
/// sum.
pub open spec fn closed_prs_ok(ps: Seq<ClosedPrRecord>) -> bool {
    &&& ps.len() <= 100_000
    &&& forall|k: int| 0 <= k < ps.len() ==> (#[trigger] ps[k].created_at matches Some(t) ==> is_instant(t))
    &&& forall|k: int| 0 <= k < ps.len() ==> (#[trigger] ps[k].merged_at matches Some(t) ==> is_instant(t))
}

fn merged_pr(p: ClosedPrRecord, now: i64) -> (m: MergedPr)
    requires
        p.merged_at is Some,
        p.merged_at matches Some(t) ==> is_instant(t),
        p.created_at matches Some(t) ==> is_instant(t),
        is_instant(now),
    ensures
        shows_merged_pr(m, p, now),
{
    let ghost q = p;
    let merged_at = match p.merged_at {
        Some(t) => t,
        None => now,
    };
    let created_at = match p.created_at {
        Some(c) => c,
        None => now,
    };
    let title = match p.title {
        Some(t) => t,
        None => String::from_str("PR #").concat(crate::text::u64_to_string(p.number).as_str()),
    };
    let author = match p.author {
        Some(a) => a,
        None => String::from_str("unknown"),
    };
    MergedPr {
        number: p.number,
        title,
        author,
        created_at,
        merged_at,
        time_to_merge_hours: Fraction { numer: merged_at - created_at, denom: 3600 },
    }
}

/// Pull request statistics at `now`: open, draft and ready counts from the
/// open pull requests' draft flags; the pull requests merged in the last
/// 30 days, and their mean hours to merge.
pub fn pr_stats_at(open_drafts: &Vec<Option<bool>>, closed: Vec<ClosedPrRecord>, now: i64) -> (s: PrStats)
    requires
        is_instant(now),
        closed_prs_ok(closed@),
    ensures
        s.open_count == open_drafts@.len(),
        s.draft_count == draft_total(open_drafts@),
        s.ready_count == open_drafts@.len() - draft_total(open_drafts@),
        s.merged_last_30d@.len() == merged_since(closed@, (now - THIRTY_DAYS) as i64).len(),
        forall|i: int| 0 <= i < s.merged_last_30d@.len() ==> shows_merged_pr(
            #[trigger] s.merged_last_30d@[i],
            merged_since(closed@, (now - THIRTY_DAYS) as i64)[i],
            now,
        ),
        s.avg_time_to_merge_hours == (if s.merged_last_30d@.len() == 0 {
            None
        } else {
            Some(
                Fraction {
                    numer: total_merge_seconds(merged_since(closed@, (now - THIRTY_DAYS) as i64), now) as i64,
                    denom: (3600 * s.merged_last_30d@.len()) as u64,
                },
            )
        }),
{
    let mut drafts: u64 = 0;
    let mut i: usize = 0;
    let ghost dp = |d: Option<bool>| d == Some(true);
    while i < open_drafts.len()
        invariant
            i <= open_drafts@.len(),
            drafts == open_drafts@.take(i as int).filter(dp).len(),
            drafts <= i,
            dp == (|d: Option<bool>| d == Some(true)),
        decreases open_drafts@.len() - i,
    {
        assert(open_drafts@.take(i + 1).drop_last() =~= open_drafts@.take(i as int));
        proof {
            reveal(Seq::filter);
        }
        match open_drafts[i] {
            Some(true) => {
                drafts = drafts + 1;
            },
            _ => {},
        }
        i = i + 1;
    }
    assert(open_drafts@.take(i as int) =~= open_drafts@);
    let open_count = open_drafts.len() as u64;
    let cutoff: i64 = now - THIRTY_DAYS;
    let ghost orig = closed@;
    let ghost mp = |p: ClosedPrRecord| merged_after(p, cutoff);
    let mut rest = closed;
    let mut merged: Vec<MergedPr> = Vec::new();
    let mut total_secs: i64 = 0;
    let n = rest.len();
    let mut j: usize = 0;
    proof {
        reveal(Seq::filter);
        assert(orig.take(0) =~= Seq::<ClosedPrRecord>::empty());
    }
    while j < n
        invariant
            n == orig.len(),
            j <= n,
            rest@ == orig.skip(j as int),
            is_instant(now),
            closed_prs_ok(orig),
            cutoff == now - THIRTY_DAYS,
            mp == (|p: ClosedPrRecord| merged_after(p, cutoff)),
            merged@.len() == orig.take(j as int).filter(mp).len(),
            merged@.len() <= j,
            forall|k: int| 0 <= k < merged@.len() ==> shows_merged_pr(
                #[trigger] merged@[k],
                orig.take(j as int).filter(mp)[k],
                now,
            ),
            total_secs == total_merge_seconds(orig.take(j as int).filter(mp), now),
            -0x4000_0000_0000 * merged@.len() <= total_secs <= 0x4000_0000_0000 * merged@.len(),
        decreases n - j,
    {
        let p = rest.remove(0);
        assert(p == orig[j as int]);
        assert(rest@ =~= orig.skip(j + 1));
        assert(orig.take(j + 1).drop_last() =~= orig.take(j as int));
        assert(orig.take(j + 1).last() == p);
        proof {
            reveal(Seq::filter);
            assert(orig[j as int].created_at matches Some(t) ==> is_instant(t));
            assert(orig[j as int].merged_at matches Some(t) ==> is_instant(t));
        }
        let keep = match p.merged_at {
            Some(m) => m > cutoff,
            None => false,
        };
        if keep {
            let ghost before = orig.take(j as int).filter(mp);
            let m = merged_pr(p, now);
            let secs = m.time_to_merge_hours.numer;
            proof {
                assert(before.push(orig[j as int]).drop_last() =~= before);
            }
            merged.push(m);
            total_secs = total_secs + secs;
            proof {
                assert forall|k: int| 0 <= k < merged@.len() implies shows_merged_pr(
                    #[trigger] merged@[k],
                    orig.take(j + 1).filter(mp)[k],
                    now,
                ) by {
                    if k < merged@.len() - 1 {
                        assert(orig.take(j + 1).filter(mp)[k] == before[k]);
                    }
                }
            }
        }
        j = j + 1;
    }
    assert(orig.take(n as int) =~= orig);
    let count = merged.len() as u64;
    let avg = if count == 0 {
        None
    } else {
        Some(Fraction { numer: total_secs, denom: 3600 * count })
    };
    PrStats {
        open_count,
        draft_count: drafts,
        ready_count: open_count - drafts,
        merged_last_30d: merged,
        avg_time_to_merge_hours: avg,
    }
}

} // verus!

verus! {

/// What to do with an HTTP answer of the GitHub API.
#[derive(Clone, Copy, Debug, PartialEq, Eq, Structural)]
pub enum ResponseAction {
    /// The data is not available to this client: report none.
    Skip,
    /// An error to pass on.
    Fail,
    /// Read the body.
    Parse,
}

/// A success status (2xx).
pub open spec fn is_success(status: u16) -> bool {
    200 <= status <= 299
}

/// Workflow runs: without Actions (404) or permission (403) there is no CI
/// data; other failures are errors.
pub fn ci_response_action(status: u16) -> (a: ResponseAction)
    ensures
        a == (if status == 404 || status == 403 {
            ResponseAction::Skip
        } else if !is_success(status) {
            ResponseAction::Fail
        } else {
            ResponseAction::Parse
        }),
{
    if status == 404 || status == 403 {
        ResponseAction::Skip
    } else if !(200 <= status && status <= 299) {
        ResponseAction::Fail
    } else {
        ResponseAction::Parse
    }
}

/// Dependabot alerts: an authorisation failure (401, 403) or a missing
/// resource (404) means no alert data; other failures are errors.
pub fn security_response_action(status: u16) -> (a: ResponseAction)
    ensures
        a == (if status == 401 || status == 403 || status == 404 {
            ResponseAction::Skip
        } else if !is_success(status) {
            ResponseAction::Fail
        } else {
            ResponseAction::Parse
        }),
{
    if status == 401 || status == 403 || status == 404 {
        ResponseAction::Skip
    } else if !(200 <= status && status <= 299) {
        ResponseAction::Fail
    } else {
        ResponseAction::Parse
    }
}

/// Community profile: no content (204), not found (404) and authorisation
/// failures (401, 403) mean no profile; other failures are errors.
pub fn community_response_action(status: u16) -> (a: ResponseAction)
    ensures
        a == (if status == 204 || status == 404 || status == 401 || status == 403 {
            ResponseAction::Skip
        } else if !is_success(status) {
            ResponseAction::Fail
        } else {
            ResponseAction::Parse
        }),
{
    if status == 204 || status == 404 || status == 401 || status == 403 {
        ResponseAction::Skip
    } else if !(200 <= status && status <= 299) {
        ResponseAction::Fail
    } else {
        ResponseAction::Parse
    }
}

/// Number of alerts of `sev` with severity `level`.
pub open spec fn severity_count(sev: Seq<Seq<char>>, level: Seq<char>) -> nat {
    sev.filter(|s: Seq<char>| s == level).len()
}

/// Severities of the alerts, as character sequences.
pub open spec fn severity_views(sev: Seq<String>) -> Seq<Seq<char>> {
    sev.map_values(|s: String| s@)
}

/// Counts open alerts by severity; unknown severities count only in the
/// total.
pub fn count_alerts(severities: &Vec<String>) -> (a: SecurityAlerts)
    ensures
        a.total_open == severities@.len(),
        a.critical_count == severity_count(severity_views(severities@), "critical"@),
        a.high_count == severity_count(severity_views(severities@), "high"@),
        a.medium_count == severity_count(severity_views(severities@), "medium"@),
        a.low_count == severity_count(severity_views(severities@), "low"@),
{
    let ghost sv = severity_views(severities@);
    let mut c: u64 = 0;
    let mut h: u64 = 0;
    let mut m: u64 = 0;
    let mut l: u64 = 0;
    let mut i: usize = 0;
    while i < severities.len()
        invariant
            i <= severities@.len(),
            sv == severity_views(severities@),
            c == severity_count(sv.take(i as int), "critical"@),
            h == severity_count(sv.take(i as int), "high"@),
            m == severity_count(sv.take(i as int), "medium"@),
            l == severity_count(sv.take(i as int), "low"@),
            c <= i,
            h <= i,
            m <= i,
            l <= i,
        decreases severities@.len() - i,
    {
        let s = severities[i].as_str();
        assert(sv.take(i + 1).drop_last() =~= sv.take(i as int));
        assert(sv.take(i + 1).last() == s@);
        proof {
            reveal(Seq::filter);
        }
        if crate::text::str_eq(s, "critical") {
            c = c + 1;
        } else if crate::text::str_eq(s, "high") {
            h = h + 1;
        } else if crate::text::str_eq(s, "medium") {
            m = m + 1;
        } else if crate::text::str_eq(s, "low") {
            l = l + 1;
        }
        proof {
            reveal_strlit("critical");
            reveal_strlit("high");
            reveal_strlit("medium");
            reveal_strlit("low");
        }
        i = i + 1;
    }
    assert(sv.take(i as int) =~= sv);
    SecurityAlerts {
        total_open: severities.len() as u64,
        critical_count: c,
        high_count: h,
        medium_count: m,
        low_count: l,
    }
}

} // verus!

verus! {

/// A workflow run as the API lists it.
pub struct RunRecord {
    pub name: String,
    pub status: String,
    pub conclusion: Option<String>,
    pub created_at: i64,
    pub updated_at: i64,
    pub run_started_at: Option<i64>,
}

/// Seconds a run took: from its start (or creation) to its last update,
/// never negative.
pub open spec fn run_seconds(r: RunRecord) -> nat {
    let start = match r.run_started_at {
        Some(s) => s,
        None => r.created_at,
    };
    if r.updated_at - start < 0 {
        0
    } else {
        (r.updated_at - start) as nat
    }
}

/// The run started at or after `cutoff`.
pub open spec fn run_recent(r: RunRecord, cutoff: i64) -> bool {
    r.created_at >= cutoff
}

/// The run finished (has a conclusion).
pub open spec fn run_completed(r: RunRecord) -> bool {
    r.conclusion is Some
}

/// The run succeeded.
pub open spec fn run_succeeded(r: RunRecord) -> bool {
    r.conclusion matches Some(c) && c@ == "success"@
}

/// Sum of the durations of the runs.
pub open spec fn total_run_seconds(rs: Seq<RunRecord>) -> nat
    decreases rs.len(),
{
    if rs.len() == 0 {
        0
    } else {
        total_run_seconds(rs.drop_last()) + run_seconds(rs.last())
    }
}

/// `w` shows the run `r`.
pub open spec fn shows_run(w: WorkflowRun, r: RunRecord) -> bool {
    &&& w.name == r.name
    &&& w.status == r.status
    &&& w.conclusion == r.conclusion
    &&& w.created_at == r.created_at
    &&& w.duration_seconds == run_seconds(r)
}

/// The runs' times are instants, and a hundred times their number fits
/// the numerator of a success rate.
pub open spec fn runs_ok(rs: Seq<RunRecord>) -> bool {
    &&& 100 * rs.len() <= i64::MAX
    &&& forall|k: int| 0 <= k < rs.len() ==> is_instant(#[trigger] rs[k].created_at)
    &&& forall|k: int| 0 <= k < rs.len() ==> is_instant(#[trigger] rs[k].updated_at)
    &&& forall|k: int| 0 <= k < rs.len() ==> (#[trigger] rs[k].run_started_at matches Some(t) ==> is_instant(t))
}

/// The recent runs among `rs`.
pub open spec fn recent_runs(rs: Seq<RunRecord>, cutoff: i64) -> Seq<RunRecord> {
    rs.filter(|r: RunRecord| run_recent(r, cutoff))
}

/// The total duration of the concluded runs of the last 30 days before
/// `now` fits a signed 64-bit sum.
pub open spec fn durations_fit(rs: Seq<RunRecord>, now: i64) -> bool {
    total_run_seconds(recent_runs(rs, (now - THIRTY_DAYS) as i64).filter(|r: RunRecord| run_completed(r)))
        <= i64::MAX
}

/// A prefix's recent concluded runs take no longer than all of them.
proof fn lemma_prefix_seconds_le(
    rs: Seq<RunRecord>,
    pr: spec_fn(RunRecord) -> bool,
    pc: spec_fn(RunRecord) -> bool,
    i: int,
)
    requires
        0 <= i <= rs.len(),
    ensures
        total_run_seconds(rs.take(i).filter(pr).filter(pc)) <= total_run_seconds(rs.filter(pr).filter(pc)),
    decreases rs.len() - i,
{
    if i < rs.len() {
        lemma_prefix_seconds_le(rs, pr, pc, i + 1);
        let a = rs.take(i);
        let b = rs.take(i + 1);
        let x = rs[i];
        assert(b.drop_last() =~= a);
        assert(b.last() == x);
        reveal(Seq::filter);
        if pr(x) {
            assert(b.filter(pr) == a.filter(pr).push(x));
            assert(a.filter(pr).push(x).drop_last() =~= a.filter(pr));
            if pc(x) {
                assert(b.filter(pr).filter(pc) == a.filter(pr).filter(pc).push(x));
                assert(a.filter(pr).filter(pc).push(x).drop_last() =~= a.filter(pr).filter(pc));
            } else {
                assert(b.filter(pr).filter(pc) == a.filter(pr).filter(pc));
            }
        } else {
            assert(b.filter(pr) == a.filter(pr));
        }
    } else {
        assert(rs.take(i) =~= rs);
    }
}

fn run_duration(r: &RunRecord) -> (d: u64)
    requires
        is_instant(r.created_at),
        is_instant(r.updated_at),
        r.run_started_at matches Some(t) ==> is_instant(t),
    ensures
        d == run_seconds(*r),
{
    let start = match r.run_started_at {
        Some(s) => s,
        None => r.created_at,
    };
    let d: i64 = r.updated_at - start;
    if d < 0 {
        0
    } else {
        d as u64
    }
}

fn is_success_conclusion(c: &Option<String>) -> (b: bool)
    ensures
        b == (c matches Some(s) && s@ == "success"@),
{
    match c {
        Some(s) => crate::text::str_eq(s.as_str(), "success"),
        None => false,
    }
}

fn instant_ok(t: i64) -> (b: bool)
    ensures
        b == is_instant(t),
{
    -17_592_186_044_416 <= t && t <= 17_592_186_044_416
}

/// Whether the runs can be summarised at `now`: their times are instants,
/// a hundred times their number fits a success rate's numerator, and the
/// total duration of the concluded runs of the last 30 days fits a signed
/// 64-bit sum.
pub fn check_ci_runs(runs: &Vec<RunRecord>, now: i64) -> (b: bool)
    requires
        is_instant(now),
    ensures
        b == (runs_ok(runs@) && durations_fit(runs@, now)),
{
    let ghost rs = runs@;
    let cutoff: i64 = now - THIRTY_DAYS;
    let ghost pr = |r: RunRecord| run_recent(r, cutoff);
    let ghost pc = |r: RunRecord| run_completed(r);
    proof {
        assert(recent_runs(rs, cutoff) == rs.filter(pr));
    }
    if runs.len() as u64 > 92_233_720_368_547_758u64 {
        return false;
    }
    let mut sum: u64 = 0;
    let mut i: usize = 0;
    proof {
        reveal(Seq::filter);
        assert(rs.take(0) =~= Seq::<RunRecord>::empty());
    }
    while i < runs.len()
        invariant
            rs == runs@,
            i <= rs.len(),
            100 * rs.len() <= i64::MAX,
            cutoff == now - THIRTY_DAYS,
            pr == (|r: RunRecord| run_recent(r, cutoff)),
            pc == (|r: RunRecord| run_completed(r)),
            forall|k: int| 0 <= k < i ==> is_instant(#[trigger] rs[k].created_at),
            forall|k: int| 0 <= k < i ==> is_instant(#[trigger] rs[k].updated_at),
            forall|k: int| 0 <= k < i ==> (#[trigger] rs[k].run_started_at matches Some(t) ==> is_instant(t)),
            sum == total_run_seconds(rs.take(i as int).filter(pr).filter(pc)),
            sum <= i64::MAX,
        decreases rs.len() - i,
    {
        let r = &runs[i];
        let started_ok = match r.run_started_at {
            Some(t) => instant_ok(t),
            None => true,
        };
        if !(instant_ok(r.created_at) && instant_ok(r.updated_at) && started_ok) {
            return false;
        }
        let ghost before = rs.take(i as int).filter(pr);
        assert(rs.take(i + 1).drop_last() =~= rs.take(i as int));
        assert(rs.take(i + 1).last() == *r);
        proof {
            reveal(Seq::filter);
        }
        if r.created_at >= cutoff && r.conclusion.is_some() {
            let d = run_duration(r);
            assert(rs.take(i + 1).filter(pr) == before.push(*r));
            assert(before.push(*r).drop_last() =~= before);
            assert(rs.take(i + 1).filter(pr).filter(pc) == before.filter(pc).push(*r));
            assert(before.filter(pc).push(*r).drop_last() =~= before.filter(pc));
            if d > 9_223_372_036_854_775_807 - sum {
                proof {
                    lemma_prefix_seconds_le(rs, pr, pc, i + 1);
                }
                return false;
            }
            sum = sum + d;
        } else {
            if r.created_at >= cutoff {
                assert(rs.take(i + 1).filter(pr) == before.push(*r));
                assert(before.push(*r).drop_last() =~= before);
            } else {
                assert(rs.take(i + 1).filter(pr) == before);
            }
        }
        i = i + 1;
    }
    assert(rs.take(i as int) =~= rs);
    true
}

/// CI status at `now` from the latest workflow runs (newest first): the
/// runs created in the last 30 days, the percentage of them that
/// succeeded, the mean duration of those that concluded, and the ten
/// newest runs. `None` when there are no runs.
pub fn ci_status_at(runs: &Vec<RunRecord>, now: i64) -> (s: Option<CIStatus>)
    requires
        is_instant(now),
        runs_ok(runs@),
        durations_fit(runs@, now),
    ensures
        runs@.len() == 0 <==> s is None,
        s matches Some(c) ==> {
            let cutoff = (now - THIRTY_DAYS) as i64;
            let recent = recent_runs(runs@, cutoff);
            let succeeded = recent.filter(|r: RunRecord| run_succeeded(r)).len();
            let completed = recent.filter(|r: RunRecord| run_completed(r));
            &&& c.total_runs_30d == recent.len()
            &&& c.success_rate == (if recent.len() == 0 {
                Fraction { numer: 0, denom: 1 }
            } else {
                Fraction { numer: (100 * succeeded) as i64, denom: recent.len() as u64 }
            })
            &&& c.avg_duration_seconds == (if completed.len() == 0 {
                0
            } else {
                total_run_seconds(completed) / completed.len()
            })
            &&& c.recent_runs@.len() == (if runs@.len() < 10 {
                runs@.len() as int
            } else {
                10
            })
            &&& forall|i: int| 0 <= i < c.recent_runs@.len() ==> shows_run(#[trigger] c.recent_runs@[i], runs@[i])
        },
{
    if runs.len() == 0 {
        return None;
    }
    let cutoff: i64 = now - THIRTY_DAYS;
    let ghost rs = runs@;
    let ghost pr = |r: RunRecord| run_recent(r, cutoff);
    let ghost ps = |r: RunRecord| run_succeeded(r);
    let ghost pc = |r: RunRecord| run_completed(r);
    let mut total: u64 = 0;
    let mut succeeded: u64 = 0;
    let mut completed: u64 = 0;
    let mut duration: u64 = 0;
    let mut i: usize = 0;
    proof {
        reveal(Seq::filter);
        assert(rs.take(0) =~= Seq::<RunRecord>::empty());
        assert(recent_runs(rs, cutoff) == rs.filter(pr));
    }
    while i < runs.len()
        invariant
            rs == runs@,
            i <= rs.len(),
            runs_ok(rs),
            cutoff == now - THIRTY_DAYS,
            pr == (|r: RunRecord| run_recent(r, cutoff)),
            ps == (|r: RunRecord| run_succeeded(r)),
            pc == (|r: RunRecord| run_completed(r)),
            total == rs.take(i as int).filter(pr).len(),
            succeeded == rs.take(i as int).filter(pr).filter(ps).len(),
            completed == rs.take(i as int).filter(pr).filter(pc).len(),
            duration == total_run_seconds(rs.take(i as int).filter(pr).filter(pc)),
            total <= i,
            succeeded <= i,
            completed <= i,
            total_run_seconds(rs.filter(pr).filter(pc)) <= i64::MAX,
        decreases rs.len() - i,
    {
        let r = &runs[i];
        assert(rs.take(i + 1).drop_last() =~= rs.take(i as int));
        assert(rs.take(i + 1).last() == *r);
        proof {
            reveal(Seq::filter);
            assert(is_instant(rs[i as int].created_at));
            assert(is_instant(rs[i as int].updated_at));
            assert(rs[i as int].run_started_at matches Some(t) ==> is_instant(t));
        }
        if r.created_at >= cutoff {
            let ghost before = rs.take(i as int).filter(pr);
            assert(rs.take(i + 1).filter(pr) =~= before.push(*r));
            assert(before.push(*r).drop_last() =~= before);
            total = total + 1;
            if is_success_conclusion(&r.conclusion) {
                succeeded = succeeded + 1;
            }
            if r.conclusion.is_some() {
                let d = run_duration(r);
                assert(before.filter(pc).push(*r).drop_last() =~= before.filter(pc));
                proof {
                    lemma_prefix_seconds_le(rs, pr, pc, i + 1);
                    assert(rs.take(i + 1).filter(pr).filter(pc) == before.filter(pc).push(*r));
                }
                completed = completed + 1;
                duration = duration + d;
            }
        }
        i = i + 1;
    }
    assert(rs.take(i as int) =~= rs);
    let success_rate = if total == 0 {
        Fraction { numer: 0, denom: 1 }
    } else {
        Fraction { numer: (100 * succeeded) as i64, denom: total }
    };
    let avg = if completed == 0 {
        0
    } else {
        duration / completed
    };
    let mut shown: Vec<WorkflowRun> = Vec::new();
    let mut k: usize = 0;
    while k < runs.len() && k < 10
        invariant
            rs == runs@,
            runs_ok(rs),
            k <= rs.len(),
            k <= 10,
            shown@.len() == k,
            forall|j: int| 0 <= j < k ==> shows_run(#[trigger] shown@[j], rs[j]),
        decreases 10 - k,
    {
        let r = &runs[k];
        proof {
            assert(is_instant(rs[k as int].created_at));
            assert(is_instant(rs[k as int].updated_at));
            assert(rs[k as int].run_started_at matches Some(t) ==> is_instant(t));
        }
        let d = run_duration(r);
        shown.push(
            WorkflowRun {
                name: r.name.clone(),
                status: r.status.clone(),
                conclusion: r.conclusion.clone(),
                created_at: r.created_at,
                duration_seconds: d,
            },
        );
        k = k + 1;
    }
    Some(
        CIStatus {
            total_runs_30d: total,
            success_rate,
            avg_duration_seconds: avg,
            recent_runs: shown,
        },
    )
}

} // verus!

verus! {

/// A contributor as the API lists it.
pub struct ContributorRecord {
    pub login: String,
    pub contributions: u32,
    pub avatar_url: String,
}

/// Most contributors shown.
pub const TOP_CONTRIBUTORS: usize = 10;

/// `c` shows the contributor record `r`.
pub open spec fn shows_contributor(c: Contributor, r: ContributorRecord) -> bool {
    &&& c.username == r.login
    &&& c.commit_count == r.contributions
    &&& c.avatar_url == Some(r.avatar_url)
}

/// The first ten contributors of the list (GitHub sorts it by commits).
pub fn top_contributors(list: &Vec<ContributorRecord>) -> (r: Vec<Contributor>)
    ensures
        r@.len() == (if list@.len() < 10 {
            list@.len() as int
        } else {
            10
        }),
        forall|i: int| 0 <= i < r@.len() ==> shows_contributor(#[trigger] r@[i], list@[i]),
{
    let mut r: Vec<Contributor> = Vec::new();
    let mut i: usize = 0;
    while i < list.len() && i < TOP_CONTRIBUTORS
        invariant
            i <= list@.len(),
            i <= 10,
            r@.len() == i,
            forall|k: int| 0 <= k < i ==> shows_contributor(#[trigger] r@[k], list@[k]),
        decreases 10 - i,
    {
        let c = &list[i];
        r.push(
            Contributor {
                username: c.login.clone(),
                commit_count: c.contributions as u64,
                avatar_url: Some(c.avatar_url.clone()),
            },
        );
        i = i + 1;
    }
    r
}

/// Logins as character sequences.
pub open spec fn name_views(v: Seq<String>) -> Seq<Seq<char>> {
    v.map_values(|s: String| s@)
}

/// The distinct logins of `names`, first occurrence first.
pub fn distinct_names(names: &Vec<String>) -> (r: Vec<String>)
    ensures
        name_views(r@) == crate::config::dedup_seq(name_views(names@)),
{
    let ghost nv = name_views(names@);
    let mut r: Vec<String> = Vec::new();
    let mut i: usize = 0;
    while i < names.len()
        invariant
            i <= names@.len(),
            nv == name_views(names@),
            name_views(r@) == crate::config::dedup_seq(nv.take(i as int)),
        decreases names@.len() - i,
    {
        let s = &names[i];
        assert(nv.take(i + 1).drop_last() =~= nv.take(i as int));
        assert(nv.take(i + 1).last() == s@);
        let mut found = false;
        let mut k: usize = 0;
        while k < r.len()
            invariant
                k <= r@.len(),
                found == exists|j: int| 0 <= j < k && r@[j]@ == s@,
            decreases r@.len() - k,
        {
            if crate::text::str_eq(r[k].as_str(), s.as_str()) {
                found = true;
            }
            k = k + 1;
        }
        proof {
            if found {
                let j = choose|j: int| 0 <= j < k && r@[j]@ == s@;
                assert(name_views(r@)[j] == s@);
            }
            if name_views(r@).contains(s@) {
                let j = choose|j: int| 0 <= j < name_views(r@).len() && name_views(r@)[j] == s@;
                assert(r@[j]@ == s@);
            }
        }
        if !found {
            let ghost before = r@;
            r.push(s.clone());
            assert(name_views(r@) =~= name_views(before).push(s@));
        }
        i = i + 1;
    }
    assert(nv.take(i as int) =~= nv);
    r
}

} // verus!

verus! {

/// `a` comes before `b` in the order of `String` (character by
/// character, by code point; a proper prefix first).
pub open spec fn text_lt(a: Seq<char>, b: Seq<char>) -> bool
    decreases a.len(),
{
    if a.len() == 0 {
        b.len() > 0
    } else if b.len() == 0 {
        false
    } else if (a[0] as u32) != (b[0] as u32) {
        (a[0] as u32) < (b[0] as u32)
    } else {
        text_lt(a.skip(1), b.skip(1))
    }
}

proof fn lemma_text_lt_step(a: Seq<char>, b: Seq<char>, i: int)
    requires
        0 <= i < a.len(),
        i < b.len(),
        (a[i] as u32) == (b[i] as u32),
    ensures
        text_lt(a.skip(i), b.skip(i)) == text_lt(a.skip(i + 1), b.skip(i + 1)),
{
    assert(a.skip(i).skip(1) =~= a.skip(i + 1));
    assert(b.skip(i).skip(1) =~= b.skip(i + 1));
}

pub(crate) fn less_text(a: &str, b: &str) -> (r: bool)
    ensures
        r == text_lt(a@, b@),
{
    let x = crate::text::chars_of(a);
    let y = crate::text::chars_of(b);
    let mut i: usize = 0;
    assert(x@.skip(0) =~= x@);
    assert(y@.skip(0) =~= y@);
    while i < x.len() && i < y.len() && (x[i] as u32) == (y[i] as u32)
        invariant
            x@ == a@,
            y@ == b@,
            i <= x@.len(),
            i <= y@.len(),
            text_lt(a@, b@) == text_lt(x@.skip(i as int), y@.skip(i as int)),
        decreases x@.len() - i,
    {
        proof {
            lemma_text_lt_step(x@, y@, i as int);
        }
        i = i + 1;
    }
    if i == x.len() {
        i < y.len()
    } else if i == y.len() {
        false
    } else {
        assert(x@.skip(i as int)[0] == x@[i as int]);
        assert(y@.skip(i as int)[0] == y@[i as int]);
        (x[i] as u32) < (y[i] as u32)
    }
}

/// `text_lt` is asymmetric (and so irreflexive).
pub proof fn lemma_text_lt_asym(a: Seq<char>, b: Seq<char>)
    ensures
        text_lt(a, b) ==> !text_lt(b, a),
    decreases a.len(),
{
    if a.len() > 0 && b.len() > 0 && (a[0] as u32) == (b[0] as u32) {
        lemma_text_lt_asym(a.skip(1), b.skip(1));
    }
}

/// Not coming before is transitive: if `b` is not before `a` and `c` is
/// not before `b`, then `c` is not before `a`.
pub proof fn lemma_text_le_trans(a: Seq<char>, b: Seq<char>, c: Seq<char>)
    ensures
        !text_lt(b, a) && !text_lt(c, b) ==> !text_lt(c, a),
    decreases a.len(),
{
    if a.len() > 0 && b.len() > 0 && c.len() > 0 {
        let (x, y, z) = (a[0] as u32, b[0] as u32, c[0] as u32);
        if x == y && y == z {
            lemma_text_le_trans(a.skip(1), b.skip(1), c.skip(1));
        }
    }
}

/// The order of `String`, as a relation.
pub open spec fn text_before() -> spec_fn(Seq<char>, Seq<char>) -> bool {
    |a: Seq<char>, b: Seq<char>| text_lt(a, b)
}

/// The order of `String` is a strict weak order.
pub proof fn lemma_text_weak_order()
    ensures
        weak_order(text_before()),
{
    let f = text_before();
    assert forall|a: Seq<char>, b: Seq<char>| #[trigger] f(a, b) implies !f(b, a) by {
        lemma_text_lt_asym(a, b);
    }
    assert forall|a: Seq<char>, b: Seq<char>, c: Seq<char>|
        !#[trigger] f(b, a) && !#[trigger] f(c, b) implies !f(c, a) by {
        lemma_text_le_trans(a, b, c);
    }
}

/// `s` in the order of `String`; equal names keep their order.
pub open spec fn sorted_names(s: Seq<Seq<char>>) -> Seq<Seq<char>> {
    insertion_sorted(s, text_before())
}

/// Sorting names gives them in `String` order, each as often as given.
pub proof fn lemma_sorted_names(s: Seq<Seq<char>>)
    ensures
        in_order(sorted_names(s), text_before()),
        sorted_names(s).to_multiset() == s.to_multiset(),
        sorted_names(s).len() == s.len(),
{
    lemma_text_weak_order();
    lemma_insertion_sorted(s, text_before());
}

/// Where the search for new contributors starts: thirty days before
/// `now`.
pub fn new_contributor_window_start(now: i64) -> (t: i64)
    requires
        crate::clock::is_instant(now),
    ensures
        t == now - THIRTY_DAYS,
{
    now - THIRTY_DAYS
}

/// The committers to check for earlier commits: the distinct authors of
/// the recent commits, first seen first, at most `max` of them.
pub fn contributor_candidates(authors: &Vec<String>, max: usize) -> (r: Vec<String>)
    ensures
        name_views(r@) == crate::config::first_n(crate::config::dedup_seq(name_views(authors@)), max as nat),
{
    let mut r = distinct_names(authors);
    let ghost before = r@;
    r.truncate(max);
    assert(name_views(r@) =~= crate::config::first_n(name_views(before), max as nat));
    r
}

/// The names of `candidates` whose flag in `has_older` is false.
pub open spec fn without_older(candidates: Seq<Seq<char>>, has_older: Seq<bool>) -> Seq<Seq<char>>
    decreases candidates.len(),
{
    if candidates.len() == 0 {
        Seq::empty()
    } else {
        let k = candidates.len() - 1;
        let rest = without_older(candidates.drop_last(), has_older);
        if k < has_older.len() && !has_older[k] {
            rest.push(candidates[k])
        } else {
            rest
        }
    }
}

/// The new contributors among the candidates (recent committers, checked
/// in turn): those with no commit before the last 30 days, sorted by name.
pub fn new_contributor_names(candidates: &Vec<String>, has_older: &Vec<bool>) -> (r: Vec<String>)
    requires
        has_older@.len() == candidates@.len(),
    ensures
        name_views(r@) == sorted_names(without_older(name_views(candidates@), has_older@)),
{
    let ghost cv = name_views(candidates@);
    let mut out: Vec<String> = Vec::new();
    let mut i: usize = 0;
    assert(without_older(cv.take(0), has_older@) =~= Seq::<Seq<char>>::empty());
    assert(name_views(out@) =~= sorted_names(Seq::<Seq<char>>::empty()));
    while i < candidates.len()
        invariant
            i <= candidates@.len(),
            has_older@.len() == candidates@.len(),
            cv == name_views(candidates@),
            name_views(out@) == sorted_names(without_older(cv.take(i as int), has_older@)),
        decreases candidates@.len() - i,
    {
        let ghost kept = without_older(cv.take(i as int), has_older@);
        proof {
            assert(cv.take(i + 1).drop_last() =~= cv.take(i as int));
            assert(cv.take(i + 1)[i as int] == cv[i as int]);
        }
        if !has_older[i] {
            let x = candidates[i].clone();
            let ghost xv = x@;
            assert(xv == cv[i as int]);
            let ghost outv = name_views(out@);
            let mut k: usize = out.len();
            assert(outv.take(k as int) =~= outv);
            while k > 0 && less_text(x.as_str(), out[k - 1].as_str())
                invariant
                    k <= out@.len(),
                    outv == name_views(out@),
                    xv == x@,
                    insert_pos(outv, xv, text_before()) == insert_pos(outv.take(k as int), xv, text_before()),
                decreases k,
            {
                assert(outv.take(k as int).drop_last() =~= outv.take(k - 1));
                assert(outv.take(k as int).last() == out@[k - 1]@);
                k = k - 1;
            }
            proof {
                if k > 0 {
                    assert(outv.take(k as int).last() == out@[k - 1]@);
                }
                assert(insert_pos(outv.take(k as int), xv, text_before()) == k);
                assert(without_older(cv.take(i + 1), has_older@) == kept.push(xv));
                assert(kept.push(xv).drop_last() =~= kept);
            }
            out.insert(k, x);
            assert(name_views(out@) =~= outv.insert(k as int, xv));
        } else {
            assert(without_older(cv.take(i + 1), has_older@) == kept);
        }
        i = i + 1;
    }
    assert(cv.take(i as int) =~= cv);
    out
}

} // verus!
