//! Checks, made before scoring or rendering a snapshot, that its counts
//! and times are small enough for the arithmetic to stay exact.
use vstd::prelude::*;
use crate::config::{
    columns_normalizable, normalizable, width_fn, width_sum, widened, widened_columns, LayoutConfig,
    PanelLayout,
};
use crate::clock::{is_datable, is_instant, DATE_BOUND, INSTANT_BOUND};
use crate::health::{
    group_comments, group_comments_fn, mean_opened, score_inputs_ok, star_fn, star_sum,
    sum_closed, sum_closed_fn, sum_comments, sum_comments_fn, sum_commits, sum_commits_fn,
    sum_opened, sum_opened_fn, total_comments,
};
use crate::models::{
    all_issue_times, group_times, issue_times, issue_times_valid, Contributor, Issue, IssueStats,
    LabelGroup, Release, RepoSnapshot, StarHistory, VelocityStats, WeeklyActivity,
};
use crate::output::{report_inputs_ok, summary_inputs_ok};
use crate::sections::{releases_datable, weeks_datable};
use crate::stars::weighted_rate_numer;
use crate::sums::{lemma_seq_sum_prefix_le, lemma_seq_sum_step, seq_sum};

verus! {

/// A natural number as a `u64`, when it fits.
pub open spec fn fits_u64(n: nat) -> Option<u64> {
    if n <= u64::MAX {
        Some(n as u64)
    } else {
        None
    }
}

fn opened_total(weeks: &Vec<WeeklyActivity>) -> (r: Option<u64>)
    ensures
        r == fits_u64(sum_opened(weeks@)),
{
    let mut t: u64 = 0;
    let mut i: usize = 0;
    while i < weeks.len()
        invariant
            i <= weeks@.len(),
            t == seq_sum(weeks@.subrange(0, i as int), sum_opened_fn()),
        decreases weeks@.len() - i,
    {
        proof {
            lemma_seq_sum_step(weeks@, sum_opened_fn(), i as int);
            lemma_seq_sum_prefix_le(weeks@, sum_opened_fn(), i + 1);
        }
        match t.checked_add(weeks[i].opened) {
            Some(n) => {
                t = n;
            },
            None => {
                return None;
            },
        }
        i = i + 1;
    }
    assert(weeks@.subrange(0, i as int) =~= weeks@);
    Some(t)
}

fn closed_total(weeks: &Vec<WeeklyActivity>) -> (r: Option<u64>)
    ensures
        r == fits_u64(sum_closed(weeks@)),
{
    let mut t: u64 = 0;
    let mut i: usize = 0;
    while i < weeks.len()
        invariant
            i <= weeks@.len(),
            t == seq_sum(weeks@.subrange(0, i as int), sum_closed_fn()),
        decreases weeks@.len() - i,
    {
        proof {
            lemma_seq_sum_step(weeks@, sum_closed_fn(), i as int);
            lemma_seq_sum_prefix_le(weeks@, sum_closed_fn(), i + 1);
        }
        match t.checked_add(weeks[i].closed) {
            Some(n) => {
                t = n;
            },
            None => {
                return None;
            },
        }
        i = i + 1;
    }
    assert(weeks@.subrange(0, i as int) =~= weeks@);
    Some(t)
}

fn commits_total(cs: &Vec<Contributor>) -> (r: Option<u64>)
    ensures
        r == fits_u64(sum_commits(cs@)),
{
    let mut t: u64 = 0;
    let mut i: usize = 0;
    while i < cs.len()
        invariant
            i <= cs@.len(),
            t == seq_sum(cs@.subrange(0, i as int), sum_commits_fn()),
        decreases cs@.len() - i,
    {
        proof {
            lemma_seq_sum_step(cs@, sum_commits_fn(), i as int);
            lemma_seq_sum_prefix_le(cs@, sum_commits_fn(), i + 1);
        }
        match t.checked_add(cs[i].commit_count) {
            Some(n) => {
                t = n;
            },
            None => {
                return None;
            },
        }
        i = i + 1;
    }
    assert(cs@.subrange(0, i as int) =~= cs@);
    Some(t)
}

fn comments_total(issues: &Vec<Issue>) -> (r: Option<u64>)
    ensures
        r == fits_u64(sum_comments(issues@)),
{
    let mut t: u64 = 0;
    let mut i: usize = 0;
    while i < issues.len()
        invariant
            i <= issues@.len(),
            t == seq_sum(issues@.subrange(0, i as int), sum_comments_fn()),
        decreases issues@.len() - i,
    {
        proof {
            lemma_seq_sum_step(issues@, sum_comments_fn(), i as int);
            lemma_seq_sum_prefix_le(issues@, sum_comments_fn(), i + 1);
        }
        match t.checked_add(issues[i].comments_count) {
            Some(n) => {
                t = n;
            },
            None => {
                return None;
            },
        }
        i = i + 1;
    }
    assert(issues@.subrange(0, i as int) =~= issues@);
    Some(t)
}

fn group_comments_total(groups: &Vec<LabelGroup>) -> (r: Option<u64>)
    ensures
        r == fits_u64(group_comments(groups@)),
{
    let mut t: u64 = 0;
    let mut i: usize = 0;
    while i < groups.len()
        invariant
            i <= groups@.len(),
            t == seq_sum(groups@.subrange(0, i as int), group_comments_fn()),
        decreases groups@.len() - i,
    {
        proof {
            lemma_seq_sum_step(groups@, group_comments_fn(), i as int);
            lemma_seq_sum_prefix_le(groups@, group_comments_fn(), i + 1);
        }
        match comments_total(&groups[i].issues) {
            Some(c) => match t.checked_add(c) {
                Some(n) => {
                    t = n;
                },
                None => {
                    return None;
                },
            },
            None => {
                return None;
            },
        }
        i = i + 1;
    }
    assert(groups@.subrange(0, i as int) =~= groups@);
    Some(t)
}

fn stars_total(s: &Vec<u32>) -> (r: Option<u64>)
    ensures
        r == fits_u64(star_sum(s@)),
{
    let mut t: u64 = 0;
    let mut i: usize = 0;
    while i < s.len()
        invariant
            i <= s@.len(),
            t == seq_sum(s@.subrange(0, i as int), star_fn()),
        decreases s@.len() - i,
    {
        proof {
            lemma_seq_sum_step(s@, star_fn(), i as int);
            lemma_seq_sum_prefix_le(s@, star_fn(), i + 1);
        }
        match t.checked_add(s[i] as u64) {
            Some(n) => {
                t = n;
            },
            None => {
                return None;
            },
        }
        i = i + 1;
    }
    assert(s@.subrange(0, i as int) =~= s@);
    Some(t)
}

fn instant_ok(t: i64) -> (b: bool)
    ensures
        b == is_instant(t),
{
    -INSTANT_BOUND <= t && t <= INSTANT_BOUND
}

/// Every issue of the list was created at an admitted instant.
pub open spec fn times_ok(issues: Seq<Issue>) -> bool {
    forall|k: int| 0 <= k < issue_times(issues).len() ==> is_instant(#[trigger] issue_times(issues)[k])
}

fn issue_list_times_ok(issues: &Vec<Issue>) -> (b: bool)
    ensures
        b == times_ok(issues@),
{
    let mut i: usize = 0;
    while i < issues.len()
        invariant
            i <= issues@.len(),
            forall|k: int| 0 <= k < i ==> is_instant(#[trigger] issue_times(issues@)[k]),
        decreases issues@.len() - i,
    {
        if !instant_ok(issues[i].created_at) {
            assert(issue_times(issues@)[i as int] == issues@[i as int].created_at);
            return false;
        }
        i = i + 1;
    }
    true
}

proof fn lemma_concat_times(a: Seq<i64>, b: Seq<i64>)
    ensures
        (forall|k: int| 0 <= k < (a + b).len() ==> is_instant(#[trigger] (a + b)[k])) <==> ((forall|
            k: int,
        | 0 <= k < a.len() ==> is_instant(#[trigger] a[k])) && (forall|k: int|
            0 <= k < b.len() ==> is_instant(#[trigger] b[k]))),
{
    if forall|k: int| 0 <= k < (a + b).len() ==> is_instant(#[trigger] (a + b)[k]) {
        assert forall|k: int| 0 <= k < a.len() implies is_instant(#[trigger] a[k]) by {
            assert((a + b)[k] == a[k]);
        }
        assert forall|k: int| 0 <= k < b.len() implies is_instant(#[trigger] b[k]) by {
            assert((a + b)[a.len() + k] == b[k]);
        }
    }
    if (forall|k: int| 0 <= k < a.len() ==> is_instant(#[trigger] a[k])) && (forall|k: int|
        0 <= k < b.len() ==> is_instant(#[trigger] b[k])) {
        assert forall|k: int| 0 <= k < (a + b).len() implies is_instant(#[trigger] (a + b)[k]) by {
            if k < a.len() {
                assert((a + b)[k] == a[k]);
            } else {
                assert((a + b)[k] == b[k - a.len()]);
            }
        }
    }
}

/// Whether every listed open issue was created at an admitted instant
/// (what the age of the oldest issue needs).
pub fn check_issue_times(stats: &IssueStats) -> (b: bool)
    ensures
        b == issue_times_valid(*stats),
{
    let groups = &stats.by_label;
    let mut i: usize = 0;
    while i < groups.len()
        invariant
            i <= groups@.len(),
            groups@ == stats.by_label@,
            forall|k: int|
                0 <= k < group_times(groups@.take(i as int)).len() ==> is_instant(
                    #[trigger] group_times(groups@.take(i as int))[k],
                ),
        decreases groups@.len() - i,
    {
        let ok = issue_list_times_ok(&groups[i].issues);
        proof {
            assert(groups@.take(i + 1).drop_last() =~= groups@.take(i as int));
            assert(groups@.take(i + 1).last() == groups@[i as int]);
            lemma_concat_times(
                group_times(groups@.take(i as int)),
                issue_times(groups@[i as int].issues@),
            );
        }
        if !ok {
            proof {
                let a = groups@.take(i + 1);
                let b = groups@.skip(i + 1);
                assert(group_times(a) == group_times(groups@.take(i as int)) + issue_times(
                    groups@[i as int].issues@,
                ));
                assert(!(forall|k: int| 0 <= k < group_times(a).len() ==> is_instant(
                    #[trigger] group_times(a)[k],
                )));
                assert(groups@ =~= a + b);
                lemma_group_times_concat(a, b);
                lemma_concat_times(group_times(a), group_times(b));
                assert(group_times(groups@) == group_times(a) + group_times(b));
                lemma_concat_times(group_times(groups@), issue_times(stats.unlabelled@));
                assert(all_issue_times(*stats) == group_times(groups@) + issue_times(
                    stats.unlabelled@,
                ));
            }
            return false;
        }
        i = i + 1;
    }
    assert(groups@.take(i as int) =~= groups@);
    assert(group_times(groups@.take(i as int)) == group_times(stats.by_label@));
    assert(forall|k: int|
        0 <= k < group_times(stats.by_label@).len() ==> is_instant(
            #[trigger] group_times(stats.by_label@)[k],
        ));
    let ok = issue_list_times_ok(&stats.unlabelled);
    proof {
        lemma_concat_times(group_times(stats.by_label@), issue_times(stats.unlabelled@));
        assert(all_issue_times(*stats) == group_times(stats.by_label@) + issue_times(
            stats.unlabelled@,
        ));
    }
    ok
}

proof fn lemma_group_times_concat(a: Seq<LabelGroup>, b: Seq<LabelGroup>)
    ensures
        group_times(a + b) == group_times(a) + group_times(b),
    decreases b.len(),
{
    if b.len() == 0 {
        assert(a + b =~= a);
        assert(group_times(a) + group_times(b) =~= group_times(a));
    } else {
        lemma_group_times_concat(a, b.drop_last());
        assert((a + b).drop_last() =~= a + b.drop_last());
        assert(group_times(a) + group_times(b) =~= group_times(a) + group_times(b.drop_last())
            + issue_times(b.last().issues@));
    }
}

/// Whether the snapshot's counts and times admit a health score computed
/// exactly (sums that fit in 64 bits, instants in range, fractions with
/// positive denominators).
pub fn check_score_inputs(s: &RepoSnapshot) -> (b: bool)
    ensures
        b == score_inputs_ok(*s),
{
    let v = &s.velocity;
    let io = match opened_total(&v.issues_weekly) {
        Some(t) => t,
        None => {
            return false;
        },
    };
    let po = match opened_total(&v.prs_weekly) {
        Some(t) => t,
        None => {
            return false;
        },
    };
    let mi: u64 = if v.issues_weekly.len() == 0 {
        0
    } else {
        io / (v.issues_weekly.len() as u64)
    };
    let mp: u64 = if v.prs_weekly.len() == 0 {
        0
    } else {
        po / (v.prs_weekly.len() as u64)
    };
    assert(mi == mean_opened(v.issues_weekly@));
    assert(mp == mean_opened(v.prs_weekly@));
    if mi.checked_add(mp).is_none() {
        return false;
    }
    if closed_total(&v.issues_weekly).is_none() {
        return false;
    }
    let tops = &s.contributors.top_contributors;
    let commits = match commits_total(tops) {
        Some(t) => t,
        None => {
            return false;
        },
    };
    if tops.len() > 0 && commits > 0 && tops[0].commit_count.checked_mul(100).is_none() {
        return false;
    }
    let gc = match group_comments_total(&s.issues.by_label) {
        Some(t) => t,
        None => {
            return false;
        },
    };
    let uc = match comments_total(&s.issues.unlabelled) {
        Some(t) => t,
        None => {
            return false;
        },
    };
    if gc.checked_add(uc).is_none() {
        return false;
    }
    assert(total_comments(s.issues) == gc + uc);
    if stars_total(&s.stars.sparkline_30d).is_none() || stars_total(&s.stars.sparkline_90d).is_none() {
        return false;
    }
    if !check_issue_times(&s.issues) {
        return false;
    }
    let avg_ok = match s.pull_requests.avg_time_to_merge_hours {
        Some(f) => f.denom > 0,
        None => true,
    };
    let ci_ok = match &s.ci_status {
        Some(c) => c.success_rate.denom > 0,
        None => true,
    };
    avg_ok && ci_ok
}

/// Whether the star history's weighted growth rate fits (what the
/// milestone prediction needs).
pub fn check_star_rates(h: &StarHistory) -> (b: bool)
    ensures
        b == (weighted_rate_numer(*h) <= i64::MAX),
{
    let s30 = match stars_total(&h.sparkline_30d) {
        Some(t) => t,
        None => {
            return false;
        },
    };
    let s90 = match stars_total(&h.sparkline_90d) {
        Some(t) => t,
        None => {
            return false;
        },
    };
    if s30 > 1_400_000_000_000_000_000 {
        return false;
    }
    let w: u64 = 7 * s30;
    match w.checked_add(s90) {
        Some(t) => t <= 9_223_372_036_854_775_807,
        None => false,
    }
}

fn datable_ok(t: i64) -> (b: bool)
    ensures
        b == is_datable(t),
{
    -DATE_BOUND <= t && t <= DATE_BOUND
}

/// Whether every release's publication date can be written.
pub fn check_release_dates(releases: &Vec<Release>) -> (b: bool)
    ensures
        b == releases_datable(releases@),
{
    let mut i: usize = 0;
    while i < releases.len()
        invariant
            i <= releases@.len(),
            forall|k: int| 0 <= k < i ==> (#[trigger] releases@[k].published_at matches Some(t) ==> is_datable(t)),
        decreases releases@.len() - i,
    {
        match releases[i].published_at {
            Some(t) => {
                if !datable_ok(t) {
                    return false;
                }
            },
            None => {},
        }
        i = i + 1;
    }
    true
}

/// Whether every week's start date can be written.
pub fn check_week_dates(weeks: &Vec<WeeklyActivity>) -> (b: bool)
    ensures
        b == weeks_datable(weeks@),
{
    let mut i: usize = 0;
    while i < weeks.len()
        invariant
            i <= weeks@.len(),
            forall|k: int| 0 <= k < i ==> is_datable(#[trigger] weeks@[k].week_start),
        decreases weeks@.len() - i,
    {
        if !datable_ok(weeks[i].week_start) {
            return false;
        }
        i = i + 1;
    }
    true
}

/// The totals of a velocity table fit the fractions of its averages.
pub open spec fn averages_fit(weeks: Seq<WeeklyActivity>) -> bool {
    sum_opened(weeks) <= i64::MAX && sum_closed(weeks) <= i64::MAX
}

/// Whether the weekly totals of both velocity tables fit the fractions
/// of their averages.
pub fn check_velocity_averages(v: &VelocityStats) -> (b: bool)
    ensures
        b == (averages_fit(v.issues_weekly@) && averages_fit(v.prs_weekly@)),
{
    let fits = |t: Option<u64>| -> (r: bool)
        ensures
            r == (t matches Some(n) && n <= 9_223_372_036_854_775_807),
        {
            match t {
                Some(n) => n <= 9_223_372_036_854_775_807,
                None => false,
            }
        };
    fits(opened_total(&v.issues_weekly)) && fits(closed_total(&v.issues_weekly)) && fits(
        opened_total(&v.prs_weekly),
    ) && fits(closed_total(&v.prs_weekly))
}

/// Whether the snapshot can be rendered as a Markdown report: its figures
/// fit the exact arithmetic and its dates can be written.
pub fn check_report_inputs(s: &RepoSnapshot) -> (b: bool)
    ensures
        b == report_inputs_ok(*s),
{
    check_score_inputs(s) && check_star_rates(&s.stars) && check_release_dates(&s.releases)
        && check_week_dates(&s.velocity.issues_weekly) && check_week_dates(&s.velocity.prs_weekly)
        && datable_ok(s.fetched_at)
}

/// Whether the snapshot can be rendered as a terminal summary: its figures
/// fit the exact arithmetic and the width of its separator line fits.
pub fn check_summary_inputs(s: &RepoSnapshot) -> (b: bool)
    ensures
        b == summary_inputs_ok(*s),
{
    if !(check_score_inputs(s) && check_star_rates(&s.stars)) {
        return false;
    }
    let full = String::from_str(s.repo.owner.as_str()).concat("/").concat(s.repo.name.as_str());
    full.as_str().as_bytes().len() <= usize::MAX - 12
}

fn columns_fit(cols: &Vec<PanelLayout>) -> (b: bool)
    ensures
        b == columns_normalizable(cols@),
{
    let ghost wc = widened_columns(cols@);
    let mut t: u64 = 0;
    let mut i: usize = 0;
    while i < cols.len()
        invariant
            i <= cols@.len(),
            wc == widened_columns(cols@),
            t == seq_sum(wc.subrange(0, i as int), width_fn()),
            t <= 65535,
        decreases cols@.len() - i,
    {
        proof {
            lemma_seq_sum_step(wc, width_fn(), i as int);
            lemma_seq_sum_prefix_le(wc, width_fn(), i + 1);
            assert(wc[i as int] == widened(cols@[i as int]));
        }
        let w = cols[i].width_pct;
        let raised: u64 = if w < 10 {
            10
        } else {
            w as u64
        };
        t = t + raised;
        i = i + 1;
        if t > 65535 {
            return false;
        }
    }
    assert(wc.subrange(0, i as int) =~= wc);
    true
}

/// Whether a layout read from a file can be normalised: its row heights
/// sum to a positive `u16` and each row's widened column widths fit in one.
pub fn check_layout_normalizable(c: &LayoutConfig) -> (b: bool)
    ensures
        b == normalizable(*c),
{
    let h: u32 = c.row1.height_pct as u32 + c.row2.height_pct as u32 + c.row3.height_pct as u32;
    0 < h && h <= 65535 && columns_fit(&c.row1_columns) && columns_fit(&c.row2_columns)
        && columns_fit(&c.row3_columns)
}

} // verus!
