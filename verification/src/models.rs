//! The repository snapshot data model.
//!
//! Instants are whole seconds since the Unix epoch (see `clock`); quantities
//! that are fractional (hours, percentages, day intervals) are exact
//! fractions.
use vstd::prelude::*;
use crate::clock::{days_between, div_toward_zero, is_instant, now_seconds, whole_days_between, ClockError};
use crate::text::{decimal_digits, i64_to_string, signed_decimal, u64_to_string};

verus! {

/// An exact fraction `numer / denom`; `denom` is positive in every value the
/// library builds.
#[derive(Clone, Copy, Debug, PartialEq, Eq, Structural)]
pub struct Fraction {
    pub numer: i64,
    pub denom: u64,
}

impl Fraction {
    pub open spec fn wf(self) -> bool {
        self.denom > 0
    }

    /// The whole part that a float-to-unsigned `as` cast yields:
    /// negative values give 0, others are rounded down.
    pub open spec fn floor_unsigned(self) -> int {
        if self.numer < 0 {
            0
        } else {
            (self.numer as int) / (self.denom as int)
        }
    }

    /// The fraction `n / 1`.
    pub fn whole(n: i64) -> (f: Fraction)
        ensures
            f.numer == n,
            f.denom == 1,
    {
        Fraction { numer: n, denom: 1 }
    }
}

/// Repository metadata.
#[derive(Clone, Debug)]
pub struct RepoMeta {
    pub owner: String,
    pub name: String,
    pub description: Option<String>,
    pub language: Option<String>,
    pub created_at: i64,
    pub updated_at: i64,
    pub default_branch: String,
    pub forks_count: u64,
    pub open_issues_count: u64,
    pub watchers_count: u64,
}

/// Star history with sparkline data.
#[derive(Clone, Debug)]
pub struct StarHistory {
    pub total_count: u64,
    /// Stars per day over the last 30 days.
    pub sparkline_30d: Vec<u32>,
    /// Stars per bucket over the last 90 days.
    pub sparkline_90d: Vec<u32>,
    /// Stars per bucket over the last year.
    pub sparkline_365d: Vec<u32>,
}

/// A single open issue.
#[derive(Clone, Debug)]
pub struct Issue {
    pub number: u64,
    pub title: String,
    pub author: String,
    pub created_at: i64,
    pub updated_at: i64,
    pub labels: Vec<String>,
    pub comments_count: u64,
}

/// The open issues that carry one label.
#[derive(Clone, Debug)]
pub struct LabelGroup {
    pub label: String,
    pub issues: Vec<Issue>,
}

/// Issue statistics: issues grouped by label (one group per distinct label).
#[derive(Clone, Debug)]
pub struct IssueStats {
    pub total_open: u64,
    pub by_label: Vec<LabelGroup>,
    pub unlabelled: Vec<Issue>,
    /// Whether the issue list was cut at the fetch limit.
    pub truncated: bool,
}

/// A pull request merged in the last 30 days.
#[derive(Clone, Debug)]
pub struct MergedPr {
    pub number: u64,
    pub title: String,
    pub author: String,
    pub created_at: i64,
    pub merged_at: i64,
    /// Hours from creation to merge.
    pub time_to_merge_hours: Fraction,
}

/// Pull request statistics.
#[derive(Clone, Debug)]
pub struct PrStats {
    pub open_count: u64,
    pub draft_count: u64,
    pub ready_count: u64,
    pub merged_last_30d: Vec<MergedPr>,
    /// Mean hours to merge over `merged_last_30d`.
    pub avg_time_to_merge_hours: Option<Fraction>,
}

/// A single contributor.
#[derive(Clone, Debug)]
pub struct Contributor {
    pub username: String,
    pub commit_count: u64,
    pub avatar_url: Option<String>,
}

/// Contributor statistics.
#[derive(Clone, Debug)]
pub struct ContributorStats {
    /// Top contributors by commit count (at most 10).
    pub top_contributors: Vec<Contributor>,
    /// Contributors whose first commit lies in the last 30 days.
    pub new_contributors_last_30d: Vec<String>,
    pub total_unique: u64,
}

/// A release.
#[derive(Clone, Debug)]
pub struct Release {
    pub tag_name: String,
    pub name: Option<String>,
    pub created_at: i64,
    pub published_at: Option<i64>,
    pub prerelease: bool,
    pub draft: bool,
    /// Whole days since publication, relative to the fetch time.
    pub days_since: Option<i64>,
    /// Mean days between consecutive releases; set on the newest release only.
    pub avg_interval: Option<Fraction>,
}

/// Opened and closed counts for one week.
#[derive(Clone, Copy, Debug, PartialEq, Eq, Structural)]
pub struct WeeklyActivity {
    pub week_start: i64,
    pub opened: u64,
    pub closed: u64,
}

/// Weekly activity for issues and pull requests.
#[derive(Clone, Debug)]
pub struct VelocityStats {
    pub issues_weekly: Vec<WeeklyActivity>,
    pub prs_weekly: Vec<WeeklyActivity>,
}

/// Open Dependabot alerts by severity.
#[derive(Clone, Copy, Debug, PartialEq, Eq, Structural)]
pub struct SecurityAlerts {
    pub total_open: u64,
    pub critical_count: u64,
    pub high_count: u64,
    pub medium_count: u64,
    pub low_count: u64,
}

/// One GitHub Actions workflow run.
#[derive(Clone, Debug)]
pub struct WorkflowRun {
    pub name: String,
    pub status: String,
    pub conclusion: Option<String>,
    pub created_at: i64,
    pub duration_seconds: u64,
}

/// CI status over the last 30 days.
#[derive(Clone, Debug)]
pub struct CIStatus {
    pub total_runs_30d: u64,
    /// Percentage of successful runs (0 to 100).
    pub success_rate: Fraction,
    pub avg_duration_seconds: u64,
    /// Up to 10 most recent runs.
    pub recent_runs: Vec<WorkflowRun>,
}

/// Community health profile.
#[derive(Clone, Copy, Debug, PartialEq, Eq, Structural)]
pub struct CommunityHealth {
    pub has_readme: bool,
    pub has_license: bool,
    pub has_contributing: bool,
    pub has_code_of_conduct: bool,
    pub has_issue_templates: bool,
    pub has_pr_template: bool,
    pub has_security_policy: bool,
    /// Overall health percentage (0 to 100).
    pub score: u8,
}

/// GitHub API rate limit information.
#[derive(Clone, Copy, Debug, PartialEq, Eq, Structural)]
pub struct RateLimitInfo {
    pub limit: u64,
    pub remaining: u64,
    pub reset_at: i64,
}

/// A snapshot of repository data at one point in time.
#[derive(Clone, Debug)]
pub struct RepoSnapshot {
    pub fetched_at: i64,
    /// When the previous snapshot was taken, if there was one.
    pub previous_snapshot_at: Option<i64>,
    /// Identifier of this snapshot in history (a UUID's 128 bits).
    pub snapshot_history_id: u128,
    pub repo: RepoMeta,
    pub stars: StarHistory,
    pub issues: IssueStats,
    pub pull_requests: PrStats,
    pub contributors: ContributorStats,
    pub releases: Vec<Release>,
    pub velocity: VelocityStats,
    pub security_alerts: Option<SecurityAlerts>,
    pub ci_status: Option<CIStatus>,
    pub community_health: Option<CommunityHealth>,
}

} // verus!

verus! {

/// Creation times of the issues in `issues`, in order.
pub open spec fn issue_times(issues: Seq<Issue>) -> Seq<i64> {
    issues.map_values(|i: Issue| i.created_at)
}

/// Creation times of every issue in the label groups, group by group.
pub open spec fn group_times(groups: Seq<LabelGroup>) -> Seq<i64>
    decreases groups.len(),
{
    if groups.len() == 0 {
        Seq::empty()
    } else {
        group_times(groups.drop_last()) + issue_times(groups.last().issues@)
    }
}

/// Creation times of all open issues: labelled ones, then unlabelled ones.
pub open spec fn all_issue_times(stats: IssueStats) -> Seq<i64> {
    group_times(stats.by_label@) + issue_times(stats.unlabelled@)
}

/// The least value of a non-empty sequence.
pub open spec fn seq_min(s: Seq<i64>) -> i64
    recommends
        s.len() > 0,
    decreases s.len(),
{
    if s.len() <= 1 {
        s[0]
    } else {
        let m = seq_min(s.drop_last());
        if s.last() < m {
            s.last()
        } else {
            m
        }
    }
}

/// Every issue time lies in the admitted range.
pub open spec fn issue_times_valid(stats: IssueStats) -> bool {
    forall|k: int| 0 <= k < all_issue_times(stats).len() ==> is_instant(#[trigger] all_issue_times(stats)[k])
}

/// Age in whole days of the oldest open issue at `now`, if any issue is open.
pub open spec fn oldest_issue_age(stats: IssueStats, now: i64) -> Option<int> {
    let times = all_issue_times(stats);
    if times.len() == 0 {
        None
    } else {
        Some(whole_days_between(now as int, seq_min(times) as int))
    }
}

proof fn lemma_seq_min_push(s: Seq<i64>, x: i64)
    requires
        s.len() > 0,
    ensures
        seq_min(s.push(x)) == (if x < seq_min(s) { x } else { seq_min(s) }),
        s.contains(seq_min(s)),
    decreases s.len(),
{
    assert(s.push(x).drop_last() =~= s);
    if s.len() > 1 {
        lemma_seq_min_push(s.drop_last(), s.last());
        assert(s.drop_last().push(s.last()) =~= s);
        let m = seq_min(s.drop_last());
        assert(s.drop_last().contains(m));
        if s.last() >= m {
            let k = choose|k: int| 0 <= k < s.drop_last().len() && s.drop_last()[k] == m;
            assert(s[k] == m);
        } else {
            assert(s[s.len() - 1] == s.last());
        }
    } else {
        assert(s[0] == seq_min(s));
    }
}

proof fn lemma_seq_min_in_range(s: Seq<i64>)
    requires
        s.len() > 0,
        forall|k: int| 0 <= k < s.len() ==> is_instant(#[trigger] s[k]),
    ensures
        is_instant(seq_min(s)),
{
    if s.len() > 1 {
        lemma_seq_min_push(s.drop_last(), s.last());
        assert(s.drop_last().push(s.last()) =~= s);
    } else {
        lemma_seq_min_push(s, s[0]);
    }
    let k = choose|k: int| 0 <= k < s.len() && s[k] == seq_min(s);
    assert(is_instant(s[k]));
}

/// Folds the creation times of `issues` into a running minimum.
fn fold_min_times(issues: &Vec<Issue>, acc: Option<i64>) -> (r: Option<i64>)
    ensures
        match acc {
            None => if issues@.len() == 0 {
                r is None
            } else {
                r == Some(seq_min(issue_times(issues@)))
            },
            Some(a) => r == Some(seq_min(seq![a] + issue_times(issues@))),
        },
{
    let mut cur = acc;
    let mut i: usize = 0;
    let ghost prefix0: Seq<i64> = match acc {
        None => Seq::<i64>::empty(),
        Some(a) => seq![a],
    };
    while i < issues.len()
        invariant
            i <= issues@.len(),
            prefix0 == (match acc {
                None => Seq::<i64>::empty(),
                Some(a) => seq![a],
            }),
            ({
                let seen = prefix0 + issue_times(issues@).subrange(0, i as int);
                if seen.len() == 0 {
                    cur is None
                } else {
                    cur == Some(seq_min(seen))
                }
            }),
        decreases issues@.len() - i,
    {
        let t = issues[i].created_at;
        let ghost seen_before = prefix0 + issue_times(issues@).subrange(0, i as int);
        let ghost seen_after = prefix0 + issue_times(issues@).subrange(0, i + 1);
        assert(seen_after =~= seen_before.push(t));
        match cur {
            None => {
                assert(seen_before.len() == 0);
                assert(seen_after =~= seq![t]);
                cur = Some(t);
            },
            Some(m) => {
                proof {
                    lemma_seq_min_push(seen_before, t);
                }
                if t < m {
                    cur = Some(t);
                }
            },
        }
        i = i + 1;
    }
    assert(issue_times(issues@).subrange(0, i as int) =~= issue_times(issues@));
    match acc {
        None => {
            assert(prefix0 + issue_times(issues@) =~= issue_times(issues@));
        },
        Some(a) => {},
    }
    cur
}

impl RepoSnapshot {
    /// Age in whole days, at instant `now`, of the oldest open issue
    /// (labelled or not); `None` when no issue is listed.
    pub fn oldest_issue_age_days_at(&self, now: i64) -> (r: Option<i64>)
        requires
            is_instant(now),
            issue_times_valid(self.issues),
        ensures
            r == (match oldest_issue_age(self.issues, now) {
                None => None,
                Some(d) => Some(d as i64),
            }),
            r is Some <==> all_issue_times(self.issues).len() > 0,
    {
        let mut acc: Option<i64> = None;
        let mut g: usize = 0;
        let groups = &self.issues.by_label;
        while g < groups.len()
            invariant
                g <= groups@.len(),
                groups == &self.issues.by_label,
                ({
                    let seen = group_times(groups@.subrange(0, g as int));
                    if seen.len() == 0 {
                        acc is None
                    } else {
                        acc == Some(seq_min(seen))
                    }
                }),
            decreases groups@.len() - g,
        {
            let ghost before = group_times(groups@.subrange(0, g as int));
            assert(groups@.subrange(0, g + 1).drop_last() =~= groups@.subrange(0, g as int));
            let ghost after = group_times(groups@.subrange(0, g + 1));
            assert(after == before + issue_times(groups@[g as int].issues@));
            proof {
                if before.len() > 0 {
                    lemma_seq_min_concat(before, issue_times(groups@[g as int].issues@));
                }
            }
            acc = fold_min_times(&groups[g].issues, acc);
            proof {
                if before.len() == 0 {
                    assert(after =~= issue_times(groups@[g as int].issues@));
                }
            }
            g = g + 1;
        }
        assert(groups@.subrange(0, g as int) =~= groups@);
        let ghost gt = group_times(groups@);
        let ghost ut = issue_times(self.issues.unlabelled@);
        proof {
            if gt.len() > 0 {
                lemma_seq_min_concat(gt, ut);
            } else {
                assert(all_issue_times(self.issues) =~= ut);
            }
        }
        let oldest = fold_min_times(&self.issues.unlabelled, acc);
        match oldest {
            None => None,
            Some(t) => {
                proof {
                    lemma_seq_min_in_range(all_issue_times(self.issues));
                }
                Some(days_between(now, t))
            },
        }
    }

    /// Age in whole days of the oldest open issue, measured now; an error
    /// when the system clock cannot be read.
    pub fn oldest_issue_age_days(&self) -> (r: Result<Option<i64>, ClockError>)
        requires
            issue_times_valid(self.issues),
        ensures
            r matches Ok(a) ==> {
                &&& a is Some <==> all_issue_times(self.issues).len() > 0
                &&& exists|now: i64|
                    is_instant(now) && a == (match oldest_issue_age(self.issues, now) {
                        None => None,
                        Some(d) => Some(d as i64),
                    })
            },
    {
        let now = now_seconds()?;
        Ok(self.oldest_issue_age_days_at(now))
    }

    /// Days since the newest release, if it has a publication date.
    pub fn days_since_last_release(&self) -> (r: Option<i64>)
        ensures
            r == (if self.releases@.len() == 0 {
                None
            } else {
                self.releases@[0].days_since
            }),
    {
        if self.releases.len() == 0 {
            None
        } else {
            self.releases[0].days_since
        }
    }

    /// Number of open issues.
    pub fn open_issues_count(&self) -> (r: u64)
        ensures
            r == self.issues.total_open,
    {
        self.issues.total_open
    }

    /// Number of open pull requests.
    pub fn open_prs_count(&self) -> (r: u64)
        ensures
            r == self.pull_requests.open_count,
    {
        self.pull_requests.open_count
    }

    /// The repository's GitHub URL.
    pub fn repo_url(&self) -> (r: String)
        ensures
            r@ == "https://github.com/"@ + self.repo.owner@ + "/"@ + self.repo.name@,
    {
        let s = String::from_str("https://github.com/");
        let s = s.concat(self.repo.owner.as_str());
        let s = s.concat("/");
        s.concat(self.repo.name.as_str())
    }

    /// An issue reference `owner/repo#number`.
    pub fn format_issue_reference(&self, issue_number: u64) -> (r: String)
        ensures
            r@ == self.repo.owner@ + "/"@ + self.repo.name@ + "#"@ + decimal_digits(
                issue_number as nat,
            ),
    {
        let s = self.repo.owner.clone();
        let s = s.concat("/");
        let s = s.concat(self.repo.name.as_str());
        let s = s.concat("#");
        let num = u64_to_string(issue_number);
        s.concat(num.as_str())
    }
}

proof fn lemma_seq_min_concat(a: Seq<i64>, b: Seq<i64>)
    requires
        a.len() > 0,
    ensures
        seq_min(a + b) == seq_min(seq![seq_min(a)] + b),
    decreases b.len(),
{
    if b.len() == 0 {
        assert(a + b =~= a);
        assert(seq![seq_min(a)] + b =~= seq![seq_min(a)]);
    } else {
        lemma_seq_min_concat(a, b.drop_last());
        assert((a + b).drop_last() =~= a + b.drop_last());
        assert((seq![seq_min(a)] + b).drop_last() =~= seq![seq_min(a)] + b.drop_last());
    }
}

} // verus!

verus! {

/// Differences between two snapshots, for side-by-side comparison.
#[derive(Clone, Copy, Debug, PartialEq, Eq, Structural)]
pub struct SnapshotDiff {
    /// When the previous snapshot was taken.
    pub previous_fetched_at: i64,
    pub stars_delta: i64,
    pub issues_delta: i64,
    pub prs_delta: i64,
    /// New alerts per severity (never negative).
    pub new_security_critical: u64,
    pub new_security_high: u64,
    pub new_security_medium: u64,
    pub new_security_low: u64,
    pub contributors_delta: i64,
    pub forks_delta: i64,
    pub watchers_delta: i64,
    pub releases_delta: i64,
}

/// `a - b` where both counts are first cast to `i64` (wrapping, as `as` does).
pub open spec fn signed_delta(a: u64, b: u64) -> int {
    (a as i64) - (b as i64)
}

/// The delta fits in an `i64`.
pub open spec fn delta_fits(a: u64, b: u64) -> bool {
    i64::MIN <= signed_delta(a, b) <= i64::MAX
}

/// Severity counts of an optional alert set; absent alerts count as zero.
pub open spec fn alert_counts(s: Option<SecurityAlerts>) -> (u64, u64, u64, u64) {
    match s {
        None => (0, 0, 0, 0),
        Some(a) => (a.critical_count, a.high_count, a.medium_count, a.low_count),
    }
}

/// `a - b`, or 0 when `b >= a`.
pub open spec fn saturating_diff(a: u64, b: u64) -> u64 {
    if a >= b {
        (a - b) as u64
    } else {
        0
    }
}

/// Every delta of `compute(current, previous)` fits in an `i64`.
pub open spec fn diff_fits(current: RepoSnapshot, previous: RepoSnapshot) -> bool {
    &&& delta_fits(current.stars.total_count, previous.stars.total_count)
    &&& delta_fits(current.issues.total_open, previous.issues.total_open)
    &&& delta_fits(current.pull_requests.open_count, previous.pull_requests.open_count)
    &&& delta_fits(current.contributors.total_unique, previous.contributors.total_unique)
    &&& delta_fits(current.repo.forks_count, previous.repo.forks_count)
    &&& delta_fits(current.repo.watchers_count, previous.repo.watchers_count)
    &&& current.releases@.len() <= i64::MAX
    &&& previous.releases@.len() <= i64::MAX
}

fn delta(a: u64, b: u64) -> (d: i64)
    requires
        delta_fits(a, b),
    ensures
        d == signed_delta(a, b),
{
    let x: i64 = a as i64;
    let y: i64 = b as i64;
    x - y
}

/// The differences `current - previous`: signed deltas of the counts,
/// and the growth of each alert severity (never below zero).
pub open spec fn diff_of(current: RepoSnapshot, previous: RepoSnapshot) -> SnapshotDiff {
    let c = alert_counts(current.security_alerts);
    let p = alert_counts(previous.security_alerts);
    SnapshotDiff {
        previous_fetched_at: previous.fetched_at,
        stars_delta: signed_delta(current.stars.total_count, previous.stars.total_count) as i64,
        issues_delta: signed_delta(current.issues.total_open, previous.issues.total_open) as i64,
        prs_delta: signed_delta(current.pull_requests.open_count, previous.pull_requests.open_count) as i64,
        new_security_critical: saturating_diff(c.0, p.0),
        new_security_high: saturating_diff(c.1, p.1),
        new_security_medium: saturating_diff(c.2, p.2),
        new_security_low: saturating_diff(c.3, p.3),
        contributors_delta: signed_delta(
            current.contributors.total_unique,
            previous.contributors.total_unique,
        ) as i64,
        forks_delta: signed_delta(current.repo.forks_count, previous.repo.forks_count) as i64,
        watchers_delta: signed_delta(current.repo.watchers_count, previous.repo.watchers_count) as i64,
        releases_delta: (current.releases@.len() - previous.releases@.len()) as i64,
    }
}

fn alert_tuple(s: &Option<SecurityAlerts>) -> (r: (u64, u64, u64, u64))
    ensures
        r == alert_counts(*s),
{
    match s {
        None => (0, 0, 0, 0),
        Some(a) => (a.critical_count, a.high_count, a.medium_count, a.low_count),
    }
}

impl SnapshotDiff {
    /// The differences `current - previous`.
    pub fn compute(current: &RepoSnapshot, previous: &RepoSnapshot) -> (d: SnapshotDiff)
        requires
            diff_fits(*current, *previous),
        ensures
            d == diff_of(*current, *previous),
    {
        let c = alert_tuple(&current.security_alerts);
        let p = alert_tuple(&previous.security_alerts);
        let cur_releases: i64 = current.releases.len() as i64;
        let prev_releases: i64 = previous.releases.len() as i64;
        SnapshotDiff {
            previous_fetched_at: previous.fetched_at,
            stars_delta: delta(current.stars.total_count, previous.stars.total_count),
            issues_delta: delta(current.issues.total_open, previous.issues.total_open),
            prs_delta: delta(current.pull_requests.open_count, previous.pull_requests.open_count),
            new_security_critical: c.0.saturating_sub(p.0),
            new_security_high: c.1.saturating_sub(p.1),
            new_security_medium: c.2.saturating_sub(p.2),
            new_security_low: c.3.saturating_sub(p.3),
            contributors_delta: delta(
                current.contributors.total_unique,
                previous.contributors.total_unique,
            ),
            forks_delta: delta(current.repo.forks_count, previous.repo.forks_count),
            watchers_delta: delta(current.repo.watchers_count, previous.repo.watchers_count),
            releases_delta: cur_releases - prev_releases,
        }
    }

    /// Comparing a snapshot with itself shows no change and no new
    /// alerts.
    pub proof fn lemma_diff_with_itself_is_empty(s: RepoSnapshot)
        requires
            diff_fits(s, s),
        ensures
            ({
                let d = diff_of(s, s);
                &&& d.previous_fetched_at == s.fetched_at
                &&& d.stars_delta == 0 && d.issues_delta == 0 && d.prs_delta == 0
                &&& d.contributors_delta == 0 && d.forks_delta == 0 && d.watchers_delta == 0
                &&& d.releases_delta == 0
                &&& d.new_security_critical == 0 && d.new_security_high == 0
                &&& d.new_security_medium == 0 && d.new_security_low == 0
            }),
    {
    }

    /// Each delta is its own count now minus the same count before (for
    /// counts that fit an `i64`), and each severity's new alerts are how
    /// many more of that severity there are now, never below zero.
    pub proof fn lemma_diff_is_field_by_field(current: RepoSnapshot, previous: RepoSnapshot)
        requires
            current.stars.total_count <= i64::MAX && previous.stars.total_count <= i64::MAX,
            current.issues.total_open <= i64::MAX && previous.issues.total_open <= i64::MAX,
            current.pull_requests.open_count <= i64::MAX && previous.pull_requests.open_count <= i64::MAX,
            current.contributors.total_unique <= i64::MAX && previous.contributors.total_unique <= i64::MAX,
            current.repo.forks_count <= i64::MAX && previous.repo.forks_count <= i64::MAX,
            current.repo.watchers_count <= i64::MAX && previous.repo.watchers_count <= i64::MAX,
            current.releases@.len() <= i64::MAX && previous.releases@.len() <= i64::MAX,
        ensures
            diff_fits(current, previous),
            ({
                let d = diff_of(current, previous);
                &&& d.previous_fetched_at == previous.fetched_at
                &&& d.stars_delta == current.stars.total_count - previous.stars.total_count
                &&& d.issues_delta == current.issues.total_open - previous.issues.total_open
                &&& d.prs_delta == current.pull_requests.open_count - previous.pull_requests.open_count
                &&& d.contributors_delta == current.contributors.total_unique
                    - previous.contributors.total_unique
                &&& d.forks_delta == current.repo.forks_count - previous.repo.forks_count
                &&& d.watchers_delta == current.repo.watchers_count - previous.repo.watchers_count
                &&& d.releases_delta == current.releases@.len() - previous.releases@.len()
            }),
            ({
                let d = diff_of(current, previous);
                let now_c = match current.security_alerts { Some(a) => a.critical_count as int, None => 0 };
                let was_c = match previous.security_alerts { Some(a) => a.critical_count as int, None => 0 };
                let now_h = match current.security_alerts { Some(a) => a.high_count as int, None => 0 };
                let was_h = match previous.security_alerts { Some(a) => a.high_count as int, None => 0 };
                let now_m = match current.security_alerts { Some(a) => a.medium_count as int, None => 0 };
                let was_m = match previous.security_alerts { Some(a) => a.medium_count as int, None => 0 };
                let now_l = match current.security_alerts { Some(a) => a.low_count as int, None => 0 };
                let was_l = match previous.security_alerts { Some(a) => a.low_count as int, None => 0 };
                &&& d.new_security_critical == (if now_c > was_c { now_c - was_c } else { 0 })
                &&& d.new_security_high == (if now_h > was_h { now_h - was_h } else { 0 })
                &&& d.new_security_medium == (if now_m > was_m { now_m - was_m } else { 0 })
                &&& d.new_security_low == (if now_l > was_l { now_l - was_l } else { 0 })
            }),
    {
    }

    /// Comparing the other way round negates every count delta, and new
    /// alerts show in at most one direction for each severity.
    pub proof fn lemma_diff_swapped_negates(a: RepoSnapshot, b: RepoSnapshot)
        requires
            diff_fits(a, b),
            diff_fits(b, a),
        ensures
            ({
                let d = diff_of(a, b);
                let e = diff_of(b, a);
                &&& d.stars_delta == -e.stars_delta && d.issues_delta == -e.issues_delta
                &&& d.prs_delta == -e.prs_delta && d.contributors_delta == -e.contributors_delta
                &&& d.forks_delta == -e.forks_delta && d.watchers_delta == -e.watchers_delta
                &&& d.releases_delta == -e.releases_delta
                &&& (d.new_security_critical == 0 || e.new_security_critical == 0)
                &&& (d.new_security_high == 0 || e.new_security_high == 0)
                &&& (d.new_security_medium == 0 || e.new_security_medium == 0)
                &&& (d.new_security_low == 0 || e.new_security_low == 0)
            }),
    {
    }

    /// Whether any severity has new alerts.
    pub fn has_new_security_alerts(&self) -> (r: bool)
        ensures
            r == (self.new_security_critical > 0 || self.new_security_high > 0
                || self.new_security_medium > 0 || self.new_security_low > 0),
    {
        self.new_security_critical > 0 || self.new_security_high > 0
            || self.new_security_medium > 0 || self.new_security_low > 0
    }
}

} // verus!

verus! {

/// The "last viewed" text for a snapshot taken at `previous`, seen at `now`.
pub open spec fn time_ago_text(now: int, previous: int) -> Seq<char> {
    let minutes = div_toward_zero(now - previous, 60);
    let hours = div_toward_zero(now - previous, 3600);
    let days = div_toward_zero(now - previous, 86400);
    if minutes < 60 {
        signed_decimal(minutes) + " min ago"@
    } else if hours < 24 {
        signed_decimal(hours) + " hours ago"@
    } else {
        signed_decimal(days) + " days ago"@
    }
}

fn div_i64_toward_zero(a: i64, b: i64) -> (q: i64)
    requires
        b > 0,
        a > i64::MIN,
    ensures
        q == div_toward_zero(a as int, b as int),
{
    if a >= 0 {
        a / b
    } else {
        let p: i64 = -a;
        -(p / b)
    }
}

impl SnapshotDiff {
    /// "N min ago", "N hours ago" or "N days ago", measured at `now`.
    pub fn format_time_ago_at(&self, now: i64) -> (s: String)
        requires
            is_instant(now),
            is_instant(self.previous_fetched_at),
        ensures
            s@ == time_ago_text(now as int, self.previous_fetched_at as int),
    {
        let diff: i64 = now - self.previous_fetched_at;
        let minutes = div_i64_toward_zero(diff, 60);
        let hours = div_i64_toward_zero(diff, 3600);
        if minutes < 60 {
            i64_to_string(minutes).concat(" min ago")
        } else if hours < 24 {
            i64_to_string(hours).concat(" hours ago")
        } else {
            let days = div_i64_toward_zero(diff, 86400);
            i64_to_string(days).concat(" days ago")
        }
    }

    /// "N min ago", "N hours ago" or "N days ago", measured now; an error
    /// when the system clock cannot be read.
    pub fn format_time_ago(&self) -> (r: Result<String, ClockError>)
        requires
            is_instant(self.previous_fetched_at),
        ensures
            r matches Ok(s) ==> exists|now: i64|
                is_instant(now) && s@ == time_ago_text(now as int, self.previous_fetched_at as int),
    {
        let now = now_seconds()?;
        Ok(self.format_time_ago_at(now))
    }
}

} // verus!
