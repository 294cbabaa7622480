//! Repository health score: a total from 0 to 100 made of four sub-scores
//! of 0 to 25 each.
//!
//! - Activity: issue and PR velocity, merge rate and speed, recent activity,
//!   CI success rate.
//! - Community: contributor count and spread, new contributors, issue
//!   engagement.
//! - Maintenance: release cadence, security alerts, issue resolution,
//!   community health profile.
//! - Growth: star velocity and total, forks and watchers.
use vstd::prelude::*;
use crate::clock::{is_instant, now_seconds, ClockError};
use crate::sums::{lemma_seq_sum_concat, lemma_seq_sum_prefix_le, lemma_seq_sum_step, seq_sum};
use crate::models::{
    oldest_issue_age, issue_times_valid, CIStatus, CommunityHealth, Contributor, ContributorStats, Fraction,
    Issue, IssueStats, LabelGroup, PrStats, RepoSnapshot, Release, SecurityAlerts, VelocityStats,
    WeeklyActivity,
};

verus! {

/// Letter grade by total score.
#[derive(Clone, Copy, Debug, PartialEq, Eq, Structural)]
pub enum HealthGrade {
    /// 90 to 100
    Excellent,
    /// 75 to 89
    Good,
    /// 50 to 74
    Fair,
    /// 25 to 49
    NeedsAttention,
    /// 0 to 24
    Critical,
}

/// Total score with its four sub-scores and grade.
#[derive(Clone, Copy, Debug, PartialEq, Eq, Structural)]
pub struct HealthScore {
    pub total: u8,
    pub activity: u8,
    pub community: u8,
    pub maintenance: u8,
    pub growth: u8,
    pub grade: HealthGrade,
}

/// The grade of a total score.
pub open spec fn grade_for(score: u8) -> HealthGrade {
    if 90 <= score && score <= 100 {
        HealthGrade::Excellent
    } else if 75 <= score && score <= 89 {
        HealthGrade::Good
    } else if 50 <= score && score <= 74 {
        HealthGrade::Fair
    } else if 25 <= score && score <= 49 {
        HealthGrade::NeedsAttention
    } else {
        HealthGrade::Critical
    }
}

/// Grades ordered from worst (0) to best (4).
pub open spec fn grade_rank(g: HealthGrade) -> int {
    match g {
        HealthGrade::Critical => 0,
        HealthGrade::NeedsAttention => 1,
        HealthGrade::Fair => 2,
        HealthGrade::Good => 3,
        HealthGrade::Excellent => 4,
    }
}

impl HealthGrade {
    /// Single-letter grade.
    pub fn as_letter(&self) -> (c: char)
        ensures
            c == (match *self {
                HealthGrade::Excellent => 'A',
                HealthGrade::Good => 'B',
                HealthGrade::Fair => 'C',
                HealthGrade::NeedsAttention => 'D',
                HealthGrade::Critical => 'F',
            }),
    {
        match self {
            HealthGrade::Excellent => 'A',
            HealthGrade::Good => 'B',
            HealthGrade::Fair => 'C',
            HealthGrade::NeedsAttention => 'D',
            HealthGrade::Critical => 'F',
        }
    }

    /// Full text label.
    pub fn as_label(&self) -> (s: &'static str)
        ensures
            s@ == (match *self {
                HealthGrade::Excellent => "Excellent"@,
                HealthGrade::Good => "Good"@,
                HealthGrade::Fair => "Fair"@,
                HealthGrade::NeedsAttention => "Needs Attention"@,
                HealthGrade::Critical => "Critical"@,
            }),
    {
        match self {
            HealthGrade::Excellent => "Excellent",
            HealthGrade::Good => "Good",
            HealthGrade::Fair => "Fair",
            HealthGrade::NeedsAttention => "Needs Attention",
            HealthGrade::Critical => "Critical",
        }
    }

    /// ANSI color escape for terminal display.
    pub fn color_code(&self) -> (s: &'static str)
        ensures
            s@ == (match *self {
                HealthGrade::Excellent => "\x1b[32m"@,
                HealthGrade::Good => "\x1b[36m"@,
                HealthGrade::Fair => "\x1b[33m"@,
                HealthGrade::NeedsAttention => "\x1b[38;5;208m"@,
                HealthGrade::Critical => "\x1b[31m"@,
            }),
    {
        match self {
            HealthGrade::Excellent => "\x1b[32m",
            HealthGrade::Good => "\x1b[36m",
            HealthGrade::Fair => "\x1b[33m",
            HealthGrade::NeedsAttention => "\x1b[38;5;208m",
            HealthGrade::Critical => "\x1b[31m",
        }
    }
}

impl From<u8> for HealthGrade {
    fn from(score: u8) -> (g: HealthGrade) {
        if 90 <= score && score <= 100 {
            HealthGrade::Excellent
        } else if 75 <= score && score <= 89 {
            HealthGrade::Good
        } else if 50 <= score && score <= 74 {
            HealthGrade::Fair
        } else if 25 <= score && score <= 49 {
            HealthGrade::NeedsAttention
        } else {
            HealthGrade::Critical
        }
    }
}

impl vstd::std_specs::convert::FromSpecImpl<u8> for HealthGrade {
    open spec fn obeys_from_spec() -> bool {
        true
    }

    open spec fn from_spec(score: u8) -> HealthGrade {
        grade_for(score)
    }
}

} // verus!

verus! {

// ---------------------------------------------------------------------------
// Sums over the model
// ---------------------------------------------------------------------------

/// Total issues (or PRs) opened over the weeks.
pub open spec fn sum_opened_fn() -> spec_fn(WeeklyActivity) -> nat {
    |x: WeeklyActivity| (x.opened as nat)
}

pub open spec fn sum_opened(s: Seq<WeeklyActivity>) -> nat {
    seq_sum(s, sum_opened_fn())
}

/// Total issues closed (or PRs merged) over the weeks.
pub open spec fn sum_closed_fn() -> spec_fn(WeeklyActivity) -> nat {
    |x: WeeklyActivity| (x.closed as nat)
}

pub open spec fn sum_closed(s: Seq<WeeklyActivity>) -> nat {
    seq_sum(s, sum_closed_fn())
}

/// Mean opened per week, rounded down; 0 for no weeks.
pub open spec fn mean_opened(s: Seq<WeeklyActivity>) -> nat {
    if s.len() == 0 {
        0
    } else {
        sum_opened(s) / s.len()
    }
}

/// Total commits of the listed contributors.
pub open spec fn sum_commits_fn() -> spec_fn(Contributor) -> nat {
    |x: Contributor| (x.commit_count as nat)
}

pub open spec fn sum_commits(s: Seq<Contributor>) -> nat {
    seq_sum(s, sum_commits_fn())
}

/// Total comments on a list of issues.
pub open spec fn sum_comments_fn() -> spec_fn(Issue) -> nat {
    |x: Issue| (x.comments_count as nat)
}

pub open spec fn sum_comments(s: Seq<Issue>) -> nat {
    seq_sum(s, sum_comments_fn())
}

/// Total comments on the issues of the label groups.
pub open spec fn group_comments_fn() -> spec_fn(LabelGroup) -> nat {
    |g: LabelGroup| sum_comments(g.issues@)
}

pub open spec fn group_comments(g: Seq<LabelGroup>) -> nat {
    seq_sum(g, group_comments_fn())
}

/// Total comments on all listed open issues.
pub open spec fn total_comments(stats: IssueStats) -> nat {
    group_comments(stats.by_label@) + sum_comments(stats.unlabelled@)
}

/// Sum of sparkline values.
pub open spec fn star_fn() -> spec_fn(u32) -> nat {
    |x: u32| (x as nat)
}

pub open spec fn star_sum(s: Seq<u32>) -> nat {
    seq_sum(s, star_fn())
}

/// Mean of the sparkline per bucket, rounded down (an empty sparkline counts
/// as one bucket).
pub open spec fn daily_mean(s: Seq<u32>) -> nat {
    if s.len() == 0 {
        star_sum(s)
    } else {
        star_sum(s) / s.len()
    }
}

// ---------------------------------------------------------------------------
// Activity
// ---------------------------------------------------------------------------

pub open spec fn velocity_points(weekly: nat) -> nat {
    if weekly == 0 {
        0
    } else if weekly <= 5 {
        2
    } else if weekly <= 10 {
        4
    } else if weekly <= 20 {
        6
    } else if weekly <= 30 {
        8
    } else {
        10
    }
}

pub open spec fn merge_count_points(n: nat) -> nat {
    if n == 0 {
        0
    } else if n <= 2 {
        2
    } else if n <= 5 {
        4
    } else if n <= 10 {
        6
    } else {
        8
    }
}

/// Points for the mean merge time, taken in whole hours.
pub open spec fn merge_speed_points(avg: Option<Fraction>) -> nat {
    match avg {
        None => 0,
        Some(f) => {
            let h = f.floor_unsigned();
            if h <= 24 {
                4
            } else if h <= 72 {
                3
            } else if h <= 168 {
                2
            } else if h <= 336 {
                1
            } else {
                0
            }
        },
    }
}

/// Whether the first week of either series saw any activity.
pub open spec fn recent_activity(v: VelocityStats) -> bool {
    (v.issues_weekly@.len() > 0 && (v.issues_weekly@[0].opened > 0 || v.issues_weekly@[0].closed
        > 0)) || (v.prs_weekly@.len() > 0 && (v.prs_weekly@[0].opened > 0
        || v.prs_weekly@[0].closed > 0))
}

/// Bonus of up to 5 points: five times the success fraction, rounded down.
pub open spec fn ci_bonus(ci: Option<CIStatus>) -> nat {
    match ci {
        None => 0,
        Some(c) => {
            let r = c.success_rate;
            if r.numer < 0 {
                0
            } else {
                let b = (r.numer as int) / (20 * r.denom as int);
                if b > 5 {
                    5
                } else {
                    b as nat
                }
            }
        },
    }
}

pub open spec fn cap25(x: nat) -> nat {
    if x > 25 {
        25
    } else {
        x
    }
}

pub open spec fn activity_score(s: RepoSnapshot) -> nat {
    cap25(
        velocity_points(mean_opened(s.velocity.issues_weekly@) + mean_opened(
            s.velocity.prs_weekly@,
        )) + merge_count_points(s.pull_requests.merged_last_30d@.len()) + merge_speed_points(
            s.pull_requests.avg_time_to_merge_hours,
        ) + (if recent_activity(s.velocity) {
            3nat
        } else {
            0nat
        }) + ci_bonus(s.ci_status),
    )
}

// ---------------------------------------------------------------------------
// Community
// ---------------------------------------------------------------------------

pub open spec fn contributor_count_points(n: nat) -> nat {
    if n == 0 {
        0
    } else if n <= 5 {
        2
    } else if n <= 10 {
        4
    } else if n <= 25 {
        6
    } else if n <= 50 {
        8
    } else {
        10
    }
}

/// Points for how little the top contributor dominates the commit count.
pub open spec fn concentration_points(top: Seq<Contributor>) -> nat {
    if top.len() == 0 {
        0
    } else if sum_commits(top) == 0 {
        0
    } else {
        let pct = (top[0].commit_count * 100) / (sum_commits(top) as int);
        if pct <= 39 {
            5
        } else if pct <= 59 {
            3
        } else if pct <= 79 {
            2
        } else {
            1
        }
    }
}

pub open spec fn new_contributor_points(n: nat) -> nat {
    if n == 0 {
        0
    } else if n == 1 {
        2
    } else if n <= 3 {
        3
    } else if n <= 5 {
        4
    } else {
        5
    }
}

/// Points for the mean number of comments per open issue.
pub open spec fn comment_points(comments: nat, open: nat) -> nat {
    if open == 0 {
        0
    } else if comments >= 3 * open {
        3
    } else if comments >= open {
        2
    } else if comments > 0 {
        1
    } else {
        0
    }
}

/// Points for the age in days of the oldest issue (0 when there is none).
pub open spec fn age_points(oldest: Option<int>) -> nat {
    let a = match oldest {
        None => 0,
        Some(d) => d,
    };
    if a < 30 {
        2
    } else if a < 90 {
        1
    } else {
        0
    }
}

pub open spec fn community_score(s: RepoSnapshot, now: i64) -> nat {
    let engagement = comment_points(total_comments(s.issues), s.issues.total_open as nat)
        + age_points(oldest_issue_age(s.issues, now));
    cap25(
        contributor_count_points(s.contributors.total_unique as nat) + concentration_points(
            s.contributors.top_contributors@,
        ) + new_contributor_points(s.contributors.new_contributors_last_30d@.len()) + (
        if engagement > 5 {
            5
        } else {
            engagement
        }),
    )
}

// ---------------------------------------------------------------------------
// Maintenance
// ---------------------------------------------------------------------------

/// Points taken off for release cadence.
pub open spec fn release_deduction(releases: Seq<Release>) -> nat {
    if releases.len() == 0 {
        10
    } else {
        match releases[0].days_since {
            None => 5,
            Some(d) => if 0 <= d && d <= 30 {
                0
            } else if 31 <= d && d <= 60 {
                2
            } else if 61 <= d && d <= 90 {
                4
            } else if 91 <= d && d <= 180 {
                6
            } else {
                10
            },
        }
    }
}

/// Points taken off for open security alerts (by the most severe level).
pub open spec fn security_deduction(alerts: Option<SecurityAlerts>) -> nat {
    match alerts {
        None => 0,
        Some(a) => if a.critical_count > 0 {
            8
        } else if a.high_count > 0 {
            if a.high_count <= 2 {
                4
            } else if a.high_count <= 5 {
                6
            } else {
                8
            }
        } else if a.medium_count > 0 {
            if a.medium_count <= 3 {
                2
            } else if a.medium_count <= 10 {
                3
            } else {
                4
            }
        } else if a.low_count > 0 {
            1
        } else {
            0
        },
    }
}

/// Points (0 to 7) for the ratio of issues closed to issues opened.
pub open spec fn resolution_points(opened: nat, closed: nat) -> nat {
    if opened == 0 {
        7
    } else if 5 * closed >= 6 * opened {
        7
    } else if closed >= opened {
        6
    } else if 5 * closed >= 4 * opened {
        4
    } else if 2 * closed >= opened {
        2
    } else {
        0
    }
}

/// Bonus (0 to 5) for the community health percentage.
pub open spec fn community_bonus(c: Option<CommunityHealth>) -> nat {
    match c {
        None => 0,
        Some(h) => if 90 <= h.score && h.score <= 100 {
            5
        } else if 75 <= h.score && h.score <= 89 {
            4
        } else if 60 <= h.score && h.score <= 74 {
            3
        } else if 40 <= h.score && h.score <= 59 {
            2
        } else if 20 <= h.score && h.score <= 39 {
            1
        } else {
            0
        },
    }
}

pub open spec fn maintenance_score(s: RepoSnapshot) -> nat {
    let base: int = 25 - release_deduction(s.releases@) - security_deduction(s.security_alerts);
    let res = resolution_points(
        sum_opened(s.velocity.issues_weekly@),
        sum_closed(s.velocity.issues_weekly@),
    );
    let after: int = if base >= 7 - res {
        base - (7 - res)
    } else {
        0
    };
    cap25((after + community_bonus(s.community_health)) as nat)
}

// ---------------------------------------------------------------------------
// Growth
// ---------------------------------------------------------------------------

pub open spec fn star_velocity_points(daily: nat) -> nat {
    if daily == 0 {
        0
    } else if daily <= 2 {
        3
    } else if daily <= 5 {
        6
    } else if daily <= 10 {
        9
    } else if daily <= 20 {
        12
    } else {
        15
    }
}

pub open spec fn star_total_points(total: nat) -> nat {
    if total <= 10 {
        0
    } else if total <= 50 {
        1
    } else if total <= 100 {
        2
    } else if total <= 500 {
        3
    } else if total <= 1000 {
        4
    } else {
        5
    }
}

pub open spec fn engagement_points(forks: nat, watchers: nat) -> nat {
    if forks == 0 && watchers == 0 {
        0
    } else if forks >= 10 || watchers >= 10 {
        3
    } else if forks >= 5 || watchers >= 5 {
        2
    } else {
        1
    }
}

/// The stars of the last 30 days arrive faster per day than those of the
/// last 90 days: `s30 / 30 > s90 / 90`, that is `3 * s30 > s90`.
pub open spec fn accelerating(h: crate::models::StarHistory) -> bool {
    3 * star_sum(h.sparkline_30d@) > star_sum(h.sparkline_90d@)
}

pub open spec fn growth_score(s: RepoSnapshot) -> nat {
    let d30 = daily_mean(s.stars.sparkline_30d@);
    cap25(
        star_velocity_points(d30) + (if accelerating(s.stars) {
            2nat
        } else {
            0nat
        }) + star_total_points(s.stars.total_count as nat) + engagement_points(
            s.repo.forks_count as nat,
            s.repo.watchers_count as nat,
        ),
    )
}

/// The inputs meet the bounds under which the computation neither overflows
/// nor divides by zero.
pub open spec fn score_inputs_ok(s: RepoSnapshot) -> bool {
    &&& sum_opened(s.velocity.issues_weekly@) <= u64::MAX
    &&& sum_opened(s.velocity.prs_weekly@) <= u64::MAX
    &&& mean_opened(s.velocity.issues_weekly@) + mean_opened(s.velocity.prs_weekly@) <= u64::MAX
    &&& sum_closed(s.velocity.issues_weekly@) <= u64::MAX
    &&& sum_commits(s.contributors.top_contributors@) <= u64::MAX
    &&& (s.contributors.top_contributors@.len() > 0 && sum_commits(
        s.contributors.top_contributors@,
    ) > 0 ==> s.contributors.top_contributors@[0].commit_count * 100 <= u64::MAX)
    &&& total_comments(s.issues) <= u64::MAX
    &&& star_sum(s.stars.sparkline_30d@) <= u64::MAX
    &&& star_sum(s.stars.sparkline_90d@) <= u64::MAX
    &&& issue_times_valid(s.issues)
    &&& (s.pull_requests.avg_time_to_merge_hours matches Some(f) ==> f.wf())
    &&& (s.ci_status matches Some(c) ==> c.success_rate.wf())
}

} // verus!

verus! {

// ---------------------------------------------------------------------------
// Executable scoring
// ---------------------------------------------------------------------------

fn total_opened(weeks: &Vec<WeeklyActivity>) -> (r: u64)
    requires
        sum_opened(weeks@) <= u64::MAX,
    ensures
        r == sum_opened(weeks@),
{
    let mut total: u64 = 0;
    let mut i: usize = 0;
    while i < weeks.len()
        invariant
            i <= weeks@.len(),
            total == seq_sum(weeks@.subrange(0, i as int), sum_opened_fn()),
            seq_sum(weeks@, sum_opened_fn()) <= u64::MAX,
        decreases weeks@.len() - i,
    {
        proof {
            lemma_seq_sum_step(weeks@, sum_opened_fn(), i as int);
            lemma_seq_sum_prefix_le(weeks@, sum_opened_fn(), i + 1);
        }
        total = total + weeks[i].opened;
        i = i + 1;
    }
    assert(weeks@.subrange(0, i as int) =~= weeks@);
    total
}

fn total_closed(weeks: &Vec<WeeklyActivity>) -> (r: u64)
    requires
        sum_closed(weeks@) <= u64::MAX,
    ensures
        r == sum_closed(weeks@),
{
    let mut total: u64 = 0;
    let mut i: usize = 0;
    while i < weeks.len()
        invariant
            i <= weeks@.len(),
            total == seq_sum(weeks@.subrange(0, i as int), sum_closed_fn()),
            seq_sum(weeks@, sum_closed_fn()) <= u64::MAX,
        decreases weeks@.len() - i,
    {
        proof {
            lemma_seq_sum_step(weeks@, sum_closed_fn(), i as int);
            lemma_seq_sum_prefix_le(weeks@, sum_closed_fn(), i + 1);
        }
        total = total + weeks[i].closed;
        i = i + 1;
    }
    assert(weeks@.subrange(0, i as int) =~= weeks@);
    total
}

fn total_commits(people: &Vec<Contributor>) -> (r: u64)
    requires
        sum_commits(people@) <= u64::MAX,
    ensures
        r == sum_commits(people@),
{
    let mut total: u64 = 0;
    let mut i: usize = 0;
    while i < people.len()
        invariant
            i <= people@.len(),
            total == seq_sum(people@.subrange(0, i as int), sum_commits_fn()),
            seq_sum(people@, sum_commits_fn()) <= u64::MAX,
        decreases people@.len() - i,
    {
        proof {
            lemma_seq_sum_step(people@, sum_commits_fn(), i as int);
            lemma_seq_sum_prefix_le(people@, sum_commits_fn(), i + 1);
        }
        total = total + people[i].commit_count;
        i = i + 1;
    }
    assert(people@.subrange(0, i as int) =~= people@);
    total
}

fn total_issue_comments(issues: &Vec<Issue>) -> (r: u64)
    requires
        sum_comments(issues@) <= u64::MAX,
    ensures
        r == sum_comments(issues@),
{
    let mut total: u64 = 0;
    let mut i: usize = 0;
    while i < issues.len()
        invariant
            i <= issues@.len(),
            total == seq_sum(issues@.subrange(0, i as int), sum_comments_fn()),
            seq_sum(issues@, sum_comments_fn()) <= u64::MAX,
        decreases issues@.len() - i,
    {
        proof {
            lemma_seq_sum_step(issues@, sum_comments_fn(), i as int);
            lemma_seq_sum_prefix_le(issues@, sum_comments_fn(), i + 1);
        }
        total = total + issues[i].comments_count;
        i = i + 1;
    }
    assert(issues@.subrange(0, i as int) =~= issues@);
    total
}

fn all_comments(stats: &IssueStats) -> (r: u64)
    requires
        total_comments(*stats) <= u64::MAX,
    ensures
        r == total_comments(*stats),
{
    let groups = &stats.by_label;
    let mut total: u64 = 0;
    let mut g: usize = 0;
    while g < groups.len()
        invariant
            g <= groups@.len(),
            groups == &stats.by_label,
            total == seq_sum(groups@.subrange(0, g as int), group_comments_fn()),
            seq_sum(groups@, group_comments_fn()) + sum_comments(stats.unlabelled@) <= u64::MAX,
        decreases groups@.len() - g,
    {
        proof {
            lemma_seq_sum_step(groups@, group_comments_fn(), g as int);
            lemma_seq_sum_prefix_le(groups@, group_comments_fn(), g + 1);
        }
        let c = total_issue_comments(&groups[g].issues);
        total = total + c;
        g = g + 1;
    }
    assert(groups@.subrange(0, g as int) =~= groups@);
    let u = total_issue_comments(&stats.unlabelled);
    total + u
}

fn total_stars(spark: &Vec<u32>) -> (r: u64)
    requires
        star_sum(spark@) <= u64::MAX,
    ensures
        r == star_sum(spark@),
{
    let mut total: u64 = 0;
    let mut i: usize = 0;
    while i < spark.len()
        invariant
            i <= spark@.len(),
            total == seq_sum(spark@.subrange(0, i as int), star_fn()),
            seq_sum(spark@, star_fn()) <= u64::MAX,
        decreases spark@.len() - i,
    {
        proof {
            lemma_seq_sum_step(spark@, star_fn(), i as int);
            lemma_seq_sum_prefix_le(spark@, star_fn(), i + 1);
        }
        let v: u64 = spark[i] as u64;
        total = total + v;
        i = i + 1;
    }
    assert(spark@.subrange(0, i as int) =~= spark@);
    total
}

fn mean_opened_exec(weeks: &Vec<WeeklyActivity>) -> (r: u64)
    requires
        sum_opened(weeks@) <= u64::MAX,
    ensures
        r == mean_opened(weeks@),
{
    if weeks.len() == 0 {
        0
    } else {
        let n: u64 = weeks.len() as u64;
        total_opened(weeks) / n
    }
}

fn week_active(weeks: &Vec<WeeklyActivity>) -> (r: bool)
    ensures
        r == (weeks@.len() > 0 && (weeks@[0].opened > 0 || weeks@[0].closed > 0)),
{
    weeks.len() > 0 && (weeks[0].opened > 0 || weeks[0].closed > 0)
}

/// Activity sub-score (0 to 25).
pub fn compute_activity_score(snapshot: &RepoSnapshot) -> (r: u8)
    requires
        score_inputs_ok(*snapshot),
    ensures
        r == activity_score(*snapshot),
        r <= 25,
{
    let velocity = &snapshot.velocity;
    let prs = &snapshot.pull_requests;
    let avg_issues = mean_opened_exec(&velocity.issues_weekly);
    let avg_prs = mean_opened_exec(&velocity.prs_weekly);
    let weekly: u64 = avg_issues + avg_prs;
    let velocity_score: u64 = if weekly == 0 {
        0
    } else if weekly <= 5 {
        2
    } else if weekly <= 10 {
        4
    } else if weekly <= 20 {
        6
    } else if weekly <= 30 {
        8
    } else {
        10
    };
    let merged: usize = prs.merged_last_30d.len();
    let merge_score: u64 = if merged == 0 {
        0
    } else if merged <= 2 {
        2
    } else if merged <= 5 {
        4
    } else if merged <= 10 {
        6
    } else {
        8
    };
    let speed_score: u64 = match prs.avg_time_to_merge_hours {
        None => 0,
        Some(f) => {
            let hours: u64 = if f.numer < 0 {
                0
            } else {
                let n: u64 = f.numer as u64;
                n / f.denom
            };
            if hours <= 24 {
                4
            } else if hours <= 72 {
                3
            } else if hours <= 168 {
                2
            } else if hours <= 336 {
                1
            } else {
                0
            }
        },
    };
    let recent: bool = week_active(&velocity.issues_weekly) || week_active(&velocity.prs_weekly);
    let recency_score: u64 = if recent {
        3
    } else {
        0
    };
    let ci_score: u64 = match &snapshot.ci_status {
        None => 0,
        Some(ci) => {
            let rate = ci.success_rate;
            if rate.numer < 0 {
                0
            } else {
                let n: u128 = rate.numer as u128;
                let d: u128 = 20u128 * (rate.denom as u128);
                let b: u128 = n / d;
                if b > 5 {
                    5
                } else {
                    b as u64
                }
            }
        },
    };
    let total: u64 = velocity_score + merge_score + speed_score + recency_score + ci_score;
    let capped: u64 = if total > 25 {
        25
    } else {
        total
    };
    capped as u8
}

} // verus!

verus! {

fn concentration_points_exec(top: &Vec<Contributor>) -> (r: u64)
    requires
        sum_commits(top@) <= u64::MAX,
        top@.len() > 0 && sum_commits(top@) > 0 ==> top@[0].commit_count * 100 <= u64::MAX,
    ensures
        r == concentration_points(top@),
{
    if top.len() == 0 {
        0
    } else {
        let first: u64 = top[0].commit_count;
        let total: u64 = total_commits(top);
        if total == 0 {
            0
        } else {
            let pct: u64 = (first * 100) / total;
            if pct <= 39 {
                5
            } else if pct <= 59 {
                3
            } else if pct <= 79 {
                2
            } else {
                1
            }
        }
    }
}

fn engagement_points_exec(snapshot: &RepoSnapshot, now: i64) -> (r: u64)
    requires
        score_inputs_ok(*snapshot),
        is_instant(now),
    ensures
        r == comment_points(total_comments(snapshot.issues), snapshot.issues.total_open as nat)
            + age_points(oldest_issue_age(snapshot.issues, now)),
{
    let issues = &snapshot.issues;
    let open: u64 = issues.total_open;
    let comments: u64 = all_comments(issues);
    let comments_score: u64 = if open == 0 {
        0
    } else if (comments as u128) >= 3u128 * (open as u128) {
        3
    } else if comments >= open {
        2
    } else if comments > 0 {
        1
    } else {
        0
    };
    let oldest: i64 = match snapshot.oldest_issue_age_days_at(now) {
        None => 0,
        Some(d) => d,
    };
    let age_score: u64 = if oldest < 30 {
        2
    } else if oldest < 90 {
        1
    } else {
        0
    };
    comments_score + age_score
}

/// Community sub-score (0 to 25), with the oldest issue's age measured at
/// `now`.
pub fn compute_community_score_at(snapshot: &RepoSnapshot, now: i64) -> (r: u8)
    requires
        score_inputs_ok(*snapshot),
        is_instant(now),
    ensures
        r == community_score(*snapshot, now),
        r <= 25,
{
    let contributors = &snapshot.contributors;
    let n: u64 = contributors.total_unique;
    let count_score: u64 = if n == 0 {
        0
    } else if n <= 5 {
        2
    } else if n <= 10 {
        4
    } else if n <= 25 {
        6
    } else if n <= 50 {
        8
    } else {
        10
    };
    let concentration_score: u64 = concentration_points_exec(&contributors.top_contributors);
    let fresh: usize = contributors.new_contributors_last_30d.len();
    let new_score: u64 = if fresh == 0 {
        0
    } else if fresh == 1 {
        2
    } else if fresh <= 3 {
        3
    } else if fresh <= 5 {
        4
    } else {
        5
    };
    let engagement: u64 = engagement_points_exec(snapshot, now);
    let engagement_capped: u64 = if engagement > 5 {
        5
    } else {
        engagement
    };
    let total: u64 = count_score + concentration_score + new_score + engagement_capped;
    let capped: u64 = if total > 25 {
        25
    } else {
        total
    };
    capped as u8
}

/// Community sub-score (0 to 25), with issue ages measured now; an error
/// when the system clock cannot be read.
pub fn compute_community_score(snapshot: &RepoSnapshot) -> (r: Result<u8, ClockError>)
    requires
        score_inputs_ok(*snapshot),
    ensures
        r matches Ok(c) ==> (exists|now: i64| is_instant(now) && c == community_score(*snapshot, now))
            && c <= 25,
{
    let now = now_seconds()?;
    Ok(compute_community_score_at(snapshot, now))
}

/// Maintenance sub-score (0 to 25).
pub fn compute_maintenance_score(snapshot: &RepoSnapshot) -> (r: u8)
    requires
        score_inputs_ok(*snapshot),
    ensures
        r == maintenance_score(*snapshot),
        r <= 25,
{
    let releases = &snapshot.releases;
    let release_off: u64 = if releases.len() == 0 {
        10
    } else {
        match releases[0].days_since {
            None => 5,
            Some(d) => if 0 <= d && d <= 30 {
                0
            } else if 31 <= d && d <= 60 {
                2
            } else if 61 <= d && d <= 90 {
                4
            } else if 91 <= d && d <= 180 {
                6
            } else {
                10
            },
        }
    };
    let security_off: u64 = match &snapshot.security_alerts {
        None => 0,
        Some(a) => if a.critical_count > 0 {
            8
        } else if a.high_count > 0 {
            if a.high_count <= 2 {
                4
            } else if a.high_count <= 5 {
                6
            } else {
                8
            }
        } else if a.medium_count > 0 {
            if a.medium_count <= 3 {
                2
            } else if a.medium_count <= 10 {
                3
            } else {
                4
            }
        } else if a.low_count > 0 {
            1
        } else {
            0
        },
    };
    let base: u64 = 25 - release_off - security_off;
    let opened: u64 = total_opened(&snapshot.velocity.issues_weekly);
    let closed: u64 = total_closed(&snapshot.velocity.issues_weekly);
    let o: u128 = opened as u128;
    let c: u128 = closed as u128;
    let resolution: u64 = if opened == 0 {
        7
    } else if 5 * c >= 6 * o {
        7
    } else if c >= o {
        6
    } else if 5 * c >= 4 * o {
        4
    } else if 2 * c >= o {
        2
    } else {
        0
    };
    let after: u64 = base.saturating_sub(7 - resolution);
    let bonus: u64 = match &snapshot.community_health {
        None => 0,
        Some(h) => if 90 <= h.score && h.score <= 100 {
            5
        } else if 75 <= h.score && h.score <= 89 {
            4
        } else if 60 <= h.score && h.score <= 74 {
            3
        } else if 40 <= h.score && h.score <= 59 {
            2
        } else if 20 <= h.score && h.score <= 39 {
            1
        } else {
            0
        },
    };
    let total: u64 = after + bonus;
    let capped: u64 = if total > 25 {
        25
    } else {
        total
    };
    capped as u8
}

/// Growth sub-score (0 to 25).
pub fn compute_growth_score(snapshot: &RepoSnapshot) -> (r: u8)
    requires
        score_inputs_ok(*snapshot),
    ensures
        r == growth_score(*snapshot),
        r <= 25,
{
    let stars = &snapshot.stars;
    let s30: u64 = total_stars(&stars.sparkline_30d);
    let s90: u64 = total_stars(&stars.sparkline_90d);
    let n30: u64 = if stars.sparkline_30d.len() == 0 {
        1
    } else {
        stars.sparkline_30d.len() as u64
    };
    let d30: u64 = s30 / n30;
    let velocity_score: u64 = if d30 == 0 {
        0
    } else if d30 <= 2 {
        3
    } else if d30 <= 5 {
        6
    } else if d30 <= 10 {
        9
    } else if d30 <= 20 {
        12
    } else {
        15
    };
    proof {
        lemma_thirds(s30 as int, s90 as int);
    }
    let acceleration: u64 = if s30 > s90 / 3 {
        2
    } else {
        0
    };
    let t: u64 = stars.total_count;
    let total_score: u64 = if t <= 10 {
        0
    } else if t <= 50 {
        1
    } else if t <= 100 {
        2
    } else if t <= 500 {
        3
    } else if t <= 1000 {
        4
    } else {
        5
    };
    let forks: u64 = snapshot.repo.forks_count;
    let watchers: u64 = snapshot.repo.watchers_count;
    let engagement: u64 = if forks == 0 && watchers == 0 {
        0
    } else if forks >= 10 || watchers >= 10 {
        3
    } else if forks >= 5 || watchers >= 5 {
        2
    } else {
        1
    };
    let total: u64 = velocity_score + acceleration + total_score + engagement;
    let capped: u64 = if total > 25 {
        25
    } else {
        total
    };
    capped as u8
}

/// The health score of `s` with issue ages measured at `now`.
pub open spec fn health_score_at(s: RepoSnapshot, now: i64) -> HealthScore {
    let a = activity_score(s);
    let c = community_score(s, now);
    let m = maintenance_score(s);
    let g = growth_score(s);
    let total = (a + c + m + g) as u8;
    HealthScore {
        total,
        activity: a as u8,
        community: c as u8,
        maintenance: m as u8,
        growth: g as u8,
        grade: grade_for(total),
    }
}

/// The health score of a snapshot, with issue ages measured at `now`.
pub fn compute_health_score_at(snapshot: &RepoSnapshot, now: i64) -> (h: HealthScore)
    requires
        score_inputs_ok(*snapshot),
        is_instant(now),
    ensures
        h == health_score_at(*snapshot, now),
        h.total == h.activity + h.community + h.maintenance + h.growth,
        h.activity <= 25 && h.community <= 25 && h.maintenance <= 25 && h.growth <= 25,
        h.total <= 100,
        h.grade == grade_for(h.total),
{
    let activity = compute_activity_score(snapshot);
    let community = compute_community_score_at(snapshot, now);
    let maintenance = compute_maintenance_score(snapshot);
    let growth = compute_growth_score(snapshot);
    let total: u8 = activity + community + maintenance + growth;
    let grade = HealthGrade::from(total);
    HealthScore { total, activity, community, maintenance, growth, grade }
}

/// The health score of a snapshot, with issue ages measured now; an error
/// when the system clock cannot be read.
pub fn compute_health_score(snapshot: &RepoSnapshot) -> (r: Result<HealthScore, ClockError>)
    requires
        score_inputs_ok(*snapshot),
    ensures
        r matches Ok(h) ==> {
            &&& exists|now: i64| is_instant(now) && h == health_score_at(*snapshot, now)
            &&& h.total == h.activity + h.community + h.maintenance + h.growth
            &&& h.total <= 100
            &&& h.grade == grade_for(h.total)
        },
{
    let now = now_seconds()?;
    Ok(compute_health_score_at(snapshot, now))
}

} // verus!

verus! {

/// A higher total never earns a worse grade.
pub proof fn lemma_grade_monotone(a: u8, b: u8)
    requires
        a <= b,
        b <= 100,
    ensures
        grade_rank(grade_for(a)) <= grade_rank(grade_for(b)),
{
}

/// Open security alerts never raise the maintenance sub-score: the score
/// with any alert set is at most the score with no alert data.
pub proof fn lemma_alerts_never_raise_maintenance(s: RepoSnapshot, alerts: SecurityAlerts)
    ensures
        maintenance_score(RepoSnapshot { security_alerts: Some(alerts), ..s })
            <= maintenance_score(RepoSnapshot { security_alerts: None, ..s }),
{
}

/// A critical alert costs the full security deduction: maintenance is then
/// at most 17 plus the community-profile bonus.
pub proof fn lemma_critical_alert_caps_maintenance(s: RepoSnapshot)
    requires
        s.security_alerts matches Some(a) && a.critical_count > 0,
    ensures
        maintenance_score(s) <= 17 + community_bonus(s.community_health),
{
}

/// A community health profile never lowers the maintenance sub-score.
pub proof fn lemma_community_profile_never_lowers_maintenance(
    s: RepoSnapshot,
    profile: CommunityHealth,
)
    ensures
        maintenance_score(RepoSnapshot { community_health: Some(profile), ..s })
            >= maintenance_score(RepoSnapshot { community_health: None, ..s }),
{
}

/// CI data never lowers the activity sub-score.
pub proof fn lemma_ci_never_lowers_activity(s: RepoSnapshot, ci: CIStatus)
    ensures
        activity_score(RepoSnapshot { ci_status: Some(ci), ..s })
            >= activity_score(RepoSnapshot { ci_status: None, ..s }),
{
}

/// A perfect CI success rate adds five points to activity, up to the cap.
pub proof fn lemma_perfect_ci_adds_five(s: RepoSnapshot, ci: CIStatus)
    requires
        ci.success_rate.wf(),
        ci.success_rate.numer == 100 * ci.success_rate.denom,
    ensures
        activity_score(RepoSnapshot { ci_status: Some(ci), ..s }) == cap25(
            activity_score(RepoSnapshot { ci_status: None, ..s }) + 5,
        ) || activity_score(RepoSnapshot { ci_status: None, ..s }) == 25,
{
    let r = ci.success_rate;
    assert((r.numer as int) / (20 * r.denom as int) == 5) by (nonlinear_arith)
        requires
            r.numer as int == 100 * r.denom as int,
            r.denom > 0,
    ;
}

/// `3a > b` exactly when `a` exceeds `b / 3` rounded down.
proof fn lemma_thirds(a: int, b: int)
    requires
        a >= 0,
        b >= 0,
    ensures
        (3 * a > b) == (a > b / 3),
{
    assert((3 * a > b) == (a > b / 3)) by (nonlinear_arith)
        requires
            a >= 0,
            b >= 0,
    ;
}

/// A 30-day star rate (stars per day) above the 90-day rate earns two
/// points over an otherwise equal snapshot whose rates are level, up to the
/// cap.
pub proof fn lemma_acceleration_bonus(s: RepoSnapshot)
    requires
        accelerating(s.stars),
    ensures
        growth_score(s) == cap25(
            star_velocity_points(daily_mean(s.stars.sparkline_30d@)) + 2 + star_total_points(
                s.stars.total_count as nat,
            ) + engagement_points(s.repo.forks_count as nat, s.repo.watchers_count as nat),
        ),
{
}

/// Rounded-down percentages keep the order of the shares they come from:
/// `x / y <= u / v` gives `100x / y <= 100u / v`, rounded down.
proof fn lemma_percent_monotone(x: int, y: int, u: int, v: int)
    requires
        x >= 0,
        u >= 0,
        y > 0,
        v > 0,
        x * v <= u * y,
    ensures
        (100 * x) / y <= (100 * u) / v,
{
    let q = (100 * x) / y;
    assert(q * y <= 100 * x) by (nonlinear_arith)
        requires
            q == (100 * x) / y,
            y > 0,
    ;
    assert(q * y * v <= 100 * u * y) by (nonlinear_arith)
        requires
            q * y <= 100 * x,
            x * v <= u * y,
            v > 0,
    ;
    assert(q * v <= 100 * u) by (nonlinear_arith)
        requires
            q * y * v <= 100 * u * y,
            y > 0,
    ;
    assert(q <= (100 * u) / v) by (nonlinear_arith)
        requires
            q * v <= 100 * u,
            v > 0,
    ;
}

/// Floors keep the order of the fractions they come from.
proof fn lemma_floor_monotone(x: int, y: int, u: int, v: int)
    requires
        y > 0,
        v > 0,
        x * v <= u * y,
    ensures
        x / y <= u / v,
{
    let q = x / y;
    assert(q * y <= x) by (nonlinear_arith)
        requires
            q == x / y,
            y > 0,
    ;
    assert(q * y * v <= u * y) by (nonlinear_arith)
        requires
            q * y <= x,
            x * v <= u * y,
            v > 0,
    ;
    assert(q * v <= u) by (nonlinear_arith)
        requires
            q * y * v <= u * y,
            y > 0,
    ;
    assert(q <= u / v) by (nonlinear_arith)
        requires
            q * v <= u,
            v > 0,
    ;
}

/// Concentration points follow the first (top) contributor's share of the
/// commits: one point when it holds 80% or more, five when it holds less
/// than 40%, and never more points for a larger share.
pub proof fn lemma_concentration_by_top_share(a: Seq<Contributor>, b: Seq<Contributor>)
    requires
        a.len() > 0,
        b.len() > 0,
        sum_commits(a) > 0,
        sum_commits(b) > 0,
    ensures
        a[0].commit_count * 100 >= 80 * sum_commits(a) ==> concentration_points(a) == 1,
        a[0].commit_count * 100 < 40 * sum_commits(a) ==> concentration_points(a) == 5,
        40 * sum_commits(a) <= a[0].commit_count * 100 < 60 * sum_commits(a) ==> concentration_points(a) == 3,
        60 * sum_commits(a) <= a[0].commit_count * 100 < 80 * sum_commits(a) ==> concentration_points(a) == 2,
        1 <= concentration_points(a) <= 5,
        a[0].commit_count * sum_commits(b) <= b[0].commit_count * sum_commits(a)
            ==> concentration_points(a) >= concentration_points(b),
{
    let sa = sum_commits(a) as int;
    let ca = a[0].commit_count as int;
    let pa = (ca * 100) / sa;
    assert(pa * sa <= ca * 100 < (pa + 1) * sa) by (nonlinear_arith)
        requires
            pa == (ca * 100) / sa,
            sa > 0,
    ;
    if ca * 100 >= 80 * sa {
        assert(pa >= 80) by (nonlinear_arith)
            requires
                ca * 100 < (pa + 1) * sa,
                ca * 100 >= 80 * sa,
                sa > 0,
        ;
    }
    if ca * 100 < 40 * sa {
        assert(pa <= 39) by (nonlinear_arith)
            requires
                pa * sa <= ca * 100,
                ca * 100 < 40 * sa,
                sa > 0,
        ;
    }
    if ca * 100 >= 40 * sa {
        assert(pa >= 40) by (nonlinear_arith)
            requires
                ca * 100 < (pa + 1) * sa,
                ca * 100 >= 40 * sa,
                sa > 0,
        ;
    }
    if ca * 100 >= 60 * sa {
        assert(pa >= 60) by (nonlinear_arith)
            requires
                ca * 100 < (pa + 1) * sa,
                ca * 100 >= 60 * sa,
                sa > 0,
        ;
    }
    if ca * 100 < 60 * sa {
        assert(pa <= 59) by (nonlinear_arith)
            requires
                pa * sa <= ca * 100,
                ca * 100 < 60 * sa,
                sa > 0,
        ;
    }
    if ca * 100 < 80 * sa {
        assert(pa <= 79) by (nonlinear_arith)
            requires
                pa * sa <= ca * 100,
                ca * 100 < 80 * sa,
                sa > 0,
        ;
    }
    if a[0].commit_count * sum_commits(b) <= b[0].commit_count * sum_commits(a) {
        lemma_percent_monotone(ca, sa, b[0].commit_count as int, sum_commits(b) as int);
        assert((100 * ca) == (ca * 100));
        assert((100 * (b[0].commit_count as int)) == (b[0].commit_count * 100));
    }
}

/// With everything else equal, a larger share for the top contributor
/// never raises the community sub-score.
pub proof fn lemma_community_falls_with_top_share(s: RepoSnapshot, tops: Vec<Contributor>, now: i64)
    requires
        s.contributors.top_contributors@.len() > 0,
        tops@.len() > 0,
        sum_commits(s.contributors.top_contributors@) > 0,
        sum_commits(tops@) > 0,
        s.contributors.top_contributors@[0].commit_count * sum_commits(tops@) <= tops@[0].commit_count
            * sum_commits(s.contributors.top_contributors@),
    ensures
        community_score(s, now) >= community_score(
            RepoSnapshot {
                contributors: ContributorStats { top_contributors: tops, ..s.contributors },
                ..s
            },
            now,
        ),
{
    lemma_concentration_by_top_share(s.contributors.top_contributors@, tops@);
}

/// The release deduction grows with the days since the newest release:
/// nothing within a month, and the full 10 points (as for no release at
/// all) after six months.
pub proof fn lemma_release_deduction_grows_with_age(a: Seq<Release>, b: Seq<Release>)
    requires
        a.len() > 0,
        b.len() > 0,
        a[0].days_since is Some,
        b[0].days_since is Some,
        0 <= a[0].days_since->Some_0,
    ensures
        a[0].days_since->Some_0 <= b[0].days_since->Some_0 ==> release_deduction(a) <= release_deduction(b),
        a[0].days_since->Some_0 <= 30 ==> release_deduction(a) == 0,
        31 <= a[0].days_since->Some_0 <= 60 ==> release_deduction(a) == 2,
        61 <= a[0].days_since->Some_0 <= 90 ==> release_deduction(a) == 4,
        91 <= a[0].days_since->Some_0 <= 180 ==> release_deduction(a) == 6,
        b[0].days_since->Some_0 > 180 ==> release_deduction(b) == 10
            && release_deduction(b) == release_deduction(Seq::<Release>::empty()),
{
}

/// With everything else equal, an older newest release never raises the
/// maintenance sub-score, and one more than six months old counts as no
/// release at all.
pub proof fn lemma_maintenance_falls_with_release_age(s: RepoSnapshot, t: RepoSnapshot, none: Vec<Release>)
    requires
        none@.len() == 0,
        s.security_alerts == t.security_alerts,
        s.velocity.issues_weekly == t.velocity.issues_weekly,
        s.community_health == t.community_health,
        s.releases@.len() > 0,
        t.releases@.len() > 0,
        s.releases@[0].days_since is Some,
        t.releases@[0].days_since is Some,
        0 <= s.releases@[0].days_since->Some_0 <= t.releases@[0].days_since->Some_0,
    ensures
        maintenance_score(s) >= maintenance_score(t),
        t.releases@[0].days_since->Some_0 > 180 ==> maintenance_score(t) == maintenance_score(
            RepoSnapshot { releases: none, ..t },
        ),
{
    lemma_release_deduction_grows_with_age(s.releases@, t.releases@);
    assert(none@ =~= Seq::<Release>::empty());
}

/// With no alerts, no issue activity and no community profile, a release
/// within the last month leaves maintenance at 25, and one more than six
/// months old brings it to 15.
pub proof fn lemma_maintenance_by_release_age(s: RepoSnapshot)
    requires
        s.security_alerts is None,
        s.velocity.issues_weekly@.len() == 0,
        s.community_health is None,
        s.releases@.len() > 0,
        s.releases@[0].days_since is Some,
        s.releases@[0].days_since->Some_0 >= 0,
    ensures
        s.releases@[0].days_since->Some_0 <= 30 ==> maintenance_score(s) == 25,
        s.releases@[0].days_since->Some_0 > 180 ==> maintenance_score(s) == 15,
{
    assert(sum_opened(s.velocity.issues_weekly@) == 0);
    assert(sum_closed(s.velocity.issues_weekly@) == 0);
}

/// Merge-speed points fall as the mean merge time grows (faster merging
/// earns more): four points for a mean under 25 hours, none for a mean of
/// 337 hours or more.
pub proof fn lemma_merge_speed_by_time(f: Fraction, g: Fraction)
    requires
        f.wf(),
        g.wf(),
    ensures
        (f.numer as int) * (g.denom as int) <= (g.numer as int) * (f.denom as int)
            ==> merge_speed_points(Some(f)) >= merge_speed_points(Some(g)),
        (f.numer as int) < 25 * (f.denom as int) ==> merge_speed_points(Some(f)) == 4,
        25 * (f.denom as int) <= (f.numer as int) < 73 * (f.denom as int) ==> merge_speed_points(Some(f)) == 3,
        73 * (f.denom as int) <= (f.numer as int) < 169 * (f.denom as int) ==> merge_speed_points(Some(f)) == 2,
        169 * (f.denom as int) <= (f.numer as int) < 337 * (f.denom as int) ==> merge_speed_points(Some(f)) == 1,
        (g.numer as int) >= 337 * (g.denom as int) ==> merge_speed_points(Some(g)) == 0,
        merge_speed_points(None) == 0,
{
    let (fn_, fd, gn, gd) = (f.numer as int, f.denom as int, g.numer as int, g.denom as int);
    if fn_ * gd <= gn * fd {
        if fn_ >= 0 && gn >= 0 {
            lemma_floor_monotone(fn_, fd, gn, gd);
        } else if gn < 0 {
            assert(fn_ < 0) by (nonlinear_arith)
                requires
                    fn_ * gd <= gn * fd,
                    gn < 0,
                    fd > 0,
                    gd > 0,
            ;
        }
    }
    if fn_ >= 0 {
        let q = fn_ / fd;
        assert(q * fd <= fn_ < (q + 1) * fd) by (nonlinear_arith)
            requires
                q == fn_ / fd,
                fd > 0,
        ;
        assert(forall|m: int| #![trigger m * fd] fn_ < m * fd ==> q < m) by {
            assert forall|m: int| #![trigger m * fd] fn_ < m * fd implies q < m by {
                assert(q < m) by (nonlinear_arith)
                    requires
                        q * fd <= fn_,
                        fn_ < m * fd,
                        fd > 0,
                ;
            }
        }
        assert(forall|m: int| #![trigger m * fd] m * fd <= fn_ ==> m <= q) by {
            assert forall|m: int| #![trigger m * fd] m * fd <= fn_ implies m <= q by {
                assert(m <= q) by (nonlinear_arith)
                    requires
                        m * fd <= fn_,
                        fn_ < (q + 1) * fd,
                        fd > 0,
                ;
            }
        }
        assert(fn_ < 25 * fd ==> q < 25);
        assert(fn_ < 73 * fd ==> q < 73);
        assert(fn_ < 169 * fd ==> q < 169);
        assert(fn_ < 337 * fd ==> q < 337);
        assert(25 * fd <= fn_ ==> 25 <= q);
        assert(73 * fd <= fn_ ==> 73 <= q);
        assert(169 * fd <= fn_ ==> 169 <= q);
    }
    if gn >= 337 * gd {
        assert(gn / gd >= 337) by (nonlinear_arith)
            requires
                gn >= 337 * gd,
                gd > 0,
        ;
    }
}

/// With everything else equal, a longer mean merge time never raises the
/// activity sub-score.
pub proof fn lemma_activity_falls_with_merge_time(s: RepoSnapshot, f: Fraction, g: Fraction)
    requires
        f.wf(),
        g.wf(),
        (f.numer as int) * (g.denom as int) <= (g.numer as int) * (f.denom as int),
    ensures
        activity_score(
            RepoSnapshot {
                pull_requests: PrStats { avg_time_to_merge_hours: Some(f), ..s.pull_requests },
                ..s
            },
        ) >= activity_score(
            RepoSnapshot {
                pull_requests: PrStats { avg_time_to_merge_hours: Some(g), ..s.pull_requests },
                ..s
            },
        ),
{
    lemma_merge_speed_by_time(f, g);
}

/// Each scoring table rewards more of what it measures and never less:
/// weekly activity, merged pull requests, contributors, new contributors,
/// comments, stars per day, total stars, forks and watchers, the community
/// health percentage and the share of issues closed; the oldest issue's age
/// only ever costs points. Each starts at nothing for nothing and reaches
/// its maximum.
pub proof fn lemma_score_tables_monotone(a: nat, b: nat, c: nat, d: nat)
    requires
        a <= b,
    ensures
        velocity_points(a) <= velocity_points(b),
        velocity_points(0) == 0 && (b > 30 ==> velocity_points(b) == 10),
        merge_count_points(a) <= merge_count_points(b),
        merge_count_points(0) == 0 && (b > 10 ==> merge_count_points(b) == 8),
        contributor_count_points(a) <= contributor_count_points(b),
        contributor_count_points(0) == 0 && (b > 50 ==> contributor_count_points(b) == 10),
        new_contributor_points(a) <= new_contributor_points(b),
        new_contributor_points(0) == 0 && (b > 5 ==> new_contributor_points(b) == 5),
        comment_points(a, c) <= comment_points(b, c),
        c > 0 && a >= 3 * c ==> comment_points(a, c) == 3,
        comment_points(0, c) == 0,
        age_points(Some(a as int)) >= age_points(Some(b as int)),
        b >= 90 ==> age_points(Some(b as int)) == 0,
        a < 30 ==> age_points(Some(a as int)) == 2,
        star_velocity_points(a) <= star_velocity_points(b),
        star_velocity_points(0) == 0 && (b > 20 ==> star_velocity_points(b) == 15),
        star_total_points(a) <= star_total_points(b),
        b > 1000 ==> star_total_points(b) == 5,
        engagement_points(a, c) <= engagement_points(b, c),
        engagement_points(c, a) <= engagement_points(c, b),
        engagement_points(0, 0) == 0 && (b >= 10 ==> engagement_points(b, c) == 3),
        resolution_points(c, a) <= resolution_points(c, b),
        c > 0 && a >= c ==> resolution_points(c, a) >= 6,
        c > 0 && 2 * a < c ==> resolution_points(c, a) == 0,
        resolution_points(0, a) == 7,
{
}

/// Community-profile bonus grows with the health percentage (five points
/// from 90); security deductions are largest (8) for any critical alert,
/// nothing without alerts, and more high alerts never cost less.
pub proof fn lemma_bonus_and_alert_tables(h: CommunityHealth, k: CommunityHealth, x: SecurityAlerts, y: SecurityAlerts)
    ensures
        h.score <= k.score && k.score <= 100 ==> community_bonus(Some(h)) <= community_bonus(Some(k)),
        90 <= h.score <= 100 ==> community_bonus(Some(h)) == 5,
        community_bonus(None) == 0,
        security_deduction(None) == 0,
        security_deduction(Some(x)) <= 8,
        x.critical_count > 0 ==> security_deduction(Some(x)) == 8,
        x.critical_count == 0 && y.critical_count == 0 && x.high_count <= y.high_count && x.high_count > 0
            ==> security_deduction(Some(x)) <= security_deduction(Some(y)),
        x.critical_count == 0 && x.high_count == 0 && x.medium_count == 0 && x.low_count == 0
            ==> security_deduction(Some(x)) == 0,
{
}

} // verus!
