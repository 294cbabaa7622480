//! Assembling a snapshot from the fetched metrics, and the progress
//! reports sent while fetching.
use vstd::prelude::*;
use crate::models::{
    CIStatus, CommunityHealth, ContributorStats, IssueStats, PrStats, Release, RepoMeta,
    RepoSnapshot, SecurityAlerts, StarHistory, VelocityStats,
};

verus! {

/// Minutes a cached snapshot stays fresh.
pub const DEFAULT_CACHE_TTL_MINS: u64 = 15;

/// Seconds each API call may take.
pub const API_TIMEOUT_SECS: u64 = 30;

/// Days of snapshot history kept.
pub const HISTORY_RETENTION_DAYS: u64 = 30;

/// Above this many stars a repository counts as large (the slow star
/// history fetch gets a game to pass the time).
pub const LARGE_REPO_STARS: u64 = 5000;

/// Number of endpoints fetched for a snapshot.
pub const ENDPOINT_COUNT: usize = 10;

/// Display names of the fetched endpoints, in fetch order.
pub open spec fn endpoint_names() -> Seq<Seq<char>> {
    seq![
        "Repository"@,
        "Star History"@,
        "Issues"@,
        "Pull Requests"@,
        "Contributors"@,
        "Releases"@,
        "Velocity"@,
        "Security Alerts"@,
        "CI Status"@,
        "Community Health"@,
    ]
}

/// The display name of endpoint `i` (in fetch order).
pub fn endpoint_name(i: usize) -> (s: &'static str)
    requires
        i < ENDPOINT_COUNT,
    ensures
        s@ == endpoint_names()[i as int],
{
    if i == 0 {
        "Repository"
    } else if i == 1 {
        "Star History"
    } else if i == 2 {
        "Issues"
    } else if i == 3 {
        "Pull Requests"
    } else if i == 4 {
        "Contributors"
    } else if i == 5 {
        "Releases"
    } else if i == 6 {
        "Velocity"
    } else if i == 7 {
        "Security Alerts"
    } else if i == 8 {
        "CI Status"
    } else {
        "Community Health"
    }
}

/// Whether a repository is large.
pub fn is_large_repo(star_count: u64) -> (b: bool)
    ensures
        b == (star_count > LARGE_REPO_STARS),
{
    star_count > LARGE_REPO_STARS
}

/// The error text of a call that took too long.
pub fn timeout_message(what: &str) -> (s: String)
    ensures
        s@ == what@ + " fetch timed out after 30s"@,
{
    String::from_str(what).concat(" fetch timed out after 30s")
}

/// Progress of a snapshot fetch, as the loading screen shows it.
pub struct FetchProgress {
    pub total: usize,
    pub completed: usize,
    pub current_endpoint: Option<String>,
    pub done: bool,
    pub error: Option<String>,
    pub star_count: Option<u64>,
    pub current_page: Option<u32>,
    pub total_pages: Option<u32>,
}

impl FetchProgress {
    /// Nothing fetched yet of `total` endpoints.
    pub fn new(total: usize) -> (p: FetchProgress)
        ensures
            p.total == total,
            p.completed == 0,
            p.current_endpoint is None,
            !p.done,
            p.error is None,
            p.star_count is None,
            p.current_page is None,
            p.total_pages is None,
    {
        FetchProgress {
            total,
            completed: 0,
            current_endpoint: None,
            done: false,
            error: None,
            star_count: None,
            current_page: None,
            total_pages: None,
        }
    }
}

/// The report sent when a fresh cached snapshot is used: one step, done.
pub fn cached_progress(star_count: u64) -> (p: FetchProgress)
    ensures
        p.total == 1,
        p.completed == 1,
        p.done,
        p.star_count == Some(star_count),
        p.current_endpoint is None,
        p.error is None,
        p.current_page is None,
        p.total_pages is None,
{
    let mut p = FetchProgress::new(1);
    p.completed = 1;
    p.done = true;
    p.star_count = Some(star_count);
    p
}

/// The report sent while fetching: `completed` endpoints done, endpoint
/// `current` under way.
pub fn step_progress(completed: usize, current: usize, star_count: Option<u64>) -> (p: FetchProgress)
    requires
        current < ENDPOINT_COUNT,
    ensures
        p.total == ENDPOINT_COUNT,
        p.completed == completed,
        p.current_endpoint matches Some(e) && e@ == endpoint_names()[current as int],
        !p.done,
        p.error is None,
        p.star_count == star_count,
        p.current_page is None,
        p.total_pages is None,
{
    FetchProgress {
        total: ENDPOINT_COUNT,
        completed,
        current_endpoint: Some(String::from_str(endpoint_name(current))),
        done: false,
        error: None,
        star_count,
        current_page: None,
        total_pages: None,
    }
}

/// The report sent for each page of stargazers fetched.
pub fn page_progress(current_page: u32, total_pages: u32, star_count: Option<u64>) -> (p: FetchProgress)
    ensures
        p.total == ENDPOINT_COUNT,
        p.completed == 0,
        p.current_endpoint matches Some(e) && e@ == "Star History"@,
        !p.done,
        p.error is None,
        p.star_count == star_count,
        p.current_page == Some(current_page),
        p.total_pages == Some(total_pages),
{
    FetchProgress {
        total: ENDPOINT_COUNT,
        completed: 0,
        current_endpoint: Some(String::from_str("Star History")),
        done: false,
        error: None,
        star_count,
        current_page: Some(current_page),
        total_pages: Some(total_pages),
    }
}

/// The report sent when every endpoint is done.
pub fn final_progress(star_count: Option<u64>) -> (p: FetchProgress)
    ensures
        p.total == ENDPOINT_COUNT,
        p.completed == ENDPOINT_COUNT,
        p.current_endpoint is None,
        p.done,
        p.error is None,
        p.star_count == star_count,
        p.current_page is None,
        p.total_pages is None,
{
    FetchProgress {
        total: ENDPOINT_COUNT,
        completed: ENDPOINT_COUNT,
        current_endpoint: None,
        done: true,
        error: None,
        star_count,
        current_page: None,
        total_pages: None,
    }
}

/// The metrics fetched for one snapshot.
pub struct FetchedMetrics {
    pub repo: RepoMeta,
    pub stars: StarHistory,
    pub issues: IssueStats,
    pub pull_requests: PrStats,
    pub contributors: ContributorStats,
    pub releases: Vec<Release>,
    pub velocity: VelocityStats,
    pub security_alerts: Option<SecurityAlerts>,
    pub ci_status: Option<CIStatus>,
    pub community_health: Option<CommunityHealth>,
}

/// The snapshot of the fetched metrics, taken at `now` with identifier
/// `id`, after a previous snapshot taken at `previous` (if any).
pub fn assemble_snapshot(m: FetchedMetrics, now: i64, id: u128, previous: Option<i64>) -> (s: RepoSnapshot)
    ensures
        s.fetched_at == now,
        s.previous_snapshot_at == previous,
        s.snapshot_history_id == id,
        s.repo == m.repo,
        s.stars == m.stars,
        s.issues == m.issues,
        s.pull_requests == m.pull_requests,
        s.contributors == m.contributors,
        s.releases == m.releases,
        s.velocity == m.velocity,
        s.security_alerts == m.security_alerts,
        s.ci_status == m.ci_status,
        s.community_health == m.community_health,
{
    RepoSnapshot {
        fetched_at: now,
        previous_snapshot_at: previous,
        snapshot_history_id: id,
        repo: m.repo,
        stars: m.stars,
        issues: m.issues,
        pull_requests: m.pull_requests,
        contributors: m.contributors,
        releases: m.releases,
        velocity: m.velocity,
        security_alerts: m.security_alerts,
        ci_status: m.ci_status,
        community_health: m.community_health,
    }
}

} // verus!
