use forgestat::models::{
    CIStatus, CommunityHealth, Contributor, ContributorStats, Fraction, Issue, IssueStats,
    LabelGroup, MergedPr, PrStats, Release, RepoMeta, RepoSnapshot, SecurityAlerts,
    SnapshotDiff, StarHistory, VelocityStats, WeeklyActivity, WorkflowRun,
};
use forgestat::checks::{
    check_issue_times, check_layout_normalizable, check_release_dates, check_report_inputs, check_score_inputs,
    check_star_rates, check_summary_inputs, check_week_dates,
};
use forgestat::config::{LayoutConfig, PanelLayout};
use forgestat::session::{
    compare_fallback_state, initial_view, parse_repo, refresh_effect, repo_from_stdin_line,
    should_start_background_refresh, try_cache_first, watchlist_arg_repos, FetchOutcome,
    InitialView, RefreshEffect, RepoArgErrorKind, SyncState,
};
use forgestat::snapshot::{
    assemble_snapshot, cached_progress, final_progress, page_progress, step_progress,
    FetchProgress, FetchedMetrics,
};

const DAY: i64 = 86_400;

fn now_secs() -> i64 {
    std::time::SystemTime::now()
        .duration_since(std::time::UNIX_EPOCH)
        .unwrap()
        .as_secs() as i64
}

fn issue(number: u64, title: &str, created_at: i64, now: i64, labels: Vec<&str>) -> Issue {
    Issue {
        number,
        title: title.to_string(),
        author: "user".to_string(),
        created_at,
        updated_at: now,
        labels: labels.into_iter().map(|s| s.to_string()).collect(),
        comments_count: 0,
    }
}

fn create_sample_snapshot(now: i64) -> RepoSnapshot {
    RepoSnapshot {
        fetched_at: now,
        previous_snapshot_at: None,
        snapshot_history_id: 7,
        repo: RepoMeta {
            owner: "octocat".to_string(),
            name: "Hello-World".to_string(),
            description: Some("My first repository".to_string()),
            language: Some("Rust".to_string()),
            created_at: now,
            updated_at: now,
            default_branch: "main".to_string(),
            forks_count: 100,
            open_issues_count: 10,
            watchers_count: 1000,
        },
        stars: StarHistory {
            total_count: 5000,
            sparkline_30d: vec![10, 12, 15, 8, 20],
            sparkline_90d: vec![100, 120, 150, 80, 200],
            sparkline_365d: vec![1000, 1200, 1500, 800, 2000],
        },
        issues: IssueStats {
            total_open: 10,
            by_label: vec![LabelGroup {
                label: "bug".to_string(),
                issues: vec![Issue {
                    number: 1,
                    title: "Test bug".to_string(),
                    author: "user1".to_string(),
                    created_at: now,
                    updated_at: now,
                    labels: vec!["bug".to_string()],
                    comments_count: 5,
                }],
            }],
            unlabelled: vec![],
            truncated: false,
        },
        pull_requests: PrStats {
            open_count: 5,
            draft_count: 1,
            ready_count: 4,
            merged_last_30d: vec![MergedPr {
                number: 42,
                title: "Fix something".to_string(),
                author: "contributor".to_string(),
                created_at: now,
                merged_at: now,
                time_to_merge_hours: Fraction::whole(24),
            }],
            avg_time_to_merge_hours: Some(Fraction::whole(48)),
        },
        contributors: ContributorStats {
            top_contributors: vec![Contributor {
                username: "octocat".to_string(),
                commit_count: 100,
                avatar_url: None,
            }],
            new_contributors_last_30d: vec!["newbie".to_string()],
            total_unique: 50,
        },
        releases: vec![Release {
            tag_name: "v1.0.0".to_string(),
            name: Some("First Release".to_string()),
            created_at: now,
            published_at: Some(now),
            prerelease: false,
            draft: false,
            days_since: Some(5),
            avg_interval: Some(Fraction::whole(14)),
        }],
        velocity: VelocityStats {
            issues_weekly: vec![WeeklyActivity { week_start: now, opened: 10, closed: 8 }],
            prs_weekly: vec![WeeklyActivity { week_start: now, opened: 5, closed: 4 }],
        },
        security_alerts: Some(SecurityAlerts {
            total_open: 2,
            critical_count: 0,
            high_count: 1,
            medium_count: 1,
            low_count: 0,
        }),
        ci_status: Some(CIStatus {
            total_runs_30d: 50,
            success_rate: Fraction { numer: 171, denom: 2 },
            avg_duration_seconds: 300,
            recent_runs: vec![WorkflowRun {
                name: "CI".to_string(),
                status: "completed".to_string(),
                conclusion: Some("success".to_string()),
                created_at: now,
                duration_seconds: 180,
            }],
        }),
        community_health: Some(CommunityHealth {
            has_readme: true,
            has_license: true,
            has_contributing: true,
            has_code_of_conduct: true,
            has_issue_templates: true,
            has_pr_template: true,
            has_security_policy: true,
            score: 100,
        }),
    }
}

#[test]
fn test_open_issues_count() {
    let snapshot = create_sample_snapshot(now_secs());
    assert_eq!(snapshot.open_issues_count(), 10);
}

#[test]
fn test_open_prs_count() {
    let snapshot = create_sample_snapshot(now_secs());
    assert_eq!(snapshot.open_prs_count(), 5);
}

#[test]
fn test_days_since_last_release_with_releases() {
    let snapshot = create_sample_snapshot(now_secs());
    assert_eq!(snapshot.days_since_last_release(), Some(5));
}

#[test]
fn test_days_since_last_release_no_releases() {
    let mut snapshot = create_sample_snapshot(now_secs());
    snapshot.releases = vec![];
    assert_eq!(snapshot.days_since_last_release(), None);
}

#[test]
fn test_oldest_issue_age_days_with_issues() {
    let snapshot = create_sample_snapshot(now_secs());
    let age = snapshot.oldest_issue_age_days().unwrap();
    assert!(age.is_some());
    assert!(age.unwrap() >= 0);
}

#[test]
fn test_oldest_issue_age_days_no_issues() {
    let mut snapshot = create_sample_snapshot(now_secs());
    snapshot.issues.total_open = 0;
    snapshot.issues.by_label.clear();
    snapshot.issues.unlabelled.clear();
    assert_eq!(snapshot.oldest_issue_age_days().unwrap(), None);
}

#[test]
fn test_oldest_issue_age_days_only_unlabelled() {
    let now = now_secs();
    let mut snapshot = create_sample_snapshot(now);
    snapshot.issues.by_label.clear();
    snapshot.issues.unlabelled = vec![
        issue(1, "Old unlabelled", now - 30 * DAY, now, vec![]),
        issue(2, "Newer unlabelled", now - 10 * DAY, now, vec![]),
    ];

    let age = snapshot.oldest_issue_age_days().unwrap();
    assert!(age.is_some());
    assert!(age.unwrap() >= 29);
}

#[test]
fn test_oldest_issue_age_days_mixed_issues() {
    let now = now_secs();
    let mut snapshot = create_sample_snapshot(now);
    snapshot.issues.unlabelled = vec![issue(100, "Old unlabelled", now - 45 * DAY, now, vec![])];

    let age = snapshot.oldest_issue_age_days().unwrap();
    assert!(age.is_some());
    assert!(age.unwrap() >= 44);
}

#[test]
fn test_oldest_issue_age_at_fixed_time() {
    let now = 1_700_000_000;
    let mut snapshot = create_sample_snapshot(now);
    snapshot.issues.unlabelled = vec![issue(100, "Old", now - 45 * DAY - 5, now, vec![])];
    assert_eq!(snapshot.oldest_issue_age_days_at(now), Some(45));
}

#[test]
fn test_repo_url_and_issue_reference() {
    let snapshot = create_sample_snapshot(1_700_000_000);
    assert_eq!(snapshot.repo_url(), "https://github.com/octocat/Hello-World");
    assert_eq!(snapshot.format_issue_reference(42), "octocat/Hello-World#42");
}

#[test]
fn test_snapshot_diff() {
    let now = 1_700_000_000;
    let previous = create_sample_snapshot(now - 3 * 3600);
    let mut current = create_sample_snapshot(now);
    current.stars.total_count = 4990;
    current.issues.total_open = 12;
    current.security_alerts = Some(SecurityAlerts {
        total_open: 3,
        critical_count: 1,
        high_count: 1,
        medium_count: 0,
        low_count: 0,
    });
    let diff = SnapshotDiff::compute(&current, &previous);
    assert_eq!(diff.previous_fetched_at, now - 3 * 3600);
    assert_eq!(diff.stars_delta, -10);
    assert_eq!(diff.issues_delta, 2);
    assert_eq!(diff.new_security_critical, 1);
    assert_eq!(diff.new_security_high, 0);
    assert_eq!(diff.new_security_medium, 0);
    assert!(diff.has_new_security_alerts());
    assert_eq!(diff.format_time_ago_at(now), "3 hours ago");
    assert_eq!(diff.format_time_ago_at(now - 3 * 3600 + 300), "5 min ago");
    assert_eq!(diff.format_time_ago_at(now + 2 * DAY), "2 days ago");
    assert!(diff.format_time_ago().unwrap().ends_with("ago"));
}

#[test]
fn test_assemble_snapshot_keeps_metrics() {
    let sample = create_sample_snapshot(1_700_000_000);
    let metrics = FetchedMetrics {
        repo: sample.repo.clone(),
        stars: sample.stars.clone(),
        issues: sample.issues.clone(),
        pull_requests: sample.pull_requests.clone(),
        contributors: sample.contributors.clone(),
        releases: sample.releases.clone(),
        velocity: sample.velocity.clone(),
        security_alerts: sample.security_alerts,
        ci_status: sample.ci_status.clone(),
        community_health: sample.community_health,
    };
    let s = assemble_snapshot(metrics, 1_700_000_100, 99, Some(1_699_000_000));
    assert_eq!(s.fetched_at, 1_700_000_100);
    assert_eq!(s.previous_snapshot_at, Some(1_699_000_000));
    assert_eq!(s.snapshot_history_id, 99);
    assert_eq!(s.repo.name, "Hello-World");
    assert_eq!(s.stars.total_count, 5000);
}

#[test]
fn test_fetch_progress_reports() {
    let p = FetchProgress::new(9);
    assert_eq!(p.total, 9);
    assert_eq!(p.completed, 0);
    assert!(!p.done);

    let c = cached_progress(123);
    assert!(c.done);
    assert_eq!(c.star_count, Some(123));
    assert_eq!((c.total, c.completed), (1, 1));

    let pg = page_progress(3, 10, Some(5));
    assert_eq!(pg.current_endpoint.as_deref(), Some("Star History"));
    assert_eq!(pg.current_page, Some(3));
    assert_eq!(pg.total_pages, Some(10));

    let s = step_progress(2, 2, None);
    assert_eq!(s.completed, 2);
    assert!(!s.done);

    let f = final_progress(Some(5));
    assert!(f.done);
    assert_eq!(f.completed, f.total);
}

#[test]
fn test_parse_repo_valid_and_invalid() {
    assert_eq!(
        parse_repo("ratatui-org/ratatui").ok(),
        Some(("ratatui-org".to_string(), "ratatui".to_string()))
    );
    assert_eq!(parse_repo("").err().unwrap().kind, RepoArgErrorKind::Empty);
    assert_eq!(parse_repo("norepo").err().unwrap().kind, RepoArgErrorKind::MissingSlash);
    assert_eq!(parse_repo("a/b/c").err().unwrap().kind, RepoArgErrorKind::ExtraSlash);
    assert_eq!(parse_repo("/b").err().unwrap().kind, RepoArgErrorKind::EmptyOwner);
    assert_eq!(parse_repo("a/").err().unwrap().kind, RepoArgErrorKind::EmptyName);
    let e = parse_repo("norepo").err().unwrap();
    assert!(e.message().starts_with("Invalid repository format: 'norepo'"));
}

#[test]
fn test_repo_lines_and_lists() {
    assert_eq!(repo_from_stdin_line("  owner/repo\t2 hours ago\n"), "owner/repo");
    assert_eq!(repo_from_stdin_line("owner/repo"), "owner/repo");
    assert_eq!(
        watchlist_arg_repos(" a/b, c/d ,,e/f "),
        vec!["a/b".to_string(), "c/d".to_string(), "e/f".to_string()]
    );
    assert!(watchlist_arg_repos("").is_empty());
}

#[test]
fn test_session_decisions() {
    assert_eq!(initial_view(FetchOutcome::Fetched, true, true), InitialView::ShowFetched);
    assert_eq!(
        initial_view(FetchOutcome::Cancelled, true, false),
        InitialView::ShowCached(SyncState::Stale)
    );
    assert_eq!(
        initial_view(FetchOutcome::Failed, true, false),
        InitialView::ShowCached(SyncState::Live)
    );
    assert_eq!(initial_view(FetchOutcome::Failed, false, false), InitialView::ShowOffline);
    assert_eq!(refresh_effect(FetchOutcome::Cancelled), RefreshEffect::Keep);
    assert_eq!(refresh_effect(FetchOutcome::Failed), RefreshEffect::GoOffline);
    assert!(should_start_background_refresh(false));
    assert!(!should_start_background_refresh(true));
    assert!(try_cache_first(false, false));
    assert!(!try_cache_first(true, false));
    assert_eq!(compare_fallback_state(true, true), Some(SyncState::Stale));
    assert_eq!(compare_fallback_state(false, true), None);
}

#[test]
fn test_input_checks() {
    let now = 1_700_000_000;
    let mut s = create_sample_snapshot(now);
    assert!(check_score_inputs(&s));
    assert!(check_issue_times(&s.issues));
    assert!(check_star_rates(&s.stars));
    assert!(check_release_dates(&s.releases));
    assert!(check_week_dates(&s.velocity.issues_weekly));

    s.velocity.issues_weekly.push(WeeklyActivity { week_start: now, opened: u64::MAX, closed: 0 });
    assert!(!check_score_inputs(&s));

    let mut far = create_sample_snapshot(now);
    far.issues.unlabelled.push(issue(5, "far", i64::MAX, now, vec![]));
    assert!(!check_issue_times(&far.issues));
    assert!(!check_score_inputs(&far));

    let mut ci = create_sample_snapshot(now);
    if let Some(c) = ci.ci_status.as_mut() {
        c.success_rate = Fraction { numer: 1, denom: 0 };
    }
    assert!(!check_score_inputs(&ci));

    let big = StarHistory {
        total_count: 1,
        sparkline_30d: vec![u32::MAX; 4],
        sparkline_90d: vec![],
        sparkline_365d: vec![],
    };
    assert!(check_star_rates(&big));
    let mut rel = create_sample_snapshot(now).releases;
    rel[0].published_at = Some(i64::MIN);
    assert!(!check_release_dates(&rel));
}

#[test]
fn test_diff_with_itself_is_empty() {
    let s = create_sample_snapshot(1_700_000_000);
    let d = SnapshotDiff::compute(&s, &s);
    assert_eq!(d.stars_delta, 0);
    assert_eq!(d.issues_delta, 0);
    assert_eq!(d.prs_delta, 0);
    assert_eq!(d.contributors_delta, 0);
    assert_eq!(d.forks_delta, 0);
    assert_eq!(d.watchers_delta, 0);
    assert_eq!(d.releases_delta, 0);
    assert!(!d.has_new_security_alerts());
}

#[test]
fn test_diff_swapped_negates() {
    let now = 1_700_000_000;
    let previous = create_sample_snapshot(now - 3600);
    let mut current = create_sample_snapshot(now);
    current.stars.total_count = 5020;
    current.issues.total_open = 7;
    current.security_alerts = Some(SecurityAlerts {
        total_open: 9,
        critical_count: 4,
        high_count: 0,
        medium_count: 5,
        low_count: 0,
    });
    let d = SnapshotDiff::compute(&current, &previous);
    let e = SnapshotDiff::compute(&previous, &current);
    assert_eq!(d.stars_delta, 20);
    assert_eq!(e.stars_delta, -20);
    assert_eq!(d.issues_delta, -e.issues_delta);
    assert_eq!(d.prs_delta, -e.prs_delta);
    assert_eq!(d.releases_delta, -e.releases_delta);
    assert_eq!(d.new_security_critical, 4);
    assert_eq!(e.new_security_critical, 0);
    assert!(d.has_new_security_alerts());
}

#[test]
fn test_render_and_layout_checks() {
    let now = 1_700_000_000;
    let s = create_sample_snapshot(now);
    assert!(check_report_inputs(&s));
    assert!(check_summary_inputs(&s));

    // A snapshot time with no calendar date cannot head a report, though
    // the summary does not show it.
    let mut far = create_sample_snapshot(now);
    far.fetched_at = i64::MAX;
    assert!(!check_report_inputs(&far));
    assert!(check_summary_inputs(&far));

    let mut weeks = create_sample_snapshot(now);
    weeks.velocity.prs_weekly.push(WeeklyActivity { week_start: i64::MIN, opened: 0, closed: 0 });
    assert!(!check_report_inputs(&weeks));

    assert!(check_layout_normalizable(&LayoutConfig::default()));
    let mut zero = LayoutConfig::default();
    zero.row1.height_pct = 0;
    zero.row2.height_pct = 0;
    zero.row3.height_pct = 0;
    assert!(!check_layout_normalizable(&zero));
    let mut wide = LayoutConfig::default();
    wide.row2_columns = vec![PanelLayout { width_pct: 40_000, height_pct: 100 }; 2];
    assert!(!check_layout_normalizable(&wide));
    wide.row2_columns = vec![PanelLayout { width_pct: 30_000, height_pct: 100 }; 2];
    assert!(check_layout_normalizable(&wide));
}
