use forgestat::health::{
    compute_activity_score, compute_growth_score, compute_health_score, compute_health_score_at,
    compute_maintenance_score, HealthGrade, HealthScore,
};
use forgestat::models::{
    CIStatus, CommunityHealth, Contributor, ContributorStats, Fraction, Issue, IssueStats,
    LabelGroup, MergedPr, PrStats, Release, RepoMeta, RepoSnapshot, SecurityAlerts, StarHistory,
    VelocityStats, WeeklyActivity,
};

const DAY: i64 = 86_400;

fn now_secs() -> i64 {
    std::time::SystemTime::now()
        .duration_since(std::time::UNIX_EPOCH)
        .unwrap()
        .as_secs() as i64
}

fn week(start: i64, opened: u64, closed: u64) -> WeeklyActivity {
    WeeklyActivity { week_start: start, opened, closed }
}

fn alerts(total: u64, critical: u64, high: u64) -> SecurityAlerts {
    SecurityAlerts {
        total_open: total,
        critical_count: critical,
        high_count: high,
        medium_count: 0,
        low_count: 0,
    }
}

fn merged(number: u64, author: &str, created_at: i64, merged_at: i64, hours: i64) -> MergedPr {
    MergedPr {
        number,
        title: format!("PR{}", number),
        author: author.to_string(),
        created_at,
        merged_at,
        time_to_merge_hours: Fraction::whole(hours),
    }
}

fn ci(rate: i64) -> CIStatus {
    CIStatus {
        total_runs_30d: 50,
        success_rate: Fraction::whole(rate),
        avg_duration_seconds: 300,
        recent_runs: vec![],
    }
}

fn community(all: bool, score: u8) -> CommunityHealth {
    CommunityHealth {
        has_readme: true,
        has_license: true,
        has_contributing: all,
        has_code_of_conduct: all,
        has_issue_templates: all,
        has_pr_template: all,
        has_security_policy: all,
        score,
    }
}

/// A snapshot with no activity at all, fetched and created at `now`.
fn blank_snapshot(now: i64) -> RepoSnapshot {
    RepoSnapshot {
        fetched_at: now,
        previous_snapshot_at: None,
        snapshot_history_id: 1,
        repo: RepoMeta {
            owner: "test".to_string(),
            name: "repo".to_string(),
            description: None,
            language: None,
            created_at: now,
            updated_at: now,
            default_branch: "main".to_string(),
            forks_count: 0,
            open_issues_count: 0,
            watchers_count: 0,
        },
        stars: StarHistory {
            total_count: 0,
            sparkline_30d: vec![],
            sparkline_90d: vec![],
            sparkline_365d: vec![],
        },
        issues: IssueStats {
            total_open: 0,
            by_label: vec![],
            unlabelled: vec![],
            truncated: false,
        },
        pull_requests: PrStats {
            open_count: 0,
            draft_count: 0,
            ready_count: 0,
            merged_last_30d: vec![],
            avg_time_to_merge_hours: None,
        },
        contributors: ContributorStats {
            top_contributors: vec![],
            new_contributors_last_30d: vec![],
            total_unique: 0,
        },
        releases: vec![],
        velocity: VelocityStats {
            issues_weekly: vec![],
            prs_weekly: vec![],
        },
        security_alerts: None,
        ci_status: None,
        community_health: None,
    }
}

/// A snapshot with minimal activity: stars, forks and open items only.
fn create_test_snapshot(now: i64) -> RepoSnapshot {
    let mut s = blank_snapshot(now);
    s.repo.forks_count = 50;
    s.repo.open_issues_count = 10;
    s.repo.watchers_count = 100;
    s.stars = StarHistory {
        total_count: 1000,
        sparkline_30d: vec![10, 12, 15, 8],
        sparkline_90d: vec![100, 120, 150, 80],
        sparkline_365d: vec![1000, 1200],
    };
    s.issues.total_open = 10;
    s.pull_requests.open_count = 5;
    s.pull_requests.draft_count = 1;
    s.pull_requests.ready_count = 4;
    s
}

#[test]
fn test_health_grade_from_score() {
    assert_eq!(HealthGrade::from(95), HealthGrade::Excellent);
    assert_eq!(HealthGrade::from(90), HealthGrade::Excellent);
    assert_eq!(HealthGrade::from(89), HealthGrade::Good);
    assert_eq!(HealthGrade::from(75), HealthGrade::Good);
    assert_eq!(HealthGrade::from(74), HealthGrade::Fair);
    assert_eq!(HealthGrade::from(50), HealthGrade::Fair);
    assert_eq!(HealthGrade::from(49), HealthGrade::NeedsAttention);
    assert_eq!(HealthGrade::from(25), HealthGrade::NeedsAttention);
    assert_eq!(HealthGrade::from(24), HealthGrade::Critical);
    assert_eq!(HealthGrade::from(0), HealthGrade::Critical);
}

#[test]
fn test_health_grade_as_letter() {
    assert_eq!(HealthGrade::Excellent.as_letter(), 'A');
    assert_eq!(HealthGrade::Good.as_letter(), 'B');
    assert_eq!(HealthGrade::Fair.as_letter(), 'C');
    assert_eq!(HealthGrade::NeedsAttention.as_letter(), 'D');
    assert_eq!(HealthGrade::Critical.as_letter(), 'F');
}

#[test]
fn test_health_grade_as_label() {
    assert_eq!(HealthGrade::Excellent.as_label(), "Excellent");
    assert_eq!(HealthGrade::NeedsAttention.as_label(), "Needs Attention");
}

#[test]
fn test_health_grade_color_codes() {
    assert_eq!(HealthGrade::Excellent.color_code(), "\x1b[32m");
    assert_eq!(HealthGrade::Critical.color_code(), "\x1b[31m");
}

#[test]
fn test_compute_health_score_zero_activity() {
    let snapshot = create_test_snapshot(now_secs());
    let score = compute_health_score(&snapshot).unwrap();

    assert!(score.activity <= 5, "Activity score should be low with no velocity data");
    assert!(score.community <= 8, "Community score should be low with minimal data");
    assert!(score.maintenance <= 17, "Maintenance should be reduced for no releases");
    assert!(score.growth >= 10, "Growth should have points from stars and forks");
    assert!(score.total <= 60, "Total should be modest with minimal data");
}

#[test]
fn test_compute_health_score_excellent() {
    let now = now_secs();
    let mut snapshot = blank_snapshot(now);
    snapshot.repo.owner = "excellent".to_string();
    snapshot.repo.forks_count = 200;
    snapshot.repo.open_issues_count = 10;
    snapshot.repo.watchers_count = 500;
    snapshot.stars = StarHistory {
        total_count: 10000,
        sparkline_30d: vec![50, 60, 55, 70, 65, 80, 75],
        sparkline_90d: vec![400, 450, 500],
        sparkline_365d: vec![5000, 6000],
    };
    snapshot.issues = IssueStats {
        total_open: 20,
        by_label: vec![LabelGroup {
            label: "bug".to_string(),
            issues: vec![Issue {
                number: 1,
                title: "Bug".to_string(),
                author: "user".to_string(),
                created_at: now - 5 * DAY,
                updated_at: now,
                labels: vec!["bug".to_string()],
                comments_count: 3,
            }],
        }],
        unlabelled: vec![],
        truncated: false,
    };
    snapshot.pull_requests = PrStats {
        open_count: 5,
        draft_count: 1,
        ready_count: 4,
        merged_last_30d: vec![
            merged(1, "user1", now - 2 * DAY, now, 12),
            merged(2, "user2", now - DAY, now, 18),
            merged(3, "user3", now - 3 * DAY, now, 20),
            merged(4, "user4", now - 4 * DAY, now, 16),
            merged(5, "user5", now - 5 * DAY, now, 14),
            merged(6, "user6", now - 6 * DAY, now, 10),
        ],
        avg_time_to_merge_hours: Some(Fraction::whole(15)),
    };
    snapshot.contributors = ContributorStats {
        top_contributors: vec![
            Contributor { username: "user1".to_string(), commit_count: 30, avatar_url: None },
            Contributor { username: "user2".to_string(), commit_count: 25, avatar_url: None },
            Contributor { username: "user3".to_string(), commit_count: 20, avatar_url: None },
            Contributor { username: "user4".to_string(), commit_count: 15, avatar_url: None },
        ],
        new_contributors_last_30d: (1..=5).map(|i| format!("newbie{}", i)).collect(),
        total_unique: 100,
    };
    snapshot.releases = vec![Release {
        tag_name: "v1.0.0".to_string(),
        name: Some("Release".to_string()),
        created_at: now,
        published_at: Some(now - 5 * DAY),
        prerelease: false,
        draft: false,
        days_since: Some(5),
        avg_interval: Some(Fraction::whole(14)),
    }];
    snapshot.velocity = VelocityStats {
        issues_weekly: vec![
            week(now - 7 * DAY, 25, 22),
            week(now - 14 * DAY, 20, 19),
            week(now - 21 * DAY, 18, 17),
            week(now - 28 * DAY, 22, 20),
        ],
        prs_weekly: vec![
            week(now - 7 * DAY, 15, 14),
            week(now - 14 * DAY, 12, 11),
            week(now - 21 * DAY, 10, 10),
            week(now - 28 * DAY, 14, 13),
        ],
    };
    snapshot.security_alerts = Some(alerts(0, 0, 0));

    let score = compute_health_score(&snapshot).unwrap();

    assert!(score.activity >= 15, "Activity score should be high, got {}", score.activity);
    assert!(score.community >= 12, "Community score should be good, got {}", score.community);
    assert!(score.maintenance >= 18, "Maintenance score should be high, got {}", score.maintenance);
    assert!(score.growth >= 20, "Growth score should be high, got {}", score.growth);
    assert!(score.total >= 90, "Total score should be >= 90 for Excellent, got {}", score.total);
    assert_eq!(score.grade, HealthGrade::Excellent);
}

#[test]
fn test_compute_health_score_critical() {
    let now = now_secs();
    let old_date = now - 200 * DAY;
    let mut snapshot = blank_snapshot(now);
    snapshot.repo.owner = "critical".to_string();
    snapshot.repo.created_at = old_date;
    snapshot.repo.updated_at = old_date;
    snapshot.repo.open_issues_count = 100;
    snapshot.repo.watchers_count = 5;
    snapshot.stars = StarHistory {
        total_count: 5,
        sparkline_30d: vec![0, 0, 0, 0],
        sparkline_90d: vec![0, 0, 0],
        sparkline_365d: vec![0],
    };
    snapshot.issues = IssueStats {
        total_open: 100,
        by_label: vec![LabelGroup {
            label: "bug".to_string(),
            issues: vec![Issue {
                number: 1,
                title: "Old bug".to_string(),
                author: "user".to_string(),
                created_at: now - 180 * DAY,
                updated_at: old_date,
                labels: vec!["bug".to_string()],
                comments_count: 0,
            }],
        }],
        unlabelled: vec![],
        truncated: false,
    };
    snapshot.pull_requests.open_count = 50;
    snapshot.pull_requests.draft_count = 10;
    snapshot.pull_requests.ready_count = 40;
    snapshot.contributors = ContributorStats {
        top_contributors: vec![Contributor {
            username: "single".to_string(),
            commit_count: 100,
            avatar_url: None,
        }],
        new_contributors_last_30d: vec![],
        total_unique: 1,
    };
    snapshot.velocity = VelocityStats {
        issues_weekly: vec![week(now - 7 * DAY, 20, 0)],
        prs_weekly: vec![week(now - 7 * DAY, 5, 0)],
    };
    snapshot.security_alerts = Some(alerts(5, 2, 3));

    let score = compute_health_score(&snapshot).unwrap();

    assert!(score.activity <= 15, "Activity score should be low, got {}", score.activity);
    assert!(score.community <= 8, "Community score should be low, got {}", score.community);
    assert!(score.maintenance <= 5, "Maintenance score should be very low, got {}", score.maintenance);
    assert!(score.growth <= 3, "Growth score should be low, got {}", score.growth);
    assert!(score.total <= 30, "Total score should be critical, got {}", score.total);
    assert_eq!(score.grade, HealthGrade::Critical);
}

#[test]
fn test_grade_boundary_89_to_90() {
    assert_eq!(HealthGrade::from(89), HealthGrade::Good);
    assert_eq!(HealthGrade::from(90), HealthGrade::Excellent);
}

#[test]
fn test_grade_boundary_74_to_75() {
    assert_eq!(HealthGrade::from(74), HealthGrade::Fair);
    assert_eq!(HealthGrade::from(75), HealthGrade::Good);
}

#[test]
fn test_grade_boundary_49_to_50() {
    assert_eq!(HealthGrade::from(49), HealthGrade::NeedsAttention);
    assert_eq!(HealthGrade::from(50), HealthGrade::Fair);
}

#[test]
fn test_grade_boundary_24_to_25() {
    assert_eq!(HealthGrade::from(24), HealthGrade::Critical);
    assert_eq!(HealthGrade::from(25), HealthGrade::NeedsAttention);
}

#[test]
fn test_activity_score_velocity_calculation() {
    let now = now_secs();
    let mut snapshot = blank_snapshot(now);
    snapshot.velocity = VelocityStats {
        issues_weekly: vec![
            week(now - 7 * DAY, 15, 10),
            week(now - 14 * DAY, 20, 15),
            week(now - 21 * DAY, 10, 8),
        ],
        prs_weekly: vec![week(now - 7 * DAY, 5, 4), week(now - 14 * DAY, 8, 7)],
    };

    let score = compute_activity_score(&snapshot);
    assert!((10..=13).contains(&score), "Activity score should reflect velocity");
}

#[test]
fn test_maintenance_score_with_security_alerts() {
    let now = now_secs();
    let mut critical_snapshot = blank_snapshot(now);
    critical_snapshot.releases = vec![Release {
        tag_name: "v1".to_string(),
        name: None,
        created_at: now,
        published_at: Some(now - 5 * DAY),
        prerelease: false,
        draft: false,
        days_since: Some(5),
        avg_interval: None,
    }];
    critical_snapshot.security_alerts = Some(alerts(2, 1, 1));

    let score = compute_maintenance_score(&critical_snapshot);
    assert!(score <= 17, "Critical alerts should significantly reduce score");

    let clean_snapshot = RepoSnapshot {
        security_alerts: Some(alerts(0, 0, 0)),
        ci_status: None,
        community_health: None,
        ..critical_snapshot
    };

    let clean_score = compute_maintenance_score(&clean_snapshot);
    assert!(clean_score > score, "Clean security should have higher score");
}

#[test]
fn test_growth_score_acceleration_bonus() {
    let now = now_secs();
    let mut accelerating = blank_snapshot(now);
    accelerating.repo.forks_count = 10;
    accelerating.repo.watchers_count = 20;
    accelerating.stars = StarHistory {
        total_count: 1000,
        sparkline_30d: vec![50, 50, 50, 50],
        sparkline_90d: vec![100, 100],
        sparkline_365d: vec![500],
    };

    let score = compute_growth_score(&accelerating);
    assert!(score >= 20, "Accelerating growth should have high score");
}

#[test]
fn test_growth_acceleration_compares_daily_rates() {
    let now = now_secs();
    let mut s = blank_snapshot(now);
    s.repo.forks_count = 10;
    s.repo.watchers_count = 20;
    s.stars = StarHistory {
        total_count: 1000,
        sparkline_30d: vec![50, 50, 50, 50],
        sparkline_90d: vec![100, 100],
        sparkline_365d: vec![500],
    };
    // 200 stars in 30 days beat 200 in 90 days: 15 + 2 + 4 + 3.
    assert_eq!(compute_growth_score(&s), 24);

    // Level rates (90 in 30 days, 270 in 90 days): no bonus.
    s.stars.sparkline_30d = vec![30, 30, 30];
    s.stars.sparkline_90d = vec![90, 90, 90];
    assert_eq!(compute_growth_score(&s), 15 + 4 + 3);
    // One more recent star tips the balance.
    s.stars.sparkline_30d = vec![30, 30, 31];
    assert_eq!(compute_growth_score(&s), 15 + 2 + 4 + 3);
}

#[test]
fn test_health_score_components_sum_to_total() {
    let snapshot = create_test_snapshot(now_secs());
    let score = compute_health_score(&snapshot).unwrap();

    assert_eq!(
        score.total,
        score.activity + score.community + score.maintenance + score.growth,
        "Total should equal sum of components"
    );
}

#[test]
fn test_maintenance_score_with_community_health_perfect() {
    let now = now_secs();
    let mut snapshot = blank_snapshot(now);
    snapshot.security_alerts = Some(alerts(0, 0, 0));
    snapshot.community_health = Some(community(true, 100));

    let score = compute_maintenance_score(&snapshot);
    assert!(
        (19..=21).contains(&score),
        "Maintenance score with perfect community health should be 20, got {}",
        score
    );
}

#[test]
fn test_maintenance_score_with_community_health_partial() {
    let now = now_secs();
    let mut snapshot = blank_snapshot(now);
    snapshot.security_alerts = Some(alerts(0, 0, 0));
    snapshot.community_health = Some(community(false, 50));

    let score = compute_maintenance_score(&snapshot);
    assert!(
        (16..=18).contains(&score),
        "Maintenance score with partial community health should be 17, got {}",
        score
    );
}

#[test]
fn test_maintenance_score_with_community_health_none() {
    let now = now_secs();
    let mut snapshot = blank_snapshot(now);
    snapshot.security_alerts = Some(alerts(0, 0, 0));

    let score_without = compute_maintenance_score(&snapshot);
    assert!(
        (14..=16).contains(&score_without),
        "Maintenance score without community health should be 15, got {}",
        score_without
    );
}

#[test]
fn test_activity_score_with_ci_success_rate_perfect() {
    let now = now_secs();
    let mut base_snapshot = blank_snapshot(now);
    base_snapshot.velocity = VelocityStats {
        issues_weekly: vec![week(now - 7 * DAY, 15, 10), week(now - 14 * DAY, 20, 15)],
        prs_weekly: vec![week(now - 7 * DAY, 5, 4), week(now - 14 * DAY, 8, 7)],
    };
    let score_without_ci = compute_activity_score(&base_snapshot);

    let snapshot_with_ci = RepoSnapshot {
        ci_status: Some(ci(100)),
        ..base_snapshot.clone()
    };
    let score_with_perfect_ci = compute_activity_score(&snapshot_with_ci);

    assert_eq!(
        score_with_perfect_ci,
        score_without_ci + 5,
        "Perfect CI success rate should add 5 points to activity score"
    );
}

#[test]
fn test_activity_score_with_ci_success_rate_partial() {
    let now = now_secs();
    let mut snapshot = blank_snapshot(now);
    snapshot.velocity = VelocityStats {
        issues_weekly: vec![week(now - 7 * DAY, 15, 10)],
        prs_weekly: vec![week(now - 7 * DAY, 5, 4)],
    };
    snapshot.ci_status = Some(ci(80));

    let score = compute_activity_score(&snapshot);
    assert!(
        (12..=14).contains(&score),
        "Activity score with 80% CI success rate should include ~4 point bonus, got {}",
        score
    );
}

#[test]
fn test_activity_score_with_ci_success_rate_zero() {
    let now = now_secs();
    let mut snapshot = blank_snapshot(now);
    snapshot.velocity = VelocityStats {
        issues_weekly: vec![week(now - 7 * DAY, 15, 10)],
        prs_weekly: vec![week(now - 7 * DAY, 5, 4)],
    };
    snapshot.ci_status = Some(ci(0));
    let score_with_zero = compute_activity_score(&snapshot);

    let snapshot_without_ci = RepoSnapshot {
        ci_status: None,
        ..snapshot.clone()
    };
    let score_without_ci = compute_activity_score(&snapshot_without_ci);

    assert_eq!(
        score_with_zero, score_without_ci,
        "0% CI success rate should add no bonus points"
    );
}

#[test]
fn test_activity_score_with_ci_success_rate_capped() {
    let now = now_secs();
    let mut snapshot = blank_snapshot(now);
    snapshot.pull_requests.merged_last_30d = vec![
        merged(1, "user1", now - 2 * DAY, now, 12),
        merged(2, "user2", now - DAY, now, 12),
        merged(3, "user3", now - 3 * DAY, now, 12),
    ];
    snapshot.pull_requests.avg_time_to_merge_hours = Some(Fraction::whole(12));
    snapshot.velocity = VelocityStats {
        issues_weekly: vec![week(now - 7 * DAY, 50, 45)],
        prs_weekly: vec![week(now - 7 * DAY, 50, 45)],
    };
    snapshot.ci_status = Some(ci(100));

    let score = compute_activity_score(&snapshot);
    assert!(score <= 25, "Activity score should be capped at 25, got {}", score);
}

#[test]
fn test_health_score_with_ci_and_community_integration() {
    let now = now_secs();
    let mut snapshot = create_test_snapshot(now);
    snapshot.velocity = VelocityStats {
        issues_weekly: vec![week(now - 7 * DAY, 25, 22)],
        prs_weekly: vec![week(now - 7 * DAY, 15, 14)],
    };
    snapshot.security_alerts = Some(alerts(0, 0, 0));
    snapshot.ci_status = Some(ci(90));
    snapshot.community_health = Some(community(true, 100));

    let score = compute_health_score(&snapshot).unwrap();

    assert!(score.activity <= 25, "Activity should be capped at 25");
    assert!(score.community <= 25, "Community should be capped at 25");
    assert!(score.maintenance <= 25, "Maintenance should be capped at 25");
    assert!(score.growth <= 25, "Growth should be capped at 25");
    assert_eq!(
        score.total,
        score.activity + score.community + score.maintenance + score.growth,
        "Total should equal sum of components"
    );
}

#[test]
fn test_health_score_struct_values() {
    let score = HealthScore {
        total: 75,
        activity: 20,
        community: 18,
        maintenance: 22,
        growth: 15,
        grade: HealthGrade::Good,
    };
    let copy = score;
    assert_eq!(copy, score);
    assert_eq!(HealthGrade::from(copy.total), copy.grade);
}

#[test]
fn test_health_score_at_fixed_time_is_deterministic() {
    let now = 1_700_000_000;
    let snapshot = create_test_snapshot(now);
    let a = compute_health_score_at(&snapshot, now);
    let b = compute_health_score_at(&snapshot, now);
    assert_eq!(a, b);
    assert_eq!(a.total, a.activity + a.community + a.maintenance + a.growth);
    assert_eq!(HealthGrade::from(a.total), a.grade);
}

#[test]
fn test_critical_alert_caps_maintenance() {
    let now = 1_700_000_000;
    let mut snapshot = create_test_snapshot(now);
    snapshot.security_alerts = Some(alerts(1, 1, 0));
    assert!(compute_maintenance_score(&snapshot) <= 17);
}
