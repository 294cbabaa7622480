use forgestat::checks::{check_report_inputs, check_summary_inputs};
use forgestat::health::{compute_health_score, compute_health_score_at};
use forgestat::output::{
    format_summary, format_summary_at, generate_report, generate_report_at, ReportDecimals,
    SummaryTexts,
};
use forgestat::models::{
    Contributor, ContributorStats, Fraction, Issue, IssueStats, LabelGroup, MergedPr, PrStats,
    Release, RepoMeta, RepoSnapshot, SecurityAlerts, StarHistory, VelocityStats, WeeklyActivity,
};
use forgestat::report::{calculate_stars_change_30d, calculate_weekly_average, format_health_section, format_number};
use forgestat::sections::{
    format_contributors_section, format_issues_section, format_prs_section,
    format_releases_section, format_report_header, format_security_section, format_stars_section,
    format_velocity_section,
};
use forgestat::summary::{
    format_summary_contributors, format_summary_header, format_summary_health,
    format_summary_issues, format_summary_prs, format_summary_release, format_summary_security,
    format_summary_stars, format_summary_velocity, pad_to,
};

const DAY: i64 = 86_400;

fn now_secs() -> i64 {
    std::time::SystemTime::now()
        .duration_since(std::time::UNIX_EPOCH)
        .unwrap()
        .as_secs() as i64
}

fn issue(number: u64, title: &str, author: &str, days_old: i64, label: &str, comments: u64, now: i64) -> Issue {
    Issue {
        number,
        title: title.to_string(),
        author: author.to_string(),
        created_at: now - days_old * DAY,
        updated_at: now,
        labels: vec![label.to_string()],
        comments_count: comments,
    }
}

fn create_test_snapshot(now: i64) -> RepoSnapshot {
    RepoSnapshot {
        fetched_at: now,
        previous_snapshot_at: None,
        snapshot_history_id: 3,
        repo: RepoMeta {
            owner: "octocat".to_string(),
            name: "Hello-World".to_string(),
            description: Some("Test repo".to_string()),
            language: Some("Rust".to_string()),
            created_at: now,
            updated_at: now,
            default_branch: "main".to_string(),
            forks_count: 100,
            open_issues_count: 10,
            watchers_count: 1000,
        },
        stars: StarHistory {
            total_count: 5234,
            sparkline_30d: vec![10, 12, 15, 8, 20, 18, 22, 18],
            sparkline_90d: vec![100, 120, 150, 80, 200],
            sparkline_365d: vec![1000, 1200, 1500, 800, 2000],
        },
        issues: IssueStats {
            total_open: 42,
            by_label: vec![
                LabelGroup {
                    label: "bug".to_string(),
                    issues: vec![
                        issue(1, "Bug 1", "user1", 5, "bug", 3, now),
                        issue(2, "Bug 2", "user2", 10, "bug", 1, now),
                    ],
                },
                LabelGroup {
                    label: "enhancement".to_string(),
                    issues: vec![issue(3, "Feature request", "user3", 3, "enhancement", 5, now)],
                },
            ],
            unlabelled: vec![],
            truncated: false,
        },
        pull_requests: PrStats {
            open_count: 8,
            draft_count: 2,
            ready_count: 6,
            merged_last_30d: vec![
                MergedPr {
                    number: 101,
                    title: "Fix bug".to_string(),
                    author: "user1".to_string(),
                    created_at: now - 2 * DAY,
                    merged_at: now,
                    time_to_merge_hours: Fraction::whole(24),
                },
                MergedPr {
                    number: 102,
                    title: "Add feature".to_string(),
                    author: "user2".to_string(),
                    created_at: now - 5 * DAY,
                    merged_at: now - DAY,
                    time_to_merge_hours: Fraction::whole(96),
                },
            ],
            avg_time_to_merge_hours: Some(Fraction::whole(60)),
        },
        contributors: ContributorStats {
            top_contributors: vec![
                Contributor { username: "alice".to_string(), commit_count: 150, avatar_url: None },
                Contributor { username: "bob".to_string(), commit_count: 75, avatar_url: None },
            ],
            new_contributors_last_30d: vec!["newbie1".to_string(), "newbie2".to_string()],
            total_unique: 156,
        },
        releases: vec![
            Release {
                tag_name: "v1.2.0".to_string(),
                name: Some("Version 1.2".to_string()),
                created_at: now - 14 * DAY,
                published_at: Some(now - 14 * DAY),
                prerelease: false,
                draft: false,
                days_since: Some(14),
                avg_interval: Some(Fraction::whole(30)),
            },
            Release {
                tag_name: "v1.1.0".to_string(),
                name: Some("Version 1.1".to_string()),
                created_at: now - 45 * DAY,
                published_at: Some(now - 45 * DAY),
                prerelease: false,
                draft: false,
                days_since: Some(45),
                avg_interval: None,
            },
        ],
        velocity: VelocityStats {
            issues_weekly: vec![
                WeeklyActivity { week_start: now - 7 * DAY, opened: 5, closed: 3 },
                WeeklyActivity { week_start: now - 14 * DAY, opened: 3, closed: 4 },
            ],
            prs_weekly: vec![
                WeeklyActivity { week_start: now - 7 * DAY, opened: 2, closed: 1 },
                WeeklyActivity { week_start: now - 14 * DAY, opened: 1, closed: 2 },
            ],
        },
        security_alerts: Some(SecurityAlerts {
            total_open: 2,
            critical_count: 0,
            high_count: 1,
            medium_count: 1,
            low_count: 0,
        }),
        ci_status: None,
        community_health: None,
    }
}

fn ratios(weeks: &[WeeklyActivity]) -> Vec<String> {
    weeks
        .iter()
        .map(|w| format!("{:.1}", w.opened as f64 / w.closed.max(1) as f64))
        .collect()
}

fn velocity_of(s: &RepoSnapshot) -> String {
    let v = &s.velocity;
    let averages = vec!["4.0".to_string(), "3.5".to_string(), "1.5".to_string(), "1.5".to_string()];
    format_velocity_section(v, &ratios(&v.issues_weekly), &ratios(&v.prs_weekly), &averages)
}

fn decimals_of(s: &RepoSnapshot) -> ReportDecimals {
    let v = &s.velocity;
    ReportDecimals {
        star_rate: "3.5".to_string(),
        avg_merge_days: "2.5".to_string(),
        release_interval: "30.0".to_string(),
        issue_ratios: ratios(&v.issues_weekly),
        pr_ratios: ratios(&v.prs_weekly),
        averages: vec!["4.0".to_string(), "3.5".to_string(), "1.5".to_string(), "1.5".to_string()],
    }
}

/// The report of the library, with the decimals written here.
fn report_of(s: &RepoSnapshot) -> String {
    assert!(check_report_inputs(s));
    generate_report(s, &decimals_of(s)).unwrap()
}

/// The report's sections one by one, in report order, at instant `now`.
fn sections_of(s: &RepoSnapshot, now: i64) -> String {
    let mut r = format_report_header(&s.repo.owner, &s.repo.name, s.fetched_at);
    r.push_str(&format_health_section(&compute_health_score_at(s, now)));
    r.push_str(&format_stars_section(&s.stars, "3.5"));
    r.push_str(&format_issues_section(&s.issues, s.oldest_issue_age_days_at(now)));
    r.push_str(&format_prs_section(&s.pull_requests, "2.5"));
    r.push_str(&format_contributors_section(&s.contributors));
    r.push_str(&format_releases_section(&s.releases, "30.0"));
    r.push_str(&velocity_of(s));
    r.push_str(&format_security_section(&s.security_alerts));
    r
}

#[test]
fn test_report_is_its_sections_in_order() {
    let now = 1_700_000_000;
    let s = create_test_snapshot(now);
    let report = generate_report_at(&s, &decimals_of(&s), now);
    assert_eq!(report, sections_of(&s, now));
    let header = report.find("# octocat").unwrap();
    let health = report.find("## Health Score").unwrap();
    let security = report.find("Security").unwrap();
    assert!(header < health && health < security);
}

#[test]
fn test_generate_report_includes_header() {
    let report = report_of(&create_test_snapshot(now_secs()));
    assert!(report.contains("# octocat/Hello-World Health Report"));
    assert!(report.contains("Generated:"));
}

#[test]
fn test_report_header_fixed_time() {
    let h = format_report_header("octocat", "Hello-World", 1_700_000_000);
    assert_eq!(h, "# octocat/Hello-World Health Report\n\nGenerated: 2023-11-14 22:13 UTC\n\n");
}

#[test]
fn test_generate_report_includes_health_section() {
    let report = report_of(&create_test_snapshot(now_secs()));
    assert!(report.contains("## Health Score"));
    assert!(report.contains("Overall:"));
    assert!(report.contains("/100"));
    assert!(report.contains("Activity"));
    assert!(report.contains("Community"));
    assert!(report.contains("Maintenance"));
    assert!(report.contains("Growth"));
}

#[test]
fn test_generate_report_includes_stars_section() {
    let report = report_of(&create_test_snapshot(now_secs()));
    assert!(report.contains("## ⭐ Stars"));
    assert!(report.contains("5,234"));
}

#[test]
fn test_stars_section_exact() {
    let s = create_test_snapshot(1_700_000_000);
    let text = format_stars_section(&s.stars, "R");
    // 30-day total 123, 90-day total 650: rate (7*123+650)/300, 4766 stars to 10,000.
    assert_eq!(
        text,
        "## ⭐ Stars\n\n**Total:** 5,234\n\n📈 **Next Milestone:** 10,000 stars estimated in 947 days (R/day)\n\n| Period | New Stars |\n|--------|-----------|\n| Last 30 days | +123 |\n| Last 90 days | +650 |\n\n"
    );
    let stalled = StarHistory {
        total_count: 3,
        sparkline_30d: vec![],
        sparkline_90d: vec![],
        sparkline_365d: vec![],
    };
    assert!(format_stars_section(&stalled, "R").contains("📉 Growth stalled or no milestone data available"));
}

#[test]
fn test_generate_report_includes_issues_section() {
    let report = report_of(&create_test_snapshot(now_secs()));
    assert!(report.contains("## 📋 Issues"));
    assert!(report.contains("42"));
    assert!(report.contains("bug"));
    assert!(report.contains("enhancement"));
}

#[test]
fn test_issues_section_orders_labels_by_count() {
    let s = create_test_snapshot(1_700_000_000);
    let mut issues = s.issues.clone();
    issues.by_label.reverse();
    issues.unlabelled = vec![issue(9, "x", "u", 1, "", 0, 1_700_000_000)];
    let text = format_issues_section(&issues, Some(10));
    assert_eq!(
        text,
        "## 📋 Issues\n\n**Open:** 42\n\n⏱️ **Oldest Issue:** 10 days old\n\n### By Label\n\n| Label | Count |\n|-------|-------|\n| bug | 2 |\n| enhancement | 1 |\n| *unlabelled* | 1 |\n\n"
    );
    let empty = IssueStats { total_open: 0, by_label: vec![], unlabelled: vec![], truncated: false };
    assert_eq!(format_issues_section(&empty, None), "## 📋 Issues\n\n**Open:** 0\n\n");
}

#[test]
fn test_generate_report_includes_prs_section() {
    let report = report_of(&create_test_snapshot(now_secs()));
    assert!(report.contains("## 🔀 Pull Requests"));
    assert!(report.contains("8"));
    assert!(report.contains("Ready"));
    assert!(report.contains("Draft"));
}

#[test]
fn test_prs_section_exact() {
    let s = create_test_snapshot(1_700_000_000);
    assert_eq!(
        format_prs_section(&s.pull_requests, "2.5"),
        "## 🔀 Pull Requests\n\n**Open:** 8\n\n| Status | Count |\n|--------|-------|\n| Ready | 6 |\n| Draft | 2 |\n| Merged (30d) | 2 |\n\n⏱️ **Avg Time to Merge:** 2.5 days\n\n"
    );
}

#[test]
fn test_generate_report_includes_contributors_section() {
    let report = report_of(&create_test_snapshot(now_secs()));
    assert!(report.contains("## 👥 Contributors"));
    assert!(report.contains("156"));
    assert!(report.contains("@alice"));
    assert!(report.contains("@bob"));
}

#[test]
fn test_contributors_section_exact() {
    let s = create_test_snapshot(1_700_000_000);
    assert_eq!(
        format_contributors_section(&s.contributors),
        "## 👥 Contributors\n\n**Total Unique:** 156\n\n🆕 **New Contributors (30d):** 2\n\n### Top Contributors\n\n| User | Commits |\n|------|---------|\n| @alice | 150 |\n| @bob | 75 |\n\n"
    );
}

#[test]
fn test_generate_report_includes_releases_section() {
    let report = report_of(&create_test_snapshot(now_secs()));
    assert!(report.contains("## 🏷️ Releases"));
    assert!(report.contains("v1.2.0"));
}

#[test]
fn test_releases_section_exact() {
    let s = create_test_snapshot(1_700_000_000);
    assert_eq!(
        format_releases_section(&s.releases, "30.0"),
        "## 🏷️ Releases\n\n| Version | Published | Days Since |\n|---------|-----------|------------|\n| v1.2.0 | 2023-10-31 | 14 |\n| v1.1.0 | 2023-09-30 | 45 |\n\n📅 **Avg Release Interval:** 30.0 days\n\n"
    );
    assert_eq!(format_releases_section(&vec![], "x"), "## 🏷️ Releases\n\n*No releases found*\n\n");
}

#[test]
fn test_generate_report_includes_velocity_section() {
    let report = report_of(&create_test_snapshot(now_secs()));
    assert!(report.contains("## 📊 Velocity"));
    assert!(report.contains("Issues"));
    assert!(report.contains("Pull Requests"));
}

#[test]
fn test_velocity_section_exact() {
    let s = create_test_snapshot(1_700_000_000);
    let text = velocity_of(&s);
    assert!(text.starts_with("## 📊 Velocity (Last 8 Weeks)\n\n### Issues\n\n| Week | Opened | Closed | Ratio |\n"));
    assert!(text.contains("| 2023-11-07 | 5 | 3 | 1.7 |\n| 2023-10-31 | 3 | 4 | 0.8 |\n"));
    assert!(text.contains("### Pull Requests\n\n| Week | Opened | Merged | Ratio |\n"));
    assert!(text.ends_with("| Issues | 4.0 | 3.5 |\n| PRs | 1.5 | 1.5 |\n\n"));

    let quiet = VelocityStats {
        issues_weekly: vec![
            WeeklyActivity { week_start: 0, opened: 2, closed: 0 },
            WeeklyActivity { week_start: 0, opened: 0, closed: 0 },
        ],
        prs_weekly: vec![],
    };
    let averages = vec!["1.0".to_string(), "0.0".to_string(), "0.0".to_string(), "0.0".to_string()];
    let t = format_velocity_section(&quiet, &vec!["x".into(), "y".into()], &vec![], &averages);
    assert!(t.contains("| 1970-01-01 | 2 | 0 | ∞ |\n| 1970-01-01 | 0 | 0 | - |\n"));
    assert!(!t.contains("### Pull Requests"));
}

#[test]
fn test_generate_report_includes_security_section() {
    let report = report_of(&create_test_snapshot(now_secs()));
    assert!(report.contains("## 🔒 Security"));
    assert!(report.contains("Critical"));
    assert!(report.contains("High"));
}

#[test]
fn test_generate_report_no_security_data() {
    let mut snapshot = create_test_snapshot(now_secs());
    snapshot.security_alerts = None;
    let report = report_of(&snapshot);
    assert!(report.contains("Security data not available"));
}

#[test]
fn test_security_section_without_alerts() {
    let clear = Some(SecurityAlerts {
        total_open: 0,
        critical_count: 0,
        high_count: 0,
        medium_count: 0,
        low_count: 0,
    });
    assert_eq!(
        format_security_section(&clear),
        "## 🔒 Security\n\n**Open Alerts:** 0\n\n✅ No open security alerts\n\n"
    );
}

#[test]
fn test_format_summary_includes_repo_name() {
    let s = create_test_snapshot(now_secs());
    let output = format_summary_header(&s.repo.owner, &s.repo.name);
    assert!(output.contains("octocat/Hello-World"));
}

#[test]
fn test_summary_header_rule_width() {
    let output = format_summary_header("a", "b");
    assert_eq!(output, "\x1b[1m\x1b[36mRepository: a/b\x1b[0m\n\x1b[2m━━━━━━━━━━━━━━━\x1b[0m\n");
}

#[test]
fn test_format_summary_includes_health_score() {
    let s = create_test_snapshot(now_secs());
    let output = format_summary_health(&compute_health_score(&s).unwrap());
    assert!(output.contains("Health Score"));
    assert!(output.contains("/100"));
    assert!(output.contains("Grade:"));
    assert!(output.contains("Activity:"));
    assert!(output.contains("Community:"));
    assert!(output.contains("Maintenance:"));
    assert!(output.contains("Growth:"));
}

fn texts_of(s: &RepoSnapshot) -> SummaryTexts {
    let change = calculate_stars_change_30d(&s.stars.sparkline_30d);
    SummaryTexts {
        stars_total: format_number(s.stars.total_count),
        stars_change: format_number(change),
        milestone: "10,000".to_string(),
        star_rate: "3.5".to_string(),
        contributors_total: format_number(s.contributors.total_unique),
    }
}

/// The summary of the library, with the counts and the rate written here.
fn summary_of(s: &RepoSnapshot) -> String {
    assert!(check_summary_inputs(s));
    format_summary(s, &texts_of(s)).unwrap()
}

/// The summary's lines one by one, in summary order, at instant `now`.
fn summary_lines_of(s: &RepoSnapshot, now: i64) -> String {
    let t = texts_of(s);
    let mut out = format_summary_header(&s.repo.owner, &s.repo.name);
    out.push_str(&format_summary_health(&compute_health_score_at(s, now)));
    out.push_str(&format_summary_stars(
        &s.stars,
        &t.stars_total,
        &t.stars_change,
        &t.milestone,
        &t.star_rate,
    ));
    out.push_str(&format_summary_issues(s.issues.total_open, s.oldest_issue_age_days_at(now)));
    out.push_str(&format_summary_prs(&s.pull_requests));
    out.push_str(&format_summary_contributors(
        &t.contributors_total,
        s.contributors.new_contributors_last_30d.len(),
    ));
    out.push_str(&format_summary_release(&s.releases));
    out.push_str(&format_summary_velocity(&s.velocity));
    out.push_str(&format_summary_security(&s.security_alerts));
    out
}

#[test]
fn test_summary_is_its_lines_in_order() {
    let now = 1_700_000_000;
    let s = create_test_snapshot(now);
    let out = format_summary_at(&s, &texts_of(&s), now);
    assert_eq!(out, summary_lines_of(&s, now));
    assert!(out.starts_with("\x1b[1m\x1b[36mRepository: octocat/Hello-World\x1b[0m\n"));
}

#[test]
fn test_format_summary_includes_all_metrics() {
    let output = summary_of(&create_test_snapshot(now_secs()));
    assert!(output.contains("Stars"));
    assert!(output.contains("Issues"));
    assert!(output.contains("Pull Requests"));
    assert!(output.contains("Contributors"));
    assert!(output.contains("Releases"));
    assert!(output.contains("Velocity"));
    assert!(output.contains("Security"));
}

#[test]
fn test_summary_lines_exact() {
    let s = create_test_snapshot(1_700_000_000);
    assert_eq!(
        format_summary_issues(42, Some(10)),
        "\x1b[1m📋 Issues:\x1b[0m       \x1b[33m42\x1b[0m open (oldest: 10 days)\x1b[0m\n"
    );
    assert_eq!(
        format_summary_prs(&s.pull_requests),
        "\x1b[1m🔀 Pull Requests:\x1b[0m  \x1b[33m8\x1b[0m open (6 ready, 2 draft)\x1b[0m\n"
    );
    assert_eq!(
        format_summary_release(&s.releases),
        "\x1b[1m🏷️  Releases:\x1b[0m      v1.2.0 (14 days ago)\n"
    );
    assert_eq!(
        format_summary_velocity(&s.velocity),
        "\x1b[1m📊 Velocity:\x1b[0m       4 issues/week, 1 PRs/week\n"
    );
    assert_eq!(
        format_summary_security(&s.security_alerts),
        "\x1b[1m🔒 Security:\x1b[0m      \x1b[31m2\x1b[0m alerts (1 high, 1 medium)\n"
    );
    assert_eq!(
        format_summary_contributors("156", 2),
        "\x1b[1m👥 Contributors:\x1b[0m        156 (2 new this month)\n"
    );
    assert_eq!(
        format_summary_stars(&s.stars, "5.2k", "123", "10k", "3.5"),
        "\x1b[1m★ Stars:\x1b[0m             5.2k (+123 this month) | 10k★ in 947 days (3.5/day)\n"
    );
    assert_eq!(pad_to("ab", 4), "  ab");
    assert_eq!(pad_to("abcdef", 4), "abcdef");
    assert_eq!(calculate_weekly_average(&s.velocity.issues_weekly), 4);
}
