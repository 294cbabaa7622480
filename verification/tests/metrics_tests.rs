use forgestat::metrics::{
    average_interval, check_ci_runs, ci_response_action, ci_status_at, community_response_action, count_alerts,
    distinct_names, new_contributor_names, pr_stats_at, releases_at, security_response_action, top_contributors,
    ClosedPrRecord, ContributorRecord, ReleaseRecord, ResponseAction, RunRecord,
};
use forgestat::models::{
    CIStatus, CommunityHealth, Contributor, ContributorStats, Fraction, MergedPr, PrStats,
    Release, SecurityAlerts, WorkflowRun,
};

const DAY: i64 = 86_400;
const NOW: i64 = 1_700_000_000;

fn release_record(tag: &str, name: &str, published_days_ago: i64) -> ReleaseRecord {
    let t = NOW - published_days_ago * DAY;
    ReleaseRecord {
        tag_name: tag.to_string(),
        name: Some(name.to_string()),
        created_at: Some(t),
        published_at: Some(t),
        prerelease: false,
        draft: false,
    }
}

#[test]
fn test_community_health_default_values() {
    let health = CommunityHealth {
        has_readme: true,
        has_license: true,
        has_contributing: false,
        has_code_of_conduct: true,
        has_issue_templates: false,
        has_pr_template: true,
        has_security_policy: false,
        score: 75,
    };

    assert!(health.has_readme);
    assert!(health.has_license);
    assert!(!health.has_contributing);
    assert!(health.has_code_of_conduct);
    assert!(!health.has_issue_templates);
    assert!(health.has_pr_template);
    assert!(!health.has_security_policy);
    assert_eq!(health.score, 75);
}

#[test]
fn test_community_health_all_present() {
    let health = CommunityHealth {
        has_readme: true,
        has_license: true,
        has_contributing: true,
        has_code_of_conduct: true,
        has_issue_templates: true,
        has_pr_template: true,
        has_security_policy: true,
        score: 100,
    };

    assert!(health.has_readme);
    assert!(health.has_license);
    assert!(health.has_contributing);
    assert!(health.has_code_of_conduct);
    assert!(health.has_issue_templates);
    assert!(health.has_pr_template);
    assert!(health.has_security_policy);
    assert_eq!(health.score, 100);
}

#[test]
fn test_community_health_none_present() {
    let health = CommunityHealth {
        has_readme: false,
        has_license: false,
        has_contributing: false,
        has_code_of_conduct: false,
        has_issue_templates: false,
        has_pr_template: false,
        has_security_policy: false,
        score: 0,
    };

    assert!(!health.has_readme);
    assert!(!health.has_license);
    assert!(!health.has_contributing);
    assert!(!health.has_code_of_conduct);
    assert!(!health.has_issue_templates);
    assert!(!health.has_pr_template);
    assert!(!health.has_security_policy);
    assert_eq!(health.score, 0);
}

#[test]
fn test_contributor_stats_default_values() {
    let stats = ContributorStats {
        top_contributors: vec![],
        new_contributors_last_30d: vec![],
        total_unique: 0,
    };

    assert!(stats.top_contributors.is_empty());
    assert!(stats.new_contributors_last_30d.is_empty());
    assert_eq!(stats.total_unique, 0);
}

#[test]
fn test_contributor_stats_with_data() {
    let contributor = Contributor {
        username: "testuser".to_string(),
        commit_count: 100,
        avatar_url: Some("https://example.com/avatar.png".to_string()),
    };

    let stats = ContributorStats {
        top_contributors: vec![contributor.clone()],
        new_contributors_last_30d: vec!["newbie".to_string()],
        total_unique: 50,
    };

    assert_eq!(stats.top_contributors.len(), 1);
    assert_eq!(stats.top_contributors[0].username, "testuser");
    assert_eq!(stats.top_contributors[0].commit_count, 100);
    assert_eq!(stats.new_contributors_last_30d.len(), 1);
    assert_eq!(stats.new_contributors_last_30d[0], "newbie");
    assert_eq!(stats.total_unique, 50);
}

#[test]
fn test_contributor_sorting() {
    let contributors = vec![
        ContributorRecord { login: "user1".to_string(), contributions: 50, avatar_url: String::new() },
        ContributorRecord { login: "user2".to_string(), contributions: 100, avatar_url: String::new() },
        ContributorRecord { login: "user3".to_string(), contributions: 25, avatar_url: String::new() },
    ];

    // The top ten keep the order the API gave.
    let top = top_contributors(&contributors);

    assert_eq!(top.len(), 3);
    assert_eq!(top[0].username, "user1");
    assert_eq!(top[0].commit_count, 50);
}

#[test]
fn test_top_contributors_keeps_ten() {
    let list: Vec<ContributorRecord> = (0..15)
        .map(|i| ContributorRecord {
            login: format!("u{}", i),
            contributions: 100 - i,
            avatar_url: format!("https://a/{}", i),
        })
        .collect();
    let top = top_contributors(&list);
    assert_eq!(top.len(), 10);
    assert_eq!(top[9].username, "u9");
    assert_eq!(top[9].avatar_url, Some("https://a/9".to_string()));
}

#[test]
fn test_distinct_names_first_occurrence() {
    let names = vec!["b".to_string(), "a".to_string(), "b".to_string(), "c".to_string(), "a".to_string()];
    assert_eq!(
        distinct_names(&names),
        vec!["b".to_string(), "a".to_string(), "c".to_string()]
    );
}

#[test]
fn test_security_alerts_default_values() {
    let alerts = SecurityAlerts {
        total_open: 5,
        critical_count: 1,
        high_count: 2,
        medium_count: 1,
        low_count: 1,
    };

    assert_eq!(alerts.total_open, 5);
    assert_eq!(alerts.critical_count, 1);
    assert_eq!(alerts.high_count, 2);
    assert_eq!(alerts.medium_count, 1);
    assert_eq!(alerts.low_count, 1);
}

#[test]
fn test_security_alerts_zero_counts() {
    let alerts = SecurityAlerts {
        total_open: 0,
        critical_count: 0,
        high_count: 0,
        medium_count: 0,
        low_count: 0,
    };

    assert_eq!(alerts.total_open, 0);
    assert_eq!(alerts.critical_count, 0);
    assert_eq!(alerts.high_count, 0);
    assert_eq!(alerts.medium_count, 0);
    assert_eq!(alerts.low_count, 0);
}

#[test]
fn test_count_alerts_by_severity() {
    let sev: Vec<String> = ["critical", "high", "high", "medium", "low", "unknown"]
        .iter()
        .map(|s| s.to_string())
        .collect();
    let a = count_alerts(&sev);
    assert_eq!(
        a,
        SecurityAlerts {
            total_open: 6,
            critical_count: 1,
            high_count: 2,
            medium_count: 1,
            low_count: 1,
        }
    );
}

#[test]
fn test_response_actions() {
    assert_eq!(ci_response_action(404), ResponseAction::Skip);
    assert_eq!(ci_response_action(403), ResponseAction::Skip);
    assert_eq!(ci_response_action(500), ResponseAction::Fail);
    assert_eq!(ci_response_action(200), ResponseAction::Parse);
    assert_eq!(security_response_action(401), ResponseAction::Skip);
    assert_eq!(security_response_action(502), ResponseAction::Fail);
    assert_eq!(community_response_action(204), ResponseAction::Skip);
    assert_eq!(community_response_action(200), ResponseAction::Parse);
    assert_eq!(community_response_action(418), ResponseAction::Fail);
}

#[test]
fn test_ci_status_default_values() {
    let ci_status = CIStatus {
        total_runs_30d: 50,
        success_rate: Fraction { numer: 171, denom: 2 },
        avg_duration_seconds: 300,
        recent_runs: vec![],
    };

    assert_eq!(ci_status.total_runs_30d, 50);
    assert_eq!(ci_status.success_rate, Fraction { numer: 171, denom: 2 });
    assert_eq!(ci_status.avg_duration_seconds, 300);
    assert!(ci_status.recent_runs.is_empty());
}

#[test]
fn test_workflow_run_creation() {
    let run = WorkflowRun {
        name: "Test Workflow".to_string(),
        status: "completed".to_string(),
        conclusion: Some("success".to_string()),
        created_at: NOW,
        duration_seconds: 180,
    };

    assert_eq!(run.name, "Test Workflow");
    assert_eq!(run.status, "completed");
    assert_eq!(run.conclusion, Some("success".to_string()));
    assert_eq!(run.duration_seconds, 180);
}

#[test]
fn test_workflow_run_with_none_conclusion() {
    let run = WorkflowRun {
        name: "Running Workflow".to_string(),
        status: "in_progress".to_string(),
        conclusion: None,
        created_at: NOW,
        duration_seconds: 60,
    };

    assert_eq!(run.name, "Running Workflow");
    assert_eq!(run.status, "in_progress");
    assert!(run.conclusion.is_none());
}

fn run(conclusion: Option<&str>, days_ago: i64, secs: i64) -> RunRecord {
    let created = NOW - days_ago * DAY;
    RunRecord {
        name: "CI".to_string(),
        status: if conclusion.is_some() { "completed" } else { "in_progress" }.to_string(),
        conclusion: conclusion.map(|c| c.to_string()),
        created_at: created,
        updated_at: created + secs,
        run_started_at: None,
    }
}

#[test]
fn test_ci_status_from_runs() {
    assert!(ci_status_at(&vec![], NOW).is_none());

    let runs = vec![
        run(Some("success"), 1, 100),
        run(Some("failure"), 2, 300),
        run(None, 3, 50),
        run(Some("success"), 40, 1000),
    ];
    let s = ci_status_at(&runs, NOW).unwrap();
    assert_eq!(s.total_runs_30d, 3);
    assert_eq!(s.success_rate, Fraction { numer: 100, denom: 3 });
    assert_eq!(s.avg_duration_seconds, 200);
    assert_eq!(s.recent_runs.len(), 4);
    assert_eq!(s.recent_runs[1].duration_seconds, 300);
}

#[test]
fn test_pr_stats_default_values() {
    let stats = PrStats {
        open_count: 5,
        draft_count: 1,
        ready_count: 4,
        merged_last_30d: vec![],
        avg_time_to_merge_hours: None,
    };

    assert_eq!(stats.open_count, 5);
    assert_eq!(stats.draft_count, 1);
    assert_eq!(stats.ready_count, 4);
    assert!(stats.merged_last_30d.is_empty());
    assert!(stats.avg_time_to_merge_hours.is_none());
}

#[test]
fn test_pr_stats_with_merged_prs() {
    let merged_pr = MergedPr {
        number: 42,
        title: "Test PR".to_string(),
        author: "testuser".to_string(),
        created_at: NOW - 48 * 3600,
        merged_at: NOW,
        time_to_merge_hours: Fraction::whole(48),
    };

    let stats = PrStats {
        open_count: 3,
        draft_count: 0,
        ready_count: 3,
        merged_last_30d: vec![merged_pr.clone()],
        avg_time_to_merge_hours: Some(Fraction::whole(48)),
    };

    assert_eq!(stats.merged_last_30d.len(), 1);
    assert_eq!(stats.merged_last_30d[0].number, 42);
    assert_eq!(stats.avg_time_to_merge_hours, Some(Fraction::whole(48)));
}

#[test]
fn test_pr_stats_from_records() {
    let open = vec![Some(true), Some(false), None];
    let closed = vec![
        ClosedPrRecord {
            number: 42,
            title: Some("Test PR".to_string()),
            author: Some("testuser".to_string()),
            created_at: Some(NOW - 48 * 3600),
            merged_at: Some(NOW),
        },
        ClosedPrRecord {
            number: 7,
            title: None,
            author: None,
            created_at: Some(NOW - 40 * DAY),
            merged_at: Some(NOW - 35 * DAY),
        },
        ClosedPrRecord {
            number: 8,
            title: Some("closed unmerged".to_string()),
            author: None,
            created_at: Some(NOW - DAY),
            merged_at: None,
        },
    ];
    let stats = pr_stats_at(&open, closed, NOW);
    assert_eq!(stats.open_count, 3);
    assert_eq!(stats.draft_count, 1);
    assert_eq!(stats.ready_count, 2);
    assert_eq!(stats.merged_last_30d.len(), 1);
    assert_eq!(stats.merged_last_30d[0].number, 42);
    assert_eq!(
        stats.merged_last_30d[0].time_to_merge_hours,
        Fraction { numer: 48 * 3600, denom: 3600 }
    );
    assert_eq!(
        stats.avg_time_to_merge_hours,
        Some(Fraction { numer: 48 * 3600, denom: 3600 })
    );
}

#[test]
fn test_releases_default_values() {
    let release = Release {
        tag_name: "v1.0.0".to_string(),
        name: Some("Initial Release".to_string()),
        created_at: NOW,
        published_at: None,
        prerelease: false,
        draft: false,
        days_since: None,
        avg_interval: None,
    };

    assert_eq!(release.tag_name, "v1.0.0");
    assert!(release.days_since.is_none());
    assert!(release.avg_interval.is_none());
}

#[test]
fn test_avg_interval_calculation() {
    let records = vec![
        release_record("v1.4.0", "Release 4", 5),
        release_record("v1.3.0", "Release 3", 15),
        release_record("v1.2.0", "Release 2", 25),
        release_record("v1.1.0", "Release 1", 35),
    ];
    let published: Vec<Option<i64>> = records.iter().map(|r| r.published_at).collect();

    // Intervals of 10 days each: the mean is 30 / 3 days.
    assert_eq!(average_interval(&published), Some(Fraction { numer: 30, denom: 3 }));

    let releases = releases_at(records, NOW);
    assert_eq!(releases[0].avg_interval, Some(Fraction { numer: 30, denom: 3 }));
    assert_eq!(releases[0].days_since, Some(5));
    assert!(releases[1].avg_interval.is_none());
}

#[test]
fn test_single_release_no_avg_interval() {
    let releases = releases_at(vec![release_record("v1.0.0", "Only Release", 5)], NOW);

    assert_eq!(releases.len(), 1);
    assert!(releases[0].avg_interval.is_none());
}

#[test]
fn test_two_releases_avg_interval() {
    let records = vec![
        release_record("v1.1.0", "Second Release", 10),
        release_record("v1.0.0", "First Release", 20),
    ];
    let releases = releases_at(records, NOW);

    assert_eq!(releases.len(), 2);
    assert_eq!(releases[0].avg_interval, Some(Fraction { numer: 10, denom: 1 }));
}

#[test]
fn test_days_since_calculation() {
    let five_days_ago = NOW - 5 * DAY;
    let releases = releases_at(
        vec![ReleaseRecord {
            tag_name: "v1.0.0".to_string(),
            name: Some("Test".to_string()),
            created_at: Some(five_days_ago),
            published_at: Some(five_days_ago),
            prerelease: false,
            draft: false,
        }],
        NOW,
    );

    assert_eq!(releases[0].days_since, Some(5));
}

#[test]
fn test_release_without_publication() {
    let releases = releases_at(
        vec![ReleaseRecord {
            tag_name: "draft".to_string(),
            name: None,
            created_at: None,
            published_at: None,
            prerelease: false,
            draft: true,
        }],
        NOW,
    );
    assert_eq!(releases[0].created_at, NOW);
    assert!(releases[0].days_since.is_none());
}

#[test]
fn test_new_contributors_sorted_by_name() {
    let candidates: Vec<String> = ["zed", "amy", "Bob", "carl", "amy"].iter().map(|s| s.to_string()).collect();
    let has_older = vec![false, false, false, true, false];
    let names = new_contributor_names(&candidates, &has_older);
    let mut expected: Vec<String> = vec!["zed".into(), "amy".into(), "Bob".into(), "amy".into()];
    expected.sort();
    assert_eq!(names, expected);
    assert_eq!(names, vec!["Bob".to_string(), "amy".to_string(), "amy".to_string(), "zed".to_string()]);
    assert!(new_contributor_names(&vec![], &vec![]).is_empty());
}

#[test]
fn test_ci_runs_check_machine_bounds() {
    let runs = vec![run(Some("success"), 1, 100), run(Some("failure"), 2, 300)];
    assert!(check_ci_runs(&runs, NOW));
    assert!(check_ci_runs(&vec![], NOW));
    // A time outside the admitted range is refused.
    let mut far = run(Some("success"), 1, 100);
    far.updated_at = i64::MAX;
    assert!(!check_ci_runs(&vec![far], NOW));
    // Old runs do not count toward the sum of durations.
    let mut long_ago = run(Some("success"), 40, 0);
    long_ago.updated_at = 17_000_000_000_000;
    assert!(check_ci_runs(&vec![long_ago], NOW));
    // Recent concluded runs whose durations overflow a signed sum are refused.
    let long = || {
        let mut r = run(Some("success"), 1, 0);
        r.run_started_at = Some(-17_000_000_000_000);
        r.updated_at = 17_000_000_000_000;
        r
    };
    let many: Vec<RunRecord> = (0..300_000).map(|_| long()).collect();
    assert!(!check_ci_runs(&many, NOW));
    let fewer: Vec<RunRecord> = (0..200_000).map(|_| long()).collect();
    assert!(check_ci_runs(&fewer, NOW));
}
