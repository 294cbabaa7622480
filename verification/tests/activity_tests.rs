use forgestat::github::stargazer_cutoff;
use forgestat::metrics::{contributor_candidates, new_contributor_window_start};
use forgestat::issues::{
    group_by_label, issue_stats_at, sort_issues_by_age_ascending, sort_vec_by_age_ascending,
    IssueRecord,
};
use forgestat::models::{Issue, LabelGroup, StarHistory};
use forgestat::stars::{
    calculate_daily_rate, created_or_year_ago, generate_sparkline, generate_sparkline_at,
    predict_milestone, star_history_at,
};
use forgestat::velocity::{
    compute_week_starts, compute_week_starts_at, count_by_week, find_week_index, init_weekly,
    issue_search_query, pr_velocity, week_search_range,
};

const DAY: i64 = 86_400;
const HOUR: i64 = 3_600;
const WEEK: i64 = 7 * DAY;
const NOW: i64 = 1_700_000_000;

fn now_secs() -> i64 {
    std::time::SystemTime::now()
        .duration_since(std::time::UNIX_EPOCH)
        .unwrap()
        .as_secs() as i64
}

fn sum(v: &[u32]) -> u32 {
    v.iter().sum()
}

fn ratio(numer: i64, denom: u64) -> f64 {
    numer as f64 / denom as f64
}

// ---------------------------------------------------------------------------
// Sparklines
// ---------------------------------------------------------------------------

#[test]
fn test_empty_timestamps() {
    let now = now_secs();
    let result = generate_sparkline(&vec![], now - 30 * DAY, 30).unwrap();
    assert_eq!(result.len(), 30);
    assert!(result.iter().all(|&v| v == 0));
}

#[test]
fn test_zero_buckets() {
    let now = now_secs();
    let result = generate_sparkline(&vec![now], now - 30 * DAY, 0).unwrap();
    assert!(result.is_empty());
}

#[test]
fn test_single_star_lands_in_correct_bucket() {
    let now = now_secs();
    let star_time = now - 15 * DAY;
    let result = generate_sparkline(&vec![star_time], now - 30 * DAY, 30).unwrap();
    assert_eq!(result.len(), 30);
    assert_eq!(sum(&result), 1);
    assert!(result[14] == 1 || result[15] == 1, "star should land near bucket 14-15");
}

#[test]
fn test_total_count_preserved() {
    let start = NOW - 30 * DAY;
    let timestamps: Vec<i64> = (0..100).map(|i| start + i * 7 * HOUR).collect();

    let result = generate_sparkline_at(&timestamps, start, 30, NOW);
    assert_eq!(result.len(), 30);
    assert_eq!(sum(&result), timestamps.len() as u32);
}

#[test]
fn test_out_of_range_timestamps_ignored() {
    let start = NOW - 30 * DAY;
    let timestamps = vec![start - 5 * DAY, start + 10 * DAY, NOW + 5 * DAY];

    let result = generate_sparkline_at(&timestamps, start, 30, NOW);
    assert_eq!(sum(&result), 1);
    assert_eq!(result[10], 1);
}

#[test]
fn test_90d_weekly_buckets() {
    let start = NOW - 90 * DAY;
    let timestamps: Vec<i64> = (0..90).map(|i| start + i * DAY).collect();

    let result = generate_sparkline_at(&timestamps, start, 13, NOW);
    assert_eq!(result.len(), 13);
    assert_eq!(sum(&result), 90);
}

#[test]
fn test_365d_monthly_buckets() {
    let start = NOW - 365 * DAY;
    let timestamps: Vec<i64> = (0..365).map(|i| start + i * DAY).collect();

    let result = generate_sparkline_at(&timestamps, start, 12, NOW);
    assert_eq!(result.len(), 12);
    assert_eq!(sum(&result), 365);
}

#[test]
fn test_sparkline_end_of_period_in_last_bucket() {
    let start = NOW - 10 * DAY;
    let result = generate_sparkline_at(&vec![NOW, start], start, 10, NOW);
    assert_eq!(result[9], 1);
    assert_eq!(result[0], 1);
}

#[test]
fn test_star_history_at_builds_three_sparklines() {
    let created = NOW - 3 * 365 * DAY;
    let stamps = vec![NOW - DAY, NOW - 40 * DAY, NOW - 200 * DAY];
    let h = star_history_at(42, &stamps, NOW, created);
    assert_eq!(h.total_count, 42);
    assert_eq!(h.sparkline_30d.len(), 30);
    assert_eq!(sum(&h.sparkline_30d), 1);
    assert_eq!(h.sparkline_90d.len(), 13);
    assert_eq!(sum(&h.sparkline_90d), 2);
    assert_eq!(h.sparkline_365d.len(), 12);
    assert_eq!(sum(&h.sparkline_365d), 3);

    // A young repository is shown weekly from its creation.
    let young = star_history_at(3, &stamps, NOW, NOW - 70 * DAY);
    assert_eq!(young.sparkline_365d.len(), 10);
    assert_eq!(created_or_year_ago(None, NOW), NOW - 365 * DAY);
    assert_eq!(created_or_year_ago(Some(5), NOW), 5);
}

// ---------------------------------------------------------------------------
// Milestones
// ---------------------------------------------------------------------------

fn create_star_history(total: u64, sparkline_30d: Vec<u32>, sparkline_90d: Vec<u32>) -> StarHistory {
    StarHistory {
        total_count: total,
        sparkline_30d,
        sparkline_90d,
        sparkline_365d: vec![],
    }
}

#[test]
fn test_predict_milestone_normal_growth() {
    let history = create_star_history(50, vec![5; 30], vec![5; 90]);
    let prediction = predict_milestone(&history).unwrap();

    assert_eq!(prediction.next_milestone, 100);
    assert_eq!(prediction.estimated_days, 10);
    assert!(prediction.daily_rate.numer > 0);
}

#[test]
fn test_predict_milestone_stalled_growth() {
    let history = create_star_history(50, vec![0; 30], vec![0; 90]);
    let prediction = predict_milestone(&history);

    assert!(prediction.is_none(), "Should return None for stalled growth");
}

#[test]
fn test_predict_milestone_negative_growth() {
    let history = create_star_history(50, vec![0; 30], vec![0; 90]);
    let prediction = predict_milestone(&history);

    assert!(prediction.is_none(), "Should return None for negative growth");
}

#[test]
fn test_predict_milestone_already_past_all_milestones() {
    let history = create_star_history(150_000, vec![100; 30], vec![100; 90]);
    let prediction = predict_milestone(&history);

    assert!(prediction.is_none(), "Should return None when past all milestones");
}

#[test]
fn test_predict_milestone_near_milestone() {
    let history = create_star_history(95, vec![1; 30], vec![1; 90]);
    let prediction = predict_milestone(&history).unwrap();

    assert_eq!(prediction.next_milestone, 100);
    assert_eq!(prediction.estimated_days, 5);
}

#[test]
fn test_prediction_skips_a_milestone_already_reached() {
    // Exactly at a milestone: the next one is strictly above.
    let history = create_star_history(1000, vec![1; 30], vec![3; 90]);
    let prediction = predict_milestone(&history).unwrap();
    assert_eq!(prediction.next_milestone, 5000);
    // 4000 stars at 480/300 a day take exactly 2500 days.
    assert_eq!(prediction.daily_rate.numer, 480);
    assert_eq!(prediction.daily_rate.denom, 300);
    assert_eq!(prediction.estimated_days, 2500);

    // One star more needs one day more (rounded up).
    let history = create_star_history(999, vec![1; 30], vec![3; 90]);
    let prediction = predict_milestone(&history).unwrap();
    assert_eq!(prediction.next_milestone, 1000);
    assert_eq!(prediction.estimated_days, 1);
}

#[test]
fn test_predict_milestone_no_history() {
    let history = create_star_history(50, vec![], vec![]);
    let prediction = predict_milestone(&history);

    assert!(prediction.is_none(), "Should return None with no history data");
}

#[test]
fn test_predict_milestone_weighted_rate() {
    let history = create_star_history(100, vec![10; 30], vec![2; 90]);
    let prediction = predict_milestone(&history).unwrap();

    assert_eq!(prediction.next_milestone, 500);
    assert_eq!(prediction.estimated_days, 53);
    let rate = ratio(prediction.daily_rate.numer, prediction.daily_rate.denom);
    assert!((rate - 7.6).abs() < 0.01);
}

#[test]
fn test_predict_milestone_different_milestones() {
    let history = create_star_history(600, vec![5; 30], vec![5; 90]);
    let prediction = predict_milestone(&history).unwrap();

    assert_eq!(prediction.next_milestone, 1000);
    assert_eq!(prediction.estimated_days, 80);
}

#[test]
fn test_predict_milestone_exactly_at_milestone() {
    let history = create_star_history(1000, vec![10; 30], vec![10; 90]);
    let prediction = predict_milestone(&history).unwrap();

    assert_eq!(prediction.next_milestone, 5000);
}

#[test]
fn test_calculate_daily_rate_empty() {
    let rate = calculate_daily_rate(&vec![], 30);
    assert_eq!(rate.numer, 0);
}

#[test]
fn test_calculate_daily_rate_zero_period() {
    let rate = calculate_daily_rate(&vec![1, 2, 3], 0);
    assert_eq!(rate.numer, 0);
}

#[test]
fn test_calculate_daily_rate_normal() {
    let rate = calculate_daily_rate(&vec![2; 30], 30);
    assert!((ratio(rate.numer, rate.denom) - 2.0).abs() < 0.01);
}

// ---------------------------------------------------------------------------
// Weekly velocity
// ---------------------------------------------------------------------------

fn is_monday_midnight(t: i64) -> bool {
    t.rem_euclid(DAY) == 0 && (t.div_euclid(DAY) + 3).rem_euclid(7) == 0
}

#[test]
fn test_compute_week_starts_returns_eight_weeks() {
    let weeks = compute_week_starts(8).unwrap();
    assert_eq!(weeks.len(), 8);
}

#[test]
fn test_compute_week_starts_all_mondays_at_midnight() {
    let weeks = compute_week_starts(8).unwrap();
    for ws in &weeks {
        assert!(is_monday_midnight(*ws));
        assert_eq!(ws.rem_euclid(HOUR), 0);
        assert_eq!(ws.rem_euclid(60), 0);
    }
}

#[test]
fn test_compute_week_starts_chronological_order() {
    let weeks = compute_week_starts(8).unwrap();
    for pair in weeks.windows(2) {
        assert!(pair[0] < pair[1]);
    }
}

#[test]
fn test_compute_week_starts_seven_day_intervals() {
    let weeks = compute_week_starts(8).unwrap();
    for pair in weeks.windows(2) {
        assert_eq!(pair[1] - pair[0], WEEK);
    }
}

#[test]
fn test_eight_weeks_span() {
    let weeks = compute_week_starts(8).unwrap();
    let span = *weeks.last().unwrap() - *weeks.first().unwrap();
    assert_eq!(span, 7 * WEEK);
}

#[test]
fn test_week_starts_at_fixed_time() {
    // 2023-11-14 22:13:20 UTC is a Tuesday; its week began on Monday the 13th.
    let weeks = compute_week_starts_at(8, NOW);
    assert_eq!(weeks[7], 1_699_833_600);
    assert!(weeks[7] <= NOW && NOW < weeks[7] + WEEK);
    assert_eq!(weeks[0], 1_699_833_600 - 7 * WEEK);
}

#[test]
fn test_find_week_index_last_week() {
    let weeks = compute_week_starts(8).unwrap();
    let recent = weeks[7] + HOUR;
    assert_eq!(find_week_index(&weeks, recent), Some(7));
}

#[test]
fn test_find_week_index_first_week() {
    let weeks = compute_week_starts(8).unwrap();
    let in_first = weeks[0] + 12 * HOUR;
    assert_eq!(find_week_index(&weeks, in_first), Some(0));
}

#[test]
fn test_find_week_index_before_range_returns_none() {
    let weeks = compute_week_starts(8).unwrap();
    let before = weeks[0] - HOUR;
    assert_eq!(find_week_index(&weeks, before), None);
}

#[test]
fn test_find_week_index_exact_boundary() {
    let weeks = compute_week_starts(8).unwrap();
    assert_eq!(find_week_index(&weeks, weeks[3]), Some(3));
}

#[test]
fn test_find_week_index_mid_week() {
    let weeks = compute_week_starts(8).unwrap();
    let wednesday = weeks[4] + 2 * DAY;
    assert_eq!(find_week_index(&weeks, wednesday), Some(4));
}

#[test]
fn test_init_weekly_zeroed() {
    let weeks = compute_week_starts(8).unwrap();
    let weekly = init_weekly(&weeks);
    assert_eq!(weekly.len(), 8);
    for (i, entry) in weekly.iter().enumerate() {
        assert_eq!(entry.week_start, weeks[i]);
        assert_eq!(entry.opened, 0);
        assert_eq!(entry.closed, 0);
    }
}

#[test]
fn test_counting_by_week() {
    let weeks = compute_week_starts_at(8, NOW);
    let cutoff = weeks[0];
    let times = vec![weeks[0] + 1, weeks[0] + 2, weeks[7] + HOUR, cutoff - 1];
    let counts = count_by_week(&weeks, &times, cutoff);
    assert_eq!(counts, vec![2, 0, 0, 0, 0, 0, 0, 1]);

    let activity = pr_velocity(&weeks, &times, &vec![weeks[3] + 5], cutoff);
    assert_eq!(activity[0].opened, 2);
    assert_eq!(activity[3].closed, 1);
    assert_eq!(activity[7].opened, 1);
    assert_eq!(activity[7].week_start, weeks[7]);
}

#[test]
fn test_issue_search_ranges() {
    let weeks = compute_week_starts_at(8, NOW);
    assert_eq!(week_search_range(&weeks, 2, NOW), (weeks[2], weeks[3] - DAY));
    assert_eq!(week_search_range(&weeks, 7, NOW), (weeks[7], NOW));
    let q = issue_search_query("octocat", "hello", "created", weeks[7], NOW);
    assert_eq!(q, "repo:octocat/hello type:issue created:2023-11-13..2023-11-14");
}

// ---------------------------------------------------------------------------
// Issues
// ---------------------------------------------------------------------------

fn create_test_issue_with_labels(number: u64, title: &str, days_old: i64, labels: Vec<&str>) -> Issue {
    let created_at = NOW - days_old * DAY;
    Issue {
        number,
        title: title.to_string(),
        author: "testuser".to_string(),
        created_at,
        updated_at: created_at,
        labels: labels.into_iter().map(|s| s.to_string()).collect(),
        comments_count: 0,
    }
}

fn create_test_issue(number: u64, title: &str, days_old: i64) -> Issue {
    create_test_issue_with_labels(number, title, days_old, vec![])
}

#[test]
fn test_sort_vec_by_age_ascending() {
    let mut issues = vec![
        create_test_issue(1, "Newest", 1),
        create_test_issue(2, "Oldest", 10),
        create_test_issue(3, "Middle", 5),
    ];

    sort_vec_by_age_ascending(&mut issues);

    assert_eq!(issues[0].number, 2);
    assert_eq!(issues[1].number, 3);
    assert_eq!(issues[2].number, 1);
}

#[test]
fn test_sort_issues_by_age_ascending() {
    let mut by_label = vec![
        LabelGroup {
            label: "bug".to_string(),
            issues: vec![
                create_test_issue_with_labels(1, "Recent bug", 1, vec!["bug"]),
                create_test_issue_with_labels(2, "Old bug", 10, vec!["bug"]),
                create_test_issue_with_labels(3, "Medium bug", 5, vec!["bug"]),
            ],
        },
        LabelGroup {
            label: "enhancement".to_string(),
            issues: vec![
                create_test_issue_with_labels(4, "Recent feature", 2, vec!["enhancement"]),
                create_test_issue_with_labels(5, "Old feature", 15, vec!["enhancement"]),
            ],
        },
    ];

    sort_issues_by_age_ascending(&mut by_label);

    let bugs = &by_label.iter().find(|g| g.label == "bug").unwrap().issues;
    assert_eq!(bugs[0].number, 2);
    assert_eq!(bugs[1].number, 3);
    assert_eq!(bugs[2].number, 1);

    let enhancements = &by_label.iter().find(|g| g.label == "enhancement").unwrap().issues;
    assert_eq!(enhancements[0].number, 5);
    assert_eq!(enhancements[1].number, 4);
}

#[test]
fn test_empty_vec_sort() {
    let mut issues: Vec<Issue> = vec![];
    sort_vec_by_age_ascending(&mut issues);
    assert!(issues.is_empty());
}

#[test]
fn test_single_issue_sort() {
    let mut issues = vec![create_test_issue(1, "Only", 5)];
    sort_vec_by_age_ascending(&mut issues);
    assert_eq!(issues[0].number, 1);
}

#[test]
fn test_sort_is_stable_for_equal_ages() {
    let mut issues = vec![
        create_test_issue(1, "a", 3),
        create_test_issue(2, "b", 3),
        create_test_issue(3, "c", 9),
    ];
    sort_vec_by_age_ascending(&mut issues);
    let order: Vec<u64> = issues.iter().map(|i| i.number).collect();
    assert_eq!(order, vec![3, 1, 2]);
}

#[test]
fn test_group_by_label_and_stats() {
    let issues = vec![
        create_test_issue_with_labels(1, "x", 1, vec!["bug", "ui"]),
        create_test_issue_with_labels(2, "y", 2, vec![]),
        create_test_issue_with_labels(3, "z", 3, vec!["ui"]),
    ];
    let (groups, unlabelled) = group_by_label(issues);
    let labels: Vec<&str> = groups.iter().map(|g| g.label.as_str()).collect();
    assert_eq!(labels, vec!["bug", "ui"]);
    // Each label has one group.
    let mut sorted = labels.clone();
    sorted.dedup();
    assert_eq!(sorted.len(), labels.len());
    assert_eq!(groups[1].issues.len(), 2);
    assert_eq!(unlabelled.len(), 1);
    assert_eq!(unlabelled[0].number, 2);

    let records = vec![
        IssueRecord {
            number: 10,
            title: "new".to_string(),
            author: "a".to_string(),
            created_at: NOW - DAY,
            updated_at: NOW,
            labels: vec!["bug".to_string()],
            comments: 2,
        },
        IssueRecord {
            number: 11,
            title: "old".to_string(),
            author: "b".to_string(),
            created_at: NOW - 9 * DAY,
            updated_at: NOW,
            labels: vec!["bug".to_string()],
            comments: 0,
        },
    ];
    let stats = issue_stats_at(records, NOW);
    assert_eq!(stats.total_open, 2);
    assert!(!stats.truncated);
    assert_eq!(stats.by_label.len(), 1);
    assert_eq!(stats.by_label[0].issues[0].number, 11);
    assert_eq!(stats.by_label[0].issues[1].comments_count, 2);
}

#[test]
fn test_stargazer_cutoff_and_contributor_candidates() {
    let now = 1_700_000_000;
    let day = 86_400;
    // Old repositories: a year of history.
    assert_eq!(stargazer_cutoff(now, now - 1000 * day), now - 365 * day);
    // Young ones: at least thirty days, else their age.
    assert_eq!(stargazer_cutoff(now, now - 3 * day), now - 30 * day);
    assert_eq!(stargazer_cutoff(now, now - 100 * day - 5), now - 100 * day);
    assert_eq!(new_contributor_window_start(now), now - 30 * day);

    let authors: Vec<String> = ["b", "a", "b", "c", "a", "d"].iter().map(|s| s.to_string()).collect();
    assert_eq!(contributor_candidates(&authors, 3), vec!["b", "a", "c"]);
    assert_eq!(contributor_candidates(&authors, 10), vec!["b", "a", "c", "d"]);
    assert!(contributor_candidates(&authors, 0).is_empty());
}
