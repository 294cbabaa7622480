//! The whole Markdown report and the whole terminal summary of a snapshot,
//! assembled from their sections. The decimals that they show, and the
//! compact counts of the summary, are written by the caller and handed in.
use vstd::prelude::*;
use crate::clock::{is_datable, is_instant, now_seconds, ClockError};
use crate::health::{compute_health_score_at, health_score_at, score_inputs_ok};
use crate::models::{oldest_issue_age, IssueStats, RepoSnapshot};
use crate::report::{format_health_section, health_section_text};
use crate::sections::{
    contributors_section_text, format_contributors_section, format_issues_section,
    format_prs_section, format_releases_section, format_report_header, format_security_section,
    format_stars_section, format_velocity_section, issues_section_text, prs_section_text,
    releases_datable, releases_section_text, report_header_text, security_section_text,
    stars_section_text, text_views, velocity_section_text, weeks_datable,
};
use crate::stars::weighted_rate_numer;
use crate::summary::{
    format_summary_contributors, format_summary_header, format_summary_health,
    format_summary_issues, format_summary_prs, format_summary_release, format_summary_security,
    format_summary_stars, format_summary_velocity, summary_contributors_text,
    summary_header_text, summary_health_text, summary_issues_text, summary_prs_text,
    summary_release_text, summary_security_text, summary_stars_text, summary_velocity_text,
};

verus! {

/// The decimals of the report, each written with one digit after the point.
pub struct ReportDecimals {
    /// Stars per day of the milestone prediction (shown only when there is one).
    pub star_rate: String,
    /// Mean time to merge, in days (shown only when it is known).
    pub avg_merge_days: String,
    /// Mean interval between releases, in days (shown only when it is known).
    pub release_interval: String,
    /// Opened over closed issues, week by week.
    pub issue_ratios: Vec<String>,
    /// Opened over merged pull requests, week by week.
    pub pr_ratios: Vec<String>,
    /// Weekly means: issues opened, issues closed, pull requests opened,
    /// pull requests merged.
    pub averages: Vec<String>,
}

/// Age in whole days, at `now`, of the oldest open issue.
pub open spec fn oldest_age_days(issues: IssueStats, now: i64) -> Option<i64> {
    match oldest_issue_age(issues, now) {
        None => None,
        Some(d) => Some(d as i64),
    }
}

/// The snapshot's figures fit the exact arithmetic of the report and its
/// dates can be written.
pub open spec fn report_inputs_ok(s: RepoSnapshot) -> bool {
    &&& score_inputs_ok(s)
    &&& weighted_rate_numer(s.stars) <= i64::MAX
    &&& releases_datable(s.releases@)
    &&& weeks_datable(s.velocity.issues_weekly@)
    &&& weeks_datable(s.velocity.prs_weekly@)
    &&& is_datable(s.fetched_at)
}

/// There is one ratio text per week of each table and four averages.
pub open spec fn decimals_fit(s: RepoSnapshot, d: ReportDecimals) -> bool {
    &&& d.issue_ratios@.len() == s.velocity.issues_weekly@.len()
    &&& d.pr_ratios@.len() == s.velocity.prs_weekly@.len()
    &&& d.averages@.len() == 4
}

/// The report of `s` with issue ages and the health score taken at `now`:
/// header, health, stars, issues, pull requests, contributors, releases,
/// velocity and security, in that order.
pub open spec fn report_text_at(s: RepoSnapshot, now: i64, d: ReportDecimals) -> Seq<char> {
    report_header_text(s.repo.owner@, s.repo.name@, s.fetched_at) + health_section_text(
        health_score_at(s, now),
    ) + stars_section_text(s.stars, d.star_rate@) + issues_section_text(
        s.issues,
        oldest_age_days(s.issues, now),
    ) + prs_section_text(s.pull_requests, d.avg_merge_days@) + contributors_section_text(
        s.contributors,
    ) + releases_section_text(s.releases@, d.release_interval@) + velocity_section_text(
        s.velocity,
        text_views(d.issue_ratios@),
        text_views(d.pr_ratios@),
        text_views(d.averages@),
    ) + security_section_text(s.security_alerts)
}

/// The Markdown report of a snapshot, with ages measured at `now`.
pub fn generate_report_at(snapshot: &RepoSnapshot, decimals: &ReportDecimals, now: i64) -> (r: String)
    requires
        report_inputs_ok(*snapshot),
        decimals_fit(*snapshot, *decimals),
        is_instant(now),
    ensures
        r@ == report_text_at(*snapshot, now, *decimals),
{
    let health = compute_health_score_at(snapshot, now);
    let oldest = snapshot.oldest_issue_age_days_at(now);
    let r = format_report_header(&snapshot.repo.owner, &snapshot.repo.name, snapshot.fetched_at);
    let r = r.concat(format_health_section(&health).as_str());
    let r = r.concat(format_stars_section(&snapshot.stars, decimals.star_rate.as_str()).as_str());
    let r = r.concat(format_issues_section(&snapshot.issues, oldest).as_str());
    let r = r.concat(
        format_prs_section(&snapshot.pull_requests, decimals.avg_merge_days.as_str()).as_str(),
    );
    let r = r.concat(format_contributors_section(&snapshot.contributors).as_str());
    let r = r.concat(
        format_releases_section(&snapshot.releases, decimals.release_interval.as_str()).as_str(),
    );
    let r = r.concat(
        format_velocity_section(
            &snapshot.velocity,
            &decimals.issue_ratios,
            &decimals.pr_ratios,
            &decimals.averages,
        ).as_str(),
    );
    r.concat(format_security_section(&snapshot.security_alerts).as_str())
}

/// The Markdown report of a snapshot, with ages measured now; an error
/// when the system clock cannot be read.
pub fn generate_report(snapshot: &RepoSnapshot, decimals: &ReportDecimals) -> (r: Result<String, ClockError>)
    requires
        report_inputs_ok(*snapshot),
        decimals_fit(*snapshot, *decimals),
    ensures
        r matches Ok(s) ==> exists|now: i64| is_instant(now) && s@ == report_text_at(*snapshot, now, *decimals),
{
    let now = now_seconds()?;
    Ok(generate_report_at(snapshot, decimals, now))
}

} // verus!

verus! {

/// The texts of the summary that the caller writes: compact counts and the
/// daily star rate with one decimal.
pub struct SummaryTexts {
    /// The total star count.
    pub stars_total: String,
    /// Stars gained over the last thirty days.
    pub stars_change: String,
    /// The next star milestone (shown only when there is a prediction).
    pub milestone: String,
    /// Stars per day of the prediction (shown only when there is one).
    pub star_rate: String,
    /// The number of distinct contributors.
    pub contributors_total: String,
}

/// The snapshot's figures fit the exact arithmetic of the summary and its
/// separator line can be measured.
pub open spec fn summary_inputs_ok(s: RepoSnapshot) -> bool {
    &&& score_inputs_ok(s)
    &&& weighted_rate_numer(s.stars) <= i64::MAX
    &&& vstd::utf8::encode_utf8(s.repo.owner@ + "/"@ + s.repo.name@).len() + 12 <= usize::MAX
}

/// The summary of `s` with issue ages and the health score taken at `now`:
/// header, health, stars, issues, pull requests, contributors, latest
/// release, velocity and security, one after another.
pub open spec fn summary_text_at(s: RepoSnapshot, now: i64, t: SummaryTexts) -> Seq<char> {
    summary_header_text(s.repo.owner@, s.repo.name@) + summary_health_text(health_score_at(s, now))
        + summary_stars_text(s.stars, t.stars_total@, t.stars_change@, t.milestone@, t.star_rate@)
        + summary_issues_text(s.issues.total_open, oldest_age_days(s.issues, now)) + summary_prs_text(
        s.pull_requests,
    ) + summary_contributors_text(
        t.contributors_total@,
        s.contributors.new_contributors_last_30d@.len(),
    ) + summary_release_text(s.releases@) + summary_velocity_text(s.velocity)
        + summary_security_text(s.security_alerts)
}

/// The coloured terminal summary of a snapshot, with ages measured at `now`.
pub fn format_summary_at(snapshot: &RepoSnapshot, texts: &SummaryTexts, now: i64) -> (r: String)
    requires
        summary_inputs_ok(*snapshot),
        is_instant(now),
    ensures
        r@ == summary_text_at(*snapshot, now, *texts),
{
    let health = compute_health_score_at(snapshot, now);
    let oldest = snapshot.oldest_issue_age_days_at(now);
    let r = format_summary_header(&snapshot.repo.owner, &snapshot.repo.name);
    let r = r.concat(format_summary_health(&health).as_str());
    let r = r.concat(
        format_summary_stars(
            &snapshot.stars,
            texts.stars_total.as_str(),
            texts.stars_change.as_str(),
            texts.milestone.as_str(),
            texts.star_rate.as_str(),
        ).as_str(),
    );
    let r = r.concat(format_summary_issues(snapshot.issues.total_open, oldest).as_str());
    let r = r.concat(format_summary_prs(&snapshot.pull_requests).as_str());
    let r = r.concat(
        format_summary_contributors(
            texts.contributors_total.as_str(),
            snapshot.contributors.new_contributors_last_30d.len(),
        ).as_str(),
    );
    let r = r.concat(format_summary_release(&snapshot.releases).as_str());
    let r = r.concat(format_summary_velocity(&snapshot.velocity).as_str());
    r.concat(format_summary_security(&snapshot.security_alerts).as_str())
}

/// The coloured terminal summary of a snapshot, with ages measured now;
/// an error when the system clock cannot be read.
pub fn format_summary(snapshot: &RepoSnapshot, texts: &SummaryTexts) -> (r: Result<String, ClockError>)
    requires
        summary_inputs_ok(*snapshot),
    ensures
        r matches Ok(s) ==> exists|now: i64| is_instant(now) && s@ == summary_text_at(*snapshot, now, *texts),
{
    let now = now_seconds()?;
    Ok(format_summary_at(snapshot, texts, now))
}

} // verus!
