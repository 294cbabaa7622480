//! Lines of the coloured terminal summary of a snapshot.
use vstd::prelude::*;
use crate::health::{star_sum, HealthGrade, HealthScore};
use crate::models::{PrStats, Release, SecurityAlerts, StarHistory, VelocityStats};
use crate::sections::days_text;
use crate::stars::{predict_milestone, prediction_for, weighted_rate_numer};
use crate::report::{
    calculate_stars_change_30d, calculate_weekly_average, count_color, pr_detail, pr_detail_text, security_color,
    security_detail, severity_detail, summary_count_color,
};
use crate::health::sum_opened;
use crate::text::{decimal_digits, i64_to_string, push_char, signed_decimal, u64_to_string};

verus! {

/// `s` right-aligned in a field of `width` characters.
pub open spec fn pad_left(s: Seq<char>, width: nat) -> Seq<char> {
    if s.len() < width {
        Seq::new((width - s.len()) as nat, |i: int| ' ') + s
    } else {
        s
    }
}

/// `s` right-aligned in a field of `width` characters.
pub fn pad_to(s: &str, width: usize) -> (r: String)
    ensures
        r@ == pad_left(s@, width as nat),
{
    let n = crate::text::chars_of(s).len();
    if n >= width {
        return String::from_str(s);
    }
    let mut out = String::new();
    let mut i: usize = 0;
    while i < width - n
        invariant
            n < width,
            i <= width - n,
            out@ == Seq::new(i as nat, |k: int| ' '),
        decreases width - n - i,
    {
        push_char(&mut out, ' ');
        i = i + 1;
        assert(out@ =~= Seq::new(i as nat, |k: int| ' '));
    }
    out.concat(s)
}

/// The colour of a grade: green, cyan, yellow, orange, red from best to
/// worst.
pub open spec fn grade_color(g: HealthGrade) -> Seq<char> {
    match g {
        HealthGrade::Excellent => "\x1b[32m"@,
        HealthGrade::Good => "\x1b[36m"@,
        HealthGrade::Fair => "\x1b[33m"@,
        HealthGrade::NeedsAttention => "\x1b[38;5;208m"@,
        HealthGrade::Critical => "\x1b[31m"@,
    }
}

/// The name `owner/name`, bold and cyan, and under it a dim rule as wide
/// as the first line's text in bytes.
pub open spec fn summary_header_text(owner: Seq<char>, name: Seq<char>) -> Seq<char> {
    let full = owner + "/"@ + name;
    let width = vstd::utf8::encode_utf8(full).len() + 12;
    "\x1b[1m"@ + "\x1b[36m"@ + "Repository: "@ + full + "\x1b[0m"@ + "\n"@ + "\x1b[2m"@ + Seq::new(
        width,
        |i: int| '━',
    ) + "\x1b[0m"@ + "\n"@
}

/// The summary's first two lines.
pub fn format_summary_header(owner: &str, name: &str) -> (s: String)
    requires
        vstd::utf8::encode_utf8(owner@ + "/"@ + name@).len() + 12 <= usize::MAX,
    ensures
        s@ == summary_header_text(owner@, name@),
{
    let full = String::from_str(owner).concat("/").concat(name);
    let width = full.as_str().len() + 12;
    let mut rule = String::new();
    let mut i: usize = 0;
    while i < width
        invariant
            i <= width,
            rule@ == Seq::new(i as nat, |k: int| '━'),
        decreases width - i,
    {
        push_char(&mut rule, '━');
        i = i + 1;
        assert(rule@ =~= Seq::new(i as nat, |k: int| '━'));
    }
    String::from_str("\x1b[1m").concat("\x1b[36m").concat("Repository: ").concat(full.as_str()).concat(
        "\x1b[0m",
    ).concat("\n").concat("\x1b[2m").concat(rule.as_str()).concat("\x1b[0m").concat("\n")
}

/// A sub-score right-aligned in two characters.
pub open spec fn score2(n: u8) -> Seq<char> {
    pad_left(decimal_digits(n as nat), 2)
}

/// The total score and grade in the grade's colour, then the four
/// sub-scores.
pub open spec fn summary_health_text(h: HealthScore) -> Seq<char> {
    let c = grade_color(h.grade);
    "Health Score: "@ + c + decimal_digits(h.total as nat) + "/100"@ + "\x1b[0m"@ + " (Grade: "@ + c
        + seq![crate::report::grade_letter(h.grade)] + "\x1b[0m"@ + ")\n"@ + "              Activity: "@
        + score2(h.activity) + "/25 | Community: "@ + score2(h.community) + "/25 | Maintenance: "@
        + score2(h.maintenance) + "/25 | Growth: "@ + score2(h.growth) + "/25\n\n"@
}

fn score_text(n: u8) -> (s: String)
    ensures
        s@ == score2(n),
{
    pad_to(u64_to_string(n as u64).as_str(), 2)
}

/// The summary's health lines.
pub fn format_summary_health(h: &HealthScore) -> (s: String)
    ensures
        s@ == summary_health_text(*h),
{
    let c = h.grade.color_code();
    let mut letter = String::new();
    push_char(&mut letter, h.grade.as_letter());
    assert(letter@ =~= seq![crate::report::grade_letter(h.grade)]);
    let s = String::from_str("Health Score: ").concat(c).concat(
        u64_to_string(h.total as u64).as_str(),
    ).concat("/100").concat("\x1b[0m").concat(" (Grade: ").concat(c).concat(letter.as_str()).concat(
        "\x1b[0m",
    ).concat(")\n");
    let s = s.concat("              Activity: ").concat(score_text(h.activity).as_str()).concat(
        "/25 | Community: ",
    ).concat(score_text(h.community).as_str()).concat("/25 | Maintenance: ").concat(
        score_text(h.maintenance).as_str(),
    ).concat("/25 | Growth: ").concat(score_text(h.growth).as_str()).concat("/25\n\n");
    s
}

/// The issues line: the open count coloured by its size (red from 50),
/// and the oldest issue's age when known.
pub open spec fn summary_issues_text(open: u64, oldest_days: Option<i64>) -> Seq<char> {
    "\x1b[1m"@ + "📋 Issues:"@ + "\x1b[0m"@ + "       "@ + count_color(open, 50) + decimal_digits(open as nat)
        + "\x1b[0m"@ + " open"@ + (match oldest_days {
        Some(d) => " (oldest: "@ + signed_decimal(d as int) + " days)"@,
        None => Seq::empty(),
    }) + "\x1b[0m"@ + "\n"@
}

/// The summary's issues line.
pub fn format_summary_issues(open: u64, oldest_days: Option<i64>) -> (s: String)
    ensures
        s@ == summary_issues_text(open, oldest_days),
{
    let oldest = match oldest_days {
        Some(d) => String::from_str(" (oldest: ").concat(i64_to_string(d).as_str()).concat(" days)"),
        None => String::new(),
    };
    String::from_str("\x1b[1m").concat("📋 Issues:").concat("\x1b[0m").concat("       ").concat(
        summary_count_color(open, 50),
    ).concat(u64_to_string(open).as_str()).concat("\x1b[0m").concat(" open").concat(
        oldest.as_str(),
    ).concat("\x1b[0m").concat("\n")
}

/// The pull request line: the open count coloured by its size (red from
/// 10), and the ready and draft counts.
pub open spec fn summary_prs_text(prs: PrStats) -> Seq<char> {
    "\x1b[1m"@ + "🔀 Pull Requests:"@ + "\x1b[0m"@ + "  "@ + count_color(prs.open_count, 10) + decimal_digits(
        prs.open_count as nat,
    ) + "\x1b[0m"@ + " open"@ + pr_detail_text(prs.ready_count, prs.draft_count) + "\x1b[0m"@ + "\n"@
}

/// The summary's pull request line.
pub fn format_summary_prs(prs: &PrStats) -> (s: String)
    ensures
        s@ == summary_prs_text(*prs),
{
    String::from_str("\x1b[1m").concat("🔀 Pull Requests:").concat("\x1b[0m").concat("  ").concat(
        summary_count_color(prs.open_count, 10),
    ).concat(u64_to_string(prs.open_count).as_str()).concat("\x1b[0m").concat(" open").concat(
        pr_detail(prs.ready_count, prs.draft_count).as_str(),
    ).concat("\x1b[0m").concat("\n")
}

/// The contributors line: the unique count's text (`count_text`)
/// right-aligned in eight characters, and the number of new contributors
/// when there are any.
pub open spec fn summary_contributors_text(count_text: Seq<char>, new_count: nat) -> Seq<char> {
    "\x1b[1m"@ + "👥 Contributors:"@ + "\x1b[0m"@ + "   "@ + pad_left(count_text, 8) + (if new_count > 0 {
        " ("@ + decimal_digits(new_count) + " new this month)"@
    } else {
        Seq::empty()
    }) + "\n"@
}

/// The summary's contributors line.
pub fn format_summary_contributors(count_text: &str, new_count: usize) -> (s: String)
    ensures
        s@ == summary_contributors_text(count_text@, new_count as nat),
{
    let new_part = if new_count > 0 {
        String::from_str(" (").concat(u64_to_string(new_count as u64).as_str()).concat(
            " new this month)",
        )
    } else {
        String::new()
    };
    String::from_str("\x1b[1m").concat("👥 Contributors:").concat("\x1b[0m").concat("   ").concat(
        pad_to(count_text, 8).as_str(),
    ).concat(new_part.as_str()).concat("\n")
}

/// The releases line: the newest release's tag and age, or a note that
/// there are none.
pub open spec fn summary_release_text(rs: Seq<Release>) -> Seq<char> {
    "\x1b[1m"@ + "🏷️  Releases:"@ + "\x1b[0m"@ + "      "@ + (if rs.len() == 0 {
        "No releases"@
    } else {
        rs[0].tag_name@ + match rs[0].days_since {
            Some(d) => " ("@ + signed_decimal(d as int) + " days ago)"@,
            None => Seq::empty(),
        }
    }) + "\n"@
}

/// The summary's releases line.
pub fn format_summary_release(releases: &Vec<Release>) -> (s: String)
    ensures
        s@ == summary_release_text(releases@),
{
    let text = if releases.len() == 0 {
        String::from_str("No releases")
    } else {
        let r = &releases[0];
        match r.days_since {
            Some(d) => r.tag_name.clone().concat(" (").concat(i64_to_string(d).as_str()).concat(
                " days ago)",
            ),
            None => r.tag_name.clone(),
        }
    };
    String::from_str("\x1b[1m").concat("🏷️  Releases:").concat("\x1b[0m").concat("      ").concat(
        text.as_str(),
    ).concat("\n")
}

/// Mean opened per week, rounded down; 0 for no weeks.
pub open spec fn weekly_mean(n_weeks: nat, total: nat) -> nat {
    if n_weeks == 0 {
        0
    } else {
        total / n_weeks
    }
}

/// The velocity line: mean issues and pull requests opened per week.
pub open spec fn summary_velocity_text(v: VelocityStats) -> Seq<char> {
    "\x1b[1m"@ + "📊 Velocity:"@ + "\x1b[0m"@ + "       "@ + decimal_digits(
        weekly_mean(v.issues_weekly@.len(), sum_opened(v.issues_weekly@)),
    ) + " issues/week, "@ + decimal_digits(weekly_mean(v.prs_weekly@.len(), sum_opened(v.prs_weekly@)))
        + " PRs/week\n"@
}

/// The summary's velocity line.
pub fn format_summary_velocity(v: &VelocityStats) -> (s: String)
    requires
        sum_opened(v.issues_weekly@) <= u64::MAX,
        sum_opened(v.prs_weekly@) <= u64::MAX,
    ensures
        s@ == summary_velocity_text(*v),
{
    let issues = calculate_weekly_average(&v.issues_weekly);
    let prs = calculate_weekly_average(&v.prs_weekly);
    String::from_str("\x1b[1m").concat("📊 Velocity:").concat("\x1b[0m").concat("       ").concat(
        u64_to_string(issues).as_str(),
    ).concat(" issues/week, ").concat(u64_to_string(prs).as_str()).concat(" PRs/week\n")
}

/// The colour of the security line: red for critical or high alerts,
/// yellow for medium ones, green otherwise.
pub open spec fn security_color_text(a: SecurityAlerts) -> Seq<char> {
    if a.critical_count > 0 || a.high_count > 0 {
        "\x1b[31m"@
    } else if a.medium_count > 0 {
        "\x1b[33m"@
    } else {
        "\x1b[32m"@
    }
}

/// The security line: the open alert count coloured by severity with the
/// severity breakdown, or a note that no data could be had.
pub open spec fn summary_security_text(a: Option<SecurityAlerts>) -> Seq<char> {
    "\x1b[1m"@ + "🔒 Security:"@ + "\x1b[0m"@ + "      "@ + match a {
        Some(s) => security_color_text(s) + decimal_digits(s.total_open as nat) + "\x1b[0m"@ + " alert"@
            + (if s.total_open == 1 {
            Seq::empty()
        } else {
            "s"@
        }) + severity_detail(s) + "\n"@,
        None => "\x1b[2m"@ + "No data available"@ + "\x1b[0m"@ + "\n"@,
    }
}

/// The summary's security line.
pub fn format_summary_security(alerts: &Option<SecurityAlerts>) -> (s: String)
    ensures
        s@ == summary_security_text(*alerts),
{
    let head = String::from_str("\x1b[1m").concat("🔒 Security:").concat("\x1b[0m").concat("      ");
    match alerts {
        Some(a) => {
            let plural = if a.total_open == 1 {
                ""
            } else {
                "s"
            };
            proof {
                reveal_strlit("");
            }
            head.concat(security_color(a)).concat(u64_to_string(a.total_open).as_str()).concat(
                "\x1b[0m",
            ).concat(" alert").concat(plural).concat(security_detail(a).as_str()).concat("\n")
        },
        None => head.concat("\x1b[2m").concat("No data available").concat("\x1b[0m").concat("\n"),
    }
}

/// The stars line: the total's text right-aligned in eight characters,
/// the stars gained this month when any, and the next milestone with its
/// estimate or a note that growth stalled. The caller gives the texts of
/// the total, of the month's gain, of the milestone and of the daily rate.
pub open spec fn summary_stars_text(
    h: StarHistory,
    total_text: Seq<char>,
    change_text: Seq<char>,
    milestone_text: Seq<char>,
    rate_text: Seq<char>,
) -> Seq<char> {
    let change = if h.sparkline_30d@.len() < 2 {
        0
    } else {
        star_sum(h.sparkline_30d@)
    };
    "\x1b[1m"@ + "★ Stars:"@ + "\x1b[0m"@ + "         "@ + pad_left(total_text, 8) + (if change > 0 {
        " (+"@ + change_text + " this month)"@
    } else {
        Seq::empty()
    }) + (match prediction_for(h) {
        Some(p) => " | "@ + milestone_text + "★ in "@ + days_text(p.estimated_days) + " ("@
            + rate_text + "/day)"@,
        None => " | Growth stalled"@,
    }) + "\n"@
}

/// The summary's stars line.
pub fn format_summary_stars(
    h: &StarHistory,
    total_text: &str,
    change_text: &str,
    milestone_text: &str,
    rate_text: &str,
) -> (s: String)
    requires
        weighted_rate_numer(*h) <= i64::MAX,
    ensures
        s@ == summary_stars_text(*h, total_text@, change_text@, milestone_text@, rate_text@),
{
    let change = calculate_stars_change_30d(&h.sparkline_30d);
    let change_part = if change > 0 {
        String::from_str(" (+").concat(change_text).concat(" this month)")
    } else {
        String::new()
    };
    let milestone_part = match predict_milestone(h) {
        Some(p) => {
            let days = if p.estimated_days == 1 {
                String::from_str("1 day")
            } else {
                u64_to_string(p.estimated_days).concat(" days")
            };
            String::from_str(" | ").concat(milestone_text).concat("★ in ").concat(days.as_str()).concat(
                " (",
            ).concat(rate_text).concat("/day)")
        },
        None => String::from_str(" | Growth stalled"),
    };
    String::from_str("\x1b[1m").concat("★ Stars:").concat("\x1b[0m").concat("         ").concat(
        pad_to(total_text, 8).as_str(),
    ).concat(change_part.as_str()).concat(milestone_part.as_str()).concat("\n")
}

} // verus!
