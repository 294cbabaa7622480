//! Sections of the Markdown health report that are made of counts and
//! names: security, contributors, issues, pull requests, stars and
//! releases. Where a section shows a decimal, the caller hands in its
//! text.
use vstd::prelude::*;
use crate::order::{insert_pos, insertion_sorted, lemma_insertion_sorted};
use crate::clock::{format_ymd, format_ymd_hm, is_datable, ymd_hm_text, ymd_text};
use crate::config::first_n;
use crate::health::star_sum;
use crate::models::{
    Contributor, ContributorStats, IssueStats, LabelGroup, PrStats, Release, SecurityAlerts,
    StarHistory, VelocityStats, WeeklyActivity,
};
use crate::stars::{predict_milestone, prediction_for, sum_stars, weighted_rate_numer};
use crate::report::{format_number, group_thousands};
use crate::text::{decimal_digits, i64_to_string, signed_decimal, u64_to_string};

verus! {

/// A count with thousands separators.
pub open spec fn grouped(n: nat) -> Seq<char> {
    group_thousands(decimal_digits(n))
}

/// The severity table of the security section.
pub open spec fn severity_table(s: SecurityAlerts) -> Seq<char> {
    "### By Severity\n\n"@ + "| Severity | Count |\n"@ + "|----------|-------|\n"@
        + "| 🔴 Critical | "@ + decimal_digits(s.critical_count as nat) + " |\n"@
        + "| 🟠 High | "@ + decimal_digits(s.high_count as nat) + " |\n"@
        + "| 🟡 Medium | "@ + decimal_digits(s.medium_count as nat) + " |\n"@
        + "| 🟢 Low | "@ + decimal_digits(s.low_count as nat) + " |\n"@ + "\n"@
}

/// The security section: the open alert count and, when there are any,
/// the count of each severity; a note when no alert data could be had.
pub open spec fn security_section_text(a: Option<SecurityAlerts>) -> Seq<char> {
    "## 🔒 Security\n\n"@ + match a {
        Some(s) => "**Open Alerts:** "@ + decimal_digits(s.total_open as nat) + "\n\n"@ + if s.total_open
            > 0 {
            severity_table(s)
        } else {
            "✅ No open security alerts\n\n"@
        },
        None => "*Security data not available (requires authentication)*\n\n"@,
    }
}

/// The security section of the report.
pub fn format_security_section(alerts: &Option<SecurityAlerts>) -> (s: String)
    ensures
        s@ == security_section_text(*alerts),
{
    let head = String::from_str("## 🔒 Security\n\n");
    match alerts {
        Some(a) => {
            let s = head.concat("**Open Alerts:** ").concat(u64_to_string(a.total_open).as_str()).concat(
                "\n\n",
            );
            if a.total_open > 0 {
                let t = String::from_str("### By Severity\n\n").concat("| Severity | Count |\n").concat(
                    "|----------|-------|\n",
                );
                let t = t.concat("| 🔴 Critical | ").concat(u64_to_string(a.critical_count).as_str()).concat(
                    " |\n",
                );
                let t = t.concat("| 🟠 High | ").concat(u64_to_string(a.high_count).as_str()).concat(
                    " |\n",
                );
                let t = t.concat("| 🟡 Medium | ").concat(u64_to_string(a.medium_count).as_str()).concat(
                    " |\n",
                );
                let t = t.concat("| 🟢 Low | ").concat(u64_to_string(a.low_count).as_str()).concat(
                    " |\n",
                ).concat("\n");
                s.concat(t.as_str())
            } else {
                s.concat("✅ No open security alerts\n\n")
            }
        },
        None => head.concat("*Security data not available (requires authentication)*\n\n"),
    }
}

/// The table rows of the contributors `cs`, in order.
pub open spec fn contributor_rows(cs: Seq<Contributor>) -> Seq<char>
    decreases cs.len(),
{
    if cs.len() == 0 {
        Seq::empty()
    } else {
        contributor_rows(cs.drop_last()) + "| @"@ + cs.last().username@ + " | "@ + grouped(
            cs.last().commit_count as nat,
        ) + " |\n"@
    }
}

/// The contributors section: the unique count, the number of new
/// contributors when there are any, and the first ten top contributors.
pub open spec fn contributors_section_text(c: ContributorStats) -> Seq<char> {
    "## 👥 Contributors\n\n"@ + "**Total Unique:** "@ + grouped(c.total_unique as nat) + "\n\n"@ + (
    if c.new_contributors_last_30d@.len() > 0 {
        "🆕 **New Contributors (30d):** "@ + decimal_digits(c.new_contributors_last_30d@.len())
            + "\n\n"@
    } else {
        Seq::empty()
    }) + (if c.top_contributors@.len() > 0 {
        "### Top Contributors\n\n"@ + "| User | Commits |\n"@ + "|------|---------|\n"@
            + contributor_rows(first_n(c.top_contributors@, 10)) + "\n"@
    } else {
        Seq::empty()
    })
}

/// The contributors section of the report.
pub fn format_contributors_section(c: &ContributorStats) -> (s: String)
    ensures
        s@ == contributors_section_text(*c),
{
    let mut s = String::from_str("## 👥 Contributors\n\n").concat("**Total Unique:** ").concat(
        format_number(c.total_unique).as_str(),
    ).concat("\n\n");
    let ghost base = s@;
    let n_new = c.new_contributors_last_30d.len();
    if n_new > 0 {
        s = s.concat("🆕 **New Contributors (30d):** ").concat(
            u64_to_string(n_new as u64).as_str(),
        ).concat("\n\n");
    }
    let ghost mid = s@;
    let tops = &c.top_contributors;
    if tops.len() > 0 {
        let mut rows = String::from_str("### Top Contributors\n\n").concat("| User | Commits |\n").concat(
            "|------|---------|\n",
        );
        let ghost hdr = rows@;
        let shown: usize = if tops.len() < 10 {
            tops.len()
        } else {
            10
        };
        let mut i: usize = 0;
        while i < shown
            invariant
                shown <= tops@.len(),
                i <= shown,
                rows@ == hdr + contributor_rows(tops@.take(i as int)),
            decreases shown - i,
        {
            let who = &tops[i];
            assert(tops@.take(i + 1).drop_last() =~= tops@.take(i as int));
            rows = rows.concat("| @").concat(who.username.as_str()).concat(" | ").concat(
                format_number(who.commit_count).as_str(),
            ).concat(" |\n");
            i = i + 1;
        }
        assert(first_n(tops@, 10) =~= tops@.take(shown as int));
        rows = rows.concat("\n");
        s = s.concat(rows.as_str());
    }
    s
}

} // verus!

verus! {

/// A label and how many open issues carry it.
pub open spec fn label_count(g: LabelGroup) -> (Seq<char>, nat) {
    (g.label@, g.issues@.len())
}

/// The label counts of the groups, in order.
pub open spec fn label_counts(gs: Seq<LabelGroup>) -> Seq<(Seq<char>, nat)> {
    gs.map_values(|g: LabelGroup| label_count(g))
}

/// An entry with a larger count comes first.
pub open spec fn larger_count() -> spec_fn((Seq<char>, nat), (Seq<char>, nat)) -> bool {
    |a: (Seq<char>, nat), b: (Seq<char>, nat)| a.1 > b.1
}

/// `s` ordered by descending count; entries with equal counts keep their
/// order (a stable sort).
pub open spec fn sorted_by_count(s: Seq<(Seq<char>, nat)>) -> Seq<(Seq<char>, nat)> {
    insertion_sorted(s, larger_count())
}

/// Counts descend along `s`.
pub open spec fn counts_descending(s: Seq<(Seq<char>, nat)>) -> bool {
    forall|i: int, j: int| 0 <= i <= j < s.len() ==> s[i].1 >= s[j].1
}

/// The label counts are listed most first, each label once as often as
/// it was given.
pub proof fn lemma_sorted_by_count(s: Seq<(Seq<char>, nat)>)
    ensures
        counts_descending(sorted_by_count(s)),
        sorted_by_count(s).to_multiset() == s.to_multiset(),
        sorted_by_count(s).len() == s.len(),
{
    lemma_insertion_sorted(s, larger_count());
    let t = sorted_by_count(s);
    assert forall|i: int, j: int| 0 <= i <= j < t.len() implies t[i].1 >= t[j].1 by {
        assert(!larger_count()(t[j], t[i]));
    }
}

/// The table rows of the label counts `s`, in order.
pub open spec fn label_rows(s: Seq<(Seq<char>, nat)>) -> Seq<char>
    decreases s.len(),
{
    if s.len() == 0 {
        Seq::empty()
    } else {
        label_rows(s.drop_last()) + "| "@ + s.last().0 + " | "@ + decimal_digits(s.last().1) + " |\n"@
    }
}

/// The issues section: the open count, the age of the oldest issue when
/// known, and the issue count of each label (most first) and of the
/// unlabelled issues.
pub open spec fn issues_section_text(issues: IssueStats, oldest_days: Option<i64>) -> Seq<char> {
    "## 📋 Issues\n\n"@ + "**Open:** "@ + decimal_digits(issues.total_open as nat) + "\n\n"@ + (
    match oldest_days {
        Some(d) => "⏱️ **Oldest Issue:** "@ + signed_decimal(d as int) + " days old\n\n"@,
        None => Seq::empty(),
    }) + (if issues.by_label@.len() > 0 || issues.unlabelled@.len() > 0 {
        "### By Label\n\n"@ + "| Label | Count |\n"@ + "|-------|-------|\n"@ + label_rows(
            sorted_by_count(label_counts(issues.by_label@)),
        ) + (if issues.unlabelled@.len() > 0 {
            "| *unlabelled* | "@ + decimal_digits(issues.unlabelled@.len()) + " |\n"@
        } else {
            Seq::empty()
        }) + "\n"@
    } else {
        Seq::empty()
    })
}

/// The view of a label with its count.
pub open spec fn entry_view(e: (String, usize)) -> (Seq<char>, nat) {
    (e.0@, e.1 as nat)
}

/// The views of a list of labels with counts.
pub open spec fn entry_views(v: Seq<(String, usize)>) -> Seq<(Seq<char>, nat)> {
    v.map_values(|e: (String, usize)| entry_view(e))
}

/// The label counts of the groups, most first, keeping the order of
/// labels with equal counts.
fn sorted_label_counts(groups: &Vec<LabelGroup>) -> (r: Vec<(String, usize)>)
    ensures
        entry_views(r@) == sorted_by_count(label_counts(groups@)),
{
    let ghost lc = label_counts(groups@);
    let mut out: Vec<(String, usize)> = Vec::new();
    let mut i: usize = 0;
    assert(entry_views(out@) =~= sorted_by_count(lc.take(0)));
    while i < groups.len()
        invariant
            i <= groups@.len(),
            lc == label_counts(groups@),
            entry_views(out@) == sorted_by_count(lc.take(i as int)),
        decreases groups@.len() - i,
    {
        let g = &groups[i];
        let x: (String, usize) = (g.label.clone(), g.issues.len());
        let ghost xv = entry_view(x);
        assert(xv == lc[i as int]);
        let ghost outv = entry_views(out@);
        let mut k: usize = out.len();
        assert(outv.take(k as int) =~= outv);
        while k > 0 && x.1 > out[k - 1].1
            invariant
                k <= out@.len(),
                outv == entry_views(out@),
                xv == entry_view(x),
                insert_pos(outv, xv, larger_count()) == insert_pos(outv.take(k as int), xv, larger_count()),
            decreases k,
        {
            assert(outv.take(k as int).drop_last() =~= outv.take(k - 1));
            assert(outv.take(k as int).last() == entry_view(out@[k - 1]));
            k = k - 1;
        }
        proof {
            if k > 0 {
                assert(outv.take(k as int).last() == entry_view(out@[k - 1]));
            }
            assert(insert_pos(outv.take(k as int), xv, larger_count()) == k);
        }
        out.insert(k, x);
        proof {
            assert(entry_views(out@) =~= outv.insert(k as int, xv));
            assert(lc.take(i + 1).drop_last() =~= lc.take(i as int));
            assert(lc.take(i + 1).last() == xv);
        }
        i = i + 1;
    }
    assert(lc.take(i as int) =~= lc);
    out
}

/// The issues section of the report; `oldest_days` is the age in days of
/// the oldest open issue, when there is one.
pub fn format_issues_section(issues: &IssueStats, oldest_days: Option<i64>) -> (s: String)
    ensures
        s@ == issues_section_text(*issues, oldest_days),
{
    let mut s = String::from_str("## 📋 Issues\n\n").concat("**Open:** ").concat(
        u64_to_string(issues.total_open).as_str(),
    ).concat("\n\n");
    match oldest_days {
        Some(d) => {
            s = s.concat("⏱️ **Oldest Issue:** ").concat(i64_to_string(d).as_str()).concat(
                " days old\n\n",
            );
        },
        None => {},
    }
    if issues.by_label.len() > 0 || issues.unlabelled.len() > 0 {
        let counts = sorted_label_counts(&issues.by_label);
        let ghost cv = entry_views(counts@);
        let mut t = String::from_str("### By Label\n\n").concat("| Label | Count |\n").concat(
            "|-------|-------|\n",
        );
        let ghost hdr = t@;
        let mut i: usize = 0;
        while i < counts.len()
            invariant
                i <= counts@.len(),
                cv == entry_views(counts@),
                t@ == hdr + label_rows(cv.take(i as int)),
            decreases counts@.len() - i,
        {
            assert(cv.take(i + 1).drop_last() =~= cv.take(i as int));
            assert(cv.take(i + 1).last() == entry_view(counts@[i as int]));
            t = t.concat("| ").concat(counts[i].0.as_str()).concat(" | ").concat(
                u64_to_string(counts[i].1 as u64).as_str(),
            ).concat(" |\n");
            i = i + 1;
        }
        assert(cv.take(i as int) =~= cv);
        if issues.unlabelled.len() > 0 {
            t = t.concat("| *unlabelled* | ").concat(
                u64_to_string(issues.unlabelled.len() as u64).as_str(),
            ).concat(" |\n");
        }
        t = t.concat("\n");
        s = s.concat(t.as_str());
    }
    s
}

} // verus!

verus! {

/// The pull request section: open, ready, draft and recently merged
/// counts, and the mean time to merge (whose text in days the caller
/// gives) when it is known.
pub open spec fn prs_section_text(prs: PrStats, avg_days_text: Seq<char>) -> Seq<char> {
    "## 🔀 Pull Requests\n\n"@ + "**Open:** "@ + decimal_digits(prs.open_count as nat) + "\n\n"@
        + "| Status | Count |\n"@ + "|--------|-------|\n"@ + "| Ready | "@ + decimal_digits(
        prs.ready_count as nat,
    ) + " |\n"@ + "| Draft | "@ + decimal_digits(prs.draft_count as nat) + " |\n"@
        + "| Merged (30d) | "@ + decimal_digits(prs.merged_last_30d@.len()) + " |\n"@ + "\n"@ + (
    if prs.avg_time_to_merge_hours is Some {
        "⏱️ **Avg Time to Merge:** "@ + avg_days_text + " days\n\n"@
    } else {
        Seq::empty()
    })
}

/// The pull request section of the report; `avg_days_text` is the mean
/// time to merge in days, written with one decimal.
pub fn format_prs_section(prs: &PrStats, avg_days_text: &str) -> (s: String)
    ensures
        s@ == prs_section_text(*prs, avg_days_text@),
{
    let s = String::from_str("## 🔀 Pull Requests\n\n").concat("**Open:** ").concat(
        u64_to_string(prs.open_count).as_str(),
    ).concat("\n\n");
    let s = s.concat("| Status | Count |\n").concat("|--------|-------|\n");
    let s = s.concat("| Ready | ").concat(u64_to_string(prs.ready_count).as_str()).concat(" |\n");
    let s = s.concat("| Draft | ").concat(u64_to_string(prs.draft_count).as_str()).concat(" |\n");
    let s = s.concat("| Merged (30d) | ").concat(
        u64_to_string(prs.merged_last_30d.len() as u64).as_str(),
    ).concat(" |\n").concat("\n");
    if prs.avg_time_to_merge_hours.is_some() {
        s.concat("⏱️ **Avg Time to Merge:** ").concat(avg_days_text).concat(" days\n\n")
    } else {
        s
    }
}

/// "1 day", or the number of days.
pub open spec fn days_text(d: u64) -> Seq<char> {
    if d == 1 {
        "1 day"@
    } else {
        decimal_digits(d as nat) + " days"@
    }
}

/// The stars section: the total, the next milestone with its estimate
/// (the daily rate's text is the caller's) or a note that growth stalled,
/// and the stars gained over 30 and 90 days.
pub open spec fn stars_section_text(h: StarHistory, rate_text: Seq<char>) -> Seq<char> {
    "## ⭐ Stars\n\n"@ + "**Total:** "@ + grouped(h.total_count as nat) + "\n\n"@ + (
    match prediction_for(h) {
        Some(p) => "📈 **Next Milestone:** "@ + grouped(p.next_milestone as nat)
            + " stars estimated in "@ + days_text(p.estimated_days) + " ("@ + rate_text
            + "/day)\n\n"@,
        None => "📉 Growth stalled or no milestone data available\n\n"@,
    }) + "| Period | New Stars |\n"@ + "|--------|-----------|\n"@ + "| Last 30 days | +"@ + grouped(
        star_sum(h.sparkline_30d@),
    ) + " |\n"@ + "| Last 90 days | +"@ + grouped(star_sum(h.sparkline_90d@)) + " |\n"@ + "\n"@
}

/// The stars section of the report; `rate_text` is the predicted daily
/// rate written with one decimal.
pub fn format_stars_section(h: &StarHistory, rate_text: &str) -> (s: String)
    requires
        weighted_rate_numer(*h) <= i64::MAX,
    ensures
        s@ == stars_section_text(*h, rate_text@),
{
    let s = String::from_str("## ⭐ Stars\n\n").concat("**Total:** ").concat(
        format_number(h.total_count).as_str(),
    ).concat("\n\n");
    let s = match predict_milestone(h) {
        Some(p) => {
            let days = if p.estimated_days == 1 {
                String::from_str("1 day")
            } else {
                u64_to_string(p.estimated_days).concat(" days")
            };
            s.concat("📈 **Next Milestone:** ").concat(format_number(p.next_milestone).as_str()).concat(
                " stars estimated in ",
            ).concat(days.as_str()).concat(" (").concat(rate_text).concat("/day)\n\n")
        },
        None => s.concat("📉 Growth stalled or no milestone data available\n\n"),
    };
    let s30 = sum_stars(&h.sparkline_30d);
    let s90 = sum_stars(&h.sparkline_90d);
    let s = s.concat("| Period | New Stars |\n").concat("|--------|-----------|\n");
    let s = s.concat("| Last 30 days | +").concat(format_number(s30).as_str()).concat(" |\n");
    s.concat("| Last 90 days | +").concat(format_number(s90).as_str()).concat(" |\n").concat("\n")
}

/// The table row of a release.
pub open spec fn release_row(r: Release) -> Seq<char> {
    "| "@ + r.tag_name@ + " | "@ + (match r.published_at {
        Some(t) => ymd_text(t),
        None => "Unknown"@,
    }) + " | "@ + (match r.days_since {
        Some(d) => signed_decimal(d as int),
        None => "-"@,
    }) + " |\n"@
}

/// The table rows of the releases `rs`, in order.
pub open spec fn release_rows(rs: Seq<Release>) -> Seq<char>
    decreases rs.len(),
{
    if rs.len() == 0 {
        Seq::empty()
    } else {
        release_rows(rs.drop_last()) + release_row(rs.last())
    }
}

fn format_release_row(r: &Release) -> (s: String)
    requires
        r.published_at matches Some(t) ==> is_datable(t),
    ensures
        s@ == release_row(*r),
{
    let published = match r.published_at {
        Some(p) => format_ymd(p),
        None => String::from_str("Unknown"),
    };
    let days = match r.days_since {
        Some(d) => i64_to_string(d),
        None => String::from_str("-"),
    };
    String::from_str("| ").concat(r.tag_name.as_str()).concat(" | ").concat(published.as_str()).concat(
        " | ",
    ).concat(days.as_str()).concat(" |\n")
}

/// Every publication date of the releases can be written.
pub open spec fn releases_datable(rs: Seq<Release>) -> bool {
    forall|k: int| 0 <= k < rs.len() ==> (#[trigger] rs[k].published_at matches Some(t) ==> is_datable(t))
}

/// The releases section: the five newest releases with their dates and
/// ages, and the mean interval between releases (whose text in days the
/// caller gives) when it is known; a note when there are none.
pub open spec fn releases_section_text(rs: Seq<Release>, avg_text: Seq<char>) -> Seq<char> {
    "## 🏷️ Releases\n\n"@ + if rs.len() == 0 {
        "*No releases found*\n\n"@
    } else {
        "| Version | Published | Days Since |\n"@ + "|---------|-----------|------------|\n"@
            + release_rows(first_n(rs, 5)) + (if rs[0].avg_interval is Some {
            "\n📅 **Avg Release Interval:** "@ + avg_text + " days\n"@
        } else {
            Seq::empty()
        }) + "\n"@
    }
}

/// The releases section of the report; `avg_text` is the mean release
/// interval in days, written with one decimal.
pub fn format_releases_section(releases: &Vec<Release>, avg_text: &str) -> (s: String)
    requires
        releases_datable(releases@),
    ensures
        s@ == releases_section_text(releases@, avg_text@),
{
    let head = String::from_str("## 🏷️ Releases\n\n");
    if releases.len() == 0 {
        return head.concat("*No releases found*\n\n");
    }
    let mut t = String::from_str("| Version | Published | Days Since |\n").concat(
        "|---------|-----------|------------|\n",
    );
    let ghost hdr = t@;
    let shown: usize = if releases.len() < 5 {
        releases.len()
    } else {
        5
    };
    let mut i: usize = 0;
    while i < shown
        invariant
            shown <= releases@.len(),
            i <= shown,
            releases_datable(releases@),
            t@ == hdr + release_rows(releases@.take(i as int)),
        decreases shown - i,
    {
        assert(releases@.take(i + 1).drop_last() =~= releases@.take(i as int));
        assert(releases@[i as int].published_at matches Some(t) ==> is_datable(t));
        let row = format_release_row(&releases[i]);
        t = t.concat(row.as_str());
        i = i + 1;
    }
    assert(first_n(releases@, 5) =~= releases@.take(shown as int));
    if releases[0].avg_interval.is_some() {
        t = t.concat("\n📅 **Avg Release Interval:** ").concat(avg_text).concat(" days\n");
    }
    t = t.concat("\n");
    head.concat(t.as_str())
}

} // verus!

verus! {

/// The report's title and the time the snapshot was taken.
pub open spec fn report_header_text(owner: Seq<char>, name: Seq<char>, fetched_at: i64) -> Seq<char> {
    "# "@ + owner + "/"@ + name + " Health Report\n\n"@ + "Generated: "@ + ymd_hm_text(fetched_at)
        + " UTC\n\n"@
}

/// The report's header.
pub fn format_report_header(owner: &str, name: &str, fetched_at: i64) -> (s: String)
    requires
        is_datable(fetched_at),
    ensures
        s@ == report_header_text(owner@, name@, fetched_at),
{
    String::from_str("# ").concat(owner).concat("/").concat(name).concat(" Health Report\n\n").concat(
        "Generated: ",
    ).concat(format_ymd_hm(fetched_at).as_str()).concat(" UTC\n\n")
}

} // verus!

verus! {

/// The ratio column of a week: the given text of opened over closed when
/// any closed, `∞` when some opened and none closed, `-` for a quiet week.
pub open spec fn ratio_cell(w: WeeklyActivity, ratio_text: Seq<char>) -> Seq<char> {
    if w.closed > 0 {
        ratio_text
    } else if w.opened > 0 {
        "∞"@
    } else {
        "-"@
    }
}

/// The table rows of the weeks `ws` with the texts of their ratios.
pub open spec fn week_rows(ws: Seq<WeeklyActivity>, ratios: Seq<Seq<char>>) -> Seq<char>
    decreases ws.len(),
{
    if ws.len() == 0 {
        Seq::empty()
    } else {
        let k = ws.len() - 1;
        week_rows(ws.drop_last(), ratios) + week_row(ws[k], ratios[k])
    }
}

/// The table row of a week with the text of its ratio.
pub open spec fn week_row(w: WeeklyActivity, ratio_text: Seq<char>) -> Seq<char> {
    "| "@ + ymd_text(w.week_start) + " | "@ + decimal_digits(w.opened as nat) + " | "@
        + decimal_digits(w.closed as nat) + " | "@ + ratio_cell(w, ratio_text) + " |\n"@
}

fn format_week_row(w: WeeklyActivity, ratio_text: &String) -> (s: String)
    requires
        is_datable(w.week_start),
    ensures
        s@ == week_row(w, ratio_text@),
{
    let cell = if w.closed > 0 {
        ratio_text.clone()
    } else if w.opened > 0 {
        String::from_str("∞")
    } else {
        String::from_str("-")
    };
    String::from_str("| ").concat(format_ymd(w.week_start).as_str()).concat(" | ").concat(
        u64_to_string(w.opened).as_str(),
    ).concat(" | ").concat(u64_to_string(w.closed).as_str()).concat(" | ").concat(cell.as_str()).concat(
        " |\n",
    )
}

/// One velocity table (issues, or pull requests with `closed_name`
/// "Merged"), present only when there are weeks.
pub open spec fn week_table(
    title: Seq<char>,
    closed_name: Seq<char>,
    ws: Seq<WeeklyActivity>,
    ratios: Seq<Seq<char>>,
) -> Seq<char> {
    if ws.len() == 0 {
        Seq::empty()
    } else {
        "### "@ + title + "\n\n"@ + "| Week | Opened | "@ + closed_name + " | Ratio |\n"@
            + "|------|--------|--------|-------|\n"@ + week_rows(ws, ratios) + "\n"@
    }
}

/// The velocity section: a table of issues and one of pull requests per
/// week, then the weekly averages. The caller gives the texts of the
/// ratios and of the four averages (issues opened and closed, pull
/// requests opened and merged).
pub open spec fn velocity_section_text(
    v: VelocityStats,
    issue_ratios: Seq<Seq<char>>,
    pr_ratios: Seq<Seq<char>>,
    averages: Seq<Seq<char>>,
) -> Seq<char> {
    "## 📊 Velocity (Last 8 Weeks)\n\n"@ + week_table("Issues"@, "Closed"@, v.issues_weekly@, issue_ratios)
        + week_table("Pull Requests"@, "Merged"@, v.prs_weekly@, pr_ratios) + "### Averages\n\n"@
        + "| Metric | Opened/Week | Closed/Merged/Week |\n"@
        + "|--------|-------------|-------------------|\n"@ + "| Issues | "@ + averages[0] + " | "@
        + averages[1] + " |\n"@ + "| PRs | "@ + averages[2] + " | "@ + averages[3] + " |\n"@ + "\n"@
}

/// Views of a list of strings.
pub open spec fn text_views(v: Seq<String>) -> Seq<Seq<char>> {
    v.map_values(|s: String| s@)
}

/// Every week of `ws` starts at a date that can be written.
pub open spec fn weeks_datable(ws: Seq<WeeklyActivity>) -> bool {
    forall|k: int| 0 <= k < ws.len() ==> is_datable(#[trigger] ws[k].week_start)
}

fn format_week_table(title: &str, closed_name: &str, weeks: &Vec<WeeklyActivity>, ratios: &Vec<String>) -> (s: String)
    requires
        ratios@.len() == weeks@.len(),
        weeks_datable(weeks@),
    ensures
        s@ == week_table(title@, closed_name@, weeks@, text_views(ratios@)),
{
    if weeks.len() == 0 {
        return String::new();
    }
    let ghost rv = text_views(ratios@);
    let mut t = String::from_str("### ").concat(title).concat("\n\n").concat("| Week | Opened | ").concat(
        closed_name,
    ).concat(" | Ratio |\n").concat("|------|--------|--------|-------|\n");
    let ghost hdr = t@;
    let mut i: usize = 0;
    while i < weeks.len()
        invariant
            i <= weeks@.len(),
            ratios@.len() == weeks@.len(),
            rv == text_views(ratios@),
            weeks_datable(weeks@),
            t@ == hdr + week_rows(weeks@.take(i as int), rv),
        decreases weeks@.len() - i,
    {
        let w = weeks[i];
        assert(weeks@.take(i + 1).drop_last() =~= weeks@.take(i as int));
        assert(is_datable(weeks@[i as int].week_start));
        let row = format_week_row(w, &ratios[i]);
        t = t.concat(row.as_str());
        i = i + 1;
    }
    assert(weeks@.take(i as int) =~= weeks@);
    t.concat("\n")
}

/// The velocity section of the report. `issue_ratios` and `pr_ratios`
/// hold, week by week, the opened-to-closed ratio written with one
/// decimal; `averages` the four weekly means so written.
pub fn format_velocity_section(
    v: &VelocityStats,
    issue_ratios: &Vec<String>,
    pr_ratios: &Vec<String>,
    averages: &Vec<String>,
) -> (s: String)
    requires
        issue_ratios@.len() == v.issues_weekly@.len(),
        pr_ratios@.len() == v.prs_weekly@.len(),
        averages@.len() == 4,
        weeks_datable(v.issues_weekly@),
        weeks_datable(v.prs_weekly@),
    ensures
        s@ == velocity_section_text(
            *v,
            text_views(issue_ratios@),
            text_views(pr_ratios@),
            text_views(averages@),
        ),
{
    let s = String::from_str("## 📊 Velocity (Last 8 Weeks)\n\n");
    let s = s.concat(format_week_table("Issues", "Closed", &v.issues_weekly, issue_ratios).as_str());
    let s = s.concat(format_week_table("Pull Requests", "Merged", &v.prs_weekly, pr_ratios).as_str());
    let s = s.concat("### Averages\n\n").concat("| Metric | Opened/Week | Closed/Merged/Week |\n").concat(
        "|--------|-------------|-------------------|\n",
    );
    let s = s.concat("| Issues | ").concat(averages[0].as_str()).concat(" | ").concat(
        averages[1].as_str(),
    ).concat(" |\n");
    s.concat("| PRs | ").concat(averages[2].as_str()).concat(" | ").concat(averages[3].as_str()).concat(
        " |\n",
    ).concat("\n")
}

} // verus!
