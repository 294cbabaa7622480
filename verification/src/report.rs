//! The text of the Markdown report and of the terminal summary, for the
//! parts that involve no fractional numbers.
use vstd::prelude::*;
use crate::health::{star_sum, sum_closed, sum_opened, HealthGrade, HealthScore};
use crate::models::{Fraction, SecurityAlerts, WeeklyActivity};
use crate::text::{decimal_digits, push_char, u64_to_string};

verus! {

/// Decimal digits grouped in threes from the right, separated by commas.
pub open spec fn group_thousands(d: Seq<char>) -> Seq<char>
    decreases d.len(),
{
    if d.len() <= 3 {
        d
    } else {
        group_thousands(d.take(d.len() - 3)) + seq![','] + d.skip(d.len() - 3)
    }
}

/// `s` without its commas.
pub open spec fn without_commas(s: Seq<char>) -> Seq<char>
    decreases s.len(),
{
    if s.len() == 0 {
        s
    } else if s.last() == ',' {
        without_commas(s.drop_last())
    } else {
        without_commas(s.drop_last()).push(s.last())
    }
}

fn push_grouped(out: &mut Vec<char>, d: &Vec<char>, end: usize)
    requires
        end <= d@.len(),
    ensures
        final(out)@ == old(out)@ + group_thousands(d@.take(end as int)),
    decreases end,
{
    let ghost t = d@.take(end as int);
    if end <= 3 {
        let mut i: usize = 0;
        while i < end
            invariant
                i <= end,
                end <= d@.len(),
                out@ == old(out)@ + d@.take(i as int),
            decreases end - i,
        {
            out.push(d[i]);
            i = i + 1;
            assert(out@ =~= old(out)@ + d@.take(i as int));
        }
        assert(d@.take(i as int) =~= t);
    } else {
        push_grouped(out, d, end - 3);
        let ghost mid = out@;
        out.push(',');
        out.push(d[end - 3]);
        out.push(d[end - 2]);
        out.push(d[end - 1]);
        assert(t.take(t.len() - 3) =~= d@.take(end - 3));
        assert(t.skip(t.len() - 3) =~= seq![d@[end - 3], d@[end - 2], d@[end - 1]]);
        assert(out@ =~= old(out)@ + group_thousands(t));
    }
}

/// A number with thousands separators: 1234567 becomes `1,234,567`.
pub fn format_number(n: u64) -> (s: String)
    ensures
        s@ == group_thousands(decimal_digits(n as nat)),
{
    let mut d: Vec<char> = Vec::new();
    crate::text::push_decimal(&mut d, n);
    assert(d@ =~= decimal_digits(n as nat));
    let mut out: Vec<char> = Vec::new();
    push_grouped(&mut out, &d, d.len());
    assert(d@.take(d@.len() as int) =~= d@);
    assert(out@ =~= group_thousands(d@));
    crate::text::string_from_chars(out.as_slice())
}

proof fn lemma_without_commas_concat(a: Seq<char>, b: Seq<char>)
    ensures
        without_commas(a + b) == without_commas(a) + without_commas(b),
    decreases b.len(),
{
    if b.len() == 0 {
        assert(a + b =~= a);
        assert(without_commas(a) + without_commas(b) =~= without_commas(a));
    } else {
        lemma_without_commas_concat(a, b.drop_last());
        assert((a + b).drop_last() =~= a + b.drop_last());
        if b.last() != ',' {
            assert(without_commas(a) + without_commas(b.drop_last()).push(b.last()) =~= (without_commas(
                a,
            ) + without_commas(b.drop_last())).push(b.last()));
        }
    }
}

/// Removing the separators gives back the digits: grouping only inserts
/// commas.
pub proof fn lemma_group_thousands_keeps_digits(d: Seq<char>)
    requires
        forall|k: int| 0 <= k < d.len() ==> d[k] != ',',
    ensures
        without_commas(group_thousands(d)) == d,
    decreases d.len(),
{
    if d.len() <= 3 {
        lemma_no_commas_unchanged(d);
    } else {
        let head = d.take(d.len() - 3);
        let tail = d.skip(d.len() - 3);
        lemma_group_thousands_keeps_digits(head);
        lemma_without_commas_concat(group_thousands(head) + seq![','], tail);
        lemma_without_commas_concat(group_thousands(head), seq![',']);
        assert(without_commas(seq![',']) =~= Seq::<char>::empty()) by {
            let c = seq![','];
            assert(c.drop_last() =~= Seq::<char>::empty());
            assert(c.last() == ',');
            assert(without_commas(c) == without_commas(c.drop_last()));
            assert(without_commas(Seq::<char>::empty()) == Seq::<char>::empty());
        }
        lemma_no_commas_unchanged(tail);
        assert(head + tail =~= d);
    }
}

proof fn lemma_no_commas_unchanged(s: Seq<char>)
    requires
        forall|k: int| 0 <= k < s.len() ==> s[k] != ',',
    ensures
        without_commas(s) == s,
    decreases s.len(),
{
    if s.len() > 0 {
        lemma_no_commas_unchanged(s.drop_last());
        assert(s.drop_last().push(s.last()) =~= s);
    }
}

} // verus!

verus! {

/// The emoji shown beside a grade.
pub open spec fn grade_emoji(g: HealthGrade) -> Seq<char> {
    match g {
        HealthGrade::Excellent => "🟢"@,
        HealthGrade::Good => "🔵"@,
        HealthGrade::Fair => "🟡"@,
        HealthGrade::NeedsAttention => "🟠"@,
        HealthGrade::Critical => "🔴"@,
    }
}

/// The letter of a grade.
pub open spec fn grade_letter(g: HealthGrade) -> char {
    match g {
        HealthGrade::Excellent => 'A',
        HealthGrade::Good => 'B',
        HealthGrade::Fair => 'C',
        HealthGrade::NeedsAttention => 'D',
        HealthGrade::Critical => 'F',
    }
}

/// The label of a grade.
pub open spec fn grade_label(g: HealthGrade) -> Seq<char> {
    match g {
        HealthGrade::Excellent => "Excellent"@,
        HealthGrade::Good => "Good"@,
        HealthGrade::Fair => "Fair"@,
        HealthGrade::NeedsAttention => "Needs Attention"@,
        HealthGrade::Critical => "Critical"@,
    }
}

/// The health section of the report.
pub open spec fn health_section_text(h: HealthScore) -> Seq<char> {
    "## Health Score\n\n"@ + "**Overall: "@ + decimal_digits(h.total as nat) + "/100** "@
        + grade_emoji(h.grade) + " "@ + seq![grade_letter(h.grade)] + " ("@ + grade_label(h.grade)
        + "\n\n"@ + "| Category | Score | Max |\n"@ + "|----------|-------|-----|\n"@
        + "| Activity | "@ + decimal_digits(h.activity as nat) + " | 25 |\n"@ + "| Community | "@
        + decimal_digits(h.community as nat) + " | 25 |\n"@ + "| Maintenance | "@ + decimal_digits(
        h.maintenance as nat,
    ) + " | 25 |\n"@ + "| Growth | "@ + decimal_digits(h.growth as nat) + " | 25 |\n"@ + "\n"@
}

fn grade_emoji_str(g: HealthGrade) -> (s: &'static str)
    ensures
        s@ == grade_emoji(g),
{
    match g {
        HealthGrade::Excellent => "🟢",
        HealthGrade::Good => "🔵",
        HealthGrade::Fair => "🟡",
        HealthGrade::NeedsAttention => "🟠",
        HealthGrade::Critical => "🔴",
    }
}

/// The health section of the report: total, grade and the four sub-scores.
pub fn format_health_section(health: &HealthScore) -> (s: String)
    ensures
        s@ == health_section_text(*health),
{
    let mut letter = String::new();
    push_char(&mut letter, health.grade.as_letter());
    let s = String::from_str("## Health Score\n\n");
    let s = s.concat("**Overall: ").concat(u64_to_string(health.total as u64).as_str()).concat(
        "/100** ",
    );
    let s = s.concat(grade_emoji_str(health.grade)).concat(" ").concat(letter.as_str()).concat(
        " (",
    ).concat(health.grade.as_label()).concat("\n\n");
    let s = s.concat("| Category | Score | Max |\n").concat("|----------|-------|-----|\n");
    let s = s.concat("| Activity | ").concat(u64_to_string(health.activity as u64).as_str()).concat(
        " | 25 |\n",
    );
    let s = s.concat("| Community | ").concat(u64_to_string(health.community as u64).as_str()).concat(
        " | 25 |\n",
    );
    let s = s.concat("| Maintenance | ").concat(
        u64_to_string(health.maintenance as u64).as_str(),
    ).concat(" | 25 |\n");
    let s = s.concat("| Growth | ").concat(u64_to_string(health.growth as u64).as_str()).concat(
        " | 25 |\n",
    );
    let s = s.concat("\n");
    assert(letter@ =~= seq![grade_letter(health.grade)]);
    s
}

} // verus!

verus! {

/// Mean issues (or pull requests) opened per week, rounded down; 0 for no
/// weeks.
pub fn calculate_weekly_average(weekly_data: &Vec<WeeklyActivity>) -> (r: u64)
    requires
        sum_opened(weekly_data@) <= u64::MAX,
    ensures
        r == (if weekly_data@.len() == 0 {
            0
        } else {
            sum_opened(weekly_data@) / weekly_data@.len()
        }),
{
    if weekly_data.len() == 0 {
        return 0;
    }
    let total = sum_weekly(weekly_data, true);
    total / (weekly_data.len() as u64)
}

fn sum_weekly(weekly: &Vec<WeeklyActivity>, opened: bool) -> (t: u64)
    requires
        opened ==> sum_opened(weekly@) <= u64::MAX,
        !opened ==> sum_closed(weekly@) <= u64::MAX,
    ensures
        t == (if opened {
            sum_opened(weekly@)
        } else {
            sum_closed(weekly@)
        }),
{
    let mut t: u64 = 0;
    let mut i: usize = 0;
    while i < weekly.len()
        invariant
            i <= weekly@.len(),
            opened ==> sum_opened(weekly@) <= u64::MAX,
            !opened ==> sum_closed(weekly@) <= u64::MAX,
            t == (if opened {
                sum_opened(weekly@.subrange(0, i as int))
            } else {
                sum_closed(weekly@.subrange(0, i as int))
            }),
        decreases weekly@.len() - i,
    {
        proof {
            crate::sums::lemma_seq_sum_step(weekly@, crate::health::sum_opened_fn(), i as int);
            crate::sums::lemma_seq_sum_step(weekly@, crate::health::sum_closed_fn(), i as int);
            crate::sums::lemma_seq_sum_prefix_le(weekly@, crate::health::sum_opened_fn(), i + 1);
            crate::sums::lemma_seq_sum_prefix_le(weekly@, crate::health::sum_closed_fn(), i + 1);
        }
        if opened {
            t = t + weekly[i].opened;
        } else {
            t = t + weekly[i].closed;
        }
        i = i + 1;
    }
    assert(weekly@.subrange(0, i as int) =~= weekly@);
    t
}

/// Mean opened per week as a fraction (0 for no weeks).
pub fn calculate_weekly_average_opened(weekly_data: &Vec<WeeklyActivity>) -> (r: Fraction)
    requires
        sum_opened(weekly_data@) <= i64::MAX,
    ensures
        r.wf(),
        r.numer == (if weekly_data@.len() == 0 {
            0
        } else {
            sum_opened(weekly_data@) as int
        }),
        r.denom == (if weekly_data@.len() == 0 {
            1
        } else {
            weekly_data@.len() as int
        }),
{
    if weekly_data.len() == 0 {
        return Fraction { numer: 0, denom: 1 };
    }
    let t = sum_weekly(weekly_data, true);
    Fraction { numer: t as i64, denom: weekly_data.len() as u64 }
}

/// Mean closed (or merged) per week as a fraction (0 for no weeks).
pub fn calculate_weekly_average_closed(weekly_data: &Vec<WeeklyActivity>) -> (r: Fraction)
    requires
        sum_closed(weekly_data@) <= i64::MAX,
    ensures
        r.wf(),
        r.numer == (if weekly_data@.len() == 0 {
            0
        } else {
            sum_closed(weekly_data@) as int
        }),
        r.denom == (if weekly_data@.len() == 0 {
            1
        } else {
            weekly_data@.len() as int
        }),
{
    if weekly_data.len() == 0 {
        return Fraction { numer: 0, denom: 1 };
    }
    let t = sum_weekly(weekly_data, false);
    Fraction { numer: t as i64, denom: weekly_data.len() as u64 }
}

/// Stars gained in the last 30 days, from the daily sparkline: its total,
/// or 0 when it has fewer than two days.
pub fn calculate_stars_change_30d(sparkline_30d: &Vec<u32>) -> (r: u64)
    requires
        star_sum(sparkline_30d@) <= u64::MAX,
    ensures
        r == (if sparkline_30d@.len() < 2 {
            0
        } else {
            star_sum(sparkline_30d@)
        }),
{
    if sparkline_30d.len() < 2 {
        return 0;
    }
    let mut t: u64 = 0;
    let mut i: usize = 0;
    while i < sparkline_30d.len()
        invariant
            i <= sparkline_30d@.len(),
            star_sum(sparkline_30d@) <= u64::MAX,
            t == star_sum(sparkline_30d@.subrange(0, i as int)),
        decreases sparkline_30d@.len() - i,
    {
        proof {
            crate::sums::lemma_seq_sum_step(sparkline_30d@, crate::health::star_fn(), i as int);
            crate::sums::lemma_seq_sum_prefix_le(sparkline_30d@, crate::health::star_fn(), i + 1);
        }
        t = t + sparkline_30d[i] as u64;
        i = i + 1;
    }
    assert(sparkline_30d@.subrange(0, i as int) =~= sparkline_30d@);
    t
}

/// The part of the severity breakdown for one severity, when it counts.
pub open spec fn severity_part(count: u64, name: Seq<char>) -> Seq<Seq<char>> {
    if count > 0 {
        seq![decimal_digits(count as nat) + name]
    } else {
        Seq::empty()
    }
}

/// The severity breakdown of the summary: the non-zero counts among
/// critical, high, medium and low, joined by commas.
pub open spec fn severity_detail(a: SecurityAlerts) -> Seq<char> {
    let parts = severity_part(a.critical_count, " critical"@) + severity_part(a.high_count, " high"@)
        + severity_part(a.medium_count, " medium"@) + severity_part(a.low_count, " low"@);
    if a.total_open > 0 {
        " ("@ + join_with_commas(parts) + ")"@
    } else {
        Seq::empty()
    }
}

/// The parts joined by `", "`.
pub open spec fn join_with_commas(parts: Seq<Seq<char>>) -> Seq<char>
    decreases parts.len(),
{
    if parts.len() == 0 {
        Seq::empty()
    } else if parts.len() == 1 {
        parts[0]
    } else {
        join_with_commas(parts.drop_last()) + ", "@ + parts.last()
    }
}

/// Views of a list of strings.
pub open spec fn string_views(v: Seq<String>) -> Seq<Seq<char>> {
    v.map_values(|s: String| s@)
}

fn add_part(parts: &mut Vec<String>, count: u64, name: &str)
    ensures
        string_views(final(parts)@) == string_views(old(parts)@) + severity_part(count, name@),
{
    if count > 0 {
        let ghost before = parts@;
        parts.push(u64_to_string(count).concat(name));
        assert(string_views(parts@) =~= string_views(before) + severity_part(count, name@));
    } else {
        assert(string_views(parts@) =~= string_views(parts@) + severity_part(count, name@));
    }
}

fn join_parts(parts: &Vec<String>) -> (s: String)
    ensures
        s@ == join_with_commas(string_views(parts@)),
{
    let mut out = String::new();
    let mut i: usize = 0;
    while i < parts.len()
        invariant
            i <= parts@.len(),
            out@ == join_with_commas(string_views(parts@).take(i as int)),
        decreases parts@.len() - i,
    {
        let ghost sv = string_views(parts@);
        assert(sv.take(i + 1).drop_last() =~= sv.take(i as int));
        if i > 0 {
            out.append(", ");
        }
        out.append(parts[i].as_str());
        proof {
            if i == 0 {
                assert(out@ =~= sv.take(1)[0]);
            }
        }
        i = i + 1;
    }
    assert(string_views(parts@).take(i as int) =~= string_views(parts@));
    out
}

/// The severity breakdown of the summary line for security alerts.
pub fn security_detail(a: &SecurityAlerts) -> (s: String)
    ensures
        s@ == severity_detail(*a),
{
    if a.total_open == 0 {
        return String::new();
    }
    let mut parts: Vec<String> = Vec::new();
    assert(string_views(parts@) =~= Seq::<Seq<char>>::empty());
    add_part(&mut parts, a.critical_count, " critical");
    add_part(&mut parts, a.high_count, " high");
    add_part(&mut parts, a.medium_count, " medium");
    add_part(&mut parts, a.low_count, " low");
    let joined = join_parts(&parts);
    String::from_str(" (").concat(joined.as_str()).concat(")")
}

/// The pull request breakdown of the summary: ready and draft counts
/// where they are not zero.
pub open spec fn pr_detail_text(ready: u64, draft: u64) -> Seq<char> {
    if ready > 0 && draft > 0 {
        " ("@ + decimal_digits(ready as nat) + " ready, "@ + decimal_digits(draft as nat) + " draft)"@
    } else if ready > 0 {
        " ("@ + decimal_digits(ready as nat) + " ready)"@
    } else if draft > 0 {
        " ("@ + decimal_digits(draft as nat) + " draft)"@
    } else {
        Seq::empty()
    }
}

/// The pull request breakdown of the summary line.
pub fn pr_detail(ready: u64, draft: u64) -> (s: String)
    ensures
        s@ == pr_detail_text(ready, draft),
{
    if ready > 0 && draft > 0 {
        String::from_str(" (").concat(u64_to_string(ready).as_str()).concat(" ready, ").concat(
            u64_to_string(draft).as_str(),
        ).concat(" draft)")
    } else if ready > 0 {
        String::from_str(" (").concat(u64_to_string(ready).as_str()).concat(" ready)")
    } else if draft > 0 {
        String::from_str(" (").concat(u64_to_string(draft).as_str()).concat(" draft)")
    } else {
        String::new()
    }
}

/// Colour of a count in the summary: green for none, yellow below the
/// limit, red from it on.
pub open spec fn count_color(n: u64, limit: u64) -> Seq<char> {
    if n == 0 {
        "\x1b[32m"@
    } else if n < limit {
        "\x1b[33m"@
    } else {
        "\x1b[31m"@
    }
}

/// Colour of a count in the summary (issues turn red at 50, pull
/// requests at 10).
pub fn summary_count_color(n: u64, limit: u64) -> (s: &'static str)
    ensures
        s@ == count_color(n, limit),
{
    if n == 0 {
        "\x1b[32m"
    } else if n < limit {
        "\x1b[33m"
    } else {
        "\x1b[31m"
    }
}

/// Colour of the security line: red with critical or high alerts, yellow
/// with medium ones, green otherwise.
pub fn security_color(a: &SecurityAlerts) -> (s: &'static str)
    ensures
        s@ == (if a.critical_count > 0 || a.high_count > 0 {
            "\x1b[31m"@
        } else if a.medium_count > 0 {
            "\x1b[33m"@
        } else {
            "\x1b[32m"@
        }),
{
    if a.critical_count > 0 || a.high_count > 0 {
        "\x1b[31m"
    } else if a.medium_count > 0 {
        "\x1b[33m"
    } else {
        "\x1b[32m"
    }
}

} // verus!
