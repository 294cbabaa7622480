//! Open issues: grouping them by label and sorting each group oldest first.
use vstd::prelude::*;
use crate::order::{insert_pos, insertion_sorted, lemma_insertion_sorted};
use crate::models::{Issue, IssueStats, LabelGroup};

verus! {

/// What an issue holds, with its strings as character sequences.
pub struct IssueView {
    pub number: u64,
    pub title: Seq<char>,
    pub author: Seq<char>,
    pub created_at: i64,
    pub updated_at: i64,
    pub labels: Seq<Seq<char>>,
    pub comments_count: u64,
}

/// The view of an issue.
pub open spec fn issue_view(i: Issue) -> IssueView {
    IssueView {
        number: i.number,
        title: i.title@,
        author: i.author@,
        created_at: i.created_at,
        updated_at: i.updated_at,
        labels: i.labels@.map_values(|l: String| l@),
        comments_count: i.comments_count,
    }
}

/// The views of a list of issues.
pub open spec fn issue_views(s: Seq<Issue>) -> Seq<IssueView> {
    s.map_values(|i: Issue| issue_view(i))
}

/// An issue created earlier comes first.
pub open spec fn created_earlier() -> spec_fn(IssueView, IssueView) -> bool {
    |a: IssueView, b: IssueView| a.created_at < b.created_at
}

/// `s` sorted by creation time, oldest first; issues created at the same
/// time keep their order (a stable sort).
pub open spec fn sorted_by_age(s: Seq<IssueView>) -> Seq<IssueView> {
    insertion_sorted(s, created_earlier())
}

/// Creation times ascend along `s`.
pub open spec fn ages_ascending(s: Seq<IssueView>) -> bool {
    forall|i: int, j: int| 0 <= i <= j < s.len() ==> s[i].created_at <= s[j].created_at
}

/// Sorting by age gives ascending creation times and the same issues.
pub proof fn lemma_sorted_by_age(s: Seq<IssueView>)
    ensures
        ages_ascending(sorted_by_age(s)),
        sorted_by_age(s).to_multiset() == s.to_multiset(),
        sorted_by_age(s).len() == s.len(),
{
    lemma_insertion_sorted(s, created_earlier());
    let t = sorted_by_age(s);
    assert forall|i: int, j: int| 0 <= i <= j < t.len() implies t[i].created_at <= t[j].created_at by {
        assert(!created_earlier()(t[j], t[i]));
    }
}

/// Moves the issues of `v` out in their order.
fn drain_front(v: Vec<Issue>) -> (r: Vec<Issue>)
    ensures
        r@ == v@.reverse(),
{
    let ghost orig = v@;
    let mut v = v;
    let mut r: Vec<Issue> = Vec::new();
    while v.len() > 0
        invariant
            v@ == orig.take(v@.len() as int),
            r@ == orig.skip(v@.len() as int).reverse(),
            v@.len() <= orig.len(),
        decreases v@.len(),
    {
        let ghost n = v@.len();
        let x = v.pop().unwrap();
        r.push(x);
        assert(v@ =~= orig.take(v@.len() as int));
        assert(r@ =~= orig.skip(v@.len() as int).reverse());
    }
    assert(orig.skip(0) =~= orig);
    r
}

/// Sorts issues by creation time, oldest first, keeping the order of
/// issues created at the same time.
pub fn sort_vec_by_age_ascending(issues: &mut Vec<Issue>)
    ensures
        issue_views(final(issues)@) == sorted_by_age(issue_views(old(issues)@)),
{
    let ghost orig = issues@;
    let ghost ov = issue_views(orig);
    let mut v: Vec<Issue> = Vec::new();
    std::mem::swap(&mut v, issues);
    let mut rev = drain_front(v);
    let total = rev.len();
    assert(orig.len() == total);
    let mut out: Vec<Issue> = Vec::new();
    let mut i: usize = 0;
    while rev.len() > 0
        invariant
            i + rev@.len() == orig.len(),
            orig.len() <= usize::MAX,
            ov == issue_views(orig),
            rev@ == orig.skip(i as int).reverse(),
            issue_views(out@) == sorted_by_age(ov.take(i as int)),
        decreases rev@.len(),
    {
        let x = rev.pop().unwrap();
        assert(x == orig[i as int]);
        assert(rev@ =~= orig.skip(i + 1).reverse());
        let ghost xv = issue_view(x);
        let ghost outv = issue_views(out@);
        let mut k: usize = out.len();
        assert(outv.take(k as int) =~= outv);
        while k > 0 && x.created_at < out[k - 1].created_at
            invariant
                k <= out@.len(),
                outv == issue_views(out@),
                xv == issue_view(x),
                insert_pos(outv, xv, created_earlier()) == insert_pos(outv.take(k as int), xv, created_earlier()),
            decreases k,
        {
            assert(outv.take(k as int).drop_last() =~= outv.take(k - 1));
            assert(outv.take(k as int).last() == issue_view(out@[k - 1]));
            k = k - 1;
        }
        proof {
            if k > 0 {
                assert(outv.take(k as int).last() == issue_view(out@[k - 1]));
            }
            assert(insert_pos(outv.take(k as int), xv, created_earlier()) == k);
        }
        let ghost before = out@;
        out.insert(k, x);
        proof {
            assert(issue_views(out@) =~= outv.insert(k as int, xv));
            assert(ov.take(i + 1).drop_last() =~= ov.take(i as int));
            assert(ov.take(i + 1).last() == xv);
        }
        i = i + 1;
    }
    assert(orig.take(i as int) =~= orig);
    assert(ov.take(i as int) =~= ov);
    *issues = out;
}

} // verus!

verus! {

/// An open issue as the API lists it.
pub struct IssueRecord {
    pub number: u64,
    pub title: String,
    pub author: String,
    pub created_at: i64,
    pub updated_at: i64,
    pub labels: Vec<String>,
    pub comments: u32,
}

/// Most issues fetched.
pub const DEFAULT_MAX_ISSUES: usize = 250;

/// A label group as a pair of its label and its issues.
pub open spec fn group_view(g: LabelGroup) -> (Seq<char>, Seq<IssueView>) {
    (g.label@, issue_views(g.issues@))
}

/// The label groups as pairs.
pub open spec fn group_views(gs: Seq<LabelGroup>) -> Seq<(Seq<char>, Seq<IssueView>)> {
    gs.map_values(|g: LabelGroup| group_view(g))
}

/// The index of the group with `label`, searching from index `k`.
pub open spec fn group_index_from(gs: Seq<(Seq<char>, Seq<IssueView>)>, label: Seq<char>, k: int) -> Option<int>
    decreases gs.len() - k,
{
    if k < 0 || k >= gs.len() {
        None
    } else if gs[k].0 == label {
        Some(k)
    } else {
        group_index_from(gs, label, k + 1)
    }
}

/// `issue` added to the group of `label`, or to a new group at the end.
pub open spec fn add_to_group(gs: Seq<(Seq<char>, Seq<IssueView>)>, label: Seq<char>, issue: IssueView) -> Seq<
    (Seq<char>, Seq<IssueView>),
> {
    match group_index_from(gs, label, 0) {
        Some(k) => gs.update(k, (label, gs[k].1.push(issue))),
        None => gs.push((label, seq![issue])),
    }
}

/// `issue` added to the group of each of `labels`, in order.
pub open spec fn add_to_groups(gs: Seq<(Seq<char>, Seq<IssueView>)>, labels: Seq<Seq<char>>, issue: IssueView) -> Seq<
    (Seq<char>, Seq<IssueView>),
>
    decreases labels.len(),
{
    if labels.len() == 0 {
        gs
    } else {
        add_to_group(add_to_groups(gs, labels.drop_last(), issue), labels.last(), issue)
    }
}


/// The issues grouped by label (each issue in the group of each of its
/// labels, groups in the order their label first appears), and the
/// unlabelled issues.
pub open spec fn grouped(issues: Seq<IssueView>) -> (Seq<(Seq<char>, Seq<IssueView>)>, Seq<IssueView>)
    decreases issues.len(),
{
    if issues.len() == 0 {
        (Seq::empty(), Seq::empty())
    } else {
        let (gs, un) = grouped(issues.drop_last());
        let x = issues.last();
        if x.labels.len() == 0 {
            (gs, un.push(x))
        } else {
            (add_to_groups(gs, x.labels, x), un)
        }
    }
}

/// No two groups share a label.
pub open spec fn labels_distinct(gs: Seq<(Seq<char>, Seq<IssueView>)>) -> bool {
    forall|i: int, j: int| 0 <= i < j < gs.len() ==> #[trigger] gs[i].0 != #[trigger] gs[j].0
}

proof fn lemma_group_index(gs: Seq<(Seq<char>, Seq<IssueView>)>, label: Seq<char>, k: int)
    requires
        0 <= k,
    ensures
        match group_index_from(gs, label, k) {
            Some(i) => k <= i < gs.len() && gs[i].0 == label,
            None => forall|j: int| k <= j < gs.len() ==> #[trigger] gs[j].0 != label,
        },
    decreases gs.len() - k,
{
    if k < gs.len() && gs[k].0 != label {
        lemma_group_index(gs, label, k + 1);
    }
}

proof fn lemma_add_to_group_distinct(gs: Seq<(Seq<char>, Seq<IssueView>)>, label: Seq<char>, issue: IssueView)
    requires
        labels_distinct(gs),
    ensures
        labels_distinct(add_to_group(gs, label, issue)),
{
    lemma_group_index(gs, label, 0);
    let r = add_to_group(gs, label, issue);
    match group_index_from(gs, label, 0) {
        Some(k) => {
            assert forall|i: int, j: int| 0 <= i < j < r.len() implies #[trigger] r[i].0 != #[trigger] r[j].0 by {
                assert(r[i].0 == gs[i].0 && r[j].0 == gs[j].0);
            }
        },
        None => {
            assert forall|i: int, j: int| 0 <= i < j < r.len() implies #[trigger] r[i].0 != #[trigger] r[j].0 by {
                assert(r[i] == gs[i]);
                if j < gs.len() {
                    assert(r[j] == gs[j]);
                }
            }
        },
    }
}

proof fn lemma_add_to_groups_distinct(gs: Seq<(Seq<char>, Seq<IssueView>)>, labels: Seq<Seq<char>>, issue: IssueView)
    requires
        labels_distinct(gs),
    ensures
        labels_distinct(add_to_groups(gs, labels, issue)),
    decreases labels.len(),
{
    if labels.len() > 0 {
        lemma_add_to_groups_distinct(gs, labels.drop_last(), issue);
        lemma_add_to_group_distinct(add_to_groups(gs, labels.drop_last(), issue), labels.last(), issue);
    }
}

/// Grouping gives each label one group: no two groups share a label.
pub proof fn lemma_grouped_labels_distinct(issues: Seq<IssueView>)
    ensures
        labels_distinct(grouped(issues).0),
    decreases issues.len(),
{
    if issues.len() > 0 {
        lemma_grouped_labels_distinct(issues.drop_last());
        let x = issues.last();
        if x.labels.len() > 0 {
            lemma_add_to_groups_distinct(grouped(issues.drop_last()).0, x.labels, x);
        }
    }
}

/// The issue shown for a fetched one at `now`: a creation time not after
/// the epoch is replaced by `now`, an update time not after the epoch by
/// the creation time.
pub open spec fn issue_of(r: IssueRecord, now: i64) -> Issue {
    let created = if r.created_at > 0 {
        r.created_at
    } else {
        now
    };
    Issue {
        number: r.number,
        title: r.title,
        author: r.author,
        created_at: created,
        updated_at: if r.updated_at > 0 {
            r.updated_at
        } else {
            created
        },
        labels: r.labels,
        comments_count: r.comments as u64,
    }
}

fn copy_strings(v: &Vec<String>) -> (r: Vec<String>)
    ensures
        r@ == v@,
{
    let mut r: Vec<String> = Vec::new();
    let mut i: usize = 0;
    while i < v.len()
        invariant
            i <= v@.len(),
            r@ == v@.take(i as int),
        decreases v@.len() - i,
    {
        r.push(v[i].clone());
        i = i + 1;
        assert(r@ =~= v@.take(i as int));
    }
    assert(v@.take(i as int) =~= v@);
    r
}

fn copy_issue(x: &Issue) -> (r: Issue)
    ensures
        issue_view(r) == issue_view(*x),
{
    Issue {
        number: x.number,
        title: x.title.clone(),
        author: x.author.clone(),
        created_at: x.created_at,
        updated_at: x.updated_at,
        labels: copy_strings(&x.labels),
        comments_count: x.comments_count,
    }
}

/// Adds `issue` to the group of `label` (a new group when none has it).
fn add_issue_to_label(groups: &mut Vec<LabelGroup>, label: &String, issue: &Issue)
    ensures
        group_views(final(groups)@) == add_to_group(group_views(old(groups)@), label@, issue_view(*issue)),
{
    let ghost gv = group_views(groups@);
    let mut k: usize = 0;
    while k < groups.len()
        invariant
            k <= groups@.len(),
            gv == group_views(groups@),
            gv == group_views(old(groups)@),
            group_index_from(gv, label@, 0) == group_index_from(gv, label@, k as int),
        decreases groups@.len() - k,
    {
        if crate::text::str_eq(groups[k].label.as_str(), label.as_str()) {
            assert(gv[k as int].0 == label@);
            assert(group_index_from(gv, label@, k as int) == Some(k as int));
            let ghost old_groups = groups@;
            let mut g = groups.remove(k);
            let ghost old_issues = g.issues@;
            let c = copy_issue(issue);
            g.issues.push(c);
            assert(issue_views(g.issues@) =~= issue_views(old_issues).push(issue_view(*issue)));
            groups.insert(k, g);
            assert(groups@ =~= old_groups.update(k as int, g));
            assert(group_views(groups@) =~= gv.update(k as int, (label@, gv[k as int].1.push(issue_view(*issue)))));
            return ;
        }
        k = k + 1;
    }
    let ghost before = groups@;
    let mut v: Vec<Issue> = Vec::new();
    v.push(copy_issue(issue));
    assert(issue_views(v@) =~= seq![issue_view(*issue)]);
    groups.push(LabelGroup { label: label.clone(), issues: v });
    assert(group_views(groups@) =~= gv.push((label@, seq![issue_view(*issue)])));
}

/// Groups issues by label, in order; unlabelled issues are listed apart.
pub fn group_by_label(issues: Vec<Issue>) -> (r: (Vec<LabelGroup>, Vec<Issue>))
    ensures
        group_views(r.0@) == grouped(issue_views(issues@)).0,
        issue_views(r.1@) == grouped(issue_views(issues@)).1,
        labels_distinct(group_views(r.0@)),
{
    proof {
        lemma_grouped_labels_distinct(issue_views(issues@));
    }
    let ghost orig = issues@;
    let ghost ov = issue_views(orig);
    let mut groups: Vec<LabelGroup> = Vec::new();
    let mut unlabelled: Vec<Issue> = Vec::new();
    let mut rest = issues;
    let n = rest.len();
    let mut i: usize = 0;
    assert(group_views(groups@) =~= Seq::<(Seq<char>, Seq<IssueView>)>::empty());
    assert(issue_views(unlabelled@) =~= Seq::<IssueView>::empty());
    while i < n
        invariant
            n == orig.len(),
            i <= n,
            ov == issue_views(orig),
            rest@ == orig.skip(i as int),
            group_views(groups@) == grouped(ov.take(i as int)).0,
            issue_views(unlabelled@) == grouped(ov.take(i as int)).1,
        decreases n - i,
    {
        let x = rest.remove(0);
        assert(x == orig[i as int]);
        assert(rest@ =~= orig.skip(i + 1));
        assert(ov.take(i + 1).drop_last() =~= ov.take(i as int));
        assert(ov.take(i + 1).last() == issue_view(x));
        if x.labels.len() == 0 {
            let ghost before = unlabelled@;
            unlabelled.push(x);
            assert(issue_views(unlabelled@) =~= issue_views(before).push(issue_view(x)));
        } else {
            let ghost start = group_views(groups@);
            let ghost xv = issue_view(x);
            let mut j: usize = 0;
            assert(xv.labels.take(0) =~= Seq::<Seq<char>>::empty());
            while j < x.labels.len()
                invariant
                    j <= x.labels@.len(),
                    xv == issue_view(x),
                    group_views(groups@) == add_to_groups(start, xv.labels.take(j as int), xv),
                decreases x.labels@.len() - j,
            {
                assert(xv.labels.take(j + 1).drop_last() =~= xv.labels.take(j as int));
                assert(xv.labels.take(j + 1).last() == x.labels@[j as int]@);
                add_issue_to_label(&mut groups, &x.labels[j], &x);
                j = j + 1;
            }
            assert(xv.labels.take(j as int) =~= xv.labels);
        }
        i = i + 1;
    }
    assert(ov.take(i as int) =~= ov);
    (groups, unlabelled)
}

/// Sorts the issues of every label group oldest first.
pub fn sort_issues_by_age_ascending(by_label: &mut Vec<LabelGroup>)
    ensures
        final(by_label)@.len() == old(by_label)@.len(),
        forall|i: int| 0 <= i < final(by_label)@.len() ==> (#[trigger] final(by_label)@[i]).label
            == old(by_label)@[i].label && issue_views(final(by_label)@[i].issues@) == sorted_by_age(
            issue_views(old(by_label)@[i].issues@),
        ),
{
    let ghost orig = by_label@;
    let mut i: usize = 0;
    while i < by_label.len()
        invariant
            i <= by_label@.len(),
            by_label@.len() == orig.len(),
            forall|k: int| 0 <= k < i ==> (#[trigger] by_label@[k]).label == orig[k].label
                && issue_views(by_label@[k].issues@) == sorted_by_age(issue_views(orig[k].issues@)),
            forall|k: int| i <= k < by_label@.len() ==> #[trigger] by_label@[k] == orig[k],
        decreases by_label@.len() - i,
    {
        let mut g = by_label.remove(i);
        sort_vec_by_age_ascending(&mut g.issues);
        by_label.insert(i, g);
        i = i + 1;
    }
}

/// The views of the issues shown for the fetched ones at `now`.
pub open spec fn shown_issues(rs: Seq<IssueRecord>, now: i64) -> Seq<IssueView> {
    rs.map_values(|r: IssueRecord| issue_view(issue_of(r, now)))
}

/// Issue statistics at `now` from the fetched open issues: grouped by
/// label and sorted oldest first; marked truncated when the fetch limit
/// was reached.
pub fn issue_stats_at(records: Vec<IssueRecord>, now: i64) -> (s: IssueStats)
    ensures
        s.total_open == records@.len(),
        s.truncated == (records@.len() >= DEFAULT_MAX_ISSUES),
        ({
            let g = grouped(shown_issues(records@, now));
            &&& s.by_label@.len() == g.0.len()
            &&& forall|i: int| 0 <= i < g.0.len() ==> (#[trigger] s.by_label@[i]).label@ == g.0[i].0
                && issue_views(s.by_label@[i].issues@) == sorted_by_age(g.0[i].1)
            &&& issue_views(s.unlabelled@) == sorted_by_age(g.1)
        }),
{
    let ghost orig = records@;
    let ghost shown = orig.map_values(|r: IssueRecord| issue_of(r, now));
    let total = records.len();
    let mut rest = records;
    let mut issues: Vec<Issue> = Vec::new();
    let mut i: usize = 0;
    while i < total
        invariant
            total == orig.len(),
            i <= total,
            rest@ == orig.skip(i as int),
            issue_views(issues@) == issue_views(shown.take(i as int)),
            shown == orig.map_values(|r: IssueRecord| issue_of(r, now)),
        decreases total - i,
    {
        let r = rest.remove(0);
        assert(r == orig[i as int]);
        assert(rest@ =~= orig.skip(i + 1));
        let created = if r.created_at > 0 {
            r.created_at
        } else {
            now
        };
        let updated = if r.updated_at > 0 {
            r.updated_at
        } else {
            created
        };
        let ghost before = issues@;
        issues.push(
            Issue {
                number: r.number,
                title: r.title,
                author: r.author,
                created_at: created,
                updated_at: updated,
                labels: r.labels,
                comments_count: r.comments as u64,
            },
        );
        i = i + 1;
        assert(issue_views(issues@) =~= issue_views(before).push(issue_view(issue_of(orig[i - 1], now))));
        assert(issue_views(shown.take(i as int)) =~= issue_views(shown.take(i - 1)).push(issue_view(issue_of(orig[i - 1], now))));
    }
    assert(shown.take(i as int) =~= shown);
    assert(issue_views(shown) =~= shown_issues(orig, now));
    let (mut groups, mut unlabelled) = group_by_label(issues);
    let ghost gv = group_views(groups@);
    sort_issues_by_age_ascending(&mut groups);
    sort_vec_by_age_ascending(&mut unlabelled);
    proof {
        assert forall|k: int| 0 <= k < gv.len() implies (#[trigger] groups@[k]).label@ == gv[k].0 && issue_views(groups@[k].issues@) == sorted_by_age(gv[k].1) by {
        }
    }
    IssueStats {
        total_open: total as u64,
        by_label: groups,
        unlabelled,
        truncated: total >= DEFAULT_MAX_ISSUES,
    }
}

} // verus!
