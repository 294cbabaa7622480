//! Decisions of the GitHub client that do not need the network: reading the
//! `Link` header, planning the stargazer pagination, and keeping the
//! timestamps of each fetched page.
use vstd::prelude::*;

verus! {

/// `t` occurs in `s` at index `i`.
pub open spec fn occurs_at(s: Seq<char>, t: Seq<char>, i: int) -> bool {
    0 <= i && i + t.len() <= s.len() && s.subrange(i, i + t.len()) == t
}

/// The first index at or after `i` where `t` occurs in `s`.
pub open spec fn find_from(s: Seq<char>, t: Seq<char>, i: int) -> Option<int>
    decreases s.len() + 1 - i,
{
    if i < 0 || i + t.len() > s.len() {
        None
    } else if occurs_at(s, t, i) {
        Some(i)
    } else {
        find_from(s, t, i + 1)
    }
}

/// The first index where `t` occurs in `s`.
pub open spec fn find_sub(s: Seq<char>, t: Seq<char>) -> Option<int> {
    find_from(s, t, 0)
}

/// The ASCII digits at the start of `s`.
pub open spec fn digit_prefix(s: Seq<char>) -> Seq<char>
    decreases s.len(),
{
    if s.len() > 0 && '0' <= s[0] && s[0] <= '9' {
        seq![s[0]] + digit_prefix(s.skip(1))
    } else {
        Seq::empty()
    }
}

/// The number that a string of ASCII digits denotes.
pub open spec fn digits_value(d: Seq<char>) -> nat
    decreases d.len(),
{
    if d.len() == 0 {
        0
    } else {
        digits_value(d.drop_last()) * 10 + ((d.last() as nat) - 48) as nat
    }
}

/// A string of ASCII digits read as a `u32`: none when empty or too large.
pub open spec fn digits_to_u32(d: Seq<char>) -> Option<u32> {
    if d.len() == 0 || digits_value(d) > u32::MAX {
        None
    } else {
        Some(digits_value(d) as u32)
    }
}

/// What one comma-separated part of a `Link` header says of the last page:
/// `None` when the part is no `rel="last"` link with a `page` parameter,
/// else the page number it holds, if it reads as one.
pub open spec fn part_last_page(part: Seq<char>) -> Option<Option<u32>> {
    if find_sub(part, "rel=\"last\""@) is None {
        None
    } else {
        let needle = if find_sub(part, "&page="@) is Some {
            "&page="@
        } else {
            "?page="@
        };
        match find_sub(part, needle) {
            None => None,
            Some(pos) => Some(digits_to_u32(digit_prefix(part.skip(pos + needle.len())))),
        }
    }
}

/// The index of the first comma at or after `i`, or the length of `s`.
pub open spec fn next_comma(s: Seq<char>, i: int) -> int
    decreases s.len() - i,
{
    if i >= s.len() {
        s.len() as int
    } else if s[i] == ',' {
        i
    } else {
        next_comma(s, i + 1)
    }
}

/// Where the next comma lies.
pub proof fn lemma_next_comma(s: Seq<char>, i: int)
    requires
        0 <= i <= s.len(),
    ensures
        i <= next_comma(s, i) <= s.len(),
        next_comma(s, i) < s.len() ==> s[next_comma(s, i)] == ',',
        forall|k: int| i <= k < next_comma(s, i) ==> s[k] != ',',
    decreases s.len() - i,
{
    if i < s.len() && s[i] != ',' {
        lemma_next_comma(s, i + 1);
    }
}

/// The last page named by the parts of `s` from index `start` on: the
/// first part that is a `rel="last"` link with a `page` parameter decides.
pub open spec fn last_page_from(s: Seq<char>, start: int) -> Option<u32>
    decreases s.len() - start,
{
    if start < 0 || start > s.len() {
        None
    } else {
        let end = next_comma(s, start);
        proof {
            lemma_next_comma(s, start);
        }
        match part_last_page(s.subrange(start, end)) {
            Some(r) => r,
            None => if end < s.len() {
                last_page_from(s, end + 1)
            } else {
                None
            },
        }
    }
}

/// The last page that a GitHub `Link` header names.
pub open spec fn link_last_page(s: Seq<char>) -> Option<u32> {
    last_page_from(s, 0)
}

proof fn lemma_find_from_range(s: Seq<char>, t: Seq<char>, i: int)
    ensures
        find_from(s, t, i) matches Some(p) ==> i <= p && occurs_at(s, t, p),
        find_from(s, t, i) matches Some(p) ==> forall|k: int| i <= k < p ==> !occurs_at(s, t, k),
        find_from(s, t, i) is None && i >= 0 ==> forall|k: int| i <= k ==> !occurs_at(s, t, k),
    decreases s.len() + 1 - i,
{
    if !(i < 0 || i + t.len() > s.len()) && !occurs_at(s, t, i) {
        lemma_find_from_range(s, t, i + 1);
    }
}

/// The first index in `v[lo..hi]` (relative to `lo`) where `t` occurs.
fn find_in(v: &Vec<char>, lo: usize, hi: usize, t: &Vec<char>) -> (r: Option<usize>)
    requires
        lo <= hi <= v@.len(),
    ensures
        match r {
            None => find_sub(v@.subrange(lo as int, hi as int), t@) is None,
            Some(p) => find_sub(v@.subrange(lo as int, hi as int), t@) == Some(p as int),
        },
{
    let ghost s = v@.subrange(lo as int, hi as int);
    let n = hi - lo;
    let m = t.len();
    if m > n {
        return None;
    }
    let mut i: usize = 0;
    while i <= n - m
        invariant
            s == v@.subrange(lo as int, hi as int),
            n == s.len(),
            m == t@.len(),
            lo <= hi <= v@.len(),
            m <= n,
            i <= n - m + 1,
            find_from(s, t@, 0) == find_from(s, t@, i as int),
        decreases n - m + 1 - i,
    {
        let mut j: usize = 0;
        while j < m && v[lo + i + j] == t[j]
            invariant
                s == v@.subrange(lo as int, hi as int),
                n == s.len(),
                m == t@.len(),
                lo <= hi <= v@.len(),
                i + m <= n,
                j <= m,
                forall|k: int| 0 <= k < j ==> s[i + k] == t@[k],
            decreases m - j,
        {
            j = j + 1;
        }
        if j == m {
            assert(s.subrange(i as int, i + m) =~= t@);
            return Some(i);
        } else {
            proof {
                assert(s[i + j] != t@[j as int]);
                if occurs_at(s, t@, i as int) {
                    assert(s.subrange(i as int, i + m)[j as int] == s[i + j]);
                }
            }
        }
        i = i + 1;
    }
    None
}

fn chars_of_literal(s: &str) -> (v: Vec<char>)
    ensures
        v@ == s@,
{
    crate::text::chars_of(s)
}

/// Reads the ASCII digits of `v` from `from` up to `hi` as a `u32`.
fn parse_digits(v: &Vec<char>, from: usize, hi: usize) -> (r: Option<u32>)
    requires
        from <= hi <= v@.len(),
    ensures
        r == digits_to_u32(digit_prefix(v@.subrange(from as int, hi as int))),
{
    let ghost s = v@.subrange(from as int, hi as int);
    let mut i: usize = from;
    let mut acc: u64 = 0;
    let mut too_big = false;
    while i < hi && '0' <= v[i] && v[i] <= '9'
        invariant
            from <= i <= hi,
            hi <= v@.len(),
            s == v@.subrange(from as int, hi as int),
            digit_prefix(s) == s.subrange(0, i - from) + digit_prefix(v@.subrange(i as int, hi as int)),
            forall|k: int| 0 <= k < i - from ==> '0' <= #[trigger] s[k] <= '9',
            too_big ==> digits_value(s.subrange(0, i - from)) > u32::MAX,
            !too_big ==> acc == digits_value(s.subrange(0, i - from)) && acc <= u32::MAX,
        decreases hi - i,
    {
        let c = v[i];
        let d: u64 = (c as u64) - 48;
        let ghost before = s.subrange(0, i - from);
        let ghost after = s.subrange(0, i + 1 - from);
        assert(after.drop_last() =~= before);
        assert(after.last() == c);
        proof {
            let rest = v@.subrange(i as int, hi as int);
            assert(rest[0] == c);
            assert(rest.skip(1) =~= v@.subrange(i + 1, hi as int));
            assert(before + (seq![c] + digit_prefix(rest.skip(1))) =~= after + digit_prefix(
                v@.subrange(i + 1, hi as int),
            ));
            assert(digits_value(after) == digits_value(before) * 10 + d);
            assert(digits_value(after) >= digits_value(before)) by (nonlinear_arith)
                requires
                    digits_value(after) == digits_value(before) * 10 + d,
                    d >= 0,
            ;
        }
        if !too_big {
            let next: u64 = acc * 10 + d;
            if next > 4_294_967_295u64 {
                too_big = true;
            } else {
                acc = next;
            }
        }
        i = i + 1;
    }
    proof {
        let rest = v@.subrange(i as int, hi as int);
        if rest.len() > 0 {
            assert(rest[0] == v@[i as int]);
        }
        assert(digit_prefix(rest) =~= Seq::<char>::empty());
        assert(digit_prefix(s) =~= s.subrange(0, i - from));
    }
    if i == from || too_big {
        None
    } else {
        Some(acc as u32)
    }
}

/// The page number of the `rel="last"` link in a GitHub `Link` header.
///
/// The header is split at commas; the first part that contains
/// `rel="last"` and a `&page=` (or else `?page=`) parameter decides: the
/// digits after the parameter are read as the page. `None` when no part
/// decides or the digits do not form a `u32`.
pub fn parse_link_header_last_page(link_header: &str) -> (r: Option<u32>)
    ensures
        r == link_last_page(link_header@),
{
    let v = crate::text::chars_of(link_header);
    let rel_last = chars_of_literal("rel=\"last\"");
    let amp = chars_of_literal("&page=");
    let query = chars_of_literal("?page=");
    proof {
        reveal_strlit("&page=");
        reveal_strlit("?page=");
    }
    let n = v.len();
    let mut start: usize = 0;
    while start <= n
        invariant
            v@ == link_header@,
            n == v@.len(),
            rel_last@ == "rel=\"last\""@,
            amp@ == "&page="@,
            query@ == "?page="@,
            amp@.len() == 6,
            query@.len() == 6,
            link_last_page(link_header@) == last_page_from(v@, start as int),
            start <= n + 1,
        decreases n + 1 - start,
    {
        let mut end: usize = start;
        while end < n && v[end] != ','
            invariant
                start <= end <= n,
                n == v@.len(),
                next_comma(v@, start as int) == next_comma(v@, end as int),
            decreases n - end,
        {
            end = end + 1;
        }
        proof {
            lemma_next_comma(v@, start as int);
            assert(next_comma(v@, end as int) == end);
        }
        let ghost part = v@.subrange(start as int, end as int);
        if find_in(&v, start, end, &rel_last).is_some() {
            let needle = if find_in(&v, start, end, &amp).is_some() {
                &amp
            } else {
                &query
            };
            match find_in(&v, start, end, needle) {
                Some(pos) => {
                    proof {
                        lemma_find_from_range(part, needle@, 0);
                        assert(part.skip(pos + 6) =~= v@.subrange(start + pos + 6, end as int));
                    }
                    return parse_digits(&v, start + pos + 6, end);
                },
                None => {},
            }
        }
        if end == n {
            return None;
        }
        start = end + 1;
    }
    None
}

} // verus!

verus! {

/// Stargazers fetched per page.
pub const STARGAZERS_PER_PAGE: u64 = 100;

/// Most stargazer pages fetched (10000 stargazers).
pub const STARGAZERS_MAX_PAGES: u32 = 100;

/// Above this many pages the REST API no longer reaches the newest
/// stargazers, and GraphQL is tried first.
pub const REST_PAGE_CAP: u32 = 400;

/// How many days of stargazer history to fetch for a repository of the
/// given age: a year for repositories older than a year, else the whole
/// age but at least 30 days.
pub open spec fn cutoff_days_for(repo_age_days: int) -> int {
    if repo_age_days > 365 {
        365
    } else if repo_age_days < 30 {
        30
    } else {
        repo_age_days
    }
}

/// Days of stargazer history to fetch.
pub fn stargazer_cutoff_days(repo_age_days: i64) -> (d: i64)
    ensures
        d == cutoff_days_for(repo_age_days as int),
        30 <= d <= 365,
{
    if repo_age_days > 365 {
        365
    } else if repo_age_days < 30 {
        30
    } else {
        repo_age_days
    }
}

/// The instant before which stargazers are not fetched: as many days
/// before `now` as the history covers for a repository created at
/// `created`.
pub fn stargazer_cutoff(now: i64, created: i64) -> (c: i64)
    requires
        crate::clock::is_instant(now),
        crate::clock::is_instant(created),
    ensures
        c == now - cutoff_days_for(crate::clock::whole_days_between(now as int, created as int))
            * crate::clock::SECONDS_PER_DAY,
{
    let days = stargazer_cutoff_days(crate::clock::days_between(now, created));
    now - days * crate::clock::SECONDS_PER_DAY
}

/// Pages needed for `total` stargazers, saturating at `u32::MAX`.
pub open spec fn pages_needed(total: u64) -> u32 {
    let p = (total as int + 99) / 100;
    if p > u32::MAX {
        u32::MAX
    } else {
        p as u32
    }
}

/// The number of pages that `total_count` stargazers fill.
pub fn calculated_last_page(total_count: u64) -> (p: u32)
    ensures
        p == pages_needed(total_count),
{
    let q: u64 = total_count / 100 + if total_count % 100 == 0 {
        0u64
    } else {
        1u64
    };
    if q > 4_294_967_295u64 {
        u32::MAX
    } else {
        q as u32
    }
}

/// How stargazer timestamps are fetched.
#[derive(Clone, Copy, Debug, PartialEq, Eq, Structural)]
pub enum StargazerStrategy {
    /// The repository has no stars: nothing to fetch.
    Nothing,
    /// GraphQL, newest first (REST falls back if it fails).
    GraphQl,
    /// REST, paging back from the last page.
    Rest,
}

/// The fetch strategy and the page estimate shown in progress reports.
pub open spec fn strategy_for(total_count: u64, has_token: bool) -> (StargazerStrategy, u32) {
    let calc = pages_needed(total_count);
    let est = if calc > STARGAZERS_MAX_PAGES {
        STARGAZERS_MAX_PAGES
    } else {
        calc
    };
    if total_count == 0 {
        (StargazerStrategy::Nothing, est)
    } else if has_token && calc > REST_PAGE_CAP {
        (StargazerStrategy::GraphQl, est)
    } else {
        (StargazerStrategy::Rest, est)
    }
}

/// Chooses how to fetch stargazers: nothing for a starless repository;
/// GraphQL when authenticated and the stargazers fill more than 400 pages;
/// REST otherwise. Also gives the estimated page count (at most 100).
pub fn stargazer_strategy(total_count: u64, has_token: bool) -> (r: (StargazerStrategy, u32))
    ensures
        r == strategy_for(total_count, has_token),
{
    let calc = calculated_last_page(total_count);
    let est = if calc > STARGAZERS_MAX_PAGES {
        STARGAZERS_MAX_PAGES
    } else {
        calc
    };
    if total_count == 0 {
        (StargazerStrategy::Nothing, est)
    } else if has_token && calc > REST_PAGE_CAP {
        (StargazerStrategy::GraphQl, est)
    } else {
        (StargazerStrategy::Rest, est)
    }
}

/// What probing the first stargazer page told about the last page.
#[derive(Clone, Copy, Debug, PartialEq, Eq, Structural)]
pub enum LastPageProbe {
    /// The probe request failed.
    Failed,
    /// The probe succeeded; the `Link` header named this last page, if any.
    Answered(Option<u32>),
}

/// The last REST page to fetch: the one the `Link` header names; without
/// a header a single page; the computed count when the probe failed.
pub open spec fn last_page_for(probe: LastPageProbe, calculated: u32) -> u32 {
    match probe {
        LastPageProbe::Failed => calculated,
        LastPageProbe::Answered(Some(p)) => p,
        LastPageProbe::Answered(None) => if calculated < 1 {
            calculated
        } else {
            1
        },
    }
}

/// The last REST page to fetch.
pub fn resolve_last_page(probe: LastPageProbe, calculated: u32) -> (p: u32)
    ensures
        p == last_page_for(probe, calculated),
{
    match probe {
        LastPageProbe::Failed => calculated,
        LastPageProbe::Answered(Some(p)) => p,
        LastPageProbe::Answered(None) => if calculated < 1 {
            calculated
        } else {
            1
        },
    }
}

/// The REST pages to fetch, newest first: from `last` down to `first`.
#[derive(Clone, Copy, Debug, PartialEq, Eq, Structural)]
pub struct RestPagePlan {
    pub first: u32,
    pub last: u32,
    /// Page total shown in progress reports.
    pub display_total: u32,
}

/// The REST pages to fetch: the last 100 pages up to `last_page`, with a
/// progress total of at least the estimate.
pub fn rest_page_plan(last_page: u32, estimated_pages: u32) -> (p: RestPagePlan)
    requires
        last_page >= 1,
    ensures
        p.last == last_page,
        p.first == (if last_page > STARGAZERS_MAX_PAGES - 1 + 1 {
            last_page - (STARGAZERS_MAX_PAGES - 1)
        } else {
            1
        }),
        p.last - p.first + 1 <= STARGAZERS_MAX_PAGES,
        p.display_total == (if estimated_pages > p.last - p.first + 1 {
            estimated_pages as int
        } else {
            p.last - p.first + 1
        }),
{
    let back = last_page.saturating_sub(STARGAZERS_MAX_PAGES - 1);
    let first = if back < 1 {
        1
    } else {
        back
    };
    let count = last_page - first + 1;
    let display_total = if estimated_pages > count {
        estimated_pages
    } else {
        count
    };
    RestPagePlan { first, last: last_page, display_total }
}

/// The timestamps of `events` at or after `cutoff`, in order.
pub open spec fn recent_only(events: Seq<i64>, cutoff: i64) -> Seq<i64> {
    events.filter(|t: i64| t >= cutoff)
}

/// Appends the timestamps of one fetched page that are at or after
/// `cutoff`; reports whether the page reached back past the cutoff (some
/// timestamp before it), which ends the pagination.
pub fn keep_recent(events: &Vec<i64>, cutoff: i64, acc: &mut Vec<i64>) -> (reached_cutoff: bool)
    ensures
        final(acc)@ == old(acc)@ + recent_only(events@, cutoff),
        reached_cutoff == exists|k: int| 0 <= k < events@.len() && events@[k] < cutoff,
{
    let ghost start = acc@;
    let mut reached = false;
    let mut i: usize = 0;
    while i < events.len()
        invariant
            i <= events@.len(),
            acc@ == start + recent_only(events@.take(i as int), cutoff),
            reached == exists|k: int| 0 <= k < i && events@[k] < cutoff,
        decreases events@.len() - i,
    {
        let t = events[i];
        assert(events@.take(i + 1).drop_last() =~= events@.take(i as int));
        assert(events@.take(i + 1).last() == t);
        proof {
            reveal(Seq::filter);
        }
        if t < cutoff {
            reached = true;
        } else {
            acc.push(t);
        }
        assert(acc@ =~= start + recent_only(events@.take(i + 1), cutoff));
        i = i + 1;
    }
    assert(events@.take(i as int) =~= events@);
    reached
}

} // verus!

verus! {

/// Repository metadata from what the API returned: missing times default
/// to `now`, a missing default branch to `main`, missing counts to zero.
pub fn repo_meta_from(
    owner: &str,
    name: &str,
    description: Option<String>,
    language: Option<String>,
    created_at: Option<i64>,
    updated_at: Option<i64>,
    default_branch: Option<String>,
    forks_count: Option<u32>,
    open_issues_count: Option<u32>,
    watchers_count: Option<u32>,
    now: i64,
) -> (m: crate::models::RepoMeta)
    ensures
        m.owner@ == owner@,
        m.name@ == name@,
        m.description == description,
        m.language == language,
        m.created_at == (match created_at {
            Some(t) => t,
            None => now,
        }),
        m.updated_at == (match updated_at {
            Some(t) => t,
            None => now,
        }),
        m.default_branch@ == (match default_branch {
            Some(b) => b@,
            None => "main"@,
        }),
        m.forks_count == (match forks_count {
            Some(c) => c as u64,
            None => 0,
        }),
        m.open_issues_count == (match open_issues_count {
            Some(c) => c as u64,
            None => 0,
        }),
        m.watchers_count == (match watchers_count {
            Some(c) => c as u64,
            None => 0,
        }),
{
    crate::models::RepoMeta {
        owner: String::from_str(owner),
        name: String::from_str(name),
        description,
        language,
        created_at: match created_at {
            Some(t) => t,
            None => now,
        },
        updated_at: match updated_at {
            Some(t) => t,
            None => now,
        },
        default_branch: match default_branch {
            Some(b) => b,
            None => String::from_str("main"),
        },
        forks_count: match forks_count {
            Some(c) => c as u64,
            None => 0,
        },
        open_issues_count: match open_issues_count {
            Some(c) => c as u64,
            None => 0,
        },
        watchers_count: match watchers_count {
            Some(c) => c as u64,
            None => 0,
        },
    }
}

/// The reset time of a `/rate_limit` answer: the epoch (0) when the answer
/// has none, the given instant when chrono represents it, else `now`.
pub open spec fn reset_time(reset: Option<i64>, now: i64) -> i64 {
    match reset {
        None => 0,
        Some(t) => if crate::clock::chrono_represents(t) {
            t
        } else {
            now
        },
    }
}

/// Rate limit information from the `/rate_limit` answer: missing counts
/// are zero; a missing reset time is the epoch, and one that chrono cannot
/// represent becomes `now`.
pub fn rate_limit_from(limit: Option<u64>, remaining: Option<u64>, reset: Option<i64>, now: i64) -> (r: crate::models::RateLimitInfo)
    ensures
        r.limit == (match limit {
            Some(l) => l,
            None => 0,
        }),
        r.remaining == (match remaining {
            Some(l) => l,
            None => 0,
        }),
        r.reset_at == reset_time(reset, now),
        match reset {
            Some(t) => (crate::clock::is_datable(t) ==> r.reset_at == t) && (!crate::clock::is_instant(t)
                ==> r.reset_at == now),
            None => r.reset_at == 0,
        },
{
    crate::models::RateLimitInfo {
        limit: match limit {
            Some(l) => l,
            None => 0,
        },
        remaining: match remaining {
            Some(l) => l,
            None => 0,
        },
        reset_at: match reset {
            None => 0,
            Some(t) => {
                if crate::clock::represents(t) {
                    t
                } else {
                    now
                }
            },
        },
    }
}

/// Whether fetching pages stops: the collected items reached the limit,
/// or the last page was not full.
pub fn pagination_done(collected: usize, fetched: usize, max_items: usize, per_page: usize) -> (b: bool)
    ensures
        b == (collected >= max_items || fetched < per_page),
{
    collected >= max_items || fetched < per_page
}

/// Whether the GraphQL stargazer pagination goes on after a page: the page
/// limit is not reached, the page had stargazers, none was before the
/// cutoff, and GitHub reports a next page.
pub fn graphql_continue(pages_fetched: u32, page_was_empty: bool, reached_cutoff: bool, has_next_page: bool) -> (b: bool)
    ensures
        b == (pages_fetched < STARGAZERS_MAX_PAGES && !page_was_empty && !reached_cutoff && has_next_page),
{
    pages_fetched < STARGAZERS_MAX_PAGES && !page_was_empty && !reached_cutoff && has_next_page
}

} // verus!
