//! Decisions of the command-line session: reading the repository
//! argument, and what the dashboard shows after each fetch.
use vstd::prelude::*;
use crate::text::{char_is_whitespace, chars_of, count_char, first_pos, is_first_pos, is_whitespace, lemma_count_char_step, lemma_first_pos, string_from_chars};

verus! {

/// Why a repository argument was refused.
#[derive(Clone, Copy, Debug, PartialEq, Eq, Structural)]
pub enum RepoArgErrorKind {
    Empty,
    /// No slash.
    MissingSlash,
    /// More than one slash.
    ExtraSlash,
    EmptyOwner,
    EmptyName,
}

/// A refused repository argument.
pub struct RepoArgError {
    pub kind: RepoArgErrorKind,
    pub arg: String,
}

/// The text of a repository argument error.
pub open spec fn repo_arg_error_text(kind: RepoArgErrorKind, arg: Seq<char>) -> Seq<char> {
    match kind {
        RepoArgErrorKind::Empty => "Repository argument is empty. Please provide a repository in 'owner/repo' format.\n\nExample: forgeStat ratatui-org/ratatui"@,
        RepoArgErrorKind::MissingSlash => "Invalid repository format: '"@ + arg
            + "'\n\nRepository must be in 'owner/repo' format with a forward slash.\n\nExamples:\n  forgeStat ratatui-org/ratatui\n  forgeStat torvalds/linux"@,
        RepoArgErrorKind::ExtraSlash => "Invalid repository format: '"@ + arg
            + "'\n\nRepository must be in 'owner/repo' format with exactly one forward slash.\n\nExamples:\n  forgeStat ratatui-org/ratatui\n  forgeStat torvalds/linux"@,
        RepoArgErrorKind::EmptyOwner => "Invalid repository format: '"@ + arg
            + "'\n\nThe owner name is empty. Repository must be in 'owner/repo' format.\n\nExample: forgeStat ratatui-org/ratatui"@,
        RepoArgErrorKind::EmptyName => "Invalid repository format: '"@ + arg
            + "'\n\nThe repository name is empty. Repository must be in 'owner/repo' format.\n\nExample: forgeStat ratatui-org/ratatui"@,
    }
}

impl RepoArgError {
    /// The error's text.
    pub fn message(&self) -> (s: String)
        ensures
            s@ == repo_arg_error_text(self.kind, self.arg@),
    {
        let a = self.arg.as_str();
        match self.kind {
            RepoArgErrorKind::Empty => String::from_str(
                "Repository argument is empty. Please provide a repository in 'owner/repo' format.\n\nExample: forgeStat ratatui-org/ratatui",
            ),
            RepoArgErrorKind::MissingSlash => String::from_str("Invalid repository format: '").concat(
                a,
            ).concat(
                "'\n\nRepository must be in 'owner/repo' format with a forward slash.\n\nExamples:\n  forgeStat ratatui-org/ratatui\n  forgeStat torvalds/linux",
            ),
            RepoArgErrorKind::ExtraSlash => String::from_str("Invalid repository format: '").concat(
                a,
            ).concat(
                "'\n\nRepository must be in 'owner/repo' format with exactly one forward slash.\n\nExamples:\n  forgeStat ratatui-org/ratatui\n  forgeStat torvalds/linux",
            ),
            RepoArgErrorKind::EmptyOwner => String::from_str("Invalid repository format: '").concat(
                a,
            ).concat(
                "'\n\nThe owner name is empty. Repository must be in 'owner/repo' format.\n\nExample: forgeStat ratatui-org/ratatui",
            ),
            RepoArgErrorKind::EmptyName => String::from_str("Invalid repository format: '").concat(
                a,
            ).concat(
                "'\n\nThe repository name is empty. Repository must be in 'owner/repo' format.\n\nExample: forgeStat ratatui-org/ratatui",
            ),
        }
    }
}

/// What parsing `owner/repo` gives: the owner and the name, or why the
/// argument is refused.
pub open spec fn parsed_repo(s: Seq<char>) -> Result<(Seq<char>, Seq<char>), RepoArgErrorKind> {
    if s.len() == 0 {
        Err(RepoArgErrorKind::Empty)
    } else if count_char(s, '/') == 0 {
        Err(RepoArgErrorKind::MissingSlash)
    } else if count_char(s, '/') > 1 {
        Err(RepoArgErrorKind::ExtraSlash)
    } else {
        let p = first_pos(s, '/');
        if p == 0 {
            Err(RepoArgErrorKind::EmptyOwner)
        } else if p == s.len() - 1 {
            Err(RepoArgErrorKind::EmptyName)
        } else {
            Ok((s.take(p), s.skip(p + 1)))
        }
    }
}

/// Splits a repository argument written `owner/repo` into owner and name.
pub fn parse_repo(repo_arg: &str) -> (r: Result<(String, String), RepoArgError>)
    ensures
        match r {
            Ok((o, n)) => parsed_repo(repo_arg@) == Ok::<(Seq<char>, Seq<char>), RepoArgErrorKind>((o@, n@)),
            Err(e) => parsed_repo(repo_arg@) == Err::<(Seq<char>, Seq<char>), RepoArgErrorKind>(e.kind) && e.arg@ == repo_arg@,
        },
{
    let v = chars_of(repo_arg);
    let n = v.len();
    if n == 0 {
        return Err(RepoArgError { kind: RepoArgErrorKind::Empty, arg: String::from_str(repo_arg) });
    }
    let mut count: usize = 0;
    let mut first: usize = n;
    let mut i: usize = 0;
    while i < n
        invariant
            v@ == repo_arg@,
            n == v@.len(),
            i <= n,
            count <= i,
            count == count_char(v@.subrange(0, i as int), '/'),
            first == n ==> forall|k: int| 0 <= k < i ==> v@[k] != '/',
            first != n ==> first < i && is_first_pos(v@, '/', first as int),
        decreases n - i,
    {
        proof {
            lemma_count_char_step(v@, '/', i as int);
        }
        if v[i] == '/' {
            count = count + 1;
            if first == n {
                first = i;
            }
        }
        i = i + 1;
    }
    assert(v@.subrange(0, n as int) =~= v@);
    if count == 0 {
        return Err(RepoArgError { kind: RepoArgErrorKind::MissingSlash, arg: String::from_str(repo_arg) });
    }
    if count > 1 {
        return Err(RepoArgError { kind: RepoArgErrorKind::ExtraSlash, arg: String::from_str(repo_arg) });
    }
    proof {
        crate::text::lemma_count_char_zero(v@, '/');
        if first == n {
            let k = choose|k: int| 0 <= k < v@.len() && v@[k] == '/';
            assert(v@[k] != '/');
        }
        lemma_first_pos(v@, '/', first as int);
    }
    if first == 0 {
        return Err(RepoArgError { kind: RepoArgErrorKind::EmptyOwner, arg: String::from_str(repo_arg) });
    }
    if first == n - 1 {
        return Err(RepoArgError { kind: RepoArgErrorKind::EmptyName, arg: String::from_str(repo_arg) });
    }
    let owner = string_from_chars(&v.as_slice()[0..first]);
    let name = string_from_chars(&v.as_slice()[first + 1..n]);
    assert(repo_arg@.take(first as int) =~= v@.subrange(0, first as int));
    assert(repo_arg@.skip(first + 1) =~= v@.subrange(first + 1, n as int));
    Ok((owner, name))
}

} // verus!

verus! {

/// The index of the first character of `s` that is not whitespace, or its
/// length.
pub open spec fn trim_start_index(s: Seq<char>, i: int) -> int
    decreases s.len() - i,
{
    if i >= s.len() || !char_is_whitespace(s[i]) {
        i
    } else {
        trim_start_index(s, i + 1)
    }
}

/// The index after the last character of `s[lo..hi]` that is not
/// whitespace, or `lo`.
pub open spec fn trim_end_index(s: Seq<char>, lo: int, hi: int) -> int
    decreases hi - lo,
{
    if hi <= lo || !char_is_whitespace(s[hi - 1]) {
        hi
    } else {
        trim_end_index(s, lo, hi - 1)
    }
}

/// `s[lo..hi]` without leading and trailing whitespace (std's `str::trim`).
pub open spec fn trimmed(s: Seq<char>, lo: int, hi: int) -> Seq<char> {
    let a = trim_start_index(s.subrange(0, hi), lo);
    let b = trim_end_index(s, a, hi);
    s.subrange(a, b)
}

proof fn lemma_trim_start(s: Seq<char>, i: int)
    requires
        0 <= i <= s.len(),
    ensures
        i <= trim_start_index(s, i) <= s.len(),
    decreases s.len() - i,
{
    if i < s.len() && char_is_whitespace(s[i]) {
        lemma_trim_start(s, i + 1);
    }
}

proof fn lemma_trim_end(s: Seq<char>, lo: int, hi: int)
    requires
        0 <= lo <= hi <= s.len(),
    ensures
        lo <= trim_end_index(s, lo, hi) <= hi,
    decreases hi - lo,
{
    if hi > lo && char_is_whitespace(s[hi - 1]) {
        lemma_trim_end(s, lo, hi - 1);
    }
}

/// The characters of `v[lo..hi]` without leading and trailing whitespace.
fn trim_range(v: &Vec<char>, lo: usize, hi: usize) -> (s: String)
    requires
        lo <= hi <= v@.len(),
    ensures
        s@ == trimmed(v@, lo as int, hi as int),
{
    let ghost pre = v@.subrange(0, hi as int);
    let mut a: usize = lo;
    while a < hi && is_whitespace(v[a])
        invariant
            lo <= a <= hi,
            hi <= v@.len(),
            pre == v@.subrange(0, hi as int),
            trim_start_index(pre, lo as int) == trim_start_index(pre, a as int),
        decreases hi - a,
    {
        assert(pre[a as int] == v@[a as int]);
        a = a + 1;
    }
    proof {
        if a < hi {
            assert(pre[a as int] == v@[a as int]);
        }
    }
    let mut b: usize = hi;
    while b > a && is_whitespace(v[b - 1])
        invariant
            a <= b <= hi,
            hi <= v@.len(),
            trim_end_index(v@, a as int, hi as int) == trim_end_index(v@, a as int, b as int),
        decreases b - a,
    {
        b = b - 1;
    }
    string_from_chars(&v.as_slice()[a..b])
}

/// The repository named on a line read from standard input: the text
/// before the first tab, trimmed.
pub open spec fn repo_from_line(line: Seq<char>) -> Seq<char> {
    let end = if count_char(line, '\t') > 0 {
        first_pos(line, '\t')
    } else {
        line.len() as int
    };
    trimmed(line, 0, end)
}

/// The repository named on a line read from standard input (as the list
/// of cached repositories prints it: the name, then tab-separated details).
pub fn repo_from_stdin_line(line: &str) -> (r: String)
    ensures
        r@ == repo_from_line(line@),
{
    let v = chars_of(line);
    let n = v.len();
    let mut end: usize = 0;
    while end < n && v[end] != '\t'
        invariant
            end <= n,
            n == v@.len(),
            v@ == line@,
            forall|k: int| 0 <= k < end ==> v@[k] != '\t',
        decreases n - end,
    {
        end = end + 1;
    }
    proof {
        crate::text::lemma_count_char_zero(v@, '\t');
        if end < n {
            lemma_first_pos(v@, '\t', end as int);
        } else {
            if v@.contains('\t') {
                let k = choose|k: int| 0 <= k < v@.len() && v@[k] == '\t';
                assert(v@[k] != '\t');
            }
        }
    }
    trim_range(&v, 0, end)
}

/// The repositories of a comma-separated list, trimmed, empty ones left
/// out.
pub open spec fn listed_repos(s: Seq<char>, start: int) -> Seq<Seq<char>>
    decreases s.len() - start,
{
    if start < 0 || start > s.len() {
        Seq::empty()
    } else {
        let end = crate::github::next_comma(s, start);
        proof {
            crate::github::lemma_next_comma(s, start);
        }
        let part = trimmed(s, start, end);
        let rest = if end < s.len() {
            listed_repos(s, end + 1)
        } else {
            Seq::empty()
        };
        if part.len() == 0 {
            rest
        } else {
            seq![part] + rest
        }
    }
}

/// The repositories named by the `--watchlist` argument.
pub fn watchlist_arg_repos(list: &str) -> (r: Vec<String>)
    ensures
        r@.map_values(|s: String| s@) == listed_repos(list@, 0),
{
    let v = chars_of(list);
    let n = v.len();
    let mut out: Vec<String> = Vec::new();
    let mut start: usize = 0;
    let ghost mut acc: Seq<Seq<char>> = Seq::empty();
    while start <= n
        invariant
            v@ == list@,
            n == v@.len(),
            start <= n + 1,
            out@.map_values(|s: String| s@) + listed_repos(v@, start as int) == listed_repos(v@, 0),
        decreases n + 1 - start,
    {
        let mut end: usize = start;
        while end < n && v[end] != ','
            invariant
                start <= end <= n,
                n == v@.len(),
                crate::github::next_comma(v@, start as int) == crate::github::next_comma(v@, end as int),
            decreases n - end,
        {
            end = end + 1;
        }
        proof {
            crate::github::lemma_next_comma(v@, start as int);
            assert(crate::github::next_comma(v@, end as int) == end);
        }
        let part = trim_range(&v, start, end);
        let ghost before = out@.map_values(|s: String| s@);
        let ghost here: Seq<Seq<char>> = if trimmed(v@, start as int, end as int).len() == 0 {
            Seq::empty()
        } else {
            seq![trimmed(v@, start as int, end as int)]
        };
        let ghost rest: Seq<Seq<char>> = if end < n {
            listed_repos(v@, end + 1)
        } else {
            Seq::empty()
        };
        assert(listed_repos(v@, start as int) =~= here + rest);
        if part.as_str().unicode_len() > 0 {
            out.push(part);
        }
        assert(out@.map_values(|s: String| s@) =~= before + here);
        assert(before + here + rest =~= before + (here + rest));
        if end == n {
            assert(rest =~= Seq::<Seq<char>>::empty());
            assert(out@.map_values(|s: String| s@) =~= before + here + rest);
            return out;
        }
        start = end + 1;
    }
    out
}

} // verus!

verus! {

/// How current the shown data is.
#[derive(Clone, Copy, Debug, PartialEq, Eq, Structural)]
pub enum SyncState {
    /// Fetched just now, or from a fresh cache.
    Live,
    /// From a cache past its time to live.
    Stale,
    /// No data could be had.
    Offline,
}

/// How a fetch ended.
#[derive(Clone, Copy, Debug, PartialEq, Eq, Structural)]
pub enum FetchOutcome {
    /// A snapshot came back.
    Fetched,
    /// The fetch task ended without a snapshot.
    Cancelled,
    /// The fetch failed.
    Failed,
}

/// What to show after the first fetch of a repository.
#[derive(Clone, Copy, Debug, PartialEq, Eq, Structural)]
pub enum InitialView {
    /// The fetched snapshot, live.
    ShowFetched,
    /// The cached snapshot, in this state.
    ShowCached(SyncState),
    /// Nothing: the dashboard is offline.
    ShowOffline,
}

/// What to show after the first fetch: the fetched snapshot; else the
/// cached one (stale after a cancelled fetch, live or stale by its age
/// after a failed one); else nothing, offline.
pub open spec fn initial_view_for(outcome: FetchOutcome, cached: bool, cache_stale: bool) -> InitialView {
    match outcome {
        FetchOutcome::Fetched => InitialView::ShowFetched,
        FetchOutcome::Cancelled => if cached {
            InitialView::ShowCached(SyncState::Stale)
        } else {
            InitialView::ShowOffline
        },
        FetchOutcome::Failed => if cached {
            InitialView::ShowCached(
                if cache_stale {
                    SyncState::Stale
                } else {
                    SyncState::Live
                },
            )
        } else {
            InitialView::ShowOffline
        },
    }
}

/// What to show after the first fetch of a repository.
pub fn initial_view(outcome: FetchOutcome, cached: bool, cache_stale: bool) -> (v: InitialView)
    ensures
        v == initial_view_for(outcome, cached, cache_stale),
{
    match outcome {
        FetchOutcome::Fetched => InitialView::ShowFetched,
        FetchOutcome::Cancelled => if cached {
            InitialView::ShowCached(SyncState::Stale)
        } else {
            InitialView::ShowOffline
        },
        FetchOutcome::Failed => if cached {
            InitialView::ShowCached(
                if cache_stale {
                    SyncState::Stale
                } else {
                    SyncState::Live
                },
            )
        } else {
            InitialView::ShowOffline
        },
    }
}

/// What a manual refresh does to the dashboard.
#[derive(Clone, Copy, Debug, PartialEq, Eq, Structural)]
pub enum RefreshEffect {
    /// Show the new snapshot, live, and update the rate limit.
    Replace,
    /// Keep the current snapshot, update the rate limit.
    Keep,
    /// Go offline.
    GoOffline,
}

/// What a manual refresh does: a fetched snapshot replaces the shown one;
/// a cancelled fetch keeps it; a failed one takes the dashboard offline.
pub fn refresh_effect(outcome: FetchOutcome) -> (e: RefreshEffect)
    ensures
        e == (match outcome {
            FetchOutcome::Fetched => RefreshEffect::Replace,
            FetchOutcome::Cancelled => RefreshEffect::Keep,
            FetchOutcome::Failed => RefreshEffect::GoOffline,
        }),
{
    match outcome {
        FetchOutcome::Fetched => RefreshEffect::Replace,
        FetchOutcome::Cancelled => RefreshEffect::Keep,
        FetchOutcome::Failed => RefreshEffect::GoOffline,
    }
}

/// A background refresh starts only when none is running.
pub fn should_start_background_refresh(in_progress: bool) -> (b: bool)
    ensures
        b == !in_progress,
{
    !in_progress
}

/// Whether a cached snapshot may be shown without fetching: the cache is
/// fresh and a refresh is not forced.
pub fn try_cache_first(force_refresh: bool, cache_stale: bool) -> (b: bool)
    ensures
        b == (!force_refresh && !cache_stale),
{
    !force_refresh && !cache_stale
}

/// The state of the first repository of a comparison that could not be
/// fetched: its cached snapshot is live or stale by its age; without one
/// the comparison cannot start (`None`).
pub fn compare_fallback_state(cached: bool, cache_stale: bool) -> (s: Option<SyncState>)
    ensures
        s == (if cached {
            Some(
                if cache_stale {
                    SyncState::Stale
                } else {
                    SyncState::Live
                },
            )
        } else {
            None
        }),
{
    if cached {
        Some(
            if cache_stale {
                SyncState::Stale
            } else {
                SyncState::Live
            },
        )
    } else {
        None
    }
}

/// A fetch never leaves the dashboard showing nothing while a cached
/// snapshot exists: whatever the outcome, with a cached snapshot there is
/// something to show.
pub proof fn lemma_cache_keeps_dashboard(outcome: FetchOutcome, cache_stale: bool)
    ensures
        initial_view_for(outcome, true, cache_stale) != InitialView::ShowOffline,
        initial_view_for(outcome, false, cache_stale) == InitialView::ShowOffline <==> outcome
            != FetchOutcome::Fetched,
{
}

} // verus!
