//! Where snapshots are cached, and the decisions about the cache: when it
//! is stale, which history files to rotate out or purge.
use vstd::prelude::*;
use crate::clock::{is_instant, SECONDS_PER_DAY};
use crate::metrics::{lemma_text_le_trans, lemma_text_lt_asym, less_text, text_lt};
use crate::order::{in_order, insert_pos, insertion_sorted, lemma_insertion_sorted, weak_order};
use crate::paths::{
    appendable, ends_with, is_plain_segment, join_path, joined, lemma_joined_keeps_no_prefix,
    lemma_joined_verbatim_free, lemma_verbatim_free_no_prefix, no_verbatim_prefix, path_exists,
    system_data_local_dir, verbatim_free,
};

verus! {

/// Why a cache location could not be formed.
#[derive(Clone, Copy, Debug, PartialEq, Eq, Structural)]
pub enum CacheError {
    /// The platform reports no local data directory.
    NoDataDir,
}

impl CacheError {
    /// The error's text.
    pub fn message(&self) -> (s: String)
        ensures
            s@ == "Failed to get data local directory"@,
    {
        String::from_str("Failed to get data local directory")
    }
}

/// The cache of one repository: a directory holding the current snapshot
/// (`cache.json`), older snapshots (`history/`) and UI state
/// (`state.json`).
pub struct Cache {
    pub base_path: String,
    pub cache_path: String,
    pub history_path: String,
    pub state_path: String,
}

/// The cache paths end in the names the layout gives them.
pub open spec fn cache_layout(c: Cache) -> bool {
    &&& ends_with(c.cache_path@, "cache.json"@)
    &&& ends_with(c.history_path@, "history"@)
    &&& ends_with(c.state_path@, "state.json"@)
}

/// The three files of `c` are its base directory joined with
/// `cache.json`, `history` and `state.json`.
pub open spec fn files_in_base(c: Cache) -> bool {
    &&& joined(c.base_path@, "cache.json"@, c.cache_path@)
    &&& joined(c.base_path@, "history"@, c.history_path@)
    &&& joined(c.base_path@, "state.json"@, c.state_path@)
}

/// `c` is the cache of `owner/repo` under the data directory `base`:
/// `base/repowatch/owner/repo` holding `cache.json`, `history` and
/// `state.json`.
pub open spec fn cache_under(base: Seq<char>, owner: Seq<char>, repo: Seq<char>, c: Cache) -> bool {
    &&& exists|root: Seq<char>, od: Seq<char>|
        joined(base, "repowatch"@, root) && joined(root, owner, od) && joined(od, repo, c.base_path@)
    &&& files_in_base(c)
}

proof fn lemma_dot_names()
    ensures
        "."@ == seq!['.'],
        ".."@ == seq!['.', '.'],
{
    reveal_strlit(".");
    reveal_strlit("..");
}

/// The layout's own names are plain, `?`-free, and appended as they are.
proof fn lemma_names_appendable()
    ensures
        "repowatch"@ =~= seq!['r', 'e', 'p', 'o', 'w', 'a', 't', 'c', 'h'],
        "cache.json"@ =~= seq!['c', 'a', 'c', 'h', 'e', '.', 'j', 's', 'o', 'n'],
        "history"@ =~= seq!['h', 'i', 's', 't', 'o', 'r', 'y'],
        "state.json"@ =~= seq!['s', 't', 'a', 't', 'e', '.', 'j', 's', 'o', 'n'],
        appendable("repowatch"@) && verbatim_free("repowatch"@) && is_plain_segment("repowatch"@),
        appendable("cache.json"@) && is_plain_segment("cache.json"@),
        appendable("history"@) && is_plain_segment("history"@),
        appendable("state.json"@) && is_plain_segment("state.json"@),
{
    reveal_strlit("repowatch");
    reveal_strlit("cache.json");
    reveal_strlit("history");
    reveal_strlit("state.json");
    lemma_dot_names();
    assert("repowatch"@ =~= seq!['r', 'e', 'p', 'o', 'w', 'a', 't', 'c', 'h']);
    assert("cache.json"@ =~= seq!['c', 'a', 'c', 'h', 'e', '.', 'j', 's', 'o', 'n']);
    assert("history"@ =~= seq!['h', 'i', 's', 't', 'o', 'r', 'y']);
    assert("state.json"@ =~= seq!['s', 't', 'a', 't', 'e', '.', 'j', 's', 'o', 'n']);
}

impl Cache {
    /// The cache of `owner/repo` under the local data directory
    /// `data_dir` that the platform reported, in
    /// `repowatch/<owner>/<repo>`; an error when it reported none.
    pub fn new_in(data_dir: Option<String>, owner: &str, repo: &str) -> (r: Result<Cache, CacheError>)
        ensures
            match data_dir {
                None => r matches Err(CacheError::NoDataDir),
                Some(b) => r matches Ok(c) && cache_layout(c) && (is_plain_segment(repo@) ==> ends_with(
                    c.base_path@,
                    repo@,
                )) && (no_verbatim_prefix(c.base_path@) ==> files_in_base(c)) && (verbatim_free(b@)
                    && appendable(owner@) && appendable(repo@) ==> cache_under(b@, owner@, repo@, c)),
            },
    {
        match data_dir {
            None => Err(CacheError::NoDataDir),
            Some(dir) => {
                proof {
                    reveal_strlit("repowatch");
                    reveal_strlit("cache.json");
                    reveal_strlit("history");
                    reveal_strlit("state.json");
                    lemma_dot_names();
                }
                let root = join_path(dir.as_str(), "repowatch");
                let owner_dir = join_path(root.as_str(), owner);
                let base = join_path(owner_dir.as_str(), repo);
                let cache_path = join_path(base.as_str(), "cache.json");
                let history_path = join_path(base.as_str(), "history");
                let state_path = join_path(base.as_str(), "state.json");
                proof {
                    lemma_names_appendable();
                    if verbatim_free(dir@) && appendable(owner@) && appendable(repo@) {
                        lemma_verbatim_free_no_prefix(dir@);
                        assert(joined(dir@, "repowatch"@, root@));
                        lemma_joined_verbatim_free(dir@, "repowatch"@, root@);
                        lemma_verbatim_free_no_prefix(root@);
                        assert(root@.len() >= 4);
                        lemma_joined_keeps_no_prefix(root@, owner@, owner_dir@);
                        lemma_joined_keeps_no_prefix(owner_dir@, repo@, base@);
                        assert(joined(dir@, "repowatch"@, root@) && joined(root@, owner@, owner_dir@)
                            && joined(owner_dir@, repo@, base@));
                    }
                }
                Ok(Cache { base_path: base, cache_path, history_path, state_path })
            },
        }
    }

    /// The cache of `owner/repo` under the user's local data directory, in
    /// `repowatch/<owner>/<repo>`.
    pub fn new(owner: &str, repo: &str) -> (r: Result<Cache, CacheError>)
        ensures
            r matches Ok(c) ==> cache_layout(c) && (is_plain_segment(repo@) ==> ends_with(
                c.base_path@,
                repo@,
            )) && (no_verbatim_prefix(c.base_path@) ==> files_in_base(c)),
    {
        Cache::new_in(system_data_local_dir(), owner, repo)
    }

    /// The repository's cache directory.
    pub fn base_path(&self) -> (p: &String)
        ensures
            p == &self.base_path,
    {
        &self.base_path
    }

    /// The current snapshot's file.
    pub fn cache_path(&self) -> (p: &String)
        ensures
            p == &self.cache_path,
    {
        &self.cache_path
    }

    /// The directory of older snapshots.
    pub fn history_path(&self) -> (p: &String)
        ensures
            p == &self.history_path,
    {
        &self.history_path
    }

    /// The UI state file.
    pub fn state_path(&self) -> (p: &String)
        ensures
            p == &self.state_path,
    {
        &self.state_path
    }

    /// The current snapshot's file (the same as `cache_path`).
    pub fn path(&self) -> (p: &String)
        ensures
            p == &self.cache_path,
    {
        &self.cache_path
    }

    /// Whether the current snapshot's file exists. What is on disk is not
    /// known here, so the answer is not stated.
    pub fn cache_exists(&self) -> (b: bool) {
        path_exists(self.cache_path.as_str())
    }
}

/// Whole minutes from `earlier` to `later`, rounded toward zero.
pub open spec fn whole_minutes_between(later: int, earlier: int) -> int {
    crate::clock::div_toward_zero(later - earlier, 60)
}

/// A cache whose file was last modified at `modified` is stale at `now`
/// when there is no such time (no file, unreadable metadata) or when it is
/// more than `ttl_mins` whole minutes old.
pub open spec fn stale_at(modified: Option<i64>, now: i64, ttl_mins: u64) -> bool {
    match modified {
        None => true,
        Some(m) => whole_minutes_between(now as int, m as int) > (ttl_mins as i64) as int,
    }
}

/// Whether a cache last modified at `modified` is stale at `now`.
pub fn is_stale_at(modified: Option<i64>, now: i64, ttl_mins: u64) -> (b: bool)
    requires
        is_instant(now),
        modified matches Some(m) ==> is_instant(m),
    ensures
        b == stale_at(modified, now, ttl_mins),
{
    match modified {
        None => true,
        Some(m) => {
            let diff: i64 = now - m;
            let minutes: i64 = if diff >= 0 {
                diff / 60
            } else {
                let p: i64 = -diff;
                -(p / 60)
            };
            minutes > ttl_mins as i64
        },
    }
}

/// Most snapshots kept in history.
pub const MAX_HISTORY_SNAPSHOTS: usize = 20;

/// How many of the history files (oldest first) are deleted before a new
/// snapshot is saved: enough that, with the new one, at most the maximum
/// remain.
pub open spec fn rotation_count(existing: nat) -> nat {
    if existing >= MAX_HISTORY_SNAPSHOTS {
        (existing - MAX_HISTORY_SNAPSHOTS + 1) as nat
    } else {
        0
    }
}

/// A file of the history directory and when it was last modified.
pub struct HistoryFile {
    pub path: String,
    pub modified: i64,
}

/// A file modified earlier comes first.
pub open spec fn modified_earlier() -> spec_fn(HistoryFile, HistoryFile) -> bool {
    |a: HistoryFile, b: HistoryFile| a.modified < b.modified
}

/// The files by modification time, oldest first; files modified at the
/// same time keep their order.
pub open spec fn oldest_first(files: Seq<HistoryFile>) -> Seq<HistoryFile> {
    insertion_sorted(files, modified_earlier())
}

/// The files sorted oldest first.
pub fn sort_oldest_first(files: Vec<HistoryFile>) -> (r: Vec<HistoryFile>)
    ensures
        r@ == oldest_first(files@),
{
    let ghost orig = files@;
    let ghost before = modified_earlier();
    let n: usize = files.len();
    let mut rest = files;
    let mut out: Vec<HistoryFile> = Vec::new();
    let mut i: usize = 0;
    assert(orig.skip(0) =~= orig);
    assert(orig.take(0) =~= Seq::<HistoryFile>::empty());
    while rest.len() > 0
        invariant
            i + rest@.len() == orig.len(),
            orig.len() == n,
            rest@ == orig.skip(i as int),
            out@ == insertion_sorted(orig.take(i as int), before),
            before == modified_earlier(),
        decreases rest@.len(),
    {
        let x = rest.remove(0);
        let ghost outv = out@;
        proof {
            assert(x == orig[i as int]);
            assert(rest@ =~= orig.skip(i + 1));
            assert(orig.take(i + 1).drop_last() =~= orig.take(i as int));
            assert(orig.take(i + 1).last() == x);
        }
        let mut k: usize = out.len();
        assert(outv.take(k as int) =~= outv);
        while k > 0 && x.modified < out[k - 1].modified
            invariant
                k <= out@.len(),
                outv == out@,
                before == modified_earlier(),
                insert_pos(outv, x, before) == insert_pos(outv.take(k as int), x, before),
            decreases k,
        {
            assert(outv.take(k as int).drop_last() =~= outv.take(k - 1));
            assert(outv.take(k as int).last() == out@[k - 1]);
            k = k - 1;
        }
        proof {
            if k > 0 {
                assert(outv.take(k as int).last() == out@[k - 1]);
            }
            assert(insert_pos(outv.take(k as int), x, before) == k);
        }
        out.insert(k, x);
        i = i + 1;
    }
    assert(orig.take(i as int) =~= orig);
    out
}

/// The history files to delete before saving a new snapshot: the oldest
/// ones, so that with the new snapshot at most 20 remain.
pub fn history_files_to_rotate(files: Vec<HistoryFile>) -> (r: Vec<HistoryFile>)
    ensures
        r@ == oldest_first(files@).take(rotation_count(files@.len()) as int),
{
    let n = files.len();
    let count: usize = if n >= MAX_HISTORY_SNAPSHOTS {
        n - MAX_HISTORY_SNAPSHOTS + 1
    } else {
        0
    };
    let mut sorted = sort_oldest_first(files);
    proof {
        lemma_insertion_sorted(files@, modified_earlier());
    }
    sorted.truncate(count);
    assert(sorted@ =~= oldest_first(files@).take(count as int));
    sorted
}

/// The rotated files are the oldest: none was modified after a file that
/// stays, and together they are exactly the given files.
pub proof fn lemma_rotation_removes_oldest(files: Seq<HistoryFile>)
    ensures
        ({
            let sorted = oldest_first(files);
            let c = rotation_count(files.len()) as int;
            &&& sorted.to_multiset() == files.to_multiset()
            &&& forall|i: int, j: int|
                0 <= i < c <= j < sorted.len() ==> #[trigger] sorted[i].modified <= #[trigger] sorted[j].modified
        }),
{
    lemma_insertion_sorted(files, modified_earlier());
    let sorted = oldest_first(files);
    assert forall|i: int, j: int|
        0 <= i < rotation_count(files.len()) as int <= j < sorted.len() implies #[trigger] sorted[i].modified
        <= #[trigger] sorted[j].modified by {
        assert(!modified_earlier()(sorted[j], sorted[i]));
    }
}

/// The files modified before `cutoff`, in the given order.
pub open spec fn modified_before(files: Seq<HistoryFile>, cutoff: int) -> Seq<HistoryFile>
    decreases files.len(),
{
    if files.len() == 0 {
        files
    } else {
        let rest = modified_before(files.drop_last(), cutoff);
        if files.last().modified < cutoff {
            rest.push(files.last())
        } else {
            rest
        }
    }
}

/// The history files to purge: those modified more than `days` days
/// before `now`.
pub fn history_files_to_purge(files: Vec<HistoryFile>, now: i64, days: u64) -> (r: Vec<HistoryFile>)
    requires
        is_instant(now),
        days <= 100_000_000,
    ensures
        r@ == modified_before(files@, now - days * SECONDS_PER_DAY),
{
    let cutoff = purge_cutoff(now, days);
    let ghost orig = files@;
    let n: usize = files.len();
    let mut rest = files;
    let mut out: Vec<HistoryFile> = Vec::new();
    let mut i: usize = 0;
    assert(orig.skip(0) =~= orig);
    assert(orig.take(0) =~= Seq::<HistoryFile>::empty());
    while rest.len() > 0
        invariant
            i + rest@.len() == orig.len(),
            orig.len() == n,
            rest@ == orig.skip(i as int),
            out@ == modified_before(orig.take(i as int), cutoff as int),
        decreases rest@.len(),
    {
        let x = rest.remove(0);
        proof {
            assert(x == orig[i as int]);
            assert(rest@ =~= orig.skip(i + 1));
            assert(orig.take(i + 1).drop_last() =~= orig.take(i as int));
            assert(orig.take(i + 1).last() == x);
        }
        if x.modified < cutoff {
            out.push(x);
        }
        i = i + 1;
    }
    assert(orig.take(i as int) =~= orig);
    out
}

/// After rotation and saving, at most the maximum number of snapshots
/// remain, and the newest files are the ones kept.
pub proof fn lemma_rotation_keeps_limit(existing: nat)
    ensures
        existing - rotation_count(existing) + 1 == (if existing + 1 > MAX_HISTORY_SNAPSHOTS {
            MAX_HISTORY_SNAPSHOTS as int
        } else {
            existing + 1int
        }),
        rotation_count(existing) <= existing,
{
}

/// History files modified before this instant are purged: `days` days
/// before `now`.
pub fn purge_cutoff(now: i64, days: u64) -> (c: i64)
    requires
        is_instant(now),
        days <= 100_000_000,
    ensures
        c == now - days * SECONDS_PER_DAY,
{
    now - (days as i64) * SECONDS_PER_DAY
}

/// The name of a history file: the snapshot's identifier as a UUID string,
/// then `.json`.
pub open spec fn history_file_name_text(id: u128) -> Seq<char> {
    uuid_text(id) + ".json"@
}

/// The lower-case hexadecimal digit of `n` (0 to 15).
pub open spec fn hex_char(n: int) -> char {
    seq!['0', '1', '2', '3', '4', '5', '6', '7', '8', '9', 'a', 'b', 'c', 'd', 'e', 'f'][n]
}

/// Hex digit `j` of `id`, counting from the most significant (0 to 31).
pub open spec fn uuid_nibble(id: u128, j: int) -> int {
    (id as int / vstd::arithmetic::power::pow(16, (31 - j) as nat)) % 16
}

/// Which hex digit the character at `k` of the hyphenated text shows: the
/// hyphens at 8, 13, 18 and 23 are skipped.
pub open spec fn digit_index(k: int) -> int {
    if k > 23 {
        k - 4
    } else if k > 18 {
        k - 3
    } else if k > 13 {
        k - 2
    } else if k > 8 {
        k - 1
    } else {
        k
    }
}

/// The hyphenated lower-case text of the UUID with these 128 bits: the 32
/// hex digits of `id`, most significant first, in groups of 8, 4, 4, 4 and
/// 12 joined by `-`.
pub open spec fn uuid_text(id: u128) -> Seq<char> {
    Seq::new(
        36,
        |k: int|
            if k == 8 || k == 13 || k == 18 || k == 23 {
                '-'
            } else {
                hex_char(uuid_nibble(id, digit_index(k)))
            },
    )
}

/// `uuid::Uuid::from_u128` followed by `to_string`: the UUID whose bytes
/// are those of `id`, most significant first, written as hyphenated
/// lower-case hex (`uuid_text`).
#[verifier::external_body]
pub(crate) fn uuid_string(id: u128) -> (s: String)
    ensures
        s@ == uuid_text(id),
{
    uuid::Uuid::from_u128(id).to_string()
}

/// The name of the history file of the snapshot with this identifier.
pub fn history_file_name(id: u128) -> (s: String)
    ensures
        s@ == history_file_name_text(id),
{
    uuid_string(id).concat(".json")
}

/// A repository found in the cache directory, as the repository list
/// shows it.
pub struct CachedRepoInfo {
    pub owner: String,
    pub name: String,
    /// `owner/name`.
    pub full_name: String,
    pub description: Option<String>,
    /// The repository's cache directory.
    pub path: String,
    /// When the repository was last viewed, if ever.
    pub last_viewed_at: Option<i64>,
}

/// The list's order: repositories viewed more recently come first, those
/// never viewed after them, by full name.
pub open spec fn listed_before() -> spec_fn(CachedRepoInfo, CachedRepoInfo) -> bool {
    |a: CachedRepoInfo, b: CachedRepoInfo|
        match (a.last_viewed_at, b.last_viewed_at) {
            (Some(x), Some(y)) => x > y,
            (Some(_), None) => true,
            (None, Some(_)) => false,
            (None, None) => text_lt(a.full_name@, b.full_name@),
        }
}

/// The repositories in the list's order; repositories viewed at the same
/// instant keep their order.
pub open spec fn listing_order(repos: Seq<CachedRepoInfo>) -> Seq<CachedRepoInfo> {
    insertion_sorted(repos, listed_before())
}

/// The list's order is a strict weak order.
pub proof fn lemma_listed_before_weak_order()
    ensures
        weak_order(listed_before()),
{
    let f = listed_before();
    assert forall|a: CachedRepoInfo, b: CachedRepoInfo| #[trigger] f(a, b) implies !f(b, a) by {
        lemma_text_lt_asym(a.full_name@, b.full_name@);
    }
    assert forall|a: CachedRepoInfo, b: CachedRepoInfo, c: CachedRepoInfo|
        !#[trigger] f(b, a) && !#[trigger] f(c, b) implies !f(c, a) by {
        lemma_text_le_trans(a.full_name@, b.full_name@, c.full_name@);
    }
}

/// Sorting gives the repositories in the list's order, each once as given.
pub proof fn lemma_listing_order(repos: Seq<CachedRepoInfo>)
    ensures
        in_order(listing_order(repos), listed_before()),
        listing_order(repos).to_multiset() == repos.to_multiset(),
        listing_order(repos).len() == repos.len(),
{
    lemma_listed_before_weak_order();
    lemma_insertion_sorted(repos, listed_before());
}

fn listed_first(a: &CachedRepoInfo, b: &CachedRepoInfo) -> (r: bool)
    ensures
        r == listed_before()(*a, *b),
{
    match (a.last_viewed_at, b.last_viewed_at) {
        (Some(x), Some(y)) => x > y,
        (Some(_), None) => true,
        (None, Some(_)) => false,
        (None, None) => less_text(a.full_name.as_str(), b.full_name.as_str()),
    }
}

/// The repositories in the list's order.
pub fn sort_cached_repos(repos: Vec<CachedRepoInfo>) -> (r: Vec<CachedRepoInfo>)
    ensures
        r@ == listing_order(repos@),
{
    let ghost orig = repos@;
    let ghost before = listed_before();
    let n: usize = repos.len();
    let mut rest = repos;
    let mut out: Vec<CachedRepoInfo> = Vec::new();
    let mut i: usize = 0;
    assert(orig.skip(0) =~= orig);
    assert(orig.take(0) =~= Seq::<CachedRepoInfo>::empty());
    while rest.len() > 0
        invariant
            i + rest@.len() == orig.len(),
            orig.len() == n,
            rest@ == orig.skip(i as int),
            out@ == insertion_sorted(orig.take(i as int), before),
            before == listed_before(),
        decreases rest@.len(),
    {
        let x = rest.remove(0);
        let ghost outv = out@;
        proof {
            assert(x == orig[i as int]);
            assert(rest@ =~= orig.skip(i + 1));
            assert(orig.take(i + 1).drop_last() =~= orig.take(i as int));
            assert(orig.take(i + 1).last() == x);
        }
        let mut k: usize = out.len();
        assert(outv.take(k as int) =~= outv);
        while k > 0 && listed_first(&x, &out[k - 1])
            invariant
                k <= out@.len(),
                outv == out@,
                before == listed_before(),
                insert_pos(outv, x, before) == insert_pos(outv.take(k as int), x, before),
            decreases k,
        {
            assert(outv.take(k as int).drop_last() =~= outv.take(k - 1));
            assert(outv.take(k as int).last() == out@[k - 1]);
            k = k - 1;
        }
        proof {
            if k > 0 {
                assert(outv.take(k as int).last() == out@[k - 1]);
            }
            assert(insert_pos(outv.take(k as int), x, before) == k);
        }
        out.insert(k, x);
        i = i + 1;
    }
    assert(orig.take(i as int) =~= orig);
    out
}

} // verus!
