//! File-system paths, held as strings, and the platform directories they
//! start from.
use vstd::prelude::*;

verus! {

/// `s` ends with `suffix`.
pub open spec fn ends_with(s: Seq<char>, suffix: Seq<char>) -> bool {
    s.len() >= suffix.len() && s.subrange(s.len() - suffix.len(), s.len() as int) == suffix
}

/// A file or directory name that `Path::join` appends as a single relative
/// component: non-empty, not `.` or `..`, with no separator or drive colon.
pub open spec fn is_plain_segment(seg: Seq<char>) -> bool {
    &&& seg.len() > 0
    &&& seg != "."@
    &&& seg != ".."@
    &&& forall|k: int| 0 <= k < seg.len() ==> seg[k] != '/' && seg[k] != '\\' && seg[k] != ':'
}

/// `s` holds no `?`, so it cannot start with a Windows verbatim prefix
/// (`\\?\`).
pub open spec fn verbatim_free(s: Seq<char>) -> bool {
    forall|k: int| 0 <= k < s.len() ==> s[k] != '?'
}

/// `s` does not start with a Windows verbatim prefix (`\\?\`).
pub open spec fn no_verbatim_prefix(s: Seq<char>) -> bool {
    !(s.len() >= 4 && s[0] == '\\' && s[1] == '\\' && s[2] == '?' && s[3] == '\\')
}

/// A relative path that `PathBuf::push` appends on every platform: not
/// empty, not starting with a separator, with no colon (so no Windows drive
/// or other prefix).
pub open spec fn appendable(seg: Seq<char>) -> bool {
    &&& seg.len() > 0
    &&& seg[0] != '/'
    &&& seg[0] != '\\'
    &&& forall|k: int| 0 <= k < seg.len() ==> seg[k] != ':'
}

/// A `?`-free path has no verbatim prefix.
pub proof fn lemma_verbatim_free_no_prefix(s: Seq<char>)
    requires
        verbatim_free(s),
    ensures
        no_verbatim_prefix(s),
{
    if s.len() >= 4 {
        assert(s[2] != '?');
    }
}

/// Appending to a path of at least four characters without a verbatim
/// prefix gives such a path again.
pub proof fn lemma_joined_keeps_no_prefix(base: Seq<char>, seg: Seq<char>, r: Seq<char>)
    requires
        joined(base, seg, r),
        base.len() >= 4,
        no_verbatim_prefix(base),
    ensures
        r.len() >= 4,
        no_verbatim_prefix(r),
{
    assert(r[0] == base[0] && r[1] == base[1] && r[2] == base[2] && r[3] == base[3]);
}

/// Joining two `?`-free parts gives a `?`-free path.
pub proof fn lemma_joined_verbatim_free(base: Seq<char>, seg: Seq<char>, r: Seq<char>)
    requires
        joined(base, seg, r),
        verbatim_free(base),
        verbatim_free(seg),
    ensures
        verbatim_free(r),
{
    assert forall|k: int| 0 <= k < r.len() implies r[k] != '?' by {
        if k < base.len() {
            assert(r[k] == base[k]);
        } else if r == base + seg {
            assert(r[k] == seg[k - base.len()]);
        } else if k > base.len() {
            assert(r[k] == seg[k - base.len() - 1]);
        }
    }
}

/// `r` is `base` with `seg` appended, directly or after one separator (`/`
/// or `\\`).
pub open spec fn joined(base: Seq<char>, seg: Seq<char>, r: Seq<char>) -> bool {
    ||| r == base + seg
    ||| r == base + seq!['/'] + seg
    ||| r == base + seq!['\\'] + seg
}

/// std's `Path::join`, with the result converted to a string (both parts
/// are UTF-8, so nothing is replaced). A relative segment without prefix is
/// appended to the base with a separator where one is needed (std's
/// documentation of `PathBuf::push`). A base with a Windows verbatim prefix
/// is normalised as well, so of such a base only that the result ends with
/// a plain segment is stated. An absolute segment or one with a prefix
/// replaces the base, in ways that depend on the platform; of those nothing
/// is stated. Which separator the platform uses is not stated.
#[verifier::external_body]
pub(crate) fn join_path(base: &str, seg: &str) -> (r: String)
    ensures
        is_plain_segment(seg@) ==> ends_with(r@, seg@),
        appendable(seg@) && no_verbatim_prefix(base@) ==> joined(base@, seg@, r@),
{
    std::path::Path::new(base).join(seg).to_string_lossy().into_owned()
}

/// std's `Path::exists`: whether something is on disk at `path` now.
/// The answer depends on the file system, so nothing is stated of it.
#[verifier::external_body]
pub(crate) fn path_exists(path: &str) -> (r: bool) {
    std::path::Path::new(path).exists()
}

/// `dirs::config_dir`: the user's configuration directory, if the platform
/// has one. It is read from the environment, so nothing is stated of it.
#[verifier::external_body]
pub(crate) fn system_config_dir() -> (r: Option<String>) {
    match dirs::config_dir() {
        Some(p) => Some(p.to_string_lossy().into_owned()),
        None => None,
    }
}

/// `dirs::data_local_dir`: the user's local data directory, if the
/// platform has one. It is read from the environment, so nothing is stated
/// of it.
#[verifier::external_body]
pub(crate) fn system_data_local_dir() -> (r: Option<String>) {
    match dirs::data_local_dir() {
        Some(p) => Some(p.to_string_lossy().into_owned()),
        None => None,
    }
}

} // verus!
