//! Confinement of client-supplied repository references to the repository root.
use crate::text::{strip_both, strip_front, trim_char, trim_start_char};
use vstd::prelude::*;

verus! {

/// Why a repository reference or a new repository name was refused.
#[derive(PartialEq, Eq, Structural, Debug, Clone, Copy)]
pub enum GuardError {
    /// The reference would resolve to the root itself or outside it.
    OutsideRoot,
    /// The name for a new repository holds `..` or a path separator.
    InvalidName,
}

/// `s[i..j)` is one whole `/`-separated segment of `s`.
pub open spec fn segment_at(s: Seq<char>, i: int, j: int) -> bool {
    &&& 0 <= i <= j <= s.len()
    &&& (i == 0 || s[i - 1] == '/')
    &&& (j == s.len() || s[j] == '/')
    &&& forall|k: int| i <= k < j ==> s[k] != '/'
}

/// `s[i..j)` is a segment that reads `.` or `..`.
pub open spec fn dot_segment(s: Seq<char>, i: int, j: int) -> bool {
    &&& segment_at(s, i, j)
    &&& ((j == i + 1 && s[i] == '.') || (j == i + 2 && s[i] == '.' && s[i + 1] == '.'))
}

pub open spec fn has_dot_segment(s: Seq<char>) -> bool {
    exists|i: int, j: int| dot_segment(s, i, j)
}

/// `s` has a `..` segment.
pub open spec fn has_parent_segment(s: Seq<char>) -> bool {
    exists|i: int| #[trigger] segment_at(s, i, i + 2) && s[i] == '.' && s[i + 1] == '.'
}

/// The reference with its quotes and leading separators taken off.
pub open spec fn relative_part(raw: Seq<char>) -> Seq<char> {
    strip_front(strip_both(strip_both(raw, '\''), '"'), '/')
}

/// A relative path that names something strictly below the directory it is joined to.
pub open spec fn confined(rel: Seq<char>) -> bool {
    rel.len() > 0 && !has_dot_segment(rel)
}

/// `rel` joined below `root`, with one separator between them.
pub open spec fn join_path(root: Seq<char>, rel: Seq<char>) -> Seq<char> {
    if root.len() == 0 {
        rel
    } else if root.last() == '/' {
        root + rel
    } else {
        root + seq!['/'] + rel
    }
}

pub open spec fn git_suffix() -> Seq<char> {
    seq!['.', 'g', 'i', 't']
}

pub open spec fn ends_with(s: Seq<char>, suffix: Seq<char>) -> bool {
    s.len() >= suffix.len() && s.subrange(s.len() - suffix.len(), s.len() as int) == suffix
}

/// The name with `.git` appended unless it already ends so.
pub open spec fn with_git_suffix(name: Seq<char>) -> Seq<char> {
    if ends_with(name, git_suffix()) {
        name
    } else {
        name + git_suffix()
    }
}

pub open spec fn has_double_dot(s: Seq<char>) -> bool {
    exists|i: int| 0 <= i && i + 1 < s.len() && #[trigger] s[i] == '.' && s[i + 1] == '.'
}

pub open spec fn has_slash(s: Seq<char>) -> bool {
    exists|i: int| 0 <= i < s.len() && s[i] == '/'
}

/// The directory name under which a repository requested as `name` is created.
pub open spec fn new_repo_name(name: Seq<char>) -> Result<Seq<char>, GuardError> {
    let n = with_git_suffix(name);
    if has_double_dot(n) || has_slash(n) {
        Err(GuardError::InvalidName)
    } else {
        Ok(n)
    }
}

/// Where a segment ends at `j`, after a separator at `start - 1` and with no separator
/// in `s[start..k)`, and `start <= j <= k`, it is the segment `s[start..k)`.
proof fn lemma_segment_pinned(s: Seq<char>, start: int, k: int, i: int, j: int)
    requires
        0 <= start <= k <= s.len(),
        start == 0 || s[start - 1] == '/',
        k == s.len() || s[k] == '/',
        forall|m: int| start <= m < k ==> s[m] != '/',
        segment_at(s, i, j),
        start <= j <= k,
    ensures
        i == start,
        j == k,
{
    if j < k {
        assert(s[j] != '/');
    }
    if i < start {
        assert(s[start - 1] != '/');
    }
    if i > start {
        assert(s[i - 1] != '/');
    }
}

/// Tells whether a `/`-separated segment of `s` reads `.` or `..`.
pub fn dot_segment_in(s: &str) -> (r: bool)
    ensures
        r == has_dot_segment(s@),
{
    let n = s.unicode_len();
    let mut start: usize = 0;
    let mut k: usize = 0;
    while k < n
        invariant
            n == s@.len(),
            start <= k <= n,
            start == 0 || s@[start - 1] == '/',
            forall|m: int| start <= m < k ==> s@[m] != '/',
            forall|i: int, j: int| dot_segment(s@, i, j) ==> j >= start,
        decreases n - k,
    {
        if s.get_char(k) == '/' {
            let dot = (k - start == 1 && s.get_char(start) == '.') || (k - start == 2
                && s.get_char(start) == '.' && s.get_char(start + 1) == '.');
            if dot {
                assert(dot_segment(s@, start as int, k as int));
                return true;
            }
            proof {
                assert forall|i: int, j: int| dot_segment(s@, i, j) implies j >= k + 1 by {
                    if j <= k {
                        lemma_segment_pinned(s@, start as int, k as int, i, j);
                    }
                }
            }
            start = k + 1;
        }
        k = k + 1;
    }
    let dot = (n - start == 1 && s.get_char(start) == '.') || (n - start == 2 && s.get_char(start)
        == '.' && s.get_char(start + 1) == '.');
    if dot {
        assert(dot_segment(s@, start as int, n as int));
        return true;
    }
    proof {
        assert forall|i: int, j: int| !dot_segment(s@, i, j) by {
            if dot_segment(s@, i, j) {
                lemma_segment_pinned(s@, start as int, n as int, i, j);
            }
        }
    }
    false
}

/// The part of a client's repository reference that is looked up below the root:
/// surrounding single quotes, then double quotes, then leading separators removed.
pub fn repo_reference(raw: &str) -> (r: &str)
    ensures
        r@ == relative_part(raw@),
{
    let unquoted = trim_char(raw, '\'');
    let unquoted = trim_char(unquoted, '"');
    trim_start_char(unquoted, '/')
}

/// Joins `rel` below `root`.
pub fn join_below(root: &str, rel: &str) -> (r: String)
    ensures
        r@ == join_path(root@, rel@),
{
    let mut path = String::from_str(root);
    let n = root.unicode_len();
    if n > 0 && root.get_char(n - 1) != '/' {
        path.append("/");
        proof {
            reveal_strlit("/");
        }
    }
    path.append(rel);
    assert(path@ =~= join_path(root@, rel@));
    path
}

/// Resolves a client's repository reference to a path below `root`, refusing any
/// reference that would leave it. No file system access is made.
pub fn resolve_repo_path(raw: &str, root: &str) -> (r: Result<String, GuardError>)
    ensures
        r is Ok <==> confined(relative_part(raw@)),
        r matches Ok(p) ==> p@ == join_path(root@, relative_part(raw@)),
        r matches Err(e) ==> e == GuardError::OutsideRoot,
{
    let rel = repo_reference(raw);
    if rel.unicode_len() == 0 || dot_segment_in(rel) {
        return Err(GuardError::OutsideRoot);
    }
    Ok(join_below(root, rel))
}

/// Tells whether `s` ends with `.git`.
pub fn has_git_suffix(s: &str) -> (r: bool)
    ensures
        r == ends_with(s@, git_suffix()),
{
    let n = s.unicode_len();
    if n < 4 {
        return false;
    }
    let r = s.get_char(n - 4) == '.' && s.get_char(n - 3) == 'g' && s.get_char(n - 2) == 'i'
        && s.get_char(n - 1) == 't';
    assert(r ==> s@.subrange(n - 4, n as int) =~= git_suffix());
    assert(s@.subrange(n - 4, n as int) == git_suffix() ==> s@.subrange(n - 4, n as int)[0]
        == s@[n - 4] && s@.subrange(n - 4, n as int)[1] == s@[n - 3] && s@.subrange(
        n - 4,
        n as int,
    )[2] == s@[n - 2] && s@.subrange(n - 4, n as int)[3] == s@[n - 1]);
    r
}

/// Checks the name requested for a new repository and gives the directory name it is
/// created under: `.git` is appended unless present, and a name holding `..` or `/`
/// is refused, so that every new repository sits directly under the root.
pub fn validate_new_repo_name(name: &str) -> (r: Result<String, GuardError>)
    ensures
        r is Ok <==> new_repo_name(name@) is Ok,
        r matches Ok(n) ==> new_repo_name(name@) == Ok::<Seq<char>, GuardError>(n@),
        r matches Err(e) ==> e == GuardError::InvalidName,
{
    let mut n = String::from_str(name);
    if !has_git_suffix(name) {
        n.append(".git");
        proof {
            reveal_strlit(".git");
        }
        assert(n@ =~= with_git_suffix(name@));
    }
    let s = n.as_str();
    let len = s.unicode_len();
    let mut i: usize = 0;
    while i < len
        invariant
            len == s@.len(),
            s@ == with_git_suffix(name@),
            i <= len,
            forall|k: int| 0 <= k < i ==> s@[k] != '/',
            forall|k: int| 0 <= k < i && k + 1 < len ==> !(#[trigger] s@[k] == '.' && s@[k + 1] == '.'),
        decreases len - i,
    {
        let c = s.get_char(i);
        if c == '/' || (c == '.' && i + 1 < len && s.get_char(i + 1) == '.') {
            return Err(GuardError::InvalidName);
        }
        i = i + 1;
    }
    Ok(n)
}

/// A reference with a `..` segment is refused, whatever the root.
pub proof fn lemma_parent_reference_refused(raw: Seq<char>, root: Seq<char>)
    requires
        has_parent_segment(relative_part(raw)),
    ensures
        !confined(relative_part(raw)),
{
    let rel = relative_part(raw);
    let i = choose|i: int| #[trigger] segment_at(rel, i, i + 2) && rel[i] == '.' && rel[i + 1] == '.';
    assert(dot_segment(rel, i, i + 2));
}

/// Normalising a new repository's name is idempotent: `foo` and `foo.git` both name
/// `foo.git`, and a valid normalised name normalises to itself.
pub proof fn lemma_new_name_idempotent(name: Seq<char>)
    ensures
        with_git_suffix(with_git_suffix(name)) == with_git_suffix(name),
        new_repo_name(name) matches Ok(n) ==> new_repo_name(n) == Ok::<Seq<char>, GuardError>(n),
{
    let n = with_git_suffix(name);
    if !ends_with(name, git_suffix()) {
        assert(n.subrange(n.len() - 4, n.len() as int) =~= git_suffix());
    }
}

} // verus!
