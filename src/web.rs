//! Data of the read-only web view of the repositories, and HTML escaping.
use crate::command::same_text;
use crate::text::{
    find_char_from, find_from, lemma_next_token_bounds, next_token, next_token_at, trim, trimmed,
};
use vstd::prelude::*;

verus! {

/// The web view's configuration: the repository root it lists.
pub struct WebServer {
    pub repos_dir: String,
}

/// One repository as the web view lists it.
pub struct Repository {
    pub name: String,
    pub path: String,
    pub description: String,
    pub last_commit: String,
    pub branches: Vec<String>,
}

impl WebServer {
    pub fn new(repos_dir: String) -> (r: WebServer)
        ensures
            r.repos_dir@ == repos_dir@,
    {
        WebServer { repos_dir }
    }
}

/// The HTML text for one character: the five markup characters become entities.
pub open spec fn escape_char(c: char) -> Seq<char> {
    if c == '&' {
        "&amp;"@
    } else if c == '<' {
        "&lt;"@
    } else if c == '>' {
        "&gt;"@
    } else if c == '"' {
        "&quot;"@
    } else if c == '\'' {
        "&#39;"@
    } else {
        seq![c]
    }
}

/// `s` with each character replaced by its HTML text.
pub open spec fn escaped(s: Seq<char>) -> Seq<char>
    decreases s.len(),
{
    if s.len() == 0 {
        Seq::empty()
    } else {
        escaped(s.drop_last()) + escape_char(s.last())
    }
}

/// Escapes `&`, `<`, `>`, `"` and `'` for HTML.
pub fn html_escape(s: &str) -> (r: String)
    ensures
        r@ == escaped(s@),
{
    let n = s.unicode_len();
    let mut out = String::new();
    let mut i: usize = 0;
    while i < n
        invariant
            n == s@.len(),
            i <= n,
            out@ == escaped(s@.subrange(0, i as int)),
        decreases n - i,
    {
        let c = s.get_char(i);
        if c == '&' {
            out.append("&amp;");
        } else if c == '<' {
            out.append("&lt;");
        } else if c == '>' {
            out.append("&gt;");
        } else if c == '"' {
            out.append("&quot;");
        } else if c == '\'' {
            out.append("&#39;");
        } else {
            out.append(s.substring_char(i, i + 1));
            assert(s@.subrange(i as int, i + 1) =~= seq![c]);
        }
        assert(s@.subrange(0, i + 1).drop_last() =~= s@.subrange(0, i as int));
        i = i + 1;
    }
    assert(s@.subrange(0, n as int) =~= s@);
    out
}

/// The description that `git init` writes, which says nothing.
pub open spec fn placeholder_description() -> Seq<char> {
    "Unnamed repository; edit this file 'description' to name the repository."@
}

/// The description shown for a repository whose description file holds `raw`.
pub open spec fn shown_description_of(raw: Seq<char>) -> Seq<char> {
    if trimmed(raw) == placeholder_description() {
        Seq::empty()
    } else {
        trimmed(raw)
    }
}

/// The description shown for a repository: the file's text trimmed, and nothing for
/// the placeholder that `git init` writes.
pub fn shown_description(raw: &str) -> (r: String)
    ensures
        r@ == shown_description_of(raw@),
{
    let t = trim(raw);
    if same_text(t, "Unnamed repository; edit this file 'description' to name the repository.") {
        String::new()
    } else {
        String::from_str(t)
    }
}

/// `s` without leading `"* "` markers (the current-branch mark of `git branch`).
pub open spec fn strip_marker(s: Seq<char>) -> Seq<char>
    decreases s.len(),
{
    if s.len() >= 2 && s[0] == '*' && s[1] == ' ' {
        strip_marker(s.subrange(2, s.len() as int))
    } else {
        s
    }
}

pub open spec fn has_arrow(s: Seq<char>) -> bool {
    exists|i: int| 0 <= i && i + 1 < s.len() && #[trigger] s[i] == '-' && s[i + 1] == '>'
}

/// The branch that one line of `git branch -a` names: none for an empty line or an
/// alias (`a -> b`).
pub open spec fn branch_of_line(line: Seq<char>) -> Option<Seq<char>> {
    let b = strip_marker(trimmed(line));
    if b.len() > 0 && !has_arrow(b) {
        Some(b)
    } else {
        None
    }
}

pub open spec fn as_seq(o: Option<Seq<char>>) -> Seq<Seq<char>> {
    match o {
        Some(x) => seq![x],
        None => Seq::empty(),
    }
}

/// The branches named by the lines of `s` that start at or after `start`.
pub open spec fn branches_from(s: Seq<char>, start: int) -> Seq<Seq<char>>
    decreases s.len() - start,
{
    if 0 <= start <= s.len() {
        let e = find_from(s, '\n', start);
        as_seq(branch_of_line(s.subrange(start, e))) + if start <= e < s.len() {
            branches_from(s, e + 1)
        } else {
            Seq::empty()
        }
    } else {
        Seq::empty()
    }
}

pub open spec fn views(v: Seq<String>) -> Seq<Seq<char>> {
    v.map_values(|x: String| x@)
}

fn strip_branch_marker(s: &str) -> (r: &str)
    ensures
        r@ == strip_marker(s@),
{
    let n = s.unicode_len();
    let mut a: usize = 0;
    assert(s@.subrange(0, n as int) =~= s@);
    while n - a >= 2
        invariant
            n == s@.len(),
            a <= n,
            strip_marker(s@) == strip_marker(s@.subrange(a as int, n as int)),
        ensures
            strip_marker(s@) == s@.subrange(a as int, n as int),
        decreases n - a,
    {
        if s.get_char(a) != '*' || s.get_char(a + 1) != ' ' {
            assert(s@.subrange(a as int, n as int)[0] == s@[a as int]);
            assert(s@.subrange(a as int, n as int)[1] == s@[a + 1]);
            break;
        }
        assert(s@.subrange(a as int, n as int).subrange(2, n - a) =~= s@.subrange(a + 2, n as int));
        a = a + 2;
    }
    s.substring_char(a, n)
}

fn contains_arrow(s: &str) -> (r: bool)
    ensures
        r == has_arrow(s@),
{
    let n = s.unicode_len();
    let mut i: usize = 0;
    while n - i >= 2
        invariant
            n == s@.len(),
            i <= n,
            forall|k: int| 0 <= k < i && k + 1 < n ==> !(#[trigger] s@[k] == '-' && s@[k + 1] == '>'),
        decreases n - i,
    {
        if s.get_char(i) == '-' && s.get_char(i + 1) == '>' {
            return true;
        }
        i = i + 1;
    }
    false
}

/// The branch named by one line of `git branch -a` output.
pub fn branch_of(line: &str) -> (r: Option<String>)
    ensures
        match r {
            Some(b) => branch_of_line(line@) == Some(b@),
            None => branch_of_line(line@) is None,
        },
{
    let b = strip_branch_marker(trim(line));
    if b.unicode_len() > 0 && !contains_arrow(b) {
        Some(String::from_str(b))
    } else {
        None
    }
}

/// The branches listed in the output of `git branch -a`, in order: each line trimmed
/// and without its current-branch mark; empty lines and aliases left out.
pub fn parse_branches(output: &str) -> (r: Vec<String>)
    ensures
        views(r@) == branches_from(output@, 0),
{
    let n = output.unicode_len();
    let mut out: Vec<String> = Vec::new();
    let mut start: usize = 0;
    loop
        invariant
            n == output@.len(),
            start <= n,
            views(out@) + branches_from(output@, start as int) == branches_from(output@, 0),
        decreases n - start,
    {
        let e = find_char_from(output, n, '\n', start);
        let ghost before = out@;
        match branch_of(output.substring_char(start, e)) {
            Some(b) => {
                out.push(b);
                assert(views(out@) =~= views(before) + as_seq(branch_of_line(output@.subrange(start as int, e as int))));
            },
            None => {
                assert(views(out@) =~= views(before) + as_seq(branch_of_line(output@.subrange(start as int, e as int))));
            },
        }
        if e == n {
            assert(views(out@) =~= branches_from(output@, 0));
            return out;
        }
        assert(views(before) + branches_from(output@, start as int) =~= views(out@) + branches_from(output@, e + 1));
        start = e + 1;
    }
}

/// One commit as the web view lists it.
pub struct CommitInfo {
    /// The first eight characters of the commit hash.
    pub hash: String,
    pub author: String,
    pub date: String,
    pub message: String,
}

impl View for CommitInfo {
    type V = (Seq<char>, Seq<char>, Seq<char>, Seq<char>);

    open spec fn view(&self) -> (Seq<char>, Seq<char>, Seq<char>, Seq<char>) {
        (self.hash@, self.author@, self.date@, self.message@)
    }
}

/// The commit that one line of `git log --format=%H|%an|%ar|%s` describes: the text
/// up to each of the first three `|`, and the rest as the message; none for a line
/// with fewer than three.
pub open spec fn commit_of_line(line: Seq<char>) -> Option<
    (Seq<char>, Seq<char>, Seq<char>, Seq<char>),
> {
    let n = line.len() as int;
    let i1 = find_from(line, '|', 0);
    let i2 = find_from(line, '|', i1 + 1);
    let i3 = find_from(line, '|', i2 + 1);
    if i1 < n && i2 < n && i3 < n {
        Some(
            (
                line.subrange(
                    0,
                    if i1 < 8 {
                        i1
                    } else {
                        8
                    },
                ),
                line.subrange(i1 + 1, i2),
                line.subrange(i2 + 1, i3),
                line.subrange(i3 + 1, n),
            ),
        )
    } else {
        None
    }
}

pub open spec fn commits_from(s: Seq<char>, start: int) -> Seq<
    (Seq<char>, Seq<char>, Seq<char>, Seq<char>),
>
    decreases s.len() - start,
{
    if 0 <= start <= s.len() {
        let e = find_from(s, '\n', start);
        let here = match commit_of_line(s.subrange(start, e)) {
            Some(c) => seq![c],
            None => Seq::empty(),
        };
        here + if start <= e < s.len() {
            commits_from(s, e + 1)
        } else {
            Seq::empty()
        }
    } else {
        Seq::empty()
    }
}

/// The commit described by one line of the log.
pub fn commit_of(line: &str) -> (r: Option<CommitInfo>)
    ensures
        match r {
            Some(c) => commit_of_line(line@) == Some(c@),
            None => commit_of_line(line@) is None,
        },
{
    let n = line.unicode_len();
    let i1 = find_char_from(line, n, '|', 0);
    if i1 == n {
        return None;
    }
    let i2 = find_char_from(line, n, '|', i1 + 1);
    if i2 == n {
        return None;
    }
    let i3 = find_char_from(line, n, '|', i2 + 1);
    if i3 == n {
        return None;
    }
    let h = if i1 < 8 {
        i1
    } else {
        8
    };
    Some(
        CommitInfo {
            hash: String::from_str(line.substring_char(0, h)),
            author: String::from_str(line.substring_char(i1 + 1, i2)),
            date: String::from_str(line.substring_char(i2 + 1, i3)),
            message: String::from_str(line.substring_char(i3 + 1, n)),
        },
    )
}

pub open spec fn commit_views(v: Seq<CommitInfo>) -> Seq<(Seq<char>, Seq<char>, Seq<char>, Seq<char>)> {
    v.map_values(|c: CommitInfo| c@)
}

/// The commits listed in the output of `git log --format=%H|%an|%ar|%s`, in order;
/// lines that do not hold three `|` are left out.
pub fn parse_commits(output: &str) -> (r: Vec<CommitInfo>)
    ensures
        commit_views(r@) == commits_from(output@, 0),
{
    let n = output.unicode_len();
    let mut out: Vec<CommitInfo> = Vec::new();
    let mut start: usize = 0;
    loop
        invariant
            n == output@.len(),
            start <= n,
            commit_views(out@) + commits_from(output@, start as int) == commits_from(output@, 0),
        decreases n - start,
    {
        let e = find_char_from(output, n, '\n', start);
        let ghost before = out@;
        let ghost here = match commit_of_line(output@.subrange(start as int, e as int)) {
            Some(c) => seq![c],
            None => Seq::empty(),
        };
        match commit_of(output.substring_char(start, e)) {
            Some(c) => {
                out.push(c);
                assert(commit_views(out@) =~= commit_views(before) + here);
            },
            None => {
                assert(commit_views(out@) =~= commit_views(before) + here);
            },
        }
        if e == n {
            assert(commit_views(out@) =~= commits_from(output@, 0));
            return out;
        }
        assert(commit_views(before) + commits_from(output@, start as int) =~= commit_views(out@)
            + commits_from(output@, e + 1));
        start = e + 1;
    }
}

/// One entry of a tree as the web view lists it.
pub struct FileInfo {
    pub name: String,
    /// `blob`, `tree` or `commit`.
    pub file_type: String,
    /// The entry's path from the top of the tree.
    pub path: String,
}

impl View for FileInfo {
    type V = (Seq<char>, Seq<char>, Seq<char>);

    open spec fn view(&self) -> (Seq<char>, Seq<char>, Seq<char>) {
        (self.name@, self.file_type@, self.path@)
    }
}

/// The whitespace-delimited words of `s` at or after `i`, joined by single spaces.
pub open spec fn joined_words(s: Seq<char>, i: int) -> Seq<char>
    decreases s.len() - i,
{
    match next_token(s, i) {
        Some((a, b)) => if i < b <= s.len() {
            let rest = joined_words(s, b);
            if rest.len() == 0 {
                s.subrange(a, b)
            } else {
                s.subrange(a, b) + seq![' '] + rest
            }
        } else {
            Seq::empty()
        },
        None => Seq::empty(),
    }
}

/// `name` under directory `dir` of the tree.
pub open spec fn entry_path(dir: Seq<char>, name: Seq<char>) -> Seq<char> {
    if dir.len() == 0 {
        name
    } else {
        dir + seq!['/'] + name
    }
}

/// The entry that one line of `git ls-tree` for directory `dir` describes: the
/// second word is its type, the words from the fourth on, joined by single spaces,
/// its name; none for a line of fewer than four words.
pub open spec fn file_of_line(line: Seq<char>, dir: Seq<char>) -> Option<
    (Seq<char>, Seq<char>, Seq<char>),
> {
    match next_token(line, 0) {
        Some((_, b0)) => match next_token(line, b0) {
            Some((a1, b1)) => match next_token(line, b1) {
                Some((_, b2)) => if next_token(line, b2) is Some {
                    let name = joined_words(line, b2);
                    Some((name, line.subrange(a1, b1), entry_path(dir, name)))
                } else {
                    None
                },
                None => None,
            },
            None => None,
        },
        None => None,
    }
}

pub open spec fn files_from(s: Seq<char>, dir: Seq<char>, start: int) -> Seq<
    (Seq<char>, Seq<char>, Seq<char>),
>
    decreases s.len() - start,
{
    if 0 <= start <= s.len() {
        let e = find_from(s, '\n', start);
        let here = match file_of_line(s.subrange(start, e), dir) {
            Some(f) => seq![f],
            None => Seq::empty(),
        };
        here + if start <= e < s.len() {
            files_from(s, dir, e + 1)
        } else {
            Seq::empty()
        }
    } else {
        Seq::empty()
    }
}

/// The words of `s` from index `i` on, joined by single spaces.
fn join_words_from(s: &str, n: usize, i: usize) -> (r: String)
    requires
        n == s@.len(),
        i <= n,
    ensures
        r@ == joined_words(s@, i as int),
{
    let mut out = String::new();
    let mut j: usize = i;
    loop
        invariant
            n == s@.len(),
            j <= n,
            joined_words(s@, i as int) == out@ + (if out@.len() > 0 && joined_words(s@, j as int).len() > 0 {
                seq![' ']
            } else {
                Seq::empty()
            }) + joined_words(s@, j as int),
        decreases n - j,
    {
        proof {
            lemma_next_token_bounds(s@, j as int);
        }
        match next_token_at(s, n, j) {
            None => {
                assert(out@ + Seq::<char>::empty() + Seq::<char>::empty() =~= out@);
                return out;
            },
            Some((a, b)) => {
                let ghost before = out@;
                let ghost rest = joined_words(s@, b as int);
                if out.unicode_len() > 0 {
                    out.append(" ");
                    proof {
                        reveal_strlit(" ");
                    }
                }
                out.append(s.substring_char(a, b));
                assert(joined_words(s@, i as int) =~= out@ + (if out@.len() > 0 && rest.len() > 0 {
                    seq![' ']
                } else {
                    Seq::empty()
                }) + rest);
                j = b;
            },
        }
    }
}

/// The entry described by one line of `git ls-tree` output for directory `dir`.
pub fn file_of(line: &str, dir: &str) -> (r: Option<FileInfo>)
    ensures
        match r {
            Some(f) => file_of_line(line@, dir@) == Some(f@),
            None => file_of_line(line@, dir@) is None,
        },
{
    let n = line.unicode_len();
    proof {
        lemma_next_token_bounds(line@, 0);
    }
    let (_, b0) = match next_token_at(line, n, 0) {
        Some(t) => t,
        None => return None,
    };
    proof {
        lemma_next_token_bounds(line@, b0 as int);
    }
    let (a1, b1) = match next_token_at(line, n, b0) {
        Some(t) => t,
        None => return None,
    };
    proof {
        lemma_next_token_bounds(line@, b1 as int);
    }
    let (_, b2) = match next_token_at(line, n, b1) {
        Some(t) => t,
        None => return None,
    };
    proof {
        lemma_next_token_bounds(line@, b2 as int);
    }
    if next_token_at(line, n, b2).is_none() {
        return None;
    }
    let name = join_words_from(line, n, b2);
    let mut path = String::from_str(dir);
    if dir.unicode_len() > 0 {
        path.append("/");
        proof {
            reveal_strlit("/");
        }
    }
    path.append(name.as_str());
    assert(path@ =~= entry_path(dir@, name@));
    Some(FileInfo { name, file_type: String::from_str(line.substring_char(a1, b1)), path })
}

pub open spec fn file_views(v: Seq<FileInfo>) -> Seq<(Seq<char>, Seq<char>, Seq<char>)> {
    v.map_values(|f: FileInfo| f@)
}

/// The entries listed in the output of `git ls-tree` for directory `dir`, in order;
/// lines of fewer than four words are left out.
pub fn parse_file_list(output: &str, dir: &str) -> (r: Vec<FileInfo>)
    ensures
        file_views(r@) == files_from(output@, dir@, 0),
{
    let n = output.unicode_len();
    let mut out: Vec<FileInfo> = Vec::new();
    let mut start: usize = 0;
    loop
        invariant
            n == output@.len(),
            start <= n,
            file_views(out@) + files_from(output@, dir@, start as int) == files_from(output@, dir@, 0),
        decreases n - start,
    {
        let e = find_char_from(output, n, '\n', start);
        let ghost before = out@;
        let ghost here = match file_of_line(output@.subrange(start as int, e as int), dir@) {
            Some(f) => seq![f],
            None => Seq::empty(),
        };
        match file_of(output.substring_char(start, e), dir) {
            Some(f) => {
                out.push(f);
                assert(file_views(out@) =~= file_views(before) + here);
            },
            None => {
                assert(file_views(out@) =~= file_views(before) + here);
            },
        }
        if e == n {
            assert(file_views(out@) =~= files_from(output@, dir@, 0));
            return out;
        }
        assert(file_views(before) + files_from(output@, dir@, start as int) =~= file_views(out@)
            + files_from(output@, dir@, e + 1));
        start = e + 1;
    }
}

} // verus!
