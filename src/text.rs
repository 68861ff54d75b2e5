//! Character-level helpers on `&str`: whitespace, tokens and trimming.
use vstd::prelude::*;

verus! {

/// The Unicode `White_Space` code points, the set that `char::is_whitespace` tests.
pub open spec fn is_space(c: char) -> bool {
    let u = c as u32;
    (0x09 <= u && u <= 0x0d) || u == 0x20 || u == 0x85 || u == 0xa0 || u == 0x1680 || (0x2000 <= u
        && u <= 0x200a) || u == 0x2028 || u == 0x2029 || u == 0x202f || u == 0x205f || u == 0x3000
}

pub fn is_space_char(c: char) -> (r: bool)
    ensures
        r == is_space(c),
{
    let u = c as u32;
    (0x09 <= u && u <= 0x0d) || u == 0x20 || u == 0x85 || u == 0xa0 || u == 0x1680 || (0x2000 <= u
        && u <= 0x200a) || u == 0x2028 || u == 0x2029 || u == 0x202f || u == 0x205f || u == 0x3000
}

/// The first index at or after `i` that holds no whitespace, or `s.len()`.
pub open spec fn skip_spaces(s: Seq<char>, i: int) -> int
    decreases s.len() - i,
{
    if 0 <= i < s.len() && is_space(s[i]) {
        skip_spaces(s, i + 1)
    } else {
        i
    }
}

/// The first index at or after `i` that holds whitespace, or `s.len()`.
pub open spec fn word_end(s: Seq<char>, i: int) -> int
    decreases s.len() - i,
{
    if 0 <= i < s.len() && !is_space(s[i]) {
        word_end(s, i + 1)
    } else {
        i
    }
}

/// Start and end of the first whitespace-delimited token at or after `i`.
pub open spec fn next_token(s: Seq<char>, i: int) -> Option<(int, int)> {
    let a = skip_spaces(s, i);
    if a < s.len() {
        Some((a, word_end(s, a)))
    } else {
        None
    }
}

pub proof fn lemma_skip_spaces_bounds(s: Seq<char>, i: int)
    requires
        0 <= i <= s.len(),
    ensures
        i <= skip_spaces(s, i) <= s.len(),
        skip_spaces(s, i) < s.len() ==> !is_space(s[skip_spaces(s, i)]),
        forall|k: int| i <= k < skip_spaces(s, i) ==> is_space(#[trigger] s[k]),
    decreases s.len() - i,
{
    if i < s.len() && is_space(s[i]) {
        lemma_skip_spaces_bounds(s, i + 1);
    }
}

pub proof fn lemma_word_end_bounds(s: Seq<char>, i: int)
    requires
        0 <= i <= s.len(),
    ensures
        i <= word_end(s, i) <= s.len(),
        word_end(s, i) < s.len() ==> is_space(s[word_end(s, i)]),
        forall|k: int| i <= k < word_end(s, i) ==> !is_space(#[trigger] s[k]),
    decreases s.len() - i,
{
    if i < s.len() && !is_space(s[i]) {
        lemma_word_end_bounds(s, i + 1);
    }
}

/// Bounds of a token found by `next_token`: it is non-empty and lies after `i`.
pub proof fn lemma_next_token_bounds(s: Seq<char>, i: int)
    requires
        0 <= i <= s.len(),
    ensures
        match next_token(s, i) {
            Some((a, b)) => i <= a < b <= s.len() && !is_space(s[a]),
            None => true,
        },
{
    lemma_skip_spaces_bounds(s, i);
    let a = skip_spaces(s, i);
    if a < s.len() {
        lemma_word_end_bounds(s, a);
        assert(!is_space(s[a]));
        assert(word_end(s, a) == word_end(s, a + 1));
        lemma_word_end_bounds(s, a + 1);
    }
}

/// Finds the next whitespace-delimited token of `s` at or after index `i`.
pub(crate) fn next_token_at(s: &str, n: usize, i: usize) -> (r: Option<(usize, usize)>)
    requires
        n == s@.len(),
        i <= n,
    ensures
        match r {
            Some((a, b)) => next_token(s@, i as int) == Some((a as int, b as int)),
            None => next_token(s@, i as int) is None,
        },
{
    let mut a: usize = i;
    while a < n
        invariant
            n == s@.len(),
            i <= a <= n,
            skip_spaces(s@, i as int) == skip_spaces(s@, a as int),
        ensures
            skip_spaces(s@, i as int) == a,
        decreases n - a,
    {
        if !is_space_char(s.get_char(a)) {
            break;
        }
        a = a + 1;
    }
    if a == n {
        return None;
    }
    let mut b: usize = a;
    while b < n
        invariant
            n == s@.len(),
            a <= b <= n,
            word_end(s@, a as int) == word_end(s@, b as int),
        ensures
            word_end(s@, a as int) == b,
        decreases n - b,
    {
        if is_space_char(s.get_char(b)) {
            break;
        }
        b = b + 1;
    }
    Some((a, b))
}

/// `s` without any leading copies of `c`.
pub open spec fn strip_front(s: Seq<char>, c: char) -> Seq<char>
    decreases s.len(),
{
    if s.len() > 0 && s[0] == c {
        strip_front(s.drop_first(), c)
    } else {
        s
    }
}

/// `s` without any trailing copies of `c`.
pub open spec fn strip_back(s: Seq<char>, c: char) -> Seq<char>
    decreases s.len(),
{
    if s.len() > 0 && s.last() == c {
        strip_back(s.drop_last(), c)
    } else {
        s
    }
}

/// `s` without leading or trailing copies of `c`.
pub open spec fn strip_both(s: Seq<char>, c: char) -> Seq<char> {
    strip_back(strip_front(s, c), c)
}

/// Removes every leading copy of `c`.
pub fn trim_start_char(s: &str, c: char) -> (r: &str)
    ensures
        r@ == strip_front(s@, c),
{
    let n = s.unicode_len();
    let mut a: usize = 0;
    assert(s@.subrange(0, n as int) =~= s@);
    while a < n
        invariant
            n == s@.len(),
            a <= n,
            strip_front(s@, c) == strip_front(s@.subrange(a as int, n as int), c),
        ensures
            strip_front(s@, c) == s@.subrange(a as int, n as int),
        decreases n - a,
    {
        if s.get_char(a) != c {
            assert(s@.subrange(a as int, n as int)[0] == s@[a as int]);
            break;
        }
        assert(s@.subrange(a as int, n as int).drop_first() =~= s@.subrange(a + 1, n as int));
        a = a + 1;
    }
    s.substring_char(a, n)
}

/// Removes every leading and trailing copy of `c`.
pub fn trim_char(s: &str, c: char) -> (r: &str)
    ensures
        r@ == strip_both(s@, c),
{
    let t = trim_start_char(s, c);
    let n = t.unicode_len();
    let mut b: usize = n;
    assert(t@.subrange(0, n as int) =~= t@);
    while b > 0
        invariant
            n == t@.len(),
            b <= n,
            strip_back(t@, c) == strip_back(t@.subrange(0, b as int), c),
        ensures
            strip_back(t@, c) == t@.subrange(0, b as int),
        decreases b,
    {
        if t.get_char(b - 1) != c {
            assert(t@.subrange(0, b as int).last() == t@[b - 1]);
            break;
        }
        assert(t@.subrange(0, b as int).drop_last() =~= t@.subrange(0, b - 1));
        b = b - 1;
    }
    t.substring_char(0, b)
}

/// `s` without leading whitespace.
pub open spec fn trim_front(s: Seq<char>) -> Seq<char>
    decreases s.len(),
{
    if s.len() > 0 && is_space(s[0]) {
        trim_front(s.drop_first())
    } else {
        s
    }
}

/// `s` without trailing whitespace.
pub open spec fn trim_back(s: Seq<char>) -> Seq<char>
    decreases s.len(),
{
    if s.len() > 0 && is_space(s.last()) {
        trim_back(s.drop_last())
    } else {
        s
    }
}

/// `s` without leading or trailing whitespace.
pub open spec fn trimmed(s: Seq<char>) -> Seq<char> {
    trim_back(trim_front(s))
}

/// Removes leading and trailing whitespace.
pub fn trim(s: &str) -> (r: &str)
    ensures
        r@ == trimmed(s@),
{
    let n = s.unicode_len();
    let mut a: usize = 0;
    assert(s@.subrange(0, n as int) =~= s@);
    while a < n
        invariant
            n == s@.len(),
            a <= n,
            trim_front(s@) == trim_front(s@.subrange(a as int, n as int)),
        ensures
            trim_front(s@) == s@.subrange(a as int, n as int),
        decreases n - a,
    {
        if !is_space_char(s.get_char(a)) {
            assert(s@.subrange(a as int, n as int)[0] == s@[a as int]);
            break;
        }
        assert(s@.subrange(a as int, n as int).drop_first() =~= s@.subrange(a + 1, n as int));
        a = a + 1;
    }
    let t = s.substring_char(a, n);
    let mut b: usize = n - a;
    assert(t@.subrange(0, b as int) =~= t@);
    while b > 0
        invariant
            b <= t@.len(),
            trim_back(t@) == trim_back(t@.subrange(0, b as int)),
        ensures
            trim_back(t@) == t@.subrange(0, b as int),
        decreases b,
    {
        if !is_space_char(t.get_char(b - 1)) {
            assert(t@.subrange(0, b as int).last() == t@[b - 1]);
            break;
        }
        assert(t@.subrange(0, b as int).drop_last() =~= t@.subrange(0, b - 1));
        b = b - 1;
    }
    t.substring_char(0, b)
}

/// The first index at or after `i` that holds `c`, or `s.len()`.
pub open spec fn find_from(s: Seq<char>, c: char, i: int) -> int
    decreases s.len() - i,
{
    if 0 <= i < s.len() && s[i] != c {
        find_from(s, c, i + 1)
    } else {
        i
    }
}

pub proof fn lemma_find_from_bounds(s: Seq<char>, c: char, i: int)
    requires
        0 <= i <= s.len(),
    ensures
        i <= find_from(s, c, i) <= s.len(),
        find_from(s, c, i) < s.len() ==> s[find_from(s, c, i)] == c,
        forall|k: int| i <= k < find_from(s, c, i) ==> s[k] != c,
    decreases s.len() - i,
{
    if i < s.len() && s[i] != c {
        lemma_find_from_bounds(s, c, i + 1);
    }
}

/// Finds the first `c` in `s` at or after index `i`; `n` where there is none.
pub(crate) fn find_char_from(s: &str, n: usize, c: char, i: usize) -> (r: usize)
    requires
        n == s@.len(),
        i <= n,
    ensures
        r == find_from(s@, c, i as int),
        i <= r <= n,
{
    proof {
        lemma_find_from_bounds(s@, c, i as int);
    }
    let mut e: usize = i;
    while e < n
        invariant
            n == s@.len(),
            i <= e <= n,
            find_from(s@, c, i as int) == find_from(s@, c, e as int),
        ensures
            find_from(s@, c, i as int) == e,
        decreases n - e,
    {
        if s.get_char(e) == c {
            break;
        }
        e = e + 1;
    }
    e
}

} // verus!
