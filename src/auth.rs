//! Public-key authentication against an authorized-keys store.
use crate::command::{first_word, second_word};
use crate::text::{
    find_char_from, find_from, lemma_find_from_bounds, lemma_next_token_bounds, next_token_at,
};
use russh_keys::PublicKeyBase64;
use vstd::prelude::*;

verus! {

/// The SSH wire encoding of the public key that a base64 key body decodes to, if it
/// decodes to one.
pub uninterp spec fn decoded_key(body: Seq<char>) -> Option<Seq<u8>>;

/// Relies on `russh_keys::parse_public_key_base64` to decode a base64 key body, and on
/// `PublicKeyBase64::public_key_bytes` for the decoded key's wire encoding, which
/// holds exactly the key material that russh's key equality compares.
#[verifier::external_body]
fn decode_key(body: &str) -> (r: Option<Vec<u8>>)
    ensures
        match r {
            Some(v) => decoded_key(body@) == Some(v@),
            None => decoded_key(body@) is None,
        },
{
    match russh_keys::parse_public_key_base64(body) {
        Ok(k) => Some(k.public_key_bytes()),
        Err(_) => None,
    }
}

/// The key body that a line of the store offers: none for a comment or a blank line;
/// the second word where there are two or more (`type base64 comment`); else the
/// only word.
pub open spec fn key_body(line: Seq<char>) -> Option<Seq<char>> {
    if line.len() > 0 && line[0] == '#' {
        None
    } else {
        match first_word(line) {
            None => None,
            Some(w) => match second_word(line) {
                Some(k) => Some(k),
                None => Some(w),
            },
        }
    }
}

/// A line of the store accepts `key` when the body it offers decodes to exactly `key`.
pub open spec fn line_accepts(line: Seq<char>, key: Seq<u8>) -> bool {
    key_body(line) matches Some(b) && decoded_key(b) == Some(key)
}

/// Some line of `s` that starts at or after `start` (a line start) accepts `key`.
pub open spec fn accepts_from(s: Seq<char>, start: int, key: Seq<u8>) -> bool
    decreases s.len() - start,
{
    if 0 <= start <= s.len() {
        let e = find_from(s, '\n', start);
        line_accepts(s.subrange(start, e), key) || (start <= e < s.len() && accepts_from(
            s,
            e + 1,
            key,
        ))
    } else {
        false
    }
}

/// The store `s` accepts `key`.
pub open spec fn store_accepts(s: Seq<char>, key: Seq<u8>) -> bool {
    accepts_from(s, 0, key)
}

/// `s[i..j)` is one whole line of `s`.
pub open spec fn line_at(s: Seq<char>, i: int, j: int) -> bool {
    &&& 0 <= i <= j <= s.len()
    &&& (i == 0 || s[i - 1] == '\n')
    &&& (j == s.len() || s[j] == '\n')
    &&& forall|k: int| i <= k < j ==> s[k] != '\n'
}

fn same_bytes(a: &Vec<u8>, b: &[u8]) -> (r: bool)
    ensures
        r == (a@ == b@),
{
    let n = a.len();
    if n != b.len() {
        return false;
    }
    let mut i: usize = 0;
    while i < n
        invariant
            n == a@.len(),
            n == b@.len(),
            i <= n,
            forall|k: int| 0 <= k < i ==> a@[k] == b@[k],
        decreases n - i,
    {
        if a[i] != b[i] {
            return false;
        }
        i = i + 1;
    }
    assert(a@ =~= b@);
    true
}

/// The key body that one line of an authorized-keys store offers.
pub fn line_key_body(line: &str) -> (r: Option<&str>)
    ensures
        match r {
            Some(b) => key_body(line@) == Some(b@),
            None => key_body(line@) is None,
        },
{
    let n = line.unicode_len();
    if n > 0 && line.get_char(0) == '#' {
        return None;
    }
    proof {
        lemma_next_token_bounds(line@, 0);
    }
    match next_token_at(line, n, 0) {
        None => None,
        Some((a, b)) => {
            proof {
                lemma_next_token_bounds(line@, b as int);
            }
            match next_token_at(line, n, b) {
                Some((c, d)) => Some(line.substring_char(c, d)),
                None => Some(line.substring_char(a, b)),
            }
        },
    }
}

/// Tells whether one line of an authorized-keys store accepts `key`. A body that
/// does not decode is passed over.
pub fn line_accepts_key(line: &str, key: &[u8]) -> (r: bool)
    ensures
        r == line_accepts(line@, key@),
{
    match line_key_body(line) {
        None => false,
        Some(body) => match decode_key(body) {
            None => false,
            Some(k) => same_bytes(&k, key),
        },
    }
}

/// Tells whether the authorized-keys text `store` holds a line whose key is exactly
/// `key` (its SSH wire encoding). Blank lines and `#` comments offer no key.
pub fn store_accepts_key(store: &str, key: &[u8]) -> (r: bool)
    ensures
        r == store_accepts(store@, key@),
{
    let n = store.unicode_len();
    let mut start: usize = 0;
    loop
        invariant
            n == store@.len(),
            start <= n,
            store_accepts(store@, key@) == accepts_from(store@, start as int, key@),
        decreases n - start,
    {
        let e = find_char_from(store, n, '\n', start);
        if line_accepts_key(store.substring_char(start, e), key) {
            return true;
        }
        if e == n {
            return false;
        }
        start = e + 1;
    }
}

/// Authenticates `key` against the authorized-keys store, read afresh for each
/// attempt: `None` where the store is missing, which accepts no key.
pub fn authenticate(store: Option<&str>, key: &[u8]) -> (r: bool)
    ensures
        r == match store {
            Some(s) => store_accepts(s@, key@),
            None => false,
        },
{
    match store {
        Some(s) => store_accepts_key(s, key),
        None => false,
    }
}

/// A store accepts a key only through a line of it whose body decodes to exactly that
/// key: a key that no line matches byte for byte is rejected.
pub proof fn lemma_accepted_only_by_matching_line(s: Seq<char>, key: Seq<u8>)
    requires
        store_accepts(s, key),
    ensures
        exists|i: int, j: int| line_at(s, i, j) && line_accepts(#[trigger] s.subrange(i, j), key),
{
    lemma_accepting_line_from(s, 0, key);
}

proof fn lemma_accepting_line_from(s: Seq<char>, start: int, key: Seq<u8>)
    requires
        0 <= start <= s.len(),
        start == 0 || s[start - 1] == '\n',
        accepts_from(s, start, key),
    ensures
        exists|i: int, j: int| line_at(s, i, j) && line_accepts(#[trigger] s.subrange(i, j), key),
    decreases s.len() - start,
{
    let e = find_from(s, '\n', start);
    lemma_find_from_bounds(s, '\n', start);
    if line_accepts(s.subrange(start, e), key) {
        assert(line_at(s, start, e));
    } else {
        lemma_accepting_line_from(s, e + 1, key);
    }
}

/// An empty store accepts no key.
pub proof fn lemma_empty_store_rejects(key: Seq<u8>)
    ensures
        !store_accepts(Seq::<char>::empty(), key),
{
    let s = Seq::<char>::empty();
    assert(find_from(s, '\n', 0) == 0);
    assert(s.subrange(0, 0) =~= s);
    assert(crate::text::skip_spaces(s, 0) == 0);
}

} // verus!
