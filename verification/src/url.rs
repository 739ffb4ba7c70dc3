//! Normalization of repository URLs into a `(host, owner, name)` triple.
//!
//! The rule, chosen and documented here: a URL has the shape
//! `<scheme>://<host>/<owner>/<name>[/...]`. The scheme (everything before
//! the first `:`, which must be followed by `//`) is ignored. The host is
//! lower-cased and a trailing `.com` is removed, so `https://GitHub.COM/...`
//! yields host `github`. The owner and name are the next two path segments
//! taken verbatim; a trailing `.git` on the name is removed, and anything
//! after the name segment (further segments, a trailing slash) is ignored.
//! A URL without `://`, without a host, or without a non-empty owner
//! segment does not parse; the triple is then three empty strings.
use crate::strutil::{lower_seq, lowercase, to_lower_char};
use vstd::prelude::*;

verus! {

/// Index of the first occurrence of `c` in `s` at or after `i`, or
/// `s.len()` when there is none.
pub open spec fn find_from(s: Seq<char>, i: int, c: char) -> int
    decreases s.len() - i,
{
    if i < 0 {
        i
    } else if i >= s.len() {
        s.len() as int
    } else if s[i] == c {
        i
    } else {
        find_from(s, i + 1, c)
    }
}

/// What [`find_from`] returns: the first hit, and nothing before it.
pub proof fn lemma_find_from(s: Seq<char>, i: int, c: char)
    requires
        0 <= i <= s.len(),
    ensures
        i <= find_from(s, i, c) <= s.len(),
        find_from(s, i, c) < s.len() ==> s[find_from(s, i, c)] == c,
        forall|j: int| i <= j < find_from(s, i, c) ==> s[j] != c,
    decreases s.len() - i,
{
    if i < s.len() && s[i] != c {
        lemma_find_from(s, i + 1, c);
    }
}

/// A trailing `.git` removed from a path segment, if present.
pub open spec fn strip_git(n: Seq<char>) -> Seq<char> {
    if n.len() >= 4 && n[n.len() - 4] == '.' && n[n.len() - 3] == 'g' && n[n.len() - 2] == 'i'
        && n[n.len() - 1] == 't' {
        n.take(n.len() - 4)
    } else {
        n
    }
}

/// A trailing `.com` removed from an already lower-cased host, if present.
pub open spec fn strip_com(h: Seq<char>) -> Seq<char> {
    if h.len() >= 4 && h[h.len() - 4] == '.' && h[h.len() - 3] == 'c' && h[h.len() - 2] == 'o'
        && h[h.len() - 1] == 'm' {
        h.take(h.len() - 4)
    } else {
        h
    }
}

/// The normalized form of a host: lower-cased, trailing `.com` removed.
pub open spec fn norm_host(h: Seq<char>) -> Seq<char> {
    strip_com(lower_seq(h))
}

/// The raw `(host, owner, name)` pieces of a repository URL, or `None`
/// when the URL does not parse into a non-empty host and owner.
pub open spec fn parse_url(s: Seq<char>) -> Option<(Seq<char>, Seq<char>, Seq<char>)> {
    let colon = find_from(s, 0, ':');
    if colon + 2 >= s.len() || s[colon + 1] != '/' || s[colon + 2] != '/' {
        None
    } else {
        let hs = colon + 3;
        let he = find_from(s, hs, '/');
        if he == hs {
            None
        } else {
            let os = he + 1;
            let oe = find_from(s, os, '/');
            if os >= s.len() || oe == os {
                None
            } else {
                let ns = oe + 1;
                let ne = find_from(s, ns, '/');
                let name = if ns >= s.len() {
                    Seq::<char>::empty()
                } else {
                    strip_git(s.subrange(ns, ne))
                };
                Some((s.subrange(hs, he), s.subrange(os, oe), name))
            }
        }
    }
}

/// The normalized `(host, owner, name)` triple of a repository URL;
/// three empty sequences when the URL does not parse.
pub open spec fn spec_owner_and_repo(s: Seq<char>) -> (Seq<char>, Seq<char>, Seq<char>) {
    match parse_url(s) {
        Some((h, o, n)) => (norm_host(h), o, n),
        None => (Seq::empty(), Seq::empty(), Seq::empty()),
    }
}

/// Index of the first occurrence of `c` in `s` at or after `from`, or
/// the length of `s` when there is none.
fn find_char(s: &str, from: usize, c: char) -> (r: usize)
    requires
        from <= s@.len(),
    ensures
        r == find_from(s@, from as int, c),
        from <= r <= s@.len(),
{
    let n: usize = s.unicode_len();
    let mut i: usize = from;
    loop
        invariant
            n == s@.len(),
            from <= i <= n,
            find_from(s@, from as int, c) == find_from(s@, i as int, c),
        decreases n - i,
    {
        if i >= n {
            return i;
        }
        if s.get_char(i) == c {
            return i;
        }
        i = i + 1;
    }
}

/// Copies the characters of `s` in positions `from..to` into a fresh string.
fn copy_range(s: &str, from: usize, to: usize) -> (r: String)
    requires
        from <= to <= s@.len(),
    ensures
        r@ == s@.subrange(from as int, to as int),
{
    s.substring_char(from, to).to_owned()
}

/// Removes a trailing `.git` from a path segment, if present.
fn trim_git(s: String) -> (r: String)
    ensures
        r@ == strip_git(s@),
{
    let n: usize = s.as_str().unicode_len();
    if n >= 4 && s.as_str().get_char(n - 4) == '.' && s.as_str().get_char(n - 3) == 'g'
        && s.as_str().get_char(n - 2) == 'i' && s.as_str().get_char(n - 1) == 't' {
        copy_range(s.as_str(), 0, n - 4)
    } else {
        s
    }
}

/// Splits a repository URL into its normalized `(host, owner, name)`
/// triple; returns three empty strings when the URL does not parse.
pub fn get_owner_and_repo(repository: &str) -> (r: (String, String, String))
    ensures
        r.0@ == spec_owner_and_repo(repository@).0,
        r.1@ == spec_owner_and_repo(repository@).1,
        r.2@ == spec_owner_and_repo(repository@).2,
{
    let s = repository;
    let n: usize = s.unicode_len();
    let colon = find_char(s, 0, ':');
    proof {
        lemma_find_from(s@, 0, ':');
    }
    if colon >= n || colon + 1 >= n || colon + 2 >= n || s.get_char(colon + 1) != '/'
        || s.get_char(colon + 2) != '/' {
        return (String::new(), String::new(), String::new());
    }
    let hs = colon + 3;
    let he = find_char(s, hs, '/');
    if he == hs || he >= n {
        return (String::new(), String::new(), String::new());
    }
    let os = he + 1;
    if os >= n {
        return (String::new(), String::new(), String::new());
    }
    let oe = find_char(s, os, '/');
    if oe == os {
        return (String::new(), String::new(), String::new());
    }
    let host_raw = copy_range(s, hs, he);
    let host_low = lowercase(host_raw.as_str());
    let m: usize = host_low.as_str().unicode_len();
    let host = if m >= 4 && host_low.as_str().get_char(m - 4) == '.' && host_low.as_str().get_char(
        m - 3,
    ) == 'c' && host_low.as_str().get_char(m - 2) == 'o' && host_low.as_str().get_char(m - 1)
        == 'm' {
        copy_range(host_low.as_str(), 0, m - 4)
    } else {
        host_low
    };
    let owner = copy_range(s, os, oe);
    let name = if oe >= n {
        String::new()
    } else {
        let ns = oe + 1;
        if ns >= n {
            String::new()
        } else {
            let ne = find_char(s, ns, '/');
            trim_git(copy_range(s, ns, ne))
        }
    };
    (host, owner, name)
}

} // verus!
