//! The match grammar shared by the rewrite passes.
//!
//! A candidate URL span is `http:` or `https:`, followed by two path
//! separators, each either a plain `/` or the escaped form `\/` as it appears
//! inside JSON string literals, followed immediately by the configured origin
//! host.  The host is interpolated into the pattern literally, so a `.` in it
//! matches any single character other than a newline; every other character
//! matches only itself.

use vstd::prelude::*;

verus! {

/// One character of the host pattern against one character of the input:
/// `.` is a wildcard for any character but a newline, everything else is
/// matched literally.
pub open spec fn host_char_matches(p: char, c: char) -> bool {
    if p == '.' {
        c != '\n'
    } else {
        c == p
    }
}

/// The whole host pattern matches the input at position `i`.
pub open spec fn host_matches_at(s: Seq<char>, i: int, host: Seq<char>) -> bool {
    &&& 0 <= i
    &&& i + host.len() <= s.len()
    &&& forall|k: int| 0 <= k < host.len() ==> host_char_matches(host[k], s[i + k])
}

/// Length of the scheme prefix (`http:` or `https:`) found at position `i`,
/// or 0 when there is none.  After `http`, an `s` commits the match to
/// `https:`; there is no fallback to the shorter scheme.
pub open spec fn scheme_len_at(s: Seq<char>, i: int) -> int {
    if 0 <= i && i + 5 <= s.len() && s[i] == 'h' && s[i + 1] == 't' && s[i + 2] == 't' && s[i + 3]
        == 'p' {
        if s[i + 4] == ':' {
            5
        } else if s[i + 4] == 's' && i + 6 <= s.len() && s[i + 5] == ':' {
            6
        } else {
            0
        }
    } else {
        0
    }
}

/// Length of one path separator at position `i`: `/` counts 1, `\/` counts 2,
/// anything else (including a lone `\`) is no separator and counts 0.
pub open spec fn sep_len_at(s: Seq<char>, i: int) -> int {
    if 0 <= i && i < s.len() && s[i] == '/' {
        1
    } else if 0 <= i && i + 2 <= s.len() && s[i] == '\\' && s[i + 1] == '/' {
        2
    } else {
        0
    }
}

/// Length of a full candidate span starting at position `i`: scheme, two
/// separators, then the host pattern.  0 when no span starts at `i`.
pub open spec fn match_len_at(s: Seq<char>, i: int, host: Seq<char>) -> int {
    let sch = scheme_len_at(s, i);
    let s1 = sep_len_at(s, i + sch);
    let s2 = sep_len_at(s, i + sch + s1);
    if sch > 0 && s1 > 0 && s2 > 0 && host_matches_at(s, i + sch + s1 + s2, host) {
        sch + s1 + s2 + host.len()
    } else {
        0
    }
}

/// A positive match always fits inside the input.
pub proof fn lemma_match_len_in_bounds(s: Seq<char>, i: int, host: Seq<char>)
    ensures
        match_len_at(s, i, host) == 0 || i + match_len_at(s, i, host) <= s.len(),
{
}

/// A match found in a prefix is found unchanged in the longer text, and a
/// match in the longer text that fits inside the prefix is found in the
/// prefix: every position the matcher examines on an accepting path lies
/// inside the match itself.
pub proof fn lemma_match_prefix(a: Seq<char>, b: Seq<char>, i: int, host: Seq<char>)
    requires
        0 <= i < a.len(),
    ensures
        match_len_at(a, i, host) > 0 ==> match_len_at(a + b, i, host) == match_len_at(
            a,
            i,
            host,
        ),
        match_len_at(a + b, i, host) > 0 && i + match_len_at(a + b, i, host) <= a.len()
            ==> match_len_at(a, i, host) == match_len_at(a + b, i, host),
{
    let s = a + b;
    assert(forall|j: int| 0 <= j < a.len() ==> s[j] == a[j]);
    if match_len_at(a, i, host) > 0 {
        let sch = scheme_len_at(a, i);
        let s1 = sep_len_at(a, i + sch);
        let s2 = sep_len_at(a, i + sch + s1);
        assert(scheme_len_at(s, i) == sch);
        assert(sep_len_at(s, i + sch) == s1);
        assert(sep_len_at(s, i + sch + s1) == s2);
        let h = i + sch + s1 + s2;
        assert forall|k: int| 0 <= k < host.len() implies host_char_matches(host[k], s[h + k]) by {
            assert(s[h + k] == a[h + k]);
        }
        assert(host_matches_at(s, h, host));
    }
    if match_len_at(s, i, host) > 0 && i + match_len_at(s, i, host) <= a.len() {
        let sch = scheme_len_at(s, i);
        let s1 = sep_len_at(s, i + sch);
        let s2 = sep_len_at(s, i + sch + s1);
        let h = i + sch + s1 + s2;
        assert(scheme_len_at(a, i) == sch);
        assert(sep_len_at(a, i + sch) == s1);
        assert(sep_len_at(a, i + sch + s1) == s2);
        assert forall|k: int| 0 <= k < host.len() implies host_char_matches(host[k], a[h + k]) by {
            assert(s[h + k] == a[h + k]);
        }
        assert(host_matches_at(a, h, host));
    }
}

/// Matching looks only at the text from the match position on: a match in
/// the second half of a concatenation is the same match in that half alone.
pub proof fn lemma_match_shift(a: Seq<char>, b: Seq<char>, i: int, host: Seq<char>)
    requires
        0 <= i <= b.len(),
    ensures
        match_len_at(a + b, a.len() + i, host) == match_len_at(b, i, host),
{
    let s = a + b;
    let p = a.len() + i;
    assert(forall|j: int| 0 <= j < b.len() ==> s[a.len() + j] == b[j]);
    assert(scheme_len_at(s, p) == scheme_len_at(b, i));
    let sch = scheme_len_at(b, i);
    assert(sep_len_at(s, p + sch) == sep_len_at(b, i + sch));
    let s1 = sep_len_at(b, i + sch);
    assert(sep_len_at(s, p + sch + s1) == sep_len_at(b, i + sch + s1));
    let s2 = sep_len_at(b, i + sch + s1);
    let h = i + sch + s1 + s2;
    if host_matches_at(b, h, host) {
        assert forall|k: int| 0 <= k < host.len() implies host_char_matches(
            host[k],
            s[a.len() + h + k],
        ) by {
            assert(s[a.len() + h + k] == b[h + k]);
        }
        assert(host_matches_at(s, a.len() + h, host));
    }
    if host_matches_at(s, a.len() + h, host) {
        assert forall|k: int| 0 <= k < host.len() implies host_char_matches(host[k], b[h + k]) by {
            assert(s[a.len() + h + k] == b[h + k]);
        }
        assert(host_matches_at(b, h, host));
    }
}

/// Exec mirror of `sep_len_at`.
fn sep_len_exec(s: &str, n: usize, i: usize) -> (r: usize)
    requires
        n == s@.len(),
        i <= n,
    ensures
        r == sep_len_at(s@, i as int),
{
    if i < n && s.get_char(i) == '/' {
        1
    } else if n - i >= 2 && s.get_char(i) == '\\' && s.get_char(i + 1) == '/' {
        2
    } else {
        0
    }
}

/// Exec mirror of `match_len_at`: the length of the candidate span starting
/// at `i`, or 0 when none starts there.
pub fn match_len_exec(s: &str, n: usize, i: usize, host: &str, hn: usize) -> (m: usize)
    requires
        n == s@.len(),
        hn == host@.len(),
        i <= n,
    ensures
        m == match_len_at(s@, i as int, host@),
{
    let mut sch: usize = 0;
    if n - i >= 5 && s.get_char(i) == 'h' && s.get_char(i + 1) == 't' && s.get_char(i + 2) == 't'
        && s.get_char(i + 3) == 'p' {
        let c4 = s.get_char(i + 4);
        if c4 == ':' {
            sch = 5;
        } else if c4 == 's' && n - i >= 6 && s.get_char(i + 5) == ':' {
            sch = 6;
        }
    }
    if sch == 0 {
        return 0;
    }
    let j1 = i + sch;
    let s1 = sep_len_exec(s, n, j1);
    if s1 == 0 {
        return 0;
    }
    let j2 = j1 + s1;
    let s2 = sep_len_exec(s, n, j2);
    if s2 == 0 {
        return 0;
    }
    let j3 = j2 + s2;
    if n - j3 < hn {
        return 0;
    }
    let mut k: usize = 0;
    while k < hn
        invariant
            n == s@.len(),
            hn == host@.len(),
            i <= n,
            sch == scheme_len_at(s@, i as int),
            s1 == sep_len_at(s@, i + sch),
            s2 == sep_len_at(s@, i + sch + s1),
            sch > 0,
            s1 > 0,
            s2 > 0,
            j3 == i + sch + s1 + s2,
            j3 + hn <= n,
            k <= hn,
            forall|t: int| 0 <= t < k ==> host_char_matches(host@[t], s@[j3 + t]),
        decreases hn - k,
    {
        let p = host.get_char(k);
        let c = s.get_char(j3 + k);
        if p == '.' {
            if c == '\n' {
                proof {
                    assert(!host_char_matches(host@[k as int], s@[j3 + k as int]));
                    assert(!host_matches_at(s@, j3 as int, host@));
                }
                return 0;
            }
        } else if c != p {
            proof {
                assert(!host_char_matches(host@[k as int], s@[j3 + k as int]));
                assert(!host_matches_at(s@, j3 as int, host@));
            }
            return 0;
        }
        k += 1;
    }
    sch + s1 + s2 + hn
}

} // verus!
