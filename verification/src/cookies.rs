//! The cookie-domain eraser.
//!
//! Inline cookie configuration sometimes pins the cookie's `domain` scope to
//! the origin host.  Served through the proxy, that declaration points at the
//! wrong origin, so every occurrence of `"domain": ".<host>",` — including
//! its trailing comma — is deleted, and the browser falls back to scoping the
//! cookie to the current origin.  Everything outside the matched spans is
//! kept byte for byte.

use vstd::prelude::*;
use crate::RewriteContext;
use crate::pattern::host_char_matches;
use crate::pattern::host_matches_at;

verus! {

/// Length of a cookie-domain declaration built around `host`: the fixed text
/// `"domain": "."` and `","` around it contributes 14 characters.
pub open spec fn cookie_len(host: Seq<char>) -> int {
    host.len() as int + 14
}

/// A cookie-domain declaration for `host` starts at position `i`: the literal
/// text `"domain": ".`, then the host (matched like the URL pattern, with `.`
/// as a wildcard), then `",`.
pub open spec fn cookie_match_at(s: Seq<char>, i: int, host: Seq<char>) -> bool {
    &&& 0 <= i
    &&& i + cookie_len(host) <= s.len()
    &&& s[i] == '"'
    &&& s[i + 1] == 'd'
    &&& s[i + 2] == 'o'
    &&& s[i + 3] == 'm'
    &&& s[i + 4] == 'a'
    &&& s[i + 5] == 'i'
    &&& s[i + 6] == 'n'
    &&& s[i + 7] == '"'
    &&& s[i + 8] == ':'
    &&& s[i + 9] == ' '
    &&& s[i + 10] == '"'
    &&& s[i + 11] == '.'
    &&& host_matches_at(s, i + 12, host)
    &&& s[i + 12 + host.len()] == '"'
    &&& s[i + 13 + host.len()] == ','
}

/// The input from position `i` on, with every cookie-domain declaration
/// deleted.  The scan is left to right; after a match it resumes at the first
/// character past the match, so matches never overlap.
pub open spec fn strip_from(s: Seq<char>, i: int, host: Seq<char>) -> Seq<char>
    decreases s.len() - i,
{
    if i < 0 || i >= s.len() {
        Seq::empty()
    } else if cookie_match_at(s, i, host) {
        strip_from(s, i + cookie_len(host), host)
    } else {
        seq![s[i]] + strip_from(s, i + 1, host)
    }
}

/// The whole input with every cookie-domain declaration for `host` deleted.
pub open spec fn strip_cookie_spec(s: Seq<char>, host: Seq<char>) -> Seq<char> {
    strip_from(s, 0, host)
}

/// Exec test for `cookie_match_at`.
fn cookie_match_exec(s: &str, n: usize, i: usize, host: &str, hn: usize) -> (b: bool)
    requires
        n == s@.len(),
        hn == host@.len(),
        i <= n,
    ensures
        b == cookie_match_at(s@, i as int, host@),
{
    if n - i < 14 || n - i - 14 < hn {
        return false;
    }
    if !(s.get_char(i) == '"' && s.get_char(i + 1) == 'd' && s.get_char(i + 2) == 'o' && s.get_char(
        i + 3,
    ) == 'm' && s.get_char(i + 4) == 'a' && s.get_char(i + 5) == 'i' && s.get_char(i + 6) == 'n'
        && s.get_char(i + 7) == '"' && s.get_char(i + 8) == ':' && s.get_char(i + 9) == ' '
        && s.get_char(i + 10) == '"' && s.get_char(i + 11) == '.') {
        return false;
    }
    let j = i + 12;
    let mut k: usize = 0;
    while k < hn
        invariant
            n == s@.len(),
            hn == host@.len(),
            j == i + 12,
            j + hn + 2 <= n,
            k <= hn,
            forall|t: int| 0 <= t < k ==> host_char_matches(host@[t], s@[j + t]),
        decreases hn - k,
    {
        let p = host.get_char(k);
        let c = s.get_char(j + k);
        if p == '.' {
            if c == '\n' {
                proof {
                    assert(!host_char_matches(host@[k as int], s@[j + k as int]));
                    assert(!host_matches_at(s@, j as int, host@));
                }
                return false;
            }
        } else if c != p {
            proof {
                assert(!host_char_matches(host@[k as int], s@[j + k as int]));
                assert(!host_matches_at(s@, j as int, host@));
            }
            return false;
        }
        k += 1;
    }
    s.get_char(j + hn) == '"' && s.get_char(j + hn + 1) == ','
}

/// Delete every cookie-domain declaration that names the origin host of
/// `context`; all other characters are returned unchanged, in order.
pub fn replace_cookie_domain_on_page(bytes: &str, context: &RewriteContext) -> (out: String)
    ensures
        out@ == strip_cookie_spec(bytes@, context.host_to_replace@),
{
    let n = bytes.unicode_len();
    let host = context.host_to_replace.as_str();
    let hn = host.unicode_len();
    let mut out = String::new();
    let mut i: usize = 0;
    while i < n
        invariant
            n == bytes@.len(),
            hn == host@.len(),
            host@ == context.host_to_replace@,
            i <= n,
            strip_cookie_spec(bytes@, context.host_to_replace@) == out@ + strip_from(
                bytes@,
                i as int,
                host@,
            ),
        decreases n - i,
    {
        if cookie_match_exec(bytes, n, i, host, hn) {
            i = i + 14 + hn;
        } else {
            let c = bytes.substring_char(i, i + 1);
            proof {
                assert(c@ =~= seq![bytes@[i as int]]);
            }
            out.append(c);
            i = i + 1;
        }
    }
    out
}

/// An input in which no cookie-domain declaration for `host` occurs is left
/// unchanged by the eraser.
pub proof fn lemma_cookie_no_match_unchanged(s: Seq<char>, host: Seq<char>)
    requires
        forall|i: int| 0 <= i < s.len() ==> !cookie_match_at(s, i, host),
    ensures
        strip_cookie_spec(s, host) == s,
{
    lemma_cookie_no_match_from(s, 0, host);
    assert(s.subrange(0, s.len() as int) =~= s);
}

proof fn lemma_cookie_no_match_from(s: Seq<char>, i: int, host: Seq<char>)
    requires
        0 <= i <= s.len(),
        forall|j: int| 0 <= j < s.len() ==> !cookie_match_at(s, j, host),
    ensures
        strip_from(s, i, host) == s.subrange(i, s.len() as int),
    decreases s.len() - i,
{
    if i >= s.len() {
        assert(s.subrange(i, s.len() as int) =~= Seq::empty());
    } else {
        lemma_cookie_no_match_from(s, i + 1, host);
        assert(seq![s[i]] + s.subrange(i + 1, s.len() as int) =~= s.subrange(i, s.len() as int));
    }
}

} // verus!
