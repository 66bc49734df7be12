//! The host-rewrite engine.
//!
//! Every candidate URL span — `http:` or `https:`, two plain or
//! backslash-escaped path separators, then the configured origin host — is
//! cut out of the input and replaced by the same URL re-serialized with the
//! target host and port.  The span text is handed to the `url` crate; when it
//! does not parse as a URL, or the new host or port is rejected, the span is
//! deleted from the output rather than passed through.  All text outside the
//! matched spans is copied unchanged.

use vstd::prelude::*;
use crate::RewriteContext;
use crate::pattern::match_len_at;
use crate::pattern::match_len_exec;
use crate::pattern::lemma_match_len_in_bounds;
use crate::pattern::lemma_match_prefix;
use crate::pattern::lemma_match_shift;

verus! {

/// What the `url` crate makes of one matched span: the span parsed as a URL,
/// its host and port replaced, and the result serialized back to text; or
/// nothing, when parsing or either replacement fails.  The result depends on
/// the span text, the new host and the new port alone.
pub uninterp spec fn url_rewrite(span: Seq<char>, host: Seq<char>, port: u16) -> Option<Seq<char>>;

/// Relies on `url::Url::parse`, `Url::set_host`, `Url::set_port` and `Url`'s
/// serialization to text: together they are a pure function of the span text,
/// the new host and the new port, named `url_rewrite` above.  The
/// intermediate `url::Url` value never leaves this function.
#[verifier::external_body]
fn rewrite_url_span(span: &str, host: &str, port: u16) -> (r: Option<String>)
    ensures
        match url_rewrite(span@, host@, port) {
            Some(t) => r is Some && r.unwrap()@ == t,
            None => r is None,
        },
{
    match url::Url::parse(span) {
        Ok(mut u) => match u.set_host(Some(host)) {
            Ok(_) => match u.set_port(Some(port)) {
                Ok(_) => Some(u.to_string()),
                Err(_) => None,
            },
            Err(_) => None,
        },
        Err(_) => None,
    }
}

/// What a span contributes to the output, given what the URL crate returned
/// for it: the re-serialized URL with its one trailing path separator
/// stripped, or nothing at all when the span was rejected.
pub open spec fn span_output_spec(r: Option<Seq<char>>) -> Seq<char> {
    match r {
        Some(t) => if t.len() > 0 {
            t.subrange(0, t.len() - 1)
        } else {
            t
        },
        None => Seq::empty(),
    }
}

/// What one matched span contributes to the output.
pub open spec fn span_replacement(span: Seq<char>, th: Seq<char>, port: u16) -> Seq<char> {
    span_output_spec(url_rewrite(span, th, port))
}

/// Turn the URL crate's answer for one span into the replacement text.  A
/// rewritten URL always serializes with a trailing path separator that the
/// matched span did not contain, so exactly one trailing character is
/// stripped; a rejected span is replaced by nothing at all.
pub fn span_output(rewritten: Option<String>) -> (out: String)
    ensures
        out@ == span_output_spec(
            match rewritten {
                Some(t) => Some(t@),
                None => None,
            },
        ),
{
    match rewritten {
        Some(t) => {
            let tn = t.as_str().unicode_len();
            if tn > 0 {
                let mut out = String::new();
                let stripped = t.as_str().substring_char(0, tn - 1);
                out.append(stripped);
                out
            } else {
                t
            }
        },
        None => String::new(),
    }
}

/// The input from position `i` on, with every matched span replaced by its
/// `span_replacement`.  The scan is left to right over the original text;
/// after a match it resumes at the first character past the span, so spans
/// never overlap and a replacement never shifts what later spans are judged
/// on.
pub open spec fn rewrite_from(s: Seq<char>, i: int, host: Seq<char>, th: Seq<char>, port: u16) -> Seq<
    char,
>
    decreases s.len() - i,
{
    if i < 0 || i >= s.len() {
        Seq::empty()
    } else {
        let m = match_len_at(s, i, host);
        if m > 0 {
            span_replacement(s.subrange(i, i + m), th, port) + rewrite_from(
                s,
                i + m,
                host,
                th,
                port,
            )
        } else {
            seq![s[i]] + rewrite_from(s, i + 1, host, th, port)
        }
    }
}

/// The whole input with every matched span for `host` replaced.
pub open spec fn rewrite_hosts_spec(s: Seq<char>, host: Seq<char>, th: Seq<char>, port: u16) -> Seq<
    char,
> {
    rewrite_from(s, 0, host, th, port)
}

/// Replace every URL span that names the origin host of `context` by the
/// same URL pointing at the target host and port; a span the URL parser
/// rejects is deleted; everything outside the spans is kept byte for byte.
pub fn replace_host(bytes: &str, context: &RewriteContext) -> (out: String)
    ensures
        out@ == rewrite_hosts_spec(
            bytes@,
            context.host_to_replace@,
            context.target_host@,
            context.target_port,
        ),
{
    let n = bytes.unicode_len();
    let host = context.host_to_replace.as_str();
    let hn = host.unicode_len();
    let ghost th = context.target_host@;
    let port = context.target_port;
    let mut out = String::new();
    let mut i: usize = 0;
    while i < n
        invariant
            n == bytes@.len(),
            hn == host@.len(),
            host@ == context.host_to_replace@,
            th == context.target_host@,
            port == context.target_port,
            i <= n,
            rewrite_hosts_spec(bytes@, context.host_to_replace@, th, port) == out@ + rewrite_from(
                bytes@,
                i as int,
                host@,
                th,
                port,
            ),
        decreases n - i,
    {
        let ghost out0 = out@;
        let ghost i0 = i as int;
        let m = match_len_exec(bytes, n, i, host, hn);
        if m > 0 {
            proof {
                lemma_match_len_in_bounds(bytes@, i as int, host@);
            }
            let span = bytes.substring_char(i, i + m);
            let r = rewrite_url_span(span, context.target_host.as_str(), port);
            let ghost piece = span_replacement(bytes@.subrange(i0, i0 + m), th, port);
            let replacement = span_output(r);
            out.append(replacement.as_str());
            proof {
                assert(out@ =~= out0 + piece);
            }
            i = i + m;
            proof {
                assert(rewrite_from(bytes@, i0, host@, th, port) == piece + rewrite_from(
                    bytes@,
                    i as int,
                    host@,
                    th,
                    port,
                ));
                assert(out0 + (piece + rewrite_from(bytes@, i as int, host@, th, port)) =~= (out0
                    + piece) + rewrite_from(bytes@, i as int, host@, th, port));
            }
        } else {
            let c = bytes.substring_char(i, i + 1);
            proof {
                assert(c@ =~= seq![bytes@[i as int]]);
            }
            out.append(c);
            i = i + 1;
            proof {
                assert(out0 + (c@ + rewrite_from(bytes@, i as int, host@, th, port)) =~= (out0
                    + c@) + rewrite_from(bytes@, i as int, host@, th, port));
            }
        }
    }
    out
}

/// An input in which no URL span for `host` occurs is left unchanged by the
/// host-rewrite engine.
pub proof fn lemma_no_match_unchanged(s: Seq<char>, host: Seq<char>, th: Seq<char>, port: u16)
    requires
        forall|i: int| 0 <= i < s.len() ==> match_len_at(s, i, host) == 0,
    ensures
        rewrite_hosts_spec(s, host, th, port) == s,
{
    lemma_no_match_from(s, 0, host, th, port);
    assert(s.subrange(0, s.len() as int) =~= s);
}

proof fn lemma_no_match_from(s: Seq<char>, i: int, host: Seq<char>, th: Seq<char>, port: u16)
    requires
        0 <= i <= s.len(),
        forall|j: int| 0 <= j < s.len() ==> match_len_at(s, j, host) == 0,
    ensures
        rewrite_from(s, i, host, th, port) == s.subrange(i, s.len() as int),
    decreases s.len() - i,
{
    if i >= s.len() {
        assert(s.subrange(i, s.len() as int) =~= Seq::empty());
    } else {
        lemma_no_match_from(s, i + 1, host, th, port);
        assert(seq![s[i]] + s.subrange(i + 1, s.len() as int) =~= s.subrange(i, s.len() as int));
    }
}

/// Spans are judged and rewritten independently, on original-text offsets:
/// when no span crosses a cut point, the rewrite of the whole text is the
/// rewrite of each part, concatenated.
pub proof fn lemma_rewrite_split(
    a: Seq<char>,
    b: Seq<char>,
    host: Seq<char>,
    th: Seq<char>,
    port: u16,
)
    requires
        forall|i: int|
            0 <= i < a.len() && #[trigger] match_len_at(a + b, i, host) > 0 ==> i + match_len_at(
                a + b,
                i,
                host,
            ) <= a.len(),
    ensures
        rewrite_hosts_spec(a + b, host, th, port) == rewrite_hosts_spec(a, host, th, port)
            + rewrite_hosts_spec(b, host, th, port),
{
    lemma_rewrite_split_from(a, b, 0, host, th, port);
}

proof fn lemma_rewrite_split_from(
    a: Seq<char>,
    b: Seq<char>,
    i: int,
    host: Seq<char>,
    th: Seq<char>,
    port: u16,
)
    requires
        0 <= i <= a.len(),
        forall|j: int|
            0 <= j < a.len() && #[trigger] match_len_at(a + b, j, host) > 0 ==> j + match_len_at(
                a + b,
                j,
                host,
            ) <= a.len(),
    ensures
        rewrite_from(a + b, i, host, th, port) == rewrite_from(a, i, host, th, port)
            + rewrite_from(b, 0, host, th, port),
    decreases a.len() - i,
{
    let s = a + b;
    if i == a.len() {
        lemma_rewrite_suffix(a, b, 0, host, th, port);
        assert(rewrite_from(a, i, host, th, port) == Seq::<char>::empty());
        assert(Seq::<char>::empty() + rewrite_from(b, 0, host, th, port) =~= rewrite_from(
            b,
            0,
            host,
            th,
            port,
        ));
    } else {
        lemma_match_prefix(a, b, i, host);
        let ms = match_len_at(s, i, host);
        let ma = match_len_at(a, i, host);
        if ms > 0 {
            assert(i + ms <= a.len());
            assert(ma == ms);
            lemma_match_len_in_bounds(s, i, host);
            assert(s.subrange(i, i + ms) =~= a.subrange(i, i + ms));
            let piece = span_replacement(a.subrange(i, i + ms), th, port);
            lemma_rewrite_split_from(a, b, i + ms, host, th, port);
            assert(piece + (rewrite_from(a, i + ms, host, th, port) + rewrite_from(
                b,
                0,
                host,
                th,
                port,
            )) =~= (piece + rewrite_from(a, i + ms, host, th, port)) + rewrite_from(
                b,
                0,
                host,
                th,
                port,
            ));
        } else {
            assert(ma == 0);
            assert(s[i] == a[i]);
            lemma_rewrite_split_from(a, b, i + 1, host, th, port);
            assert(seq![a[i]] + (rewrite_from(a, i + 1, host, th, port) + rewrite_from(
                b,
                0,
                host,
                th,
                port,
            )) =~= (seq![a[i]] + rewrite_from(a, i + 1, host, th, port)) + rewrite_from(
                b,
                0,
                host,
                th,
                port,
            ));
        }
    }
}

proof fn lemma_rewrite_suffix(
    a: Seq<char>,
    b: Seq<char>,
    i: int,
    host: Seq<char>,
    th: Seq<char>,
    port: u16,
)
    requires
        0 <= i <= b.len(),
    ensures
        rewrite_from(a + b, a.len() + i, host, th, port) == rewrite_from(b, i, host, th, port),
    decreases b.len() - i,
{
    let s = a + b;
    if i >= b.len() {
    } else {
        lemma_match_shift(a, b, i, host);
        let m = match_len_at(b, i, host);
        if m > 0 {
            lemma_match_len_in_bounds(b, i, host);
            assert(s.subrange(a.len() + i, a.len() + i + m) =~= b.subrange(i, i + m));
            lemma_rewrite_suffix(a, b, i + m, host, th, port);
        } else {
            assert(s[a.len() + i] == b[i]);
            lemma_rewrite_suffix(a, b, i + 1, host, th, port);
        }
    }
}

} // verus!
