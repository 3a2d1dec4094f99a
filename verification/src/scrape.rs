//! Credential scraping heuristics.
//!
//! The platform embeds a rotating access token in one of the script bundles
//! its landing page references. Two small grammars drive the search: script
//! references are `src="...js"` attributes, and the token is a 32-character
//! alphanumeric value bound to a `client_id`-like key by `:` or `=`, with
//! optional whitespace and an optional opening quote. Both scanners are
//! leftmost and deterministic, and are specified here exactly.

use crate::text::strings_model;
use vstd::prelude::*;
use vstd::string::StrSliceExecFns;
use vstd::string::StringExecFns;

verus! {

/// The opening of a script reference.
pub open spec fn script_marker() -> Seq<char> {
    seq!['s', 'r', 'c', '=', '"']
}

/// Required tail of a script path.
pub open spec fn js_suffix() -> Seq<char> {
    seq!['.', 'j', 's']
}

pub open spec fn marker_at(s: Seq<char>, i: int) -> bool {
    0 <= i && i + 5 <= s.len() && s.subrange(i, i + 5) == script_marker()
}

pub open spec fn ends_with(s: Seq<char>, suffix: Seq<char>) -> bool {
    s.len() >= suffix.len() && s.subrange(s.len() - suffix.len(), s.len() as int) == suffix
}

/// Position of the first `"` at or after `j`, if any.
pub open spec fn find_quote_from(s: Seq<char>, j: int) -> Option<int>
    decreases s.len() - j,
{
    if !(0 <= j) || j >= s.len() {
        None
    } else if s[j] == '"' {
        Some(j)
    } else {
        find_quote_from(s, j + 1)
    }
}

pub proof fn lemma_find_quote_some(s: Seq<char>, start: int)
    ensures
        find_quote_from(s, start) matches Some(j) ==> start <= j < s.len(),
    decreases s.len() - start,
{
    if 0 <= start && start < s.len() && s[start] != '"' {
        lemma_find_quote_some(s, start + 1);
    }
}

/// The script paths referenced from position `p` on, in document order:
/// the leftmost `src="` opens a candidate, the next `"` closes it, and the
/// candidate is kept when at least one character precedes a `.js` tail.
/// A kept candidate is consumed whole; a rejected one only advances the scan.
pub open spec fn spec_script_sources(s: Seq<char>, p: int) -> Seq<Seq<char>>
    decreases s.len() - p
        via spec_script_sources_decreases
{
    if !(0 <= p) || p + 5 > s.len() {
        Seq::empty()
    } else if marker_at(s, p) {
        match find_quote_from(s, p + 5) {
            Some(j) => {
                let cap = s.subrange(p + 5, j);
                if cap.len() >= 4 && ends_with(cap, js_suffix()) {
                    seq![cap] + spec_script_sources(s, j + 1)
                } else {
                    spec_script_sources(s, p + 1)
                }
            },
            None => Seq::empty(),
        }
    } else {
        spec_script_sources(s, p + 1)
    }
}

#[via_fn]
proof fn spec_script_sources_decreases(s: Seq<char>, p: int) {
    if 0 <= p && p + 5 <= s.len() {
        lemma_find_quote_some(s, p + 5);
    }
}

fn marker_at_exec(s: &str, i: usize, n: usize) -> (r: bool)
    requires
        n == s@.len(),
        i + 5 <= n,
    ensures
        r == marker_at(s@, i as int),
{
    let r = s.get_char(i) == 's' && s.get_char(i + 1) == 'r' && s.get_char(i + 2) == 'c'
        && s.get_char(i + 3) == '=' && s.get_char(i + 4) == '"';
    proof {
        let sub = s@.subrange(i as int, i as int + 5);
        assert(sub[0] == s@[i as int]);
        assert(sub[1] == s@[i as int + 1]);
        assert(sub[2] == s@[i as int + 2]);
        assert(sub[3] == s@[i as int + 3]);
        assert(sub[4] == s@[i as int + 4]);
        if r {
            assert(sub =~= script_marker());
        }
    }
    r
}

fn find_quote_exec(s: &str, start: usize, n: usize) -> (r: Option<usize>)
    requires
        n == s@.len(),
        start <= n,
    ensures
        match r {
            Some(j) => start <= j < n && find_quote_from(s@, start as int) == Some(j as int),
            None => find_quote_from(s@, start as int) is None,
        },
{
    let mut j = start;
    while j < n
        invariant
            n == s@.len(),
            start <= j <= n,
            find_quote_from(s@, start as int) == find_quote_from(s@, j as int),
        decreases n - j,
    {
        if s.get_char(j) == '"' {
            return Some(j);
        }
        j = j + 1;
    }
    None
}

/// Extracts every referenced script path from a page, in document order.
pub fn extract_script_sources(page: &str) -> (r: Vec<String>)
    ensures
        strings_model(r@) == spec_script_sources(page@, 0),
{
    let n = page.unicode_len();
    let mut out: Vec<String> = Vec::new();
    let mut p: usize = 0;
    proof {
        assert(strings_model(out@) =~= Seq::<Seq<char>>::empty());
        assert(spec_script_sources(page@, 0) == strings_model(out@) + spec_script_sources(
            page@,
            0,
        )) by {
            assert(strings_model(out@) + spec_script_sources(page@, 0) =~= spec_script_sources(
                page@,
                0,
            ));
        }
    }
    while n - p >= 5
        invariant
            n == page@.len(),
            p <= n,
            spec_script_sources(page@, 0) == strings_model(out@) + spec_script_sources(
                page@,
                p as int,
            ),
        decreases n - p,
    {
        if marker_at_exec(page, p, n) {
            match find_quote_exec(page, p + 5, n) {
                Some(j) => {
                    let start = p + 5;
                    let good: bool = if j - start >= 4 {
                        js_tail_exec(page, start, j)
                    } else {
                        false
                    };
                    if good {
                        let cap = page.substring_char(start, j);
                        let ghost capseq = page@.subrange(start as int, j as int);
                        let ghost before = strings_model(out@);
                        out.push(String::from_str(cap));
                        proof {
                            assert(strings_model(out@) =~= before.push(capseq));
                            assert(spec_script_sources(page@, p as int) == seq![capseq]
                                + spec_script_sources(page@, j + 1));
                            assert(before + (seq![capseq] + spec_script_sources(page@, j + 1))
                                =~= strings_model(out@) + spec_script_sources(page@, j + 1));
                        }
                        p = j + 1;
                    } else {
                        proof {
                            assert(spec_script_sources(page@, p as int) == spec_script_sources(
                                page@,
                                p + 1,
                            ));
                        }
                        p = p + 1;
                    }
                },
                None => {
                    proof {
                        assert(spec_script_sources(page@, p as int) =~= Seq::<Seq<char>>::empty());
                        assert(spec_script_sources(page@, n as int) =~= Seq::<
                            Seq<char>,
                        >::empty());
                    }
                    p = n;
                },
            }
        } else {
            proof {
                assert(spec_script_sources(page@, p as int) == spec_script_sources(page@, p + 1));
            }
            p = p + 1;
        }
    }
    proof {
        assert(spec_script_sources(page@, p as int) =~= Seq::<Seq<char>>::empty());
        assert(strings_model(out@) + spec_script_sources(page@, p as int) =~= strings_model(out@));
    }
    out
}

/// The key a token is bound to.
pub open spec fn id_key() -> Seq<char> {
    seq!['c', 'l', 'i', 'e', 'n', 't', '_', 'i', 'd']
}

/// Whitespace the binding may carry between key and value.
pub open spec fn is_ws(c: char) -> bool {
    c == ' ' || c == '\t' || c == '\n' || c == '\r'
}

/// Characters a token is made of.
pub open spec fn is_token_char(c: char) -> bool {
    (48 <= c as u32 && c as u32 <= 57) || (65 <= c as u32 && c as u32 <= 90) || (97 <= c as u32
        && c as u32 <= 122)
}

/// First non-whitespace position at or after `j`.
pub open spec fn skip_ws_from(s: Seq<char>, j: int) -> int
    decreases s.len() - j,
{
    if 0 <= j < s.len() && is_ws(s[j]) {
        skip_ws_from(s, j + 1)
    } else {
        j
    }
}

/// `client_id` immediately followed by `:` or `=` at position `i`.
pub open spec fn key_at(s: Seq<char>, i: int) -> bool {
    0 <= i && i + 10 <= s.len() && s.subrange(i, i + 9) == id_key() && (s[i + 9] == ':' || s[i + 9]
        == '=')
}

/// Exactly 32 token characters starting at `k`.
pub open spec fn token_at(s: Seq<char>, k: int) -> bool {
    0 <= k && k + 32 <= s.len() && forall|t: int| k <= t < k + 32 ==> is_token_char(s[t])
}

/// The token bound at position `i`, if the binding grammar matches there:
/// the key, optional whitespace, an optional opening quote, then the token.
pub open spec fn id_match_at(s: Seq<char>, i: int) -> Option<Seq<char>> {
    if key_at(s, i) {
        let j = skip_ws_from(s, i + 10);
        let k = if j < s.len() && (s[j] == '"' || s[j] == '\'') {
            j + 1
        } else {
            j
        };
        if token_at(s, k) {
            Some(s.subrange(k, k + 32))
        } else {
            None
        }
    } else {
        None
    }
}

/// The leftmost token binding at or after position `i`, if any.
pub open spec fn spec_find_client_id(s: Seq<char>, i: int) -> Option<Seq<char>>
    decreases s.len() - i,
{
    if !(0 <= i) || i >= s.len() {
        None
    } else if id_match_at(s, i) is Some {
        id_match_at(s, i)
    } else {
        spec_find_client_id(s, i + 1)
    }
}

fn is_ws_exec(c: char) -> (r: bool)
    ensures
        r == is_ws(c),
{
    c == ' ' || c == '\t' || c == '\n' || c == '\r'
}

fn is_token_char_exec(c: char) -> (r: bool)
    ensures
        r == is_token_char(c),
{
    let u = c as u32;
    (48 <= u && u <= 57) || (65 <= u && u <= 90) || (97 <= u && u <= 122)
}

fn key_at_exec(s: &str, i: usize, n: usize) -> (r: bool)
    requires
        n == s@.len(),
        i + 10 <= n,
    ensures
        r == key_at(s@, i as int),
{
    let r = s.get_char(i) == 'c' && s.get_char(i + 1) == 'l' && s.get_char(i + 2) == 'i'
        && s.get_char(i + 3) == 'e' && s.get_char(i + 4) == 'n' && s.get_char(i + 5) == 't'
        && s.get_char(i + 6) == '_' && s.get_char(i + 7) == 'i' && s.get_char(i + 8) == 'd' && (
    s.get_char(i + 9) == ':' || s.get_char(i + 9) == '=');
    proof {
        let sub = s@.subrange(i as int, i as int + 9);
        assert(sub[0] == s@[i as int]);
        assert(sub[1] == s@[i as int + 1]);
        assert(sub[2] == s@[i as int + 2]);
        assert(sub[3] == s@[i as int + 3]);
        assert(sub[4] == s@[i as int + 4]);
        assert(sub[5] == s@[i as int + 5]);
        assert(sub[6] == s@[i as int + 6]);
        assert(sub[7] == s@[i as int + 7]);
        assert(sub[8] == s@[i as int + 8]);
        if r {
            assert(sub =~= id_key());
        }
    }
    r
}

/// The token bound at `i`, if the grammar matches exactly there.
fn try_id_match(s: &str, i: usize, n: usize) -> (r: Option<String>)
    requires
        n == s@.len(),
        i < n,
    ensures
        match r {
            Some(id) => id_match_at(s@, i as int) == Some(id@),
            None => id_match_at(s@, i as int) is None,
        },
{
    if n - i < 10 {
        return None;
    }
    if !key_at_exec(s, i, n) {
        return None;
    }
    let mut j = i + 10;
    while j < n && is_ws_exec(s.get_char(j))
        invariant
            n == s@.len(),
            i + 10 <= j <= n,
            skip_ws_from(s@, i as int + 10) == skip_ws_from(s@, j as int),
        decreases n - j,
    {
        j = j + 1;
    }
    proof {
        assert(skip_ws_from(s@, j as int) == j as int);
    }
    let quoted: bool = if j < n {
        let c = s.get_char(j);
        c == '"' || c == '\''
    } else {
        false
    };
    let k: usize = if quoted {
        j + 1
    } else {
        j
    };
    proof {
        let js = skip_ws_from(s@, i as int + 10);
        assert(js == j as int);
        let ks: int = if js < s@.len() && (s@[js] == '"' || s@[js] == '\'') {
            js + 1
        } else {
            js
        };
        assert(ks == k as int);
    }
    if n - k < 32 {
        proof {
            assert(!token_at(s@, k as int));
            assert(id_match_at(s@, i as int) is None);
        }
        return None;
    }
    proof {
        assert(id_match_at(s@, i as int) == (if token_at(s@, k as int) {
            Some(s@.subrange(k as int, k as int + 32))
        } else {
            Option::<Seq<char>>::None
        }));
    }
    let mut t: usize = 0;
    while t < 32
        invariant
            n == s@.len(),
            t <= 32,
            k + 32 <= n,
            id_match_at(s@, i as int) == (if token_at(s@, k as int) {
                Some(s@.subrange(k as int, k as int + 32))
            } else {
                Option::<Seq<char>>::None
            }),
            forall|m: int| k <= m < k + t ==> is_token_char(s@[m]),
        decreases 32 - t,
    {
        if !is_token_char_exec(s.get_char(k + t)) {
            proof {
                assert(!is_token_char(s@[k + t]));
                assert(!token_at(s@, k as int));
                assert(id_match_at(s@, i as int) is None);
            }
            return None;
        }
        t = t + 1;
    }
    proof {
        assert(token_at(s@, k as int));
    }
    let id = s.substring_char(k, k + 32);
    proof {
        assert(id_match_at(s@, i as int) == Some(id@));
    }
    Some(String::from_str(id))
}

/// The leftmost `client_id`-style token binding in a script body, if any.
pub fn find_client_id(js: &str) -> (r: Option<String>)
    ensures
        match r {
            Some(id) => spec_find_client_id(js@, 0) == Some(id@),
            None => spec_find_client_id(js@, 0) is None,
        },
{
    let n = js.unicode_len();
    let mut i: usize = 0;
    while i < n
        invariant
            n == js@.len(),
            i <= n,
            spec_find_client_id(js@, 0) == spec_find_client_id(js@, i as int),
        decreases n - i,
    {
        match try_id_match(js, i, n) {
            Some(id) => {
                proof {
                    assert(spec_find_client_id(js@, i as int) == Some(id@));
                }
                return Some(id);
            },
            None => {},
        }
        i = i + 1;
    }
    None
}

/// Where a discovered path is protocol-relative, it is resolved against the
/// platform's origin; anything else is kept as discovered.
pub open spec fn spec_resolved_url(u: Seq<char>) -> Seq<char> {
    if u.len() > 0 && u[0] == '/' {
        "https://soundcloud.com"@ + u
    } else {
        u
    }
}

pub fn resolve_script_url(u: &str) -> (r: String)
    ensures
        r@ == spec_resolved_url(u@),
{
    let n = u.unicode_len();
    if n > 0 && u.get_char(0) == '/' {
        let r = String::from_str("https://soundcloud.com").concat(u);
        proof {
            assert(r@ =~= spec_resolved_url(u@));
        }
        r
    } else {
        String::from_str(u)
    }
}

/// The candidate scripts, most recently declared first, capped at `limit`,
/// each resolved against the origin.
pub open spec fn spec_candidates(srcs: Seq<Seq<char>>, limit: int) -> Seq<Seq<char>> {
    let count = if limit <= srcs.len() {
        limit
    } else {
        srcs.len() as int
    };
    Seq::new(count as nat, |i: int| spec_resolved_url(srcs[srcs.len() - 1 - i]))
}

/// Orders the scripts of a page for the credential search: last declared
/// first, at most `limit` of them, resolved against the origin.
pub fn credential_candidates(page: &str, limit: usize) -> (r: Vec<String>)
    ensures
        strings_model(r@) == spec_candidates(spec_script_sources(page@, 0), limit as int),
{
    let srcs = extract_script_sources(page);
    let ghost srcseq = spec_script_sources(page@, 0);
    let mut out: Vec<String> = Vec::new();
    let mut i: usize = 0;
    while i < limit && i < srcs.len()
        invariant
            strings_model(srcs@) == srcseq,
            srcs@.len() == srcseq.len(),
            i <= limit,
            i <= srcs@.len(),
            strings_model(out@) == spec_candidates(srcseq, limit as int).take(i as int),
        decreases limit - i,
    {
        let u = resolve_script_url(srcs[srcs.len() - 1 - i].as_str());
        let ghost uv = u@;
        let ghost before = strings_model(out@);
        proof {
            assert(srcs@[srcs@.len() - 1 - i]@ == srcseq[srcseq.len() - 1 - i]);
        }
        out.push(u);
        proof {
            let cands = spec_candidates(srcseq, limit as int);
            assert(i < cands.len());
            assert(cands[i as int] == spec_resolved_url(srcseq[srcseq.len() - 1 - i]));
            assert(uv == cands[i as int]);
            assert(strings_model(out@) =~= before.push(uv));
            assert(strings_model(out@) =~= cands.take(i + 1));
        }
        i = i + 1;
    }
    proof {
        assert(strings_model(out@) =~= spec_candidates(srcseq, limit as int));
    }
    out
}

/// Whether the three characters before `j` read `.js`.
fn js_tail_exec(s: &str, start: usize, j: usize) -> (r: bool)
    requires
        start + 4 <= j <= s@.len(),
    ensures
        r == ends_with(s@.subrange(start as int, j as int), js_suffix()),
{
    let r = s.get_char(j - 3) == '.' && s.get_char(j - 2) == 'j' && s.get_char(j - 1) == 's';
    proof {
        let cap = s@.subrange(start as int, j as int);
        let tail = cap.subrange(cap.len() - 3, cap.len() as int);
        assert(tail[0] == s@[j - 3]);
        assert(tail[1] == s@[j - 2]);
        assert(tail[2] == s@[j - 1]);
        if r {
            assert(tail =~= js_suffix());
        }
    }
    r
}

} // verus!
