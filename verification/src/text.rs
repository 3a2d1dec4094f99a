//! Character-level text utilities shared by the scraper and the resolver.

use vstd::prelude::*;
use vstd::string::StrSliceExecFns;
use vstd::string::StringExecFns;

verus! {

/// The views of a vector of strings, in order.
pub open spec fn strings_model(v: Seq<String>) -> Seq<Seq<char>> {
    v.map_values(|x: String| x@)
}

/// Path separators are rewritten so a derived name is filesystem-safe.
pub open spec fn sanitize_char(c: char) -> char {
    if c == '/' {
        '_'
    } else {
        c
    }
}

/// The sanitized form of a string: every `/` becomes `_`, all else kept.
pub open spec fn spec_sanitize(s: Seq<char>) -> Seq<char> {
    s.map_values(|c: char| sanitize_char(c))
}

/// Rewrites every `/` in `s` to `_`, keeping all other characters.
pub fn sanitize_path_chars(s: &str) -> (r: String)
    ensures
        r@ == spec_sanitize(s@),
{
    let n = s.unicode_len();
    let mut out = String::new();
    let mut i: usize = 0;
    while i < n
        invariant
            i <= n,
            n == s@.len(),
            out@ == spec_sanitize(s@).take(i as int),
        decreases n - i,
    {
        let c = s.get_char(i);
        if c == '/' {
            out.append("_");
            proof {
                reveal_strlit("_");
                assert(out@ =~= spec_sanitize(s@).take(i + 1));
            }
        } else {
            let piece = s.substring_char(i, i + 1);
            out.append(piece);
            proof {
                assert(out@ =~= spec_sanitize(s@).take(i + 1));
            }
        }
        i = i + 1;
    }
    proof {
        assert(out@ =~= spec_sanitize(s@));
    }
    out
}

} // verus!
