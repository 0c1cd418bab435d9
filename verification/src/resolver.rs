//! The link resolver's logic: the lookup path for one short identifier (the
//! identifier lowercased into the canonical shape), the bearer header value,
//! the choice between the high- and the standard-definition variant, and the
//! fold that keeps the successfully resolved links while skipping failed
//! ones. The token and lookup requests themselves stay outside the library;
//! a failed token fetch fails the whole batch before any of this runs.

use vstd::prelude::*;
use vstd::string::StrSliceExecFns;
use vstd::string::StringExecFns;

use crate::textutil::{append_str, push_char};

verus! {

/// The endpoint that issues a temporary bearer token.
pub const AUTH_URL: &'static str = "https://api.redgifs.com/v2/auth/temporary";

/// An upper-case ASCII letter mapped to its lower-case form; any other
/// character is left as it stands.
pub open spec fn spec_lower_char(c: char) -> char {
    if 'A' <= c && c <= 'Z' {
        (((c as u8) + 32) as char)
    } else {
        c
    }
}

/// The first `k` characters of `s`, each lowercased.
pub open spec fn spec_lower_upto(s: Seq<char>, k: int) -> Seq<char>
    decreases k,
{
    if k <= 0 {
        Seq::empty()
    } else {
        spec_lower_upto(s, k - 1).push(spec_lower_char(s[k - 1]))
    }
}

/// The whole of `s`, lowercased character by character.
pub open spec fn spec_lower(s: Seq<char>) -> Seq<char> {
    spec_lower_upto(s, s.len() as int)
}

/// Lowercases a short identifier, as `spec_lower` describes.
pub fn lowercase_id(s: &str) -> (r: String)
    ensures
        r@ == spec_lower(s@),
{
    let n = s.unicode_len();
    let mut r = String::new();
    let mut i: usize = 0;
    while i < n
        invariant
            n == s@.len(),
            0 <= i <= n,
            r@ == spec_lower_upto(s@, i as int),
        decreases n - i,
    {
        let c = s.get_char(i);
        let lc = if 'A' <= c && c <= 'Z' {
            ((c as u8) + 32) as char
        } else {
            c
        };
        push_char(&mut r, lc);
        i = i + 1;
    }
    r
}

/// The lookup path for one short identifier: the API host and the
/// identifier in its lowercased canonical shape.
pub fn gif_url(id: &str) -> (r: String)
    ensures
        r@ == "https://api.redgifs.com/v2/gifs/"@ + spec_lower(id@),
{
    let mut r = String::new();
    append_str(&mut r, "https://api.redgifs.com/v2/gifs/");
    let low = lowercase_id(id);
    append_str(&mut r, low.as_str());
    r
}

/// The authorization header value carrying a bearer token.
pub fn bearer_value(token: &str) -> (r: String)
    ensures
        r@ == "Bearer "@ + token@,
{
    let mut r = String::new();
    append_str(&mut r, "Bearer ");
    append_str(&mut r, token);
    r
}

/// Picks the direct link out of one successful lookup: the high-definition
/// variant when present, else the standard-definition one, which is always
/// present.
pub fn pick_media_url(hd: Option<String>, sd: String) -> (r: String)
    ensures
        r@ == match hd {
            Some(h) => h@,
            None => sd@,
        },
{
    match hd {
        Some(h) => h,
        None => sd,
    }
}

/// The present entries of the first `k` lookup outcomes, in order.
pub open spec fn spec_resolved_upto(results: Seq<Option<Seq<char>>>, k: int) -> Seq<Seq<char>>
    decreases k,
{
    if k <= 0 {
        Seq::empty()
    } else {
        let pre = spec_resolved_upto(results, k - 1);
        match results[k - 1] {
            Some(url) => pre.push(url),
            None => pre,
        }
    }
}

/// The present entries of all lookup outcomes, in order.
pub open spec fn spec_resolved(results: Seq<Option<Seq<char>>>) -> Seq<Seq<char>> {
    spec_resolved_upto(results, results.len() as int)
}

/// Keeps the links of the successful per-identifier lookups, in identifier
/// order; a failed lookup is simply missing from the result, it does not
/// abort the batch.
pub fn collect_resolved(results: Vec<Option<String>>) -> (r: Vec<String>)
    ensures
        r.deep_view() == spec_resolved(results.deep_view()),
{
    let ghost dv: Seq<Option<Seq<char>>> = results.deep_view();
    let mut r: Vec<String> = Vec::new();
    let n = results.len();
    let mut i: usize = 0;
    while i < n
        invariant
            n == results@.len(),
            dv == results.deep_view(),
            dv.len() == n,
            0 <= i <= n,
            r.deep_view() == spec_resolved_upto(dv, i as int),
        decreases n - i,
    {
        proof {
            assert(dv[i as int] == results@[i as int].deep_view());
        }
        match &results[i] {
            Some(url) => {
                r.push(url.clone());
                proof {
                    assert(r.deep_view() =~= spec_resolved_upto(dv, i + 1));
                }
            },
            None => {
                proof {
                    assert(r.deep_view() == spec_resolved_upto(dv, i + 1));
                }
            },
        }
        i = i + 1;
    }
    r
}

} // verus!
