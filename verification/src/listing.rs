//! The link-aggregation source fetcher's logic: out of each listing entry's
//! optional embedded HTML, the first embedded short identifier is captured
//! by a fixed pattern — the embed host's iframe path followed by a run of
//! identifier characters — and entries without a match are dropped silently.
//! The network request and the JSON decoding stay outside the library.

use vstd::prelude::*;
use vstd::string::StrSliceExecFns;
use vstd::string::StringExecFns;

use crate::textutil::{append_str, spec_occurs_at, str_occurs_at};

verus! {

/// The fixed prefix that opens an embedded iframe link.
pub const EMBED_PREFIX: &'static str = "https://www.redgifs.com/ifr/";

/// The request header value that identifies this client to the listing API.
pub const CLIENT_USER_AGENT: &'static str = "rust:reddit_scraper:v1.0";

/// Whether `c` may stand in a short identifier: a letter, a digit, a dash
/// or an underscore.
pub open spec fn spec_id_char(c: char) -> bool {
    ('a' <= c && c <= 'z') || ('A' <= c && c <= 'Z') || ('0' <= c && c <= '9') || c == '-' || c
        == '_'
}

/// Whether a match of the embed pattern begins at `i`: the fixed prefix
/// occurs there, followed by at least one identifier character.
pub open spec fn spec_match_at(s: Seq<char>, i: int) -> bool {
    &&& spec_occurs_at(s, i, EMBED_PREFIX@)
    &&& i + EMBED_PREFIX@.len() < s.len()
    &&& spec_id_char(s[i + EMBED_PREFIX@.len()])
}

/// The first position at or after `i` where a match begins.
pub open spec fn spec_first_match_from(s: Seq<char>, i: int) -> Option<int>
    decreases s.len() - i,
{
    if i < 0 || i + EMBED_PREFIX@.len() >= s.len() {
        None
    } else if spec_match_at(s, i) {
        Some(i)
    } else {
        spec_first_match_from(s, i + 1)
    }
}

/// The end of the run of identifier characters that starts at `k`.
pub open spec fn spec_id_end(s: Seq<char>, k: int) -> int
    decreases s.len() - k,
{
    if 0 <= k < s.len() && spec_id_char(s[k]) {
        spec_id_end(s, k + 1)
    } else {
        k
    }
}

/// The captured short identifier of the leftmost embed match, if any: the
/// maximal run of identifier characters right after the fixed prefix.
pub open spec fn spec_extract_id(s: Seq<char>) -> Option<Seq<char>> {
    match spec_first_match_from(s, 0) {
        None => None,
        Some(i) => Some(
            s.subrange(
                i + EMBED_PREFIX@.len() as int,
                spec_id_end(s, i + EMBED_PREFIX@.len() as int),
            ),
        ),
    }
}

proof fn lemma_first_match_props(s: Seq<char>, i: int)
    requires
        spec_first_match_from(s, i) is Some,
    ensures
        spec_match_at(s, spec_first_match_from(s, i)->0),
        spec_first_match_from(s, i)->0 + EMBED_PREFIX@.len() < s.len(),
        i <= spec_first_match_from(s, i)->0,
    decreases s.len() - i,
{
    if !(i < 0 || i + EMBED_PREFIX@.len() >= s.len()) && !spec_match_at(s, i) {
        lemma_first_match_props(s, i + 1);
    }
}

/// Decides whether `c` may stand in a short identifier.
pub fn is_id_char(c: char) -> (r: bool)
    ensures
        r == spec_id_char(c),
{
    ('a' <= c && c <= 'z') || ('A' <= c && c <= 'Z') || ('0' <= c && c <= '9') || c == '-' || c
        == '_'
}

fn find_match_start(s: &str) -> (r: Option<usize>)
    ensures
        match r {
            Some(st) => spec_first_match_from(s@, 0) == Some(st as int),
            None => spec_first_match_from(s@, 0) is None,
        },
{
    let plen = EMBED_PREFIX.unicode_len();
    let sn = s.unicode_len();
    if sn <= plen {
        return None;
    }
    let mut i: usize = 0;
    while i < sn - plen
        invariant
            plen == EMBED_PREFIX@.len(),
            sn == s@.len(),
            plen < sn,
            0 <= i <= sn,
            spec_first_match_from(s@, 0) == spec_first_match_from(s@, i as int),
        decreases sn - i,
    {
        if str_occurs_at(s, i, EMBED_PREFIX) {
            let c = s.get_char(i + plen);
            if is_id_char(c) {
                proof {
                    assert(spec_match_at(s@, i as int));
                }
                return Some(i);
            }
        }
        proof {
            assert(!spec_match_at(s@, i as int));
        }
        i = i + 1;
    }
    None
}

/// Captures the short identifier of the leftmost embed match in `s`, as
/// `spec_extract_id` describes; snippets without a match yield nothing.
pub fn extract_redgifs_id(s: &str) -> (r: Option<String>)
    ensures
        match r {
            Some(id) => spec_extract_id(s@) is Some && id@ == spec_extract_id(s@)->0,
            None => spec_extract_id(s@) is None,
        },
{
    match find_match_start(s) {
        None => None,
        Some(st) => {
            let plen = EMBED_PREFIX.unicode_len();
            let sn = s.unicode_len();
            proof {
                lemma_first_match_props(s@, 0);
            }
            let k0 = st + plen;
            let mut e: usize = k0;
            while e < sn && is_id_char(s.get_char(e))
                invariant
                    sn == s@.len(),
                    k0 <= e <= sn,
                    spec_id_end(s@, k0 as int) == spec_id_end(s@, e as int),
                decreases sn - e,
            {
                e = e + 1;
            }
            proof {
                assert(spec_id_end(s@, e as int) == e as int);
            }
            let part = s.substring_char(k0, e);
            Some(part.to_owned())
        },
    }
}

/// The short identifiers captured from the first `k` listing entries, in
/// listing order: an absent embed field or a snippet without a match
/// contributes nothing.
pub open spec fn spec_short_ids_upto(contents: Seq<Option<Seq<char>>>, k: int) -> Seq<Seq<char>>
    decreases k,
{
    if k <= 0 {
        Seq::empty()
    } else {
        let pre = spec_short_ids_upto(contents, k - 1);
        match contents[k - 1] {
            Some(html) => match spec_extract_id(html) {
                Some(id) => pre.push(id),
                None => pre,
            },
            None => pre,
        }
    }
}

/// The short identifiers captured from all listing entries, in order.
pub open spec fn spec_short_ids(contents: Seq<Option<Seq<char>>>) -> Seq<Seq<char>> {
    spec_short_ids_upto(contents, contents.len() as int)
}

/// Maps the listing entries' optional embedded HTML to the captured short
/// identifiers, in listing order; entries without a usable embed are
/// dropped, which is not an error.
pub fn short_ids_from_children(contents: &Vec<Option<String>>) -> (r: Vec<String>)
    ensures
        r.deep_view() == spec_short_ids(contents.deep_view()),
{
    let ghost dv: Seq<Option<Seq<char>>> = contents.deep_view();
    let mut r: Vec<String> = Vec::new();
    let n = contents.len();
    let mut i: usize = 0;
    while i < n
        invariant
            n == contents@.len(),
            dv == contents.deep_view(),
            dv.len() == n,
            0 <= i <= n,
            r.deep_view() == spec_short_ids_upto(dv, i as int),
        decreases n - i,
    {
        proof {
            assert(dv[i as int] == contents@[i as int].deep_view());
        }
        match &contents[i] {
            Some(html) => {
                match extract_redgifs_id(html.as_str()) {
                    Some(id) => {
                        r.push(id);
                        proof {
                            assert(r.deep_view() =~= spec_short_ids_upto(dv, i + 1));
                        }
                    },
                    None => {
                        proof {
                            assert(r.deep_view() == spec_short_ids_upto(dv, i + 1));
                        }
                    },
                }
            },
            None => {
                proof {
                    assert(r.deep_view() == spec_short_ids_upto(dv, i + 1));
                }
            },
        }
        i = i + 1;
    }
    r
}

/// The listing endpoint's path for one query: the source name, the sort
/// modifier and the time window interpolated into the canonical shape.
pub fn listing_url(subreddit: &str, modifier: &str, time: &str) -> (r: String)
    ensures
        r@ == "https://www.reddit.com/r/"@ + subreddit@ + "/"@ + modifier@ + "/.json?t="@ + time@,
{
    let mut r = String::new();
    append_str(&mut r, "https://www.reddit.com/r/");
    append_str(&mut r, subreddit);
    append_str(&mut r, "/");
    append_str(&mut r, modifier);
    append_str(&mut r, "/.json?t=");
    append_str(&mut r, time);
    r
}

} // verus!
