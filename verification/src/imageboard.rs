//! The imageboard source fetcher's logic: which posts of a thread listing
//! qualify as media, and the canonical content link built for each. The
//! network request and the JSON decoding stay outside the library; this
//! module receives the decoded posts as plain values.

use vstd::prelude::*;
use vstd::string::StrSliceExecFns;
use vstd::string::StringExecFns;

use crate::textutil::{append_str, dec_u64, spec_dec, str_eq};

verus! {

/// One post of a thread listing, reduced to the two fields the fetcher
/// reads: the file extension (with its leading dot) and the numeric upload
/// timestamp. Either may be absent.
pub struct Post {
    pub ext: Option<String>,
    pub tim: Option<u64>,
}

/// The mathematical model of a post.
pub struct SpecPost {
    pub ext: Option<Seq<char>>,
    pub tim: Option<u64>,
}

impl View for Post {
    type V = SpecPost;

    open spec fn view(&self) -> SpecPost {
        SpecPost {
            ext: match self.ext {
                Some(e) => Some(e@),
                None => None,
            },
            tim: self.tim,
        }
    }
}

impl DeepView for Post {
    type V = SpecPost;

    open spec fn deep_view(&self) -> SpecPost {
        self@
    }
}

impl Post {
    /// Builds a post from its two optional fields.
    pub fn new(ext: Option<String>, tim: Option<u64>) -> (r: Post)
        ensures
            r.ext == ext,
            r.tim == tim,
    {
        Post { ext, tim }
    }
}

/// Whether a post qualifies as media: both fields present and the extension
/// on the fixed allow-list.
pub open spec fn spec_post_qualifies(p: SpecPost) -> bool {
    &&& p.ext is Some
    &&& p.tim is Some
    &&& (p.ext->0 == ".mp4"@ || p.ext->0 == ".webm"@)
}

/// The canonical content link of a qualifying post: the asset host, the
/// board, the upload timestamp and the extension.
pub open spec fn spec_media_url(board: Seq<char>, tim: u64, ext: Seq<char>) -> Seq<char> {
    "https://i.4cdn.org/"@ + board + "/"@ + spec_dec(tim as nat) + ext
}

/// The links of the qualifying posts among the first `k`, in post order.
pub open spec fn spec_video_links_upto(board: Seq<char>, posts: Seq<SpecPost>, k: int) -> Seq<
    Seq<char>,
>
    decreases k,
{
    if k <= 0 {
        Seq::empty()
    } else {
        let pre = spec_video_links_upto(board, posts, k - 1);
        if spec_post_qualifies(posts[k - 1]) {
            pre.push(spec_media_url(board, posts[k - 1].tim->0, posts[k - 1].ext->0))
        } else {
            pre
        }
    }
}

/// The links of all qualifying posts, in post order.
pub open spec fn spec_video_links(board: Seq<char>, posts: Seq<SpecPost>) -> Seq<Seq<char>> {
    spec_video_links_upto(board, posts, posts.len() as int)
}

/// Builds the canonical content link for one qualifying post.
pub fn media_url(board: &str, tim: u64, ext: &str) -> (r: String)
    ensures
        r@ == spec_media_url(board@, tim, ext@),
{
    let mut r = String::new();
    append_str(&mut r, "https://i.4cdn.org/");
    append_str(&mut r, board);
    append_str(&mut r, "/");
    let d = dec_u64(tim);
    append_str(&mut r, d.as_str());
    append_str(&mut r, ext);
    r
}

/// Decides whether a post qualifies as media.
pub fn post_qualifies(p: &Post) -> (r: bool)
    ensures
        r == spec_post_qualifies(p@),
{
    match (&p.ext, &p.tim) {
        (Some(ext), Some(_tim)) => {
            let is_mp4 = str_eq(ext.as_str(), ".mp4");
            let is_webm = str_eq(ext.as_str(), ".webm");
            is_mp4 || is_webm
        },
        _ => false,
    }
}

/// Maps a thread's decoded posts to the links of its qualifying posts, in
/// post order: a post missing either field, or with an extension off the
/// allow-list, contributes nothing.
pub fn video_links_from_posts(board: &str, posts: &Vec<Post>) -> (r: Vec<String>)
    ensures
        r.deep_view() == spec_video_links(board@, posts.deep_view()),
{
    let ghost dv: Seq<SpecPost> = posts.deep_view();
    let mut r: Vec<String> = Vec::new();
    let n = posts.len();
    let mut i: usize = 0;
    while i < n
        invariant
            n == posts@.len(),
            dv == posts.deep_view(),
            dv.len() == n,
            0 <= i <= n,
            r.deep_view() == spec_video_links_upto(board@, dv, i as int),
        decreases n - i,
    {
        proof {
            assert(dv[i as int] == posts@[i as int].deep_view());
        }
        let p = &posts[i];
        if post_qualifies(p) {
            let ext = match &p.ext {
                Some(e) => e.as_str(),
                None => "",
            };
            let tim = match &p.tim {
                Some(t) => *t,
                None => 0,
            };
            let url = media_url(board, tim, ext);
            r.push(url);
            proof {
                assert(r.deep_view() =~= spec_video_links_upto(board@, dv, i + 1));
            }
        } else {
            proof {
                assert(r.deep_view() == spec_video_links_upto(board@, dv, i + 1));
            }
        }
        i = i + 1;
    }
    r
}

/// The canonical JSON path of one thread: the API host, the board and the
/// thread identifier.
pub fn thread_json_url(board: &str, id: u64) -> (r: String)
    ensures
        r@ == "https://a.4cdn.org/"@ + board@ + "/thread/"@ + spec_dec(id as nat) + ".json"@,
{
    let mut r = String::new();
    append_str(&mut r, "https://a.4cdn.org/");
    append_str(&mut r, board);
    append_str(&mut r, "/thread/");
    let d = dec_u64(id);
    append_str(&mut r, d.as_str());
    append_str(&mut r, ".json");
    r
}

} // verus!
