//! The local server's decision logic: where a request goes, which file path
//! a URL names, which content type a file gets, the thread identifier taken
//! out of an API path, and the JSON bodies of the API's answers. The socket,
//! the filesystem reads and the responses themselves stay outside the
//! library.

use vstd::prelude::*;
use vstd::string::StrSliceExecFns;
use vstd::string::StringExecFns;

use crate::textutil::{
    append_str, push_char, spec_has_prefix, spec_has_suffix, str_has_prefix, str_has_suffix,
};

verus! {

/// The local server: it holds the port it will listen on; the listening
/// loop itself stands outside the library.
pub struct AppServer {
    pub port: u16,
}

impl AppServer {
    /// Builds a server for the given port.
    pub fn new(port: u16) -> (r: Self)
        ensures
            r.port == port,
    {
        Self { port }
    }

    /// The address the server binds: the loopback host and the port.
    pub fn bind_addr(&self) -> (r: String)
        ensures
            r@ == "127.0.0.1:"@ + crate::textutil::spec_dec(self.port as nat),
    {
        let mut r = String::new();
        append_str(&mut r, "127.0.0.1:");
        let d = crate::textutil::dec_u64(self.port as u64);
        append_str(&mut r, d.as_str());
        r
    }
}

/// Where one request goes.
#[derive(Clone, Copy, PartialEq, Eq, Structural, Debug)]
pub enum Route {
    /// A thread lookup through the API path.
    ThreadApi,
    /// A file read from the served directory.
    StaticFile,
    /// Anything that is not a GET request.
    NotFound,
}

/// The dispatch rule: a GET under the API prefix is a thread lookup, any
/// other GET a file read, and anything else is not found.
pub open spec fn spec_route(is_get: bool, url: Seq<char>) -> Route {
    if is_get && spec_has_prefix(url, "/api/thread/"@) {
        Route::ThreadApi
    } else if is_get {
        Route::StaticFile
    } else {
        Route::NotFound
    }
}

/// Dispatches one request, as `spec_route` describes.
pub fn route_request(is_get: bool, url: &str) -> (r: Route)
    ensures
        r == spec_route(is_get, url@),
{
    if is_get && str_has_prefix(url, "/api/thread/") {
        Route::ThreadApi
    } else if is_get {
        Route::StaticFile
    } else {
        Route::NotFound
    }
}

/// Whether `c` is a decimal digit.
pub open spec fn spec_is_digit(c: char) -> bool {
    '0' <= c && c <= '9'
}

/// The value of one decimal digit.
pub open spec fn spec_digit_val(c: char) -> int {
    (c as u32) as int - 48
}

/// Whether every character of `s` is a decimal digit.
pub open spec fn spec_all_digits(s: Seq<char>) -> bool {
    forall|i: int| 0 <= i < s.len() ==> spec_is_digit(s[i])
}

/// The value of the first `k` digits, most significant first.
pub open spec fn spec_digits_val_upto(s: Seq<char>, k: int) -> int
    decreases k,
{
    if k <= 0 {
        0
    } else {
        spec_digits_val_upto(s, k - 1) * 10 + spec_digit_val(s[k - 1])
    }
}

/// The value of a run of decimal digits.
pub open spec fn spec_digits_val(s: Seq<char>) -> int {
    spec_digits_val_upto(s, s.len() as int)
}

/// What parsing a decimal number yields: a value for a non-empty run of
/// digits that fits the type, nothing otherwise.
pub open spec fn spec_parse_u64(s: Seq<char>) -> Option<u64> {
    if s.len() > 0 && spec_all_digits(s) && spec_digits_val(s) <= u64::MAX {
        Some(spec_digits_val(s) as u64)
    } else {
        None
    }
}

proof fn lemma_digits_val_nonneg(s: Seq<char>, k: int)
    requires
        k <= s.len(),
        forall|m: int| 0 <= m < k ==> spec_is_digit(s[m]),
    ensures
        spec_digits_val_upto(s, k) >= 0,
    decreases k,
{
    if k > 0 {
        lemma_digits_val_nonneg(s, k - 1);
    }
}

proof fn lemma_digits_val_mono(s: Seq<char>, i: int, j: int)
    requires
        0 <= i <= j <= s.len(),
        forall|m: int| 0 <= m < j ==> spec_is_digit(s[m]),
    ensures
        spec_digits_val_upto(s, j) >= spec_digits_val_upto(s, i),
    decreases j - i,
{
    if i < j {
        lemma_digits_val_mono(s, i, j - 1);
        lemma_digits_val_nonneg(s, j - 1);
    }
}

/// Parses a non-empty run of decimal digits, as `spec_parse_u64` describes:
/// any other character, an empty string, or a value past the type's range
/// yields nothing.
pub fn parse_u64_digits(s: &str) -> (r: Option<u64>)
    ensures
        r == spec_parse_u64(s@),
{
    let n = s.unicode_len();
    if n == 0 {
        return None;
    }
    let mut acc: u64 = 0;
    let mut i: usize = 0;
    while i < n
        invariant
            n == s@.len(),
            n > 0,
            0 <= i <= n,
            forall|m: int| 0 <= m < i ==> spec_is_digit(s@[m]),
            acc as int == spec_digits_val_upto(s@, i as int),
        decreases n - i,
    {
        let c = s.get_char(i);
        if !('0' <= c && c <= '9') {
            proof {
                assert(!spec_all_digits(s@));
            }
            return None;
        }
        let d: u64 = ((c as u32) - 48) as u64;
        let step = match acc.checked_mul(10) {
            Some(m) => m.checked_add(d),
            None => None,
        };
        match step {
            Some(next) => {
                acc = next;
            },
            None => {
                proof {
                    assert(spec_digits_val_upto(s@, i + 1) > u64::MAX);
                    if spec_all_digits(s@) {
                        lemma_digits_val_mono(s@, i + 1, n as int);
                        assert(spec_digits_val(s@) > u64::MAX);
                    }
                }
                return None;
            },
        }
        i = i + 1;
    }
    proof {
        assert(spec_all_digits(s@));
    }
    Some(acc)
}

/// What taking the thread identifier out of a URL yields: the parsed number
/// after the API prefix, or nothing when the prefix or a valid number is
/// missing.
pub open spec fn spec_extract_thread_id(url: Seq<char>) -> Option<u64> {
    if spec_has_prefix(url, "/api/thread/"@) {
        spec_parse_u64(url.skip("/api/thread/"@.len() as int))
    } else {
        None
    }
}

/// Takes the thread identifier out of an API path, as
/// `spec_extract_thread_id` describes.
pub fn extract_thread_id(url: &str) -> (r: Option<u64>)
    ensures
        r == spec_extract_thread_id(url@),
{
    if !str_has_prefix(url, "/api/thread/") {
        return None;
    }
    let plen = "/api/thread/".unicode_len();
    let sn = url.unicode_len();
    let rest = url.substring_char(plen, sn);
    proof {
        assert(rest@ =~= url@.skip("/api/thread/"@.len() as int));
    }
    parse_u64_digits(rest)
}

/// Which file a URL names: the root index document for `/`, else the path
/// with its leading slash removed.
pub open spec fn spec_static_file_path(url: Seq<char>) -> Seq<char> {
    if url == "/"@ {
        "index.html"@
    } else {
        url.skip(1)
    }
}

/// Resolves a URL to the file it names, as `spec_static_file_path`
/// describes.
pub fn static_file_path(url: &str) -> (r: String)
    requires
        url@.len() >= 1,
    ensures
        r@ == spec_static_file_path(url@),
{
    let sn = url.unicode_len();
    if crate::textutil::str_eq(url, "/") {
        let mut r = String::new();
        append_str(&mut r, "index.html");
        r
    } else {
        let rest = url.substring_char(1, sn);
        proof {
            assert(rest@ =~= url@.skip(1));
        }
        rest.to_owned()
    }
}

/// The content type served for a file: decided by the path's suffix, with a
/// generic fallback.
pub open spec fn spec_content_type(path: Seq<char>) -> Seq<char> {
    if spec_has_suffix(path, ".html"@) {
        "text/html; charset=utf-8"@
    } else if spec_has_suffix(path, ".css"@) {
        "text/css"@
    } else if spec_has_suffix(path, ".js"@) {
        "application/javascript"@
    } else {
        "application/octet-stream"@
    }
}

/// Picks the content type for a file, as `spec_content_type` describes.
pub fn get_content_type(file_path: &str) -> (r: String)
    ensures
        r@ == spec_content_type(file_path@),
{
    let mut r = String::new();
    if str_has_suffix(file_path, ".html") {
        append_str(&mut r, "text/html; charset=utf-8");
    } else if str_has_suffix(file_path, ".css") {
        append_str(&mut r, "text/css");
    } else if str_has_suffix(file_path, ".js") {
        append_str(&mut r, "application/javascript");
    } else {
        append_str(&mut r, "application/octet-stream");
    }
    r
}

/// The character for one hexadecimal digit, lower case.
pub open spec fn spec_hex_digit(d: int) -> char {
    if d == 0 {
        '0'
    } else if d == 1 {
        '1'
    } else if d == 2 {
        '2'
    } else if d == 3 {
        '3'
    } else if d == 4 {
        '4'
    } else if d == 5 {
        '5'
    } else if d == 6 {
        '6'
    } else if d == 7 {
        '7'
    } else if d == 8 {
        '8'
    } else if d == 9 {
        '9'
    } else if d == 10 {
        'a'
    } else if d == 11 {
        'b'
    } else if d == 12 {
        'c'
    } else if d == 13 {
        'd'
    } else if d == 14 {
        'e'
    } else {
        'f'
    }
}

fn hex_digit_char(d: u32) -> (c: char)
    requires
        d < 16,
    ensures
        c == spec_hex_digit(d as int),
{
    if d == 0 {
        '0'
    } else if d == 1 {
        '1'
    } else if d == 2 {
        '2'
    } else if d == 3 {
        '3'
    } else if d == 4 {
        '4'
    } else if d == 5 {
        '5'
    } else if d == 6 {
        '6'
    } else if d == 7 {
        '7'
    } else if d == 8 {
        '8'
    } else if d == 9 {
        '9'
    } else if d == 10 {
        'a'
    } else if d == 11 {
        'b'
    } else if d == 12 {
        'c'
    } else if d == 13 {
        'd'
    } else if d == 14 {
        'e'
    } else {
        'f'
    }
}

/// The JSON escape of one character: quote and backslash escaped, the named
/// control escapes where JSON has them, any other control character as a
/// four-digit escape, and everything else as it stands.
pub open spec fn spec_json_escape_char(c: char) -> Seq<char> {
    if c == '"' {
        "\\\""@
    } else if c == '\\' {
        "\\\\"@
    } else if c == '\n' {
        "\\n"@
    } else if c == '\r' {
        "\\r"@
    } else if c == '\t' {
        "\\t"@
    } else if c == '\u{8}' {
        "\\b"@
    } else if c == '\u{c}' {
        "\\f"@
    } else if (c as u32) < 32 {
        "\\u00"@ + seq![
            spec_hex_digit(((c as u32) / 16) as int),
            spec_hex_digit(((c as u32) % 16) as int),
        ]
    } else {
        seq![c]
    }
}

/// The JSON escape of the first `k` characters of `s`.
pub open spec fn spec_json_escape_upto(s: Seq<char>, k: int) -> Seq<char>
    decreases k,
{
    if k <= 0 {
        Seq::empty()
    } else {
        spec_json_escape_upto(s, k - 1) + spec_json_escape_char(s[k - 1])
    }
}

/// A JSON string literal: the escaped text between quotes.
pub open spec fn spec_json_string(s: Seq<char>) -> Seq<char> {
    "\""@ + spec_json_escape_upto(s, s.len() as int) + "\""@
}

fn push_json_escaped(out: &mut String, s: &str)
    ensures
        final(out)@ == old(out)@ + spec_json_escape_upto(s@, s@.len() as int),
{
    let n = s.unicode_len();
    let mut i: usize = 0;
    while i < n
        invariant
            n == s@.len(),
            0 <= i <= n,
            out@ == old(out)@ + spec_json_escape_upto(s@, i as int),
        decreases n - i,
    {
        let c = s.get_char(i);
        if c == '"' {
            append_str(out, "\\\"");
        } else if c == '\\' {
            append_str(out, "\\\\");
        } else if c == '\n' {
            append_str(out, "\\n");
        } else if c == '\r' {
            append_str(out, "\\r");
        } else if c == '\t' {
            append_str(out, "\\t");
        } else if c == '\u{8}' {
            append_str(out, "\\b");
        } else if c == '\u{c}' {
            append_str(out, "\\f");
        } else if (c as u32) < 32 {
            append_str(out, "\\u00");
            push_char(out, hex_digit_char((c as u32) / 16));
            push_char(out, hex_digit_char((c as u32) % 16));
        } else {
            push_char(out, c);
        }
        proof {
            assert(out@ =~= old(out)@ + spec_json_escape_upto(s@, i + 1));
        }
        i = i + 1;
    }
}

/// The comma-separated JSON string literals of the first `k` links.
pub open spec fn spec_videos_json_upto(urls: Seq<Seq<char>>, k: int) -> Seq<char>
    decreases k,
{
    if k <= 0 {
        Seq::empty()
    } else if k == 1 {
        spec_json_string(urls[0])
    } else {
        spec_videos_json_upto(urls, k - 1) + ","@ + spec_json_string(urls[k - 1])
    }
}

/// The API's success envelope: the flag and the array of resolved links.
pub open spec fn spec_json_success_body(urls: Seq<Seq<char>>) -> Seq<char> {
    "{\"success\":true,\"videos\":["@ + spec_videos_json_upto(urls, urls.len() as int) + "]}"@
}

/// The API's error envelope: the flag and the message.
pub open spec fn spec_json_error_body(message: Seq<char>) -> Seq<char> {
    "{\"success\":false,\"error\":"@ + spec_json_string(message) + "}"@
}

/// Builds the success envelope around the resolved links, as
/// `spec_json_success_body` describes.
pub fn json_success_body(video_urls: &Vec<String>) -> (r: String)
    ensures
        r@ == spec_json_success_body(video_urls.deep_view()),
{
    let ghost dv: Seq<Seq<char>> = video_urls.deep_view();
    let mut out = String::new();
    append_str(&mut out, "{\"success\":true,\"videos\":[");
    let n = video_urls.len();
    let mut i: usize = 0;
    while i < n
        invariant
            n == video_urls@.len(),
            dv == video_urls.deep_view(),
            dv.len() == n,
            0 <= i <= n,
            out@ == "{\"success\":true,\"videos\":["@ + spec_videos_json_upto(dv, i as int),
        decreases n - i,
    {
        proof {
            assert(dv[i as int] == video_urls@[i as int]@);
        }
        if i > 0 {
            append_str(&mut out, ",");
        }
        append_str(&mut out, "\"");
        push_json_escaped(&mut out, video_urls[i].as_str());
        append_str(&mut out, "\"");
        proof {
            assert(out@ =~= "{\"success\":true,\"videos\":["@ + spec_videos_json_upto(dv, i + 1));
        }
        i = i + 1;
    }
    append_str(&mut out, "]}");
    out
}

/// Builds the error envelope around a message, as `spec_json_error_body`
/// describes.
pub fn json_error_body(message: &str) -> (r: String)
    ensures
        r@ == spec_json_error_body(message@),
{
    let mut out = String::new();
    append_str(&mut out, "{\"success\":false,\"error\":");
    append_str(&mut out, "\"");
    push_json_escaped(&mut out, message);
    append_str(&mut out, "\"");
    append_str(&mut out, "}");
    proof {
        assert(out@ =~= spec_json_error_body(message@));
    }
    out
}

} // verus!
