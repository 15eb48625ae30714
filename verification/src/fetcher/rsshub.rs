//! RSSHub endpoints.
use vstd::prelude::*;
use vstd::string::*;
use crate::text::{
    char_run_end, char_run_end_exec, char_run_start, char_run_start_exec, chars_of, starts_with,
    starts_with_exec, string_of_range, trim_end_char, trim_start_char,
};

verus! {

/// The public RSSHub instance used when a source names no instance.
pub const DEFAULT_RSSHUB_URL: &'static str = "https://rsshub.app";

/// The URL of an RSSHub route: a full `http(s)://` path is used as it is
/// (no double joining); otherwise the base and the path are joined with
/// exactly one `/` between them.
pub open spec fn rsshub_url(base_url: Seq<char>, path: Seq<char>) -> Seq<char> {
    if starts_with(path, "http://"@) || starts_with(path, "https://"@) {
        path
    } else {
        trim_end_char(base_url, '/') + "/"@ + trim_start_char(path, '/')
    }
}

/// Builds the URL of an RSSHub route.
pub fn build_rsshub_url(base_url: &str, path: &str) -> (r: String)
    ensures
        r@ == rsshub_url(base_url@, path@),
{
    let pv = chars_of(path);
    let http = chars_of("http://");
    let https = chars_of("https://");
    if starts_with_exec(pv.as_slice(), http.as_slice()) || starts_with_exec(pv.as_slice(), https.as_slice()) {
        return String::from_str(path);
    }
    let bv = chars_of(base_url);
    let be = char_run_start_exec(bv.as_slice(), '/');
    let ps = char_run_end_exec(pv.as_slice(), '/');
    let mut r = string_of_range(bv.as_slice(), 0, be);
    r.append("/");
    let rest = string_of_range(pv.as_slice(), ps, pv.len());
    r.append(rest.as_str());
    assert(bv@.subrange(0, be as int) =~= trim_end_char(base_url@, '/'));
    assert(pv@.subrange(ps as int, pv@.len() as int) =~= trim_start_char(path@, '/'));
    r
}

/// The RSSHub route of an X/Twitter user's timeline.
pub fn twitter_user_path(username: &str) -> (r: String)
    ensures
        r@ == "twitter/user/"@ + username@,
{
    let mut r = String::from_str("twitter/user/");
    r.append(username);
    r
}

} // verus!
