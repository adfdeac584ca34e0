//! The host part of a link, as shown after a title.

use vstd::prelude::*;

verus! {

/// The error of the `regex` crate, returned for a pattern that does not compile.
#[verifier::external_type_specification]
#[verifier::external_body]
pub struct ExRegexError(regex::Error);

/// The pattern by which the host is found: anything, two slashes, and then the
/// group `url`, which runs up to the next slash.
pub const URL_PATTERN: &'static str = ".+//(?P<url>[^/]*)";

/// The name of the group that holds the host.
pub const URL_GROUP: &'static str = "url";

/// Whether the `regex` crate compiles the pattern.
pub uninterp spec fn regex_compiles(pattern: Seq<char>) -> bool;

/// What the first match of the pattern in the text gives for the named group:
/// `None` where the pattern matches nowhere, `Some(None)` where it matches and
/// the group is not part of the match or not a group of the pattern, and
/// otherwise the text that the group matched.
pub uninterp spec fn regex_capture(pattern: Seq<char>, group: Seq<char>, text: Seq<char>) -> Option<
    Option<Seq<char>>,
>;

/// The text of a group, as a sequence of characters.
pub open spec fn group_view(group: Option<&str>) -> Option<Seq<char>> {
    match group {
        Some(text) => Some(text@),
        None => None,
    }
}

/// The outcome of a search for a group, as sequences of characters.
pub open spec fn capture_view(found: Option<Option<&str>>) -> Option<Option<Seq<char>>> {
    match found {
        Some(group) => Some(group_view(group)),
        None => None,
    }
}

/// Calls `regex::Regex::new` on the pattern and, where it compiles,
/// `Regex::captures` on the text, `Captures::name` on the group's name and
/// `Match::as_str` on what that gives.
///
/// Trusted: that the outcome is the same for the same three texts. It is an
/// error exactly where the pattern does not compile.
#[verifier::external_body]
fn capture_group<'h>(pattern: &str, group: &str, text: &'h str) -> (found: Result<
    Option<Option<&'h str>>,
    regex::Error,
>)
    ensures
        found is Ok <==> regex_compiles(pattern@),
        found matches Ok(m) ==> capture_view(m) == regex_capture(pattern@, group@, text@),
{
    let re = regex::Regex::new(pattern)?;
    Ok(re.captures(text).map(|c| c.name(group).map(|m| m.as_str())))
}

/// The text of the group where the search found a match and the group took
/// part in it.
pub open spec fn matched_group(found: Option<Option<Seq<char>>>) -> Option<Seq<char>> {
    match found {
        Some(Some(text)) => Some(text),
        _ => None,
    }
}

/// The host of a link: what the group `url` of `URL_PATTERN` matches in it.
pub open spec fn url_host(url: Seq<char>) -> Option<Seq<char>> {
    if regex_compiles(URL_PATTERN@) {
        matched_group(regex_capture(URL_PATTERN@, URL_GROUP@, url))
    } else {
        None
    }
}

/// What is shown for a link: its host where it has one, the whole link
/// otherwise.
pub open spec fn shown_url(url: Seq<char>, host: Option<Seq<char>>) -> Seq<char> {
    match host {
        Some(host) => host,
        None => url,
    }
}

/// Picks the group's text out of the outcome of a search.
pub fn group_of<'h>(found: Option<Option<&'h str>>) -> (group: Option<&'h str>)
    ensures
        group_view(group) == matched_group(capture_view(found)),
{
    match found {
        Some(capture) => {
            if let Some(text) = capture {
                Some(text)
            } else {
                None
            }
        },
        None => None,
    }
}

/// The host of a link, if the link has the shape of `URL_PATTERN`.
pub fn extract_url(url: &str) -> (host: Option<&str>)
    ensures
        group_view(host) == url_host(url@),
{
    match capture_group(URL_PATTERN, URL_GROUP, url) {
        Ok(found) => group_of(found),
        Err(_) => None,
    }
}

/// What is shown for a link, given the host that was found in it.
pub fn display_url<'a>(url: &'a str, host: Option<&'a str>) -> (shown: &'a str)
    ensures
        shown@ == shown_url(url@, group_view(host)),
{
    match host {
        Some(host) => host,
        None => url,
    }
}

} // verus!
