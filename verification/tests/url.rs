use hntui::url::{display_url, extract_url, group_of, URL_GROUP, URL_PATTERN};

#[test]
fn the_host_stands_between_the_slashes() {
    assert_eq!(extract_url("https://example.com/a/b"), Some("example.com"));
    assert_eq!(extract_url("http://news.ycombinator.com/item?id=1"), Some("news.ycombinator.com"));
    assert_eq!(extract_url("https://example.com"), Some("example.com"));
    assert_eq!(extract_url("ftp://files.example.org/pub/"), Some("files.example.org"));
}

#[test]
fn the_host_differs_from_the_link() {
    let link = "https://example.com/a/b";
    let host = extract_url(link);
    assert_ne!(host, Some(link));
    assert_ne!(host, None);
}

#[test]
fn a_link_without_two_slashes_has_no_host() {
    assert_eq!(extract_url(""), None);
    assert_eq!(extract_url("example.com"), None);
    assert_eq!(extract_url("example.com/a/b"), None);
    assert_eq!(extract_url("mailto:someone@example.com"), None);
}

#[test]
fn two_slashes_at_the_start_are_no_host() {
    assert_eq!(extract_url("//example.com"), None);
}

#[test]
fn the_last_two_slashes_count() {
    assert_eq!(extract_url("http://a.com//x/y"), Some("x"));
    assert_eq!(extract_url("a///b"), Some("b"));
}

#[test]
fn nothing_after_the_slashes_is_an_empty_host() {
    assert_eq!(extract_url("https://"), Some(""));
    assert_eq!(extract_url("https:///path"), Some("path"));
    assert_eq!(extract_url("https://?q"), Some("?q"));
}

#[test]
fn the_link_is_shown_where_no_host_is_found() {
    assert_eq!(display_url("example.com/a", None), "example.com/a");
    assert_eq!(display_url("https://example.com/a", Some("example.com")), "example.com");
    assert_eq!(display_url("", None), "");
    let link = "https://example.com/a/b";
    assert_eq!(display_url(link, extract_url(link)), "example.com");
    let link = "no host here";
    assert_eq!(display_url(link, extract_url(link)), "no host here");
}

#[test]
fn the_group_is_taken_from_a_match_that_has_it() {
    assert_eq!(group_of(Some(Some("host"))), Some("host"));
    assert_eq!(group_of(Some(Some(""))), Some(""));
    assert_eq!(group_of(Some(None)), None);
    assert_eq!(group_of(None), None);
}

#[test]
fn the_pattern_is_one_that_compiles_and_has_the_group() {
    let pattern = regex::Regex::new(URL_PATTERN).unwrap();
    assert!(pattern.capture_names().any(|name| name == Some(URL_GROUP)));
    for link in ["https://example.com/a/b", "a///b", "plain", "//x", "https://"] {
        let expected = pattern.captures(link).and_then(|c| c.name(URL_GROUP)).map(|m| m.as_str());
        assert_eq!(extract_url(link), expected);
    }
}
