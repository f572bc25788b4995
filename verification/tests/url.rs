use routeupd::url::{fallback_input, parse_url, UrlError};

#[test]
fn test_parse_url() {
    let gh_abbrev = parse_url("github.com");
    assert_eq!(gh_abbrev.unwrap().as_str(), "https://github.com/");

    let gh_full = parse_url("https://github.com/linus");
    assert_eq!(gh_full.unwrap().as_str(), "https://github.com/linus");
}

#[test]
fn a_url_is_normalized() {
    assert_eq!(parse_url("HTTP://Example.COM:80/a/../b").unwrap().as_str(), "http://example.com/b");
    assert_eq!(
        parse_url("example.com/list.txt?x=1").unwrap().as_str(),
        "https://example.com/list.txt?x=1"
    );
}

#[test]
fn a_text_with_a_scheme_of_its_own_is_taken_as_it_stands() {
    // `localhost` is read as the scheme here, as the URL grammar has it.
    assert_eq!(parse_url("localhost:8080").unwrap().as_str(), "localhost:8080");
    assert_eq!(parse_url("ftp://example.com").unwrap().as_str(), "ftp://example.com/");
}

#[test]
fn the_error_is_that_of_the_second_reading() {
    assert_eq!(parse_url(""), Err(UrlError { reason: String::from("empty host") }));
    assert_eq!(
        parse_url("exa mple.com"),
        Err(UrlError { reason: String::from("invalid international domain name") })
    );
    // With a colon the text has a scheme of its own and is read as it stands.
    assert_eq!(parse_url("example.com:99999").unwrap().as_str(), "example.com:99999");
}

#[test]
fn the_fallback_is_tried_only_after_a_failure() {
    let read = parse_url("https://example.com");
    assert!(read.is_ok());
    assert_eq!(fallback_input("https://example.com", &read), None);
    assert_eq!(fallback_input("anything", &read), None);
    let failed = Err(UrlError { reason: String::from("relative URL without a base") });
    assert_eq!(fallback_input("github.com", &failed), Some(String::from("https://github.com")));
    assert_eq!(fallback_input("", &failed), Some(String::from("https://")));
}
