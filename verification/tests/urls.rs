use openring::error::{FeedUrlError, OpenringError};
use openring::urls::{dedup_urls, gather_urls, normalize_url, parse_urls_from_file};
use url::Url;

fn strings(items: &[&str]) -> Vec<String> {
    items.iter().map(|s| s.to_string()).collect()
}

#[test]
fn urls_are_brought_into_normal_form() {
    assert_eq!(normalize_url("https://example.com"), Ok("https://example.com/".to_string()));
    assert_eq!(normalize_url("HTTPS://Example.COM/a/../b"), Ok("https://example.com/b".to_string()));
    for text in ["https://example.com/feed.xml?x=1#y", "http://[::1]:8080/", "mailto:a@example.com"] {
        assert_eq!(normalize_url(text), Ok(String::from(Url::parse(text).unwrap())));
    }
}

#[test]
fn what_is_no_url_is_refused_with_the_parser_s_words() {
    for text in ["", "   ", "/relative/path", "example.com/feed", "https://", "http://exa mple.com/"] {
        let want = Url::parse(text).unwrap_err().to_string();
        assert_eq!(normalize_url(text), Err(OpenringError::UrlParseError(want)), "input {text:?}");
    }
}

#[test]
fn relative_references_are_told_apart() {
    assert_eq!(
        normalize_url("/posts/1"),
        Err(OpenringError::UrlParseError("relative URL without a base".to_string()))
    );
    assert_eq!(normalize_url("https://"), Err(OpenringError::UrlParseError("empty host".to_string())));
}

#[test]
fn url_list_skips_comments() {
    let text = "# my feeds\nhttps://example.com/feed.xml\n  // not this one\nhttps://example.org\n";
    assert_eq!(
        parse_urls_from_file("feeds.txt", text),
        Ok(strings(&["https://example.com/feed.xml", "https://example.org/"]))
    );
    assert_eq!(parse_urls_from_file("feeds.txt", ""), Ok(Vec::new()));
    assert_eq!(parse_urls_from_file("feeds.txt", "# only\r\n// comments\r\n"), Ok(Vec::new()));
    assert_eq!(
        parse_urls_from_file("feeds.txt", "https://example.com/a\r\nhttps://example.com/b"),
        Ok(strings(&["https://example.com/a", "https://example.com/b"]))
    );
}

#[test]
fn url_list_stops_at_the_first_bad_line() {
    let text = "https://example.com/feed.xml\n\nnot a url\nalso bad\n";
    assert_eq!(
        parse_urls_from_file("feeds.txt", text),
        Err(OpenringError::FeedUrlError(FeedUrlError {
            name: "feeds.txt".to_string(),
            src: text.to_string(),
            line: 1,
            text: String::new(),
            help: "relative URL without a base".to_string(),
        }))
    );
    let text = "# ok\nhttps://\n";
    assert_eq!(
        parse_urls_from_file("list", text),
        Err(OpenringError::FeedUrlError(FeedUrlError {
            name: "list".to_string(),
            src: text.to_string(),
            line: 1,
            text: "https://".to_string(),
            help: "empty host".to_string(),
        }))
    );
}

#[test]
fn dedup_keeps_first_occurrences_in_order() {
    assert_eq!(dedup_urls(strings(&["b", "a", "b", "c", "a", "b"])), strings(&["b", "a", "c"]));
    assert_eq!(dedup_urls(Vec::new()), Vec::<String>::new());
    assert_eq!(dedup_urls(strings(&["x"])), strings(&["x"]));
    assert_eq!(dedup_urls(strings(&["x", "x", "x"])), strings(&["x"]));
}

#[test]
fn no_url_at_all_is_a_failure() {
    assert_eq!(gather_urls(Vec::new(), Vec::new()), Err(OpenringError::FeedMissing));
}

#[test]
fn given_and_listed_urls_are_put_together() {
    assert_eq!(
        gather_urls(strings(&["https://a.example/", "https://b.example/"]), strings(&["https://b.example/", "https://c.example/"])),
        Ok(strings(&["https://a.example/", "https://b.example/", "https://c.example/"]))
    );
    assert_eq!(gather_urls(Vec::new(), strings(&["https://c.example/"])), Ok(strings(&["https://c.example/"])));
    assert_eq!(gather_urls(strings(&["https://c.example/"]), Vec::new()), Ok(strings(&["https://c.example/"])));
}
