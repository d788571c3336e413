use openring::articles::{
    articles_of_feed, collect_articles, newest_articles, resolve, sanitize, sort_newest_first,
    Article, TIMESTAMP_MAX, TIMESTAMP_MIN,
};
use openring::error::OpenringError;
use openring::feed::{EntryData, FeedData, LinkData, TextData};

const URL: &str = "https://blog.example.com/feed.xml";

fn link(href: &str, rel: Option<&str>) -> LinkData {
    LinkData { href: href.to_string(), rel: rel.map(String::from) }
}

fn entry(n: i64) -> EntryData {
    EntryData {
        links: vec![link(&format!("https://blog.example.com/{n}"), Some("alternate"))],
        title: Some(format!("Post {n}")),
        published: Some(n),
        updated: None,
        summary: Some(format!("Summary {n}")),
        content: None,
    }
}

fn feed(entries: Vec<EntryData>) -> FeedData {
    FeedData {
        title: Some(TextData { content: "A Blog".to_string(), src: None }),
        links: vec![link("https://blog.example.com/feed.xml", Some("self")), link("https://blog.example.com/", Some("alternate"))],
        entries,
    }
}

fn article(n: i64) -> Article {
    Article {
        link: format!("https://blog.example.com/{n}"),
        title: format!("Post {n}"),
        summary: format!("Summary {n}"),
        source_link: "https://blog.example.com/".to_string(),
        source_title: "A Blog".to_string(),
        timestamp: n,
    }
}

#[test]
fn timestamp_limits_are_those_of_jiff() {
    assert_eq!(TIMESTAMP_MIN, jiff::Timestamp::MIN.as_second());
    assert_eq!(TIMESTAMP_MAX, jiff::Timestamp::MAX.as_second());
    assert!(jiff::Timestamp::from_second(TIMESTAMP_MIN).is_ok());
    assert!(jiff::Timestamp::from_second(TIMESTAMP_MAX).is_ok());
    assert!(jiff::Timestamp::from_second(TIMESTAMP_MIN - 1).is_err());
    assert!(jiff::Timestamp::from_second(TIMESTAMP_MAX + 1).is_err());
}

#[test]
fn links_are_resolved_against_the_origin_of_the_feed() {
    assert_eq!(resolve("https://other.example/x", URL), Ok("https://other.example/x".to_string()));
    assert_eq!(resolve("/posts/1", URL), Ok("https://blog.example.com/posts/1".to_string()));
    assert_eq!(
        resolve("/posts/1", "http://blog.example.com:8080/a/b/feed.xml"),
        Ok("http://blog.example.com:8080/posts/1".to_string())
    );
    assert_eq!(
        resolve("https://", URL),
        Err(OpenringError::UrlParseError("empty host".to_string()))
    );
    assert_eq!(
        resolve("/posts/1", "not a url"),
        Err(OpenringError::UrlParseError("relative URL without a base".to_string()))
    );
}

#[test]
fn summaries_are_made_safe() {
    assert_eq!(sanitize("XSS<script>attack</script>"), "XSS");
    assert_eq!(sanitize("  <p>Hello &amp; goodbye</p>\n"), "<p>Hello & goodbye</p>");
    assert_eq!(sanitize("a &lt; b"), "a < b");
    assert_eq!(sanitize(""), "");
    assert_eq!(sanitize("   "), "");
    assert_eq!(sanitize("plain"), "plain");
}

#[test]
fn articles_of_a_feed_in_entry_order() {
    let f = feed(vec![entry(3), entry(1), entry(2)]);
    assert_eq!(articles_of_feed(&f, URL, 5, None), Ok(vec![article(3), article(1), article(2)]));
    assert_eq!(articles_of_feed(&f, URL, 3, None), Ok(vec![article(3), article(1), article(2)]));
    assert_eq!(articles_of_feed(&f, URL, 2, None), Ok(vec![article(3), article(1)]));
    assert_eq!(articles_of_feed(&f, URL, 1, None), Ok(vec![article(3)]));
    assert_eq!(articles_of_feed(&f, URL, 0, None), Ok(Vec::new()));
    assert_eq!(articles_of_feed(&feed(Vec::new()), URL, 5, None), Ok(Vec::new()));
}

#[test]
fn articles_later_than_before_are_left_out() {
    let f = feed(vec![entry(3), entry(1), entry(2)]);
    assert_eq!(articles_of_feed(&f, URL, 5, Some(2)), Ok(vec![article(1), article(2)]));
    assert_eq!(articles_of_feed(&f, URL, 1, Some(2)), Ok(Vec::new()));
    assert_eq!(articles_of_feed(&f, URL, 5, Some(0)), Ok(Vec::new()));
}

#[test]
fn entries_without_title_date_or_address_are_passed_over() {
    let no_title = EntryData { title: None, ..entry(1) };
    let no_date = EntryData { published: None, updated: None, ..entry(2) };
    let bad_link = EntryData { links: vec![link("https://", None)], ..entry(3) };
    let updated_only = EntryData { published: None, updated: Some(4), ..entry(4) };
    let f = feed(vec![no_title, no_date, bad_link, updated_only]);
    assert_eq!(articles_of_feed(&f, URL, 10, None), Ok(vec![article(4)]));
}

#[test]
fn published_date_comes_before_updated_date() {
    let both = EntryData { published: Some(5), updated: Some(9), ..entry(5) };
    assert_eq!(articles_of_feed(&feed(vec![both]), URL, 10, None), Ok(vec![article(5)]));
}

#[test]
fn entry_links_prefer_alternate_and_fall_back_to_the_first() {
    let e = EntryData {
        links: vec![link("https://blog.example.com/other", Some("related")), link("/1", Some("alternate"))],
        ..entry(1)
    };
    let got = articles_of_feed(&feed(vec![e]), URL, 10, None).unwrap();
    assert_eq!(got[0].link, "https://blog.example.com/1");
    let e = EntryData {
        links: vec![link("/first", None), link("https://blog.example.com/second", Some("related"))],
        ..entry(1)
    };
    let got = articles_of_feed(&feed(vec![e]), URL, 10, None).unwrap();
    assert_eq!(got[0].link, "https://blog.example.com/first");
}

#[test]
fn entry_without_links_is_a_failure() {
    let e = EntryData { links: Vec::new(), title: None, ..entry(1) };
    assert_eq!(
        articles_of_feed(&feed(vec![entry(2), e, entry(3)]), URL, 10, None),
        Err(OpenringError::FeedBadTitle(URL.to_string()))
    );
    assert_eq!(
        articles_of_feed(&feed(vec![entry(2), EntryData { links: Vec::new(), ..entry(1) }]), URL, 1, None),
        Ok(vec![article(2)])
    );
}

#[test]
fn date_outside_the_timestamp_range_is_a_failure() {
    let e = EntryData { published: Some(TIMESTAMP_MAX + 1), ..entry(1) };
    assert_eq!(
        articles_of_feed(&feed(vec![e]), URL, 10, None),
        Err(OpenringError::CivilDateError(TIMESTAMP_MAX + 1))
    );
    let e = EntryData { published: Some(TIMESTAMP_MIN - 1), ..entry(1) };
    assert_eq!(
        articles_of_feed(&feed(vec![e]), URL, 10, Some(0)),
        Err(OpenringError::CivilDateError(TIMESTAMP_MIN - 1))
    );
    let e = EntryData { published: Some(TIMESTAMP_MAX), ..entry(1) };
    assert!(articles_of_feed(&feed(vec![e]), URL, 10, None).is_ok());
}

#[test]
fn summary_falls_back_to_content_and_then_to_nothing() {
    let e = EntryData { summary: None, content: Some(" <b>body</b> ".to_string()), ..entry(1) };
    assert_eq!(articles_of_feed(&feed(vec![e]), URL, 10, None).unwrap()[0].summary, "<b>body</b>");
    let e = EntryData { summary: None, content: None, ..entry(1) };
    assert_eq!(articles_of_feed(&feed(vec![e]), URL, 10, None).unwrap()[0].summary, "");
    let e = EntryData { summary: Some("s".to_string()), content: Some("c".to_string()), ..entry(1) };
    assert_eq!(articles_of_feed(&feed(vec![e]), URL, 10, None).unwrap()[0].summary, "s");
}

#[test]
fn source_title_falls_back_to_the_domain() {
    let mut f = feed(vec![entry(1)]);
    f.title = Some(TextData { content: String::new(), src: None });
    assert_eq!(articles_of_feed(&f, URL, 10, None).unwrap()[0].source_title, "blog.example.com");
    assert_eq!(
        articles_of_feed(&f, "https://127.0.0.1/feed.xml", 10, None),
        Err(OpenringError::FeedBadTitle("https://127.0.0.1/feed.xml".to_string()))
    );
    f.title = None;
    assert_eq!(articles_of_feed(&f, URL, 10, None), Err(OpenringError::FeedBadTitle(URL.to_string())));
}

#[test]
fn source_link_comes_from_title_then_alternate_then_any_but_self() {
    let mut f = feed(vec![entry(1)]);
    f.title = Some(TextData { content: "A Blog".to_string(), src: Some("/about".to_string()) });
    assert_eq!(articles_of_feed(&f, URL, 10, None).unwrap()[0].source_link, "https://blog.example.com/about");
    f.title = Some(TextData { content: "A Blog".to_string(), src: None });
    assert_eq!(articles_of_feed(&f, URL, 10, None).unwrap()[0].source_link, "https://blog.example.com/");
    f.links = vec![link("https://blog.example.com/feed.xml", Some("self")), link("/home", None)];
    assert_eq!(articles_of_feed(&f, URL, 10, None).unwrap()[0].source_link, "https://blog.example.com/home");
    f.links = vec![link("https://blog.example.com/feed.xml", Some("self"))];
    assert_eq!(articles_of_feed(&f, URL, 10, None), Err(OpenringError::FeedBadTitle(URL.to_string())));
    f.links = vec![link("https://", Some("alternate"))];
    assert_eq!(
        articles_of_feed(&f, URL, 10, None),
        Err(OpenringError::UrlParseError("empty host".to_string()))
    );
}

#[test]
fn articles_are_sorted_newest_first() {
    let sorted = sort_newest_first(vec![article(2), article(5), article(1), article(4), article(3)]);
    assert_eq!(sorted, vec![article(5), article(4), article(3), article(2), article(1)]);
    assert_eq!(sort_newest_first(Vec::new()), Vec::<Article>::new());
    let same = sort_newest_first(vec![article(1), article(1), article(2), article(1)]);
    let stamps: Vec<i64> = same.iter().map(|a| a.timestamp).collect();
    assert_eq!(stamps, vec![2, 1, 1, 1]);
}

#[test]
fn the_newest_articles_of_all_feeds_are_shown() {
    let feeds = vec![
        (feed(vec![entry(10), entry(7), entry(1)]), URL.to_string()),
        (feed(vec![entry(9), entry(8)]), URL.to_string()),
        (feed(Vec::new()), URL.to_string()),
    ];
    assert_eq!(
        collect_articles(&feeds, 2, None),
        Ok(vec![article(10), article(7), article(9), article(8)])
    );
    assert_eq!(newest_articles(&feeds, 2, 3, None), Ok(vec![article(10), article(9), article(8)]));
    assert_eq!(
        newest_articles(&feeds, 2, 10, None),
        Ok(vec![article(10), article(9), article(8), article(7)])
    );
    assert_eq!(newest_articles(&feeds, 1, 3, None), Ok(vec![article(10), article(9)]));
    assert_eq!(newest_articles(&feeds, 2, 0, None), Ok(Vec::new()));
    assert_eq!(newest_articles(&feeds, 3, 2, Some(8)), Ok(vec![article(8), article(7)]));
    assert_eq!(newest_articles(&Vec::new(), 3, 2, None), Ok(Vec::new()));
}

#[test]
fn one_bad_feed_fails_the_extraction() {
    let mut bad = feed(vec![entry(1)]);
    bad.title = None;
    let feeds = vec![(feed(vec![entry(10)]), URL.to_string()), (bad, "https://bad.example/".to_string())];
    assert_eq!(
        newest_articles(&feeds, 2, 3, None),
        Err(OpenringError::FeedBadTitle("https://bad.example/".to_string()))
    );
}
