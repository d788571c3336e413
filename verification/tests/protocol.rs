use openring::entry::{CacheEntry, Instant};
use openring::error::OpenringError;
use openring::protocol::{
    normalize_etag, parse_retry_after, plan_fetch, respond, ConditionalHeaders, FetchEvent,
    FetchPlan, Response, DEFAULT_RETRY_AFTER_SECS, REQUEST_TIMEOUT_SECS,
};

const URL: &str = "https://example.com/feed.xml";

fn at(secs: i64) -> Instant {
    Instant { secs, nanos: 0 }
}

fn cached(body: Option<&str>) -> CacheEntry {
    CacheEntry {
        timestamp: at(1_000),
        retry_after: None,
        last_modified: Some("Mon, 01 Jan 2024 00:00:00 GMT".to_string()),
        etag: Some("\"v1\"".to_string()),
        body: body.map(String::from),
    }
}

fn answer(status: u16) -> Response {
    Response { status, etag: None, last_modified: None, retry_after: None, body: None }
}

#[test]
fn etag_is_quoted_once() {
    assert_eq!(normalize_etag("abc"), "\"abc\"");
    assert_eq!(normalize_etag("\"abc\""), "\"abc\"");
    assert_eq!(normalize_etag("W/\"abc\""), "W/\"abc\"");
}

#[test]
fn etag_edge_cases() {
    assert_eq!(normalize_etag(""), "\"\"");
    assert_eq!(normalize_etag("\""), "\"");
    assert_eq!(normalize_etag("\"\""), "\"\"");
    assert_eq!(normalize_etag("W/\""), "W/\"");
    assert_eq!(normalize_etag("W/abc"), "\"W/abc\"");
    assert_eq!(normalize_etag("\"abc"), "\"\"abc\"");
    assert_eq!(normalize_etag("abc\""), "\"abc\"\"");
    assert_eq!(normalize_etag("w/\"abc\""), "\"w/\"abc\"\"");
    assert_eq!(normalize_etag("é"), "\"é\"");
    for raw in ["abc", "\"abc\"", "W/\"abc\"", "", "\"", "W/abc", "abc\""] {
        let once = normalize_etag(raw);
        assert_eq!(normalize_etag(&once), once);
    }
}

#[test]
fn retry_after_is_integer_seconds_or_four_hours() {
    assert_eq!(DEFAULT_RETRY_AFTER_SECS, 4 * 60 * 60);
    assert_eq!(parse_retry_after(Some("120")), 120);
    assert_eq!(parse_retry_after(Some("0")), 0);
    assert_eq!(parse_retry_after(Some("-5")), -5);
    assert_eq!(parse_retry_after(None), 14_400);
    assert_eq!(parse_retry_after(Some("")), 14_400);
    assert_eq!(parse_retry_after(Some("1.5")), 14_400);
    assert_eq!(parse_retry_after(Some("Wed, 21 Oct 2015 07:28:00 GMT")), 14_400);
    assert_eq!(parse_retry_after(Some(" 120")), 14_400);
}

#[test]
fn request_timeout_is_thirty_seconds() {
    assert_eq!(REQUEST_TIMEOUT_SECS, 30);
}

#[test]
fn plan_without_entry_sends_a_plain_request() {
    assert_eq!(
        plan_fetch(None, at(5)),
        FetchPlan::SendRequest(ConditionalHeaders { if_modified_since: None, if_none_match: None })
    );
}

#[test]
fn plan_sends_the_validators_of_the_entry() {
    let entry = cached(Some("<rss/>"));
    assert_eq!(
        plan_fetch(Some(&entry), at(2_000)),
        FetchPlan::SendRequest(ConditionalHeaders {
            if_modified_since: Some("Mon, 01 Jan 2024 00:00:00 GMT".to_string()),
            if_none_match: Some("\"v1\"".to_string()),
        })
    );
    let only_etag = CacheEntry { last_modified: None, ..cached(None) };
    assert_eq!(
        plan_fetch(Some(&only_etag), at(2_000)),
        FetchPlan::SendRequest(ConditionalHeaders {
            if_modified_since: None,
            if_none_match: Some("\"v1\"".to_string()),
        })
    );
    let only_date = CacheEntry { etag: None, ..cached(None) };
    assert_eq!(
        plan_fetch(Some(&only_date), at(2_000)),
        FetchPlan::SendRequest(ConditionalHeaders {
            if_modified_since: Some("Mon, 01 Jan 2024 00:00:00 GMT".to_string()),
            if_none_match: None,
        })
    );
}

#[test]
fn waiting_entry_with_body_is_served_without_a_request() {
    let entry = CacheEntry { retry_after: Some(120), ..cached(Some("<rss/>")) };
    assert_eq!(plan_fetch(Some(&entry), at(1_000)), FetchPlan::UseCached("<rss/>".to_string()));
    assert_eq!(plan_fetch(Some(&entry), at(1_119)), FetchPlan::UseCached("<rss/>".to_string()));
    assert!(matches!(plan_fetch(Some(&entry), at(1_120)), FetchPlan::SendRequest(_)));
    assert!(matches!(plan_fetch(Some(&entry), at(5_000)), FetchPlan::SendRequest(_)));
}

#[test]
fn waiting_entry_without_body_sends_a_request() {
    let entry = CacheEntry { retry_after: Some(120), ..cached(None) };
    assert!(matches!(plan_fetch(Some(&entry), at(1_000)), FetchPlan::SendRequest(_)));
}

#[test]
fn waiting_does_not_overflow() {
    let entry = CacheEntry {
        timestamp: at(i64::MAX),
        retry_after: Some(i64::MAX),
        ..cached(Some("<rss/>"))
    };
    assert_eq!(plan_fetch(Some(&entry), at(i64::MAX)), FetchPlan::UseCached("<rss/>".to_string()));
    let past = CacheEntry { timestamp: at(i64::MIN), retry_after: Some(i64::MIN), ..cached(Some("x")) };
    assert!(matches!(plan_fetch(Some(&past), at(0)), FetchPlan::SendRequest(_)));
}

#[test]
fn ok_creates_an_entry() {
    let response = Response {
        status: 200,
        etag: Some("abc".to_string()),
        last_modified: Some("Tue, 02 Jan 2024 00:00:00 GMT".to_string()),
        retry_after: None,
        body: Some("<rss/>".to_string()),
    };
    let (entry, text) = respond(None, URL, FetchEvent::Answered(response), at(77));
    assert_eq!(text, Ok("<rss/>".to_string()));
    assert_eq!(
        entry,
        Some(CacheEntry {
            timestamp: at(77),
            retry_after: None,
            last_modified: Some("Tue, 02 Jan 2024 00:00:00 GMT".to_string()),
            etag: Some("\"abc\"".to_string()),
            body: Some("<rss/>".to_string()),
        })
    );
}

#[test]
fn ok_overwrites_validators_and_body() {
    let old = CacheEntry { retry_after: Some(60), ..cached(Some("old")) };
    let response = Response { body: Some("new".to_string()), ..answer(200) };
    let (entry, text) = respond(Some(old), URL, FetchEvent::Answered(response), at(2_000));
    assert_eq!(text, Ok("new".to_string()));
    assert_eq!(
        entry,
        Some(CacheEntry {
            timestamp: at(2_000),
            retry_after: Some(60),
            last_modified: None,
            etag: None,
            body: Some("new".to_string()),
        })
    );
}

#[test]
fn ok_without_body_is_an_empty_feed_and_keeps_the_entry() {
    let response = Response { etag: Some("new".to_string()), ..answer(200) };
    let (entry, text) = respond(Some(cached(Some("old"))), URL, FetchEvent::Answered(response), at(9));
    assert_eq!(text, Err(OpenringError::EmptyFeedError(URL.to_string())));
    assert_eq!(entry, Some(cached(Some("old"))));
}

#[test]
fn answer_without_body_creates_no_entry() {
    for status in [200u16, 304] {
        let response = Response { etag: Some("new".to_string()), ..answer(status) };
        let (entry, text) = respond(None, URL, FetchEvent::Answered(response), at(9));
        assert_eq!(text, Err(OpenringError::EmptyFeedError(URL.to_string())));
        assert_eq!(entry, None);
    }
}

#[test]
fn waiting_is_counted_in_nanoseconds() {
    let entry = CacheEntry {
        timestamp: Instant { secs: 1_000, nanos: 500_000_000 },
        retry_after: Some(2),
        ..cached(Some("<rss/>"))
    };
    let served = FetchPlan::UseCached("<rss/>".to_string());
    assert_eq!(plan_fetch(Some(&entry), Instant { secs: 1_002, nanos: 499_999_999 }), served);
    assert!(matches!(
        plan_fetch(Some(&entry), Instant { secs: 1_002, nanos: 500_000_000 }),
        FetchPlan::SendRequest(_)
    ));
}

#[test]
fn not_modified_reuses_the_cached_body() {
    let response = Response { body: Some(String::new()), ..answer(304) };
    let (entry, text) = respond(Some(cached(Some("<rss>kept</rss>"))), URL, FetchEvent::Answered(response), at(3_000));
    assert_eq!(text, Ok("<rss>kept</rss>".to_string()));
    assert_eq!(entry, Some(CacheEntry { timestamp: at(3_000), ..cached(Some("<rss>kept</rss>")) }));
}

#[test]
fn not_modified_takes_new_validators() {
    let response = Response {
        etag: Some("v2".to_string()),
        last_modified: Some("Wed, 03 Jan 2024 00:00:00 GMT".to_string()),
        ..answer(304)
    };
    let (entry, text) = respond(Some(cached(Some("kept"))), URL, FetchEvent::Answered(response), at(3_000));
    assert_eq!(text, Ok("kept".to_string()));
    assert_eq!(
        entry,
        Some(CacheEntry {
            timestamp: at(3_000),
            retry_after: None,
            last_modified: Some("Wed, 03 Jan 2024 00:00:00 GMT".to_string()),
            etag: Some("\"v2\"".to_string()),
            body: Some("kept".to_string()),
        })
    );
}

#[test]
fn not_modified_without_cached_body_is_an_empty_feed() {
    let (entry, text) = respond(Some(cached(None)), URL, FetchEvent::Answered(answer(304)), at(3_000));
    assert_eq!(text, Err(OpenringError::EmptyFeedError(URL.to_string())));
    assert_eq!(entry, Some(CacheEntry { timestamp: at(3_000), ..cached(None) }));
}

#[test]
fn not_modified_without_entry_takes_the_answer() {
    let response = Response { body: Some("text".to_string()), etag: Some("\"e\"".to_string()), ..answer(304) };
    let (entry, text) = respond(None, URL, FetchEvent::Answered(response), at(4));
    assert_eq!(text, Ok("text".to_string()));
    assert_eq!(
        entry,
        Some(CacheEntry {
            timestamp: at(4),
            retry_after: None,
            last_modified: None,
            etag: Some("\"e\"".to_string()),
            body: Some("text".to_string()),
        })
    );
}

#[test]
fn rate_limit_without_entry_fails() {
    let response = Response { retry_after: Some("120".to_string()), ..answer(429) };
    let (entry, text) = respond(None, URL, FetchEvent::Answered(response), at(10));
    assert_eq!(text, Err(OpenringError::RateLimitError(URL.to_string())));
    assert_eq!(entry, None);
}

#[test]
fn rate_limit_with_cached_body_serves_it() {
    let response = Response { retry_after: Some("120".to_string()), ..answer(429) };
    let (entry, text) = respond(Some(cached(Some("kept"))), URL, FetchEvent::Answered(response), at(5_000));
    assert_eq!(text, Ok("kept".to_string()));
    assert_eq!(
        entry,
        Some(CacheEntry { timestamp: at(5_000), retry_after: Some(120), ..cached(Some("kept")) })
    );
}

#[test]
fn rate_limit_without_header_waits_four_hours() {
    let (entry, text) = respond(Some(cached(Some("kept"))), URL, FetchEvent::Answered(answer(429)), at(5_000));
    assert_eq!(text, Ok("kept".to_string()));
    assert_eq!(entry.unwrap().retry_after, Some(14_400));
    let response = Response { retry_after: Some("soon".to_string()), ..answer(429) };
    let (entry, _) = respond(Some(cached(Some("kept"))), URL, FetchEvent::Answered(response), at(5_000));
    assert_eq!(entry.unwrap().retry_after, Some(14_400));
}

#[test]
fn rate_limit_with_entry_but_no_body_fails() {
    let response = Response { retry_after: Some("30".to_string()), ..answer(429) };
    let (entry, text) = respond(Some(cached(None)), URL, FetchEvent::Answered(response), at(5_000));
    assert_eq!(text, Err(OpenringError::RateLimitError(URL.to_string())));
    assert_eq!(entry, Some(CacheEntry { timestamp: at(5_000), retry_after: Some(30), ..cached(None) }));
}

#[test]
fn unexpected_status_names_url_and_code() {
    for status in [500u16, 403, 404, 201, 204, 301, 100, 0, 599, 65535] {
        let response = Response {
            etag: Some("zzz".to_string()),
            body: Some("an error page".to_string()),
            ..answer(status)
        };
        let (entry, text) = respond(Some(cached(Some("kept"))), URL, FetchEvent::Answered(response), at(8_000));
        assert_eq!(text, Err(OpenringError::UnexpectedStatusError { url: URL.to_string(), status }));
        assert_eq!(entry, Some(cached(Some("kept"))));
        let (entry, text) = respond(None, URL, FetchEvent::Answered(answer(status)), at(8_000));
        assert_eq!(text, Err(OpenringError::UnexpectedStatusError { url: URL.to_string(), status }));
        assert_eq!(entry, None);
    }
}

#[test]
fn transport_failure_keeps_the_entry() {
    let (entry, text) = respond(
        Some(cached(Some("kept"))),
        URL,
        FetchEvent::Failed("connection refused".to_string()),
        at(8_000),
    );
    assert_eq!(text, Err(OpenringError::RequestError("connection refused".to_string())));
    assert_eq!(entry, Some(cached(Some("kept"))));
}
