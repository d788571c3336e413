//! The conditional-request protocol for one feed URL.
//!
//! The protocol does no I/O. [`plan_fetch`] says whether a request has to be
//! sent and with which headers; [`respond`] says what an answer does to the
//! cache entry and which feed text, if any, it yields.

use vstd::prelude::*;
use vstd::string::*;
use crate::entry::{copy_text, text_of, CacheEntry, EntryModel, Instant, NANOS_PER_SEC};
use crate::error::{ErrorModel, OpenringError};
use crate::text::{i64_value, parse_i64};

verus! {

/// Status of an answer that carries the feed.
pub const STATUS_OK: u16 = 200;

/// Status of an answer that says the cached feed is still current.
pub const STATUS_NOT_MODIFIED: u16 = 304;

/// Status of an answer that asks the client to come back later.
pub const STATUS_TOO_MANY_REQUESTS: u16 = 429;

/// Seconds to stay away after a 429 that does not say how long: four hours.
pub const DEFAULT_RETRY_AFTER_SECS: i64 = 14400;

/// Seconds after which a request is given up.
pub const REQUEST_TIMEOUT_SECS: u64 = 30;

/// `s` begins and ends with a double quote.
pub open spec fn is_strong_tag(s: Seq<char>) -> bool {
    s.len() >= 1 && s[0] == '"' && s.last() == '"'
}

/// `s` begins with `W/"` and ends with a double quote.
pub open spec fn is_weak_tag(s: Seq<char>) -> bool {
    s.len() >= 3 && s[0] == 'W' && s[1] == '/' && s[2] == '"' && s.last() == '"'
}

/// An entity tag in its quoted form: as it is where it is already a strong
/// or a weak tag, else wrapped in double quotes.
pub open spec fn quoted_etag(s: Seq<char>) -> Seq<char> {
    if is_strong_tag(s) || is_weak_tag(s) {
        s
    } else {
        seq!['"'] + s + seq!['"']
    }
}

/// Brings an `ETag` header value into its quoted form.
pub fn normalize_etag(raw: &str) -> (r: String)
    ensures
        r@ == quoted_etag(raw@),
        is_strong_tag(r@) || is_weak_tag(r@),
{
    let n = raw.unicode_len();
    let closed = n >= 1 && raw.get_char(n - 1) == '"';
    let strong = closed && raw.get_char(0) == '"';
    let weak = closed && n >= 3 && raw.get_char(0) == 'W' && raw.get_char(1) == '/'
        && raw.get_char(2) == '"';
    if strong || weak {
        String::from_str(raw)
    } else {
        proof {
            reveal_strlit("\"");
        }
        let mut out = String::from_str("\"");
        out.append(raw);
        out.append("\"");
        assert(out@ =~= seq!['"'] + raw@ + seq!['"']);
        out
    }
}

/// Normalizing twice is normalizing once: a tag is never quoted a second time.
pub proof fn lemma_quoted_etag_idempotent(s: Seq<char>)
    ensures
        quoted_etag(quoted_etag(s)) == quoted_etag(s),
        is_strong_tag(quoted_etag(s)) || is_weak_tag(quoted_etag(s)),
{
    if !(is_strong_tag(s) || is_weak_tag(s)) {
        let q = seq!['"'] + s + seq!['"'];
        assert(q[0] == '"');
        assert(q.last() == '"');
    }
}

/// Seconds to stay away, as a `Retry-After` header value says: the integer
/// that it writes, or four hours where it is absent or writes none.
pub open spec fn retry_delay(header: Option<Seq<char>>) -> int {
    match header {
        Some(s) => match i64_value(s) {
            Some(v) => v as int,
            None => DEFAULT_RETRY_AFTER_SECS as int,
        },
        None => DEFAULT_RETRY_AFTER_SECS as int,
    }
}

/// Reads a `Retry-After` header value.
pub fn parse_retry_after(header: Option<&str>) -> (secs: i64)
    ensures
        secs == retry_delay(
            match header {
                Some(s) => Some(s@),
                None => None,
            },
        ),
{
    match header {
        Some(s) => match parse_i64(s) {
            Some(v) => v,
            None => DEFAULT_RETRY_AFTER_SECS,
        },
        None => DEFAULT_RETRY_AFTER_SECS,
    }
}

/// What the origin answered, as far as the protocol reads it.
#[derive(Debug, PartialEq, Eq)]
pub struct Response {
    /// The status code.
    pub status: u16,
    /// The `ETag` header, as it was sent.
    pub etag: Option<String>,
    /// The `Last-Modified` header, as it was sent.
    pub last_modified: Option<String>,
    /// The `Retry-After` header, as it was sent.
    pub retry_after: Option<String>,
    /// The text of the answer, where one could be read.
    pub body: Option<String>,
}

/// The mathematical value of a [`Response`].
pub ghost struct ResponseModel {
    pub status: int,
    pub etag: Option<Seq<char>>,
    pub last_modified: Option<Seq<char>>,
    pub retry_after: Option<Seq<char>>,
    pub body: Option<Seq<char>>,
}

impl View for Response {
    type V = ResponseModel;

    open spec fn view(&self) -> ResponseModel {
        ResponseModel {
            status: self.status as int,
            etag: text_of(self.etag),
            last_modified: text_of(self.last_modified),
            retry_after: text_of(self.retry_after),
            body: text_of(self.body),
        }
    }
}

/// How a request ended.
#[derive(Debug, PartialEq, Eq)]
pub enum FetchEvent {
    /// The origin answered.
    Answered(Response),
    /// No answer came: the connection failed, the name did not resolve or
    /// time ran out. The text says which.
    Failed(String),
}

/// The mathematical value of a [`FetchEvent`].
pub ghost enum EventModel {
    Answered(ResponseModel),
    Failed(Seq<char>),
}

impl View for FetchEvent {
    type V = EventModel;

    open spec fn view(&self) -> EventModel {
        match self {
            FetchEvent::Answered(r) => EventModel::Answered(r@),
            FetchEvent::Failed(m) => EventModel::Failed(m@),
        }
    }
}

/// The validators that make a request conditional. Each is there or not
/// on its own.
#[derive(Debug, PartialEq, Eq)]
pub struct ConditionalHeaders {
    /// Value for `If-Modified-Since`.
    pub if_modified_since: Option<String>,
    /// Value for `If-None-Match`.
    pub if_none_match: Option<String>,
}

/// The mathematical value of [`ConditionalHeaders`].
pub ghost struct HeadersModel {
    pub if_modified_since: Option<Seq<char>>,
    pub if_none_match: Option<Seq<char>>,
}

impl View for ConditionalHeaders {
    type V = HeadersModel;

    open spec fn view(&self) -> HeadersModel {
        HeadersModel {
            if_modified_since: text_of(self.if_modified_since),
            if_none_match: text_of(self.if_none_match),
        }
    }
}

/// What to do for a URL before anything is sent.
#[derive(Debug, PartialEq, Eq)]
pub enum FetchPlan {
    /// Send nothing: the origin asked to be left alone until later, and this
    /// cached feed text is served in the meantime.
    UseCached(String),
    /// Send a GET request with these headers.
    SendRequest(ConditionalHeaders),
}

/// The mathematical value of a [`FetchPlan`].
pub ghost enum PlanModel {
    UseCached(Seq<char>),
    SendRequest(HeadersModel),
}

impl View for FetchPlan {
    type V = PlanModel;

    open spec fn view(&self) -> PlanModel {
        match self {
            FetchPlan::UseCached(b) => PlanModel::UseCached(b@),
            FetchPlan::SendRequest(h) => PlanModel::SendRequest(h@),
        }
    }
}

/// The value of an optional entry.
pub open spec fn entry_view(entry: Option<CacheEntry>) -> Option<EntryModel> {
    match entry {
        Some(e) => Some(e@),
        None => None,
    }
}

/// The value of what a fetch yields: the feed text or the failure.
pub open spec fn yield_view(r: Result<String, OpenringError>) -> Result<Seq<char>, ErrorModel> {
    match r {
        Ok(b) => Ok(b@),
        Err(e) => Err(e@),
    }
}

/// At `now` the origin's request to stay away still holds.
pub open spec fn must_wait(e: EntryModel, now: Instant) -> bool {
    e.retry_after matches Some(r) && e.timestamp.since_epoch() + r * NANOS_PER_SEC
        > now.since_epoch()
}

/// The plan for a URL whose cache entry is `entry`, at `now`.
pub open spec fn planned(entry: Option<EntryModel>, now: Instant) -> PlanModel {
    match entry {
        Some(e) => if must_wait(e, now) && e.body is Some {
            PlanModel::UseCached(e.body->0)
        } else {
            PlanModel::SendRequest(
                HeadersModel { if_modified_since: e.last_modified, if_none_match: e.etag },
            )
        },
        None => PlanModel::SendRequest(
            HeadersModel { if_modified_since: None, if_none_match: None },
        ),
    }
}

/// The `ETag` of an answer in quoted form.
pub open spec fn fresh_etag(r: ResponseModel) -> Option<Seq<char>> {
    match r.etag {
        Some(t) => Some(quoted_etag(t)),
        None => None,
    }
}

/// The entry that an answer with the feed in it leaves behind.
pub open spec fn entry_from_answer(entry: Option<EntryModel>, r: ResponseModel, now: Instant) -> EntryModel {
    EntryModel {
        timestamp: now,
        retry_after: match entry {
            Some(e) => e.retry_after,
            None => None,
        },
        last_modified: r.last_modified,
        etag: fresh_etag(r),
        body: r.body,
    }
}

/// The entry that "not modified" leaves behind: the cached feed text stays,
/// and each validator stays unless the answer brings a new one.
pub open spec fn entry_revalidated(e: EntryModel, r: ResponseModel, now: Instant) -> EntryModel {
    EntryModel {
        timestamp: now,
        retry_after: e.retry_after,
        last_modified: if r.last_modified is Some {
            r.last_modified
        } else {
            e.last_modified
        },
        etag: if r.etag is Some {
            fresh_etag(r)
        } else {
            e.etag
        },
        body: e.body,
    }
}

/// The entry that "too many requests" leaves behind.
pub open spec fn entry_rate_limited(e: EntryModel, r: ResponseModel, now: Instant) -> EntryModel {
    EntryModel {
        timestamp: now,
        retry_after: Some(retry_delay(r.retry_after)),
        last_modified: e.last_modified,
        etag: e.etag,
        body: e.body,
    }
}

/// The answer is one that carries the feed itself: "ok", or "not modified"
/// where nothing is cached that could be meant.
pub open spec fn brings_feed(entry: Option<EntryModel>, r: ResponseModel) -> bool {
    r.status == STATUS_OK || (r.status == STATUS_NOT_MODIFIED && entry is None)
}

/// The cache entry of a URL after `event`, where it was `entry` before.
///
/// An answer that should carry the feed and has no text leaves the entry as
/// it was and creates none: an entry is never made or changed into one
/// without a feed text.
pub open spec fn entry_after(entry: Option<EntryModel>, event: EventModel, now: Instant) -> Option<
    EntryModel,
> {
    match event {
        EventModel::Answered(r) => if brings_feed(entry, r) {
            if r.body is Some {
                Some(entry_from_answer(entry, r, now))
            } else {
                entry
            }
        } else if r.status == STATUS_NOT_MODIFIED {
            match entry {
                Some(e) => Some(entry_revalidated(e, r, now)),
                None => None,
            }
        } else if r.status == STATUS_TOO_MANY_REQUESTS {
            match entry {
                Some(e) => Some(entry_rate_limited(e, r, now)),
                None => None,
            }
        } else {
            entry
        },
        EventModel::Failed(_) => entry,
    }
}

/// The feed text if there is one, else the failure `otherwise`.
pub open spec fn text_or(body: Option<Seq<char>>, otherwise: ErrorModel) -> Result<
    Seq<char>,
    ErrorModel,
> {
    match body {
        Some(b) => Ok(b),
        None => Err(otherwise),
    }
}

/// What `event` yields for `url`, whose cache entry was `entry`: the feed
/// text to read, or why there is none.
pub open spec fn yielded(entry: Option<EntryModel>, url: Seq<char>, event: EventModel) -> Result<
    Seq<char>,
    ErrorModel,
> {
    match event {
        EventModel::Answered(r) => if r.status == STATUS_OK {
            text_or(r.body, ErrorModel::EmptyFeedError(url))
        } else if r.status == STATUS_NOT_MODIFIED {
            match entry {
                Some(e) => text_or(e.body, ErrorModel::EmptyFeedError(url)),
                None => text_or(r.body, ErrorModel::EmptyFeedError(url)),
            }
        } else if r.status == STATUS_TOO_MANY_REQUESTS {
            match entry {
                Some(e) => text_or(e.body, ErrorModel::RateLimitError(url)),
                None => Err(ErrorModel::RateLimitError(url)),
            }
        } else {
            Err(ErrorModel::UnexpectedStatusError { url, status: r.status })
        },
        EventModel::Failed(m) => Err(ErrorModel::RequestError(m)),
    }
}

/// Decides what to do for a URL whose cache entry is `entry`.
///
/// While the origin's request to stay away holds and a feed text is cached,
/// that text is served and nothing is sent. Otherwise a request goes out,
/// with the validators that the entry holds.
pub fn plan_fetch(entry: Option<&CacheEntry>, now: Instant) -> (plan: FetchPlan)
    ensures
        plan@ == planned(
            match entry {
                Some(e) => Some(e@),
                None => None,
            },
            now,
        ),
{
    match entry {
        Some(e) => {
            let waiting = match e.retry_after {
                Some(r) => e.timestamp.as_nanos() + r as i128 * NANOS_PER_SEC as i128
                    > now.as_nanos(),
                None => false,
            };
            match &e.body {
                Some(b) if waiting => FetchPlan::UseCached(b.clone()),
                _ => FetchPlan::SendRequest(
                    ConditionalHeaders {
                        if_modified_since: copy_text(&e.last_modified),
                        if_none_match: copy_text(&e.etag),
                    },
                ),
            }
        },
        None => FetchPlan::SendRequest(
            ConditionalHeaders { if_modified_since: None, if_none_match: None },
        ),
    }
}

/// The quoted form of an optional `ETag`.
fn normalize_optional_etag(raw: &Option<String>) -> (r: Option<String>)
    ensures
        text_of(r) == match text_of(*raw) {
            Some(t) => Some(quoted_etag(t)),
            None => None,
        },
{
    match raw {
        Some(t) => Some(normalize_etag(t.as_str())),
        None => None,
    }
}

/// The feed text if there is one, else the failure `otherwise`.
fn body_or(body: &Option<String>, otherwise: OpenringError) -> (r: Result<String, OpenringError>)
    ensures
        yield_view(r) == text_or(text_of(*body), otherwise@),
{
    match body {
        Some(b) => Ok(b.clone()),
        None => Err(otherwise),
    }
}

/// Applies the end of a request to the cache entry of `url`.
///
/// Returns the entry as it is to be kept from now on (`None`: there is none)
/// and the feed text that the fetch yields, or the reason why it yields none.
pub fn respond(entry: Option<CacheEntry>, url: &str, event: FetchEvent, now: Instant) -> (out: (
    Option<CacheEntry>,
    Result<String, OpenringError>,
))
    ensures
        entry_view(out.0) == entry_after(entry_view(entry), event@, now),
        yield_view(out.1) == yielded(entry_view(entry), url@, event@),
{
    match event {
        FetchEvent::Answered(r) => {
            if r.status == STATUS_OK || (r.status == STATUS_NOT_MODIFIED && entry.is_none()) {
                if r.body.is_none() {
                    return (entry, Err(OpenringError::EmptyFeedError(String::from_str(url))));
                }
                let kept = match entry {
                    Some(e) => e.retry_after,
                    None => None,
                };
                let found = body_or(&r.body, OpenringError::EmptyFeedError(String::from_str(url)));
                let etag = normalize_optional_etag(&r.etag);
                (
                    Some(
                        CacheEntry {
                            timestamp: now,
                            retry_after: kept,
                            last_modified: r.last_modified,
                            etag,
                            body: r.body,
                        },
                    ),
                    found,
                )
            } else if r.status == STATUS_NOT_MODIFIED {
                let e = entry.unwrap();
                let found = body_or(&e.body, OpenringError::EmptyFeedError(String::from_str(url)));
                let etag = match r.etag {
                    Some(t) => Some(normalize_etag(t.as_str())),
                    None => e.etag,
                };
                let last_modified = match r.last_modified {
                    Some(t) => Some(t),
                    None => e.last_modified,
                };
                (
                    Some(
                        CacheEntry {
                            timestamp: now,
                            retry_after: e.retry_after,
                            last_modified,
                            etag,
                            body: e.body,
                        },
                    ),
                    found,
                )
            } else if r.status == STATUS_TOO_MANY_REQUESTS {
                match entry {
                    Some(e) => {
                        let found = body_or(
                            &e.body,
                            OpenringError::RateLimitError(String::from_str(url)),
                        );
                        let delay = match &r.retry_after {
                            Some(t) => parse_retry_after(Some(t.as_str())),
                            None => parse_retry_after(None),
                        };
                        (
                            Some(
                                CacheEntry {
                                    timestamp: now,
                                    retry_after: Some(delay),
                                    last_modified: e.last_modified,
                                    etag: e.etag,
                                    body: e.body,
                                },
                            ),
                            found,
                        )
                    },
                    None => (None, Err(OpenringError::RateLimitError(String::from_str(url)))),
                }
            } else {
                (
                    entry,
                    Err(
                        OpenringError::UnexpectedStatusError {
                            url: String::from_str(url),
                            status: r.status,
                        },
                    ),
                )
            }
        },
        FetchEvent::Failed(message) => (entry, Err(OpenringError::RequestError(message))),
    }
}

/// While the origin's request to stay away holds and a feed text is cached,
/// the plan is to serve that text: no request is part of it.
pub proof fn lemma_waiting_serves_cache(e: EntryModel, now: Instant)
    requires
        must_wait(e, now),
        e.body is Some,
    ensures
        planned(Some(e), now) == PlanModel::UseCached(e.body->0),
{
}

/// Whenever a request is planned, it carries exactly the validators that the
/// entry holds, each on its own.
pub proof fn lemma_request_carries_validators(e: EntryModel, now: Instant)
    requires
        !must_wait(e, now) || e.body is None,
    ensures
        planned(Some(e), now) == PlanModel::SendRequest(
            HeadersModel { if_modified_since: e.last_modified, if_none_match: e.etag },
        ),
{
}

/// The entity tag of the entry, if it has one, is in quoted form.
pub open spec fn has_quoted_etag(e: EntryModel) -> bool {
    e.etag is Some ==> is_strong_tag(e.etag->0) || is_weak_tag(e.etag->0)
}

/// The protocol keeps entity tags quoted: whatever the answer, the entry
/// that it leaves behind holds its tag in quoted form, provided the entry
/// before did.
pub proof fn lemma_etag_stays_quoted(entry: Option<EntryModel>, event: EventModel, now: Instant)
    requires
        entry is Some ==> has_quoted_etag(entry->0),
    ensures
        entry_after(entry, event, now) is Some ==> has_quoted_etag(
            entry_after(entry, event, now)->0,
        ),
{
    match event {
        EventModel::Answered(r) => {
            if r.etag is Some {
                lemma_quoted_etag_idempotent(r.etag->0);
            }
        },
        EventModel::Failed(_) => {},
    }
}

/// The protocol never makes an entry without a feed text: where the entry
/// of a URL had a feed text, or the URL had no entry, the entry after any
/// end of a request has a feed text, or there is still none.
pub proof fn lemma_bodies_are_kept(entry: Option<EntryModel>, event: EventModel, now: Instant)
    requires
        entry is Some ==> entry->0.body is Some,
    ensures
        entry_after(entry, event, now) is Some ==> entry_after(entry, event, now)->0.body is Some,
{
}

/// An answer that should carry the feed and has no text is a failure, and
/// the entry stays as it was: a cached feed text is not lost to it.
pub proof fn lemma_answer_without_text_keeps_entry(
    entry: Option<EntryModel>,
    url: Seq<char>,
    r: ResponseModel,
    now: Instant,
)
    requires
        brings_feed(entry, r),
        r.body is None,
    ensures
        yielded(entry, url, EventModel::Answered(r)) == Err::<Seq<char>, ErrorModel>(
            ErrorModel::EmptyFeedError(url),
        ),
        entry_after(entry, EventModel::Answered(r), now) == entry,
{
}

/// An entry without a feed text never counts as a success: it is never
/// served in place of a request, and neither "not modified" nor "too many
/// requests" yields a feed text from it.
pub proof fn lemma_entry_without_body_yields_nothing(
    e: EntryModel,
    url: Seq<char>,
    r: ResponseModel,
    now: Instant,
)
    requires
        e.body is None,
        r.status == STATUS_NOT_MODIFIED || r.status == STATUS_TOO_MANY_REQUESTS,
    ensures
        planned(Some(e), now) is SendRequest,
        yielded(Some(e), url, EventModel::Answered(r)) is Err,
{
}

/// "Too many requests" with nothing cached is a failure and creates no
/// entry; with a cached feed text it yields that text, and the entry then
/// holds the delay that the answer names, or four hours where it names none.
pub proof fn lemma_rate_limit_falls_back(
    entry: Option<EntryModel>,
    url: Seq<char>,
    r: ResponseModel,
    now: Instant,
)
    requires
        r.status == STATUS_TOO_MANY_REQUESTS,
    ensures
        entry is None ==> yielded(entry, url, EventModel::Answered(r)) == Err::<Seq<char>, ErrorModel>(
            ErrorModel::RateLimitError(url),
        ) && entry_after(entry, EventModel::Answered(r), now) is None,
        entry matches Some(e) ==> {
            let after = entry_after(entry, EventModel::Answered(r), now);
            &&& after is Some
            &&& after->0.timestamp == now
            &&& after->0.retry_after == Some(retry_delay(r.retry_after))
            &&& after->0.body == e.body
            &&& after->0.etag == e.etag
            &&& after->0.last_modified == e.last_modified
            &&& e.body matches Some(b) ==> yielded(entry, url, EventModel::Answered(r)) == Ok::<
                Seq<char>,
                ErrorModel,
            >(b)
            &&& e.body is None ==> yielded(entry, url, EventModel::Answered(r)) == Err::<
                Seq<char>,
                ErrorModel,
            >(ErrorModel::RateLimitError(url))
        },
        r.retry_after is None ==> retry_delay(r.retry_after) == 4 * 60 * 60,
{
}

/// "Not modified" yields the cached feed text, letter for letter, and keeps
/// it in the entry.
pub proof fn lemma_not_modified_reuses_body(
    e: EntryModel,
    url: Seq<char>,
    r: ResponseModel,
    now: Instant,
)
    requires
        r.status == STATUS_NOT_MODIFIED,
        e.body is Some,
    ensures
        yielded(Some(e), url, EventModel::Answered(r)) == Ok::<Seq<char>, ErrorModel>(e.body->0),
        entry_after(Some(e), EventModel::Answered(r), now) is Some,
        entry_after(Some(e), EventModel::Answered(r), now)->0.body == e.body,
{
}

/// A status other than 200, 304 and 429 is a failure that names the URL and
/// the status, and the entry stays as it was.
pub proof fn lemma_unexpected_status_keeps_entry(
    entry: Option<EntryModel>,
    url: Seq<char>,
    r: ResponseModel,
    now: Instant,
)
    requires
        r.status != STATUS_OK,
        r.status != STATUS_NOT_MODIFIED,
        r.status != STATUS_TOO_MANY_REQUESTS,
    ensures
        yielded(entry, url, EventModel::Answered(r)) == Err::<Seq<char>, ErrorModel>(
            ErrorModel::UnexpectedStatusError { url, status: r.status },
        ),
        entry_after(entry, EventModel::Answered(r), now) == entry,
{
}

/// A request without an answer is a failure, and the entry stays as it was.
pub proof fn lemma_no_answer_keeps_entry(
    entry: Option<EntryModel>,
    url: Seq<char>,
    message: Seq<char>,
    now: Instant,
)
    ensures
        yielded(entry, url, EventModel::Failed(message)) == Err::<Seq<char>, ErrorModel>(
            ErrorModel::RequestError(message),
        ),
        entry_after(entry, EventModel::Failed(message), now) == entry,
{
}

} // verus!
