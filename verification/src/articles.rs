//! From fetched feeds to the list of articles to show.

use vstd::prelude::*;
use vstd::multiset::Multiset;
use vstd::string::*;
use crate::entry::text_of;
use crate::error::{ErrorModel, OpenringError};
use crate::feed::{
    feeds_view, links_view, EntryData, FeedData, FeedModel, ItemModel, LinkData, LinkModel,
};
use crate::scan::{trim, trimmed};
use crate::urls::{absolute_url, normalize_url, parse_url, parsed_url, UrlParse, UrlParseModel};

verus! {

/// An article of a feed, ready to be shown.
#[derive(Clone, Debug, PartialEq, Eq)]
pub struct Article {
    /// Where the article is.
    pub link: String,
    /// The title of the article.
    pub title: String,
    /// A summary of the article, safe to show as HTML.
    pub summary: String,
    /// Where the feed's site is.
    pub source_link: String,
    /// The title of the feed.
    pub source_title: String,
    /// When the article was published, in seconds since the Unix epoch.
    pub timestamp: i64,
}

/// The mathematical value of an [`Article`].
pub ghost struct ArticleModel {
    pub link: Seq<char>,
    pub title: Seq<char>,
    pub summary: Seq<char>,
    pub source_link: Seq<char>,
    pub source_title: Seq<char>,
    pub timestamp: int,
}

impl View for Article {
    type V = ArticleModel;

    open spec fn view(&self) -> ArticleModel {
        ArticleModel {
            link: self.link@,
            title: self.title@,
            summary: self.summary@,
            source_link: self.source_link@,
            source_title: self.source_title@,
            timestamp: self.timestamp as int,
        }
    }
}

/// The earliest instant that an article may bear, in seconds since the
/// epoch: the first second of the year -9999 in the time zone furthest east.
pub const TIMESTAMP_MIN: i64 = -377705023201;

/// The latest instant that an article may bear, in seconds since the epoch:
/// the last second of the year 9999 in the time zone furthest west.
pub const TIMESTAMP_MAX: i64 = 253402207200;

/// The ASCII serialization of the origin of a URL (`url::Url::origin`);
/// `None` where the text is no absolute URL.
pub uninterp spec fn origin_of(url: Seq<char>) -> Option<Seq<char>>;

/// The domain name of a URL (`url::Url::domain`); `None` where the text is
/// no absolute URL or its host is no domain name.
pub uninterp spec fn domain_of(url: Seq<char>) -> Option<Seq<char>>;

/// What `ammonia::clean` leaves of an HTML fragment.
pub uninterp spec fn cleaned_html(html: Seq<char>) -> Seq<char>;

/// A text with its HTML character references resolved
/// (`html_escape::decode_html_entities_to_string`).
pub uninterp spec fn decoded_entities(s: Seq<char>) -> Seq<char>;

/// `url::Url::parse`, then `Url::origin` and `Origin::ascii_serialization`.
#[verifier::external_body]
fn url_origin(url: &str) -> (r: Option<String>)
    ensures
        text_of(r) == origin_of(url@),
{
    url::Url::parse(url).ok().map(|u| u.origin().ascii_serialization())
}

/// `url::Url::parse`, then `Url::domain`.
#[verifier::external_body]
fn url_domain(url: &str) -> (r: Option<String>)
    ensures
        text_of(r) == domain_of(url@),
{
    url::Url::parse(url).ok().and_then(|u| u.domain().map(String::from))
}

/// `ammonia::clean`.
#[verifier::external_body]
fn clean_html(html: &str) -> (r: String)
    ensures
        r@ == cleaned_html(html@),
{
    ammonia::clean(html)
}

/// `html_escape::decode_html_entities_to_string` into an empty string.
#[verifier::external_body]
fn decode_entities(s: &str) -> (r: String)
    ensures
        r@ == decoded_entities(s@),
{
    let mut out = String::new();
    html_escape::decode_html_entities_to_string(s, &mut out);
    out
}

/// The address that a link of the feed at `base` points to: the link itself
/// where it is absolute, else the link behind the origin of `base`. `Err`
/// holds why there is no such address.
pub open spec fn resolved(href: Seq<char>, base: Seq<char>) -> Result<Seq<char>, Seq<char>> {
    match parsed_url(href) {
        UrlParseModel::Absolute(u) => Ok(u),
        UrlParseModel::Relative(m) => match origin_of(base) {
            Some(origin) => absolute_url(origin + href),
            None => Err(m),
        },
        UrlParseModel::Invalid(m) => Err(m),
    }
}

/// The address that a link of the feed at `base` points to.
pub fn resolve(href: &str, base: &str) -> (r: Result<String, OpenringError>)
    ensures
        match resolved(href@, base@) {
            Ok(u) => r matches Ok(v) && v@ == u,
            Err(m) => r matches Err(e) && e@ == ErrorModel::UrlParseError(m),
        },
{
    match parse_url(href) {
        UrlParse::Absolute(u) => Ok(u),
        UrlParse::Relative(m) => match url_origin(base) {
            Some(origin) => {
                let mut joined = origin;
                joined.append(href);
                normalize_url(joined.as_str())
            },
            None => Err(OpenringError::UrlParseError(m)),
        },
        UrlParse::Invalid(m) => Err(OpenringError::UrlParseError(m)),
    }
}

/// The target of the first link whose relation is `rel`, where `wanted`
/// holds, and of the first link whose relation is anything else, or that
/// has none, where it does not.
pub open spec fn first_link(links: Seq<LinkModel>, rel: Seq<char>, wanted: bool) -> Option<
    Seq<char>,
>
    decreases links.len(),
{
    if links.len() == 0 {
        None
    } else if (links[0].rel == Some(rel)) == wanted {
        Some(links[0].href)
    } else {
        first_link(links.drop_first(), rel, wanted)
    }
}

/// Finds the first link whose relation is `rel` (`wanted`), or the first
/// whose relation is anything else (`!wanted`), and gives its place.
fn find_link(links: &Vec<LinkData>, rel: &str, wanted: bool) -> (found: Option<usize>)
    ensures
        match found {
            Some(i) => i < links.len() && first_link(links_view(links@), rel@, wanted) == Some(
                links@[i as int].href@,
            ),
            None => first_link(links_view(links@), rel@, wanted) is None,
        },
{
    let ghost all = links_view(links@);
    let key = String::from_str(rel);
    let mut i: usize = 0;
    assert(all.subrange(0, all.len() as int) =~= all);
    while i < links.len()
        invariant
            0 <= i <= links.len(),
            all == links_view(links@),
            key@ == rel@,
            first_link(all, rel@, wanted) == first_link(
                all.subrange(i as int, all.len() as int),
                rel@,
                wanted,
            ),
        decreases links.len() - i,
    {
        let ghost rest = all.subrange(i as int, all.len() as int);
        assert(rest[0] == links@[i as int]@);
        assert(rest.drop_first() =~= all.subrange(i + 1, all.len() as int));
        let hit = match &links[i].rel {
            Some(r) => *r == key,
            None => false,
        };
        if hit == wanted {
            return Some(i);
        }
        i = i + 1;
    }
    assert(all.subrange(i as int, all.len() as int).len() == 0);
    None
}

/// The title under which the feed at `url` is shown: its own title, or the
/// domain name of `url` where that title is empty. A feed without a title,
/// and an empty title at a URL without a domain name, is a failure.
pub open spec fn source_title(feed: FeedModel, url: Seq<char>) -> Result<Seq<char>, ErrorModel> {
    match feed.title {
        Some(t) => if t.content.len() > 0 {
            Ok(t.content)
        } else {
            match domain_of(url) {
                Some(d) => Ok(d),
                None => Err(ErrorModel::FeedBadTitle(url)),
            }
        },
        None => Err(ErrorModel::FeedBadTitle(url)),
    }
}

/// The address of a link, or the failure that it is none.
pub open spec fn link_or_error(r: Result<Seq<char>, Seq<char>>) -> Result<Seq<char>, ErrorModel> {
    match r {
        Ok(u) => Ok(u),
        Err(m) => Err(ErrorModel::UrlParseError(m)),
    }
}

/// The address of a link, where it has one.
pub open spec fn link_if_any(r: Result<Seq<char>, Seq<char>>) -> Option<Seq<char>> {
    match r {
        Ok(u) => Some(u),
        Err(_) => None,
    }
}

/// The address of the site of the feed at `url`: where its title comes
/// from, else its first `alternate` link, else its first link that is not
/// the feed itself. A feed without any of these is a failure, and so is one
/// whose link is no address.
pub open spec fn source_link(feed: FeedModel, url: Seq<char>) -> Result<Seq<char>, ErrorModel> {
    match feed.title {
        None => Err(ErrorModel::FeedBadTitle(url)),
        Some(t) => match t.src {
            Some(s) => link_or_error(resolved(s, url)),
            None => match first_link(feed.links, "alternate"@, true) {
                Some(s) => link_or_error(resolved(s, url)),
                None => match first_link(feed.links, "self"@, false) {
                    Some(s) => link_or_error(resolved(s, url)),
                    None => Err(ErrorModel::FeedBadTitle(url)),
                },
            },
        },
    }
}

/// The address of an entry of the feed at `url`: its first `alternate` link,
/// else its first link, `None` where that link is no address. An entry
/// without links is a failure.
pub open spec fn entry_link(e: ItemModel, url: Seq<char>) -> Result<Option<Seq<char>>, ErrorModel> {
    match first_link(e.links, "alternate"@, true) {
        Some(s) => Ok(link_if_any(resolved(s, url))),
        None => if e.links.len() > 0 {
            Ok(link_if_any(resolved(e.links[0].href, url)))
        } else {
            Err(ErrorModel::FeedBadTitle(url))
        },
    }
}

/// The date of an entry: when it was published, else when it was changed.
pub open spec fn entry_date(e: ItemModel) -> Option<int> {
    if e.published is Some {
        e.published
    } else {
        e.updated
    }
}

/// The text that an entry is summed up by: its summary, else the body of
/// its content, else nothing.
pub open spec fn entry_text(e: ItemModel) -> Seq<char> {
    match e.summary {
        Some(s) => s,
        None => match e.content {
            Some(b) => b,
            None => Seq::empty(),
        },
    }
}

/// A text made safe to show: cleaned as HTML, its character references
/// resolved, and without white space at either end.
pub open spec fn safe_text(s: Seq<char>) -> Seq<char> {
    trimmed(decoded_entities(cleaned_html(s)))
}

/// The article that an entry of the feed at `url` gives. `Ok(None)`: it
/// gives none, for want of an address, a title or a date, or because its
/// date is later than `before`.
pub open spec fn article_of(
    e: ItemModel,
    url: Seq<char>,
    title: Seq<char>,
    link: Seq<char>,
    before: Option<int>,
) -> Result<Option<ArticleModel>, ErrorModel> {
    match entry_link(e, url) {
        Err(x) => Err(x),
        Ok(found) => if found is Some && e.title is Some && entry_date(e) is Some {
            let date = entry_date(e)->0;
            if !(TIMESTAMP_MIN <= date <= TIMESTAMP_MAX) {
                Err(ErrorModel::CivilDateError(date))
            } else if before is Some && date > before->0 {
                Ok(None)
            } else {
                Ok(
                    Some(
                        ArticleModel {
                            link: found->0,
                            title: e.title->0,
                            summary: safe_text(entry_text(e)),
                            source_link: link,
                            source_title: title,
                            timestamp: date,
                        },
                    ),
                )
            }
        } else {
            Ok(None)
        },
    }
}

/// The articles of the first `n` entries, in the order of the entries, or
/// the failure of the first entry that fails.
pub open spec fn articles_upto(
    entries: Seq<ItemModel>,
    n: int,
    url: Seq<char>,
    title: Seq<char>,
    link: Seq<char>,
    before: Option<int>,
) -> Result<Seq<ArticleModel>, ErrorModel>
    decreases n,
{
    if n <= 0 || n > entries.len() {
        Ok(Seq::empty())
    } else {
        match articles_upto(entries, n - 1, url, title, link, before) {
            Err(x) => Err(x),
            Ok(found) => match article_of(entries[n - 1], url, title, link, before) {
                Err(x) => Err(x),
                Ok(Some(a)) => Ok(found.push(a)),
                Ok(None) => Ok(found),
            },
        }
    }
}

/// The number of entries that are looked at: `per_source`, or all where
/// there are fewer.
pub open spec fn entries_read(feed: FeedModel, per_source: int) -> int {
    if feed.entries.len() >= per_source {
        per_source
    } else {
        feed.entries.len() as int
    }
}

/// The articles of the feed at `url`: those of its first `per_source`
/// entries.
pub open spec fn feed_articles(
    feed: FeedModel,
    url: Seq<char>,
    per_source: int,
    before: Option<int>,
) -> Result<Seq<ArticleModel>, ErrorModel> {
    match source_title(feed, url) {
        Err(x) => Err(x),
        Ok(title) => match source_link(feed, url) {
            Err(x) => Err(x),
            Ok(link) => articles_upto(
                feed.entries,
                entries_read(feed, per_source),
                url,
                title,
                link,
                before,
            ),
        },
    }
}

/// The values of a list of articles.
pub open spec fn articles_view(articles: Seq<Article>) -> Seq<ArticleModel> {
    articles.map_values(|a: Article| a@)
}

/// The value of what an extraction gives.
pub open spec fn found_view(r: Result<Vec<Article>, OpenringError>) -> Result<
    Seq<ArticleModel>,
    ErrorModel,
> {
    match r {
        Ok(found) => Ok(articles_view(found@)),
        Err(e) => Err(e@),
    }
}

/// The title under which the feed at `url` is shown.
fn title_of_source(feed: &FeedData, url: &str) -> (r: Result<String, OpenringError>)
    ensures
        match source_title(feed@, url@) {
            Ok(t) => r matches Ok(got) && got@ == t,
            Err(x) => r matches Err(e) && e@ == x,
        },
{
    match &feed.title {
        Some(t) => {
            if t.content.as_str().unicode_len() > 0 {
                Ok(t.content.clone())
            } else {
                match url_domain(url) {
                    Some(d) => Ok(d),
                    None => Err(OpenringError::FeedBadTitle(String::from_str(url))),
                }
            }
        },
        None => Err(OpenringError::FeedBadTitle(String::from_str(url))),
    }
}

/// The address of the site of the feed at `url`.
fn link_of_source(feed: &FeedData, url: &str) -> (r: Result<String, OpenringError>)
    ensures
        match source_link(feed@, url@) {
            Ok(l) => r matches Ok(got) && got@ == l,
            Err(x) => r matches Err(e) && e@ == x,
        },
{
    match &feed.title {
        None => Err(OpenringError::FeedBadTitle(String::from_str(url))),
        Some(t) => match &t.src {
            Some(s) => resolve(s.as_str(), url),
            None => match find_link(&feed.links, "alternate", true) {
                Some(i) => resolve(feed.links[i].href.as_str(), url),
                None => match find_link(&feed.links, "self", false) {
                    Some(i) => resolve(feed.links[i].href.as_str(), url),
                    None => Err(OpenringError::FeedBadTitle(String::from_str(url))),
                },
            },
        },
    }
}

/// The address of an entry of the feed at `url`.
fn link_of_entry(entry: &EntryData, url: &str) -> (r: Result<Option<String>, OpenringError>)
    ensures
        match entry_link(entry@, url@) {
            Ok(l) => r matches Ok(got) && text_of(got) == l,
            Err(x) => r matches Err(e) && e@ == x,
        },
{
    let at = match find_link(&entry.links, "alternate", true) {
        Some(i) => i,
        None => {
            if entry.links.len() == 0 {
                return Err(OpenringError::FeedBadTitle(String::from_str(url)));
            }
            assert(links_view(entry.links@)[0] == entry.links@[0]@);
            0
        },
    };
    match resolve(entry.links[at].href.as_str(), url) {
        Ok(u) => Ok(Some(u)),
        Err(_) => Ok(None),
    }
}

/// Makes a text safe to show.
pub fn sanitize(s: &str) -> (r: String)
    ensures
        r@ == safe_text(s@),
{
    let cleaned = clean_html(s);
    let decoded = decode_entities(cleaned.as_str());
    trim(decoded.as_str())
}

/// The article that an entry of the feed at `url` gives, if it gives one.
fn article_from(
    entry: &EntryData,
    url: &str,
    title: &String,
    link: &String,
    before: Option<i64>,
) -> (r: Result<Option<Article>, OpenringError>)
    ensures
        match article_of(
            entry@,
            url@,
            title@,
            link@,
            match before {
                Some(b) => Some(b as int),
                None => None,
            },
        ) {
            Ok(Some(a)) => r matches Ok(Some(got)) && got@ == a,
            Ok(None) => r matches Ok(None),
            Err(x) => r matches Err(e) && e@ == x,
        },
{
    let found = match link_of_entry(entry, url) {
        Ok(l) => l,
        Err(e) => {
            return Err(e);
        },
    };
    let date = match entry.published {
        Some(d) => Some(d),
        None => entry.updated,
    };
    match (found, &entry.title, date) {
        (Some(address), Some(heading), Some(d)) => {
            if d < TIMESTAMP_MIN || d > TIMESTAMP_MAX {
                return Err(OpenringError::CivilDateError(d));
            }
            match before {
                Some(b) => {
                    if d > b {
                        return Ok(None);
                    }
                },
                None => {},
            }
            let summary = match &entry.summary {
                Some(s) => sanitize(s.as_str()),
                None => match &entry.content {
                    Some(b) => sanitize(b.as_str()),
                    None => {
                        let nothing = String::new();
                        sanitize(nothing.as_str())
                    },
                },
            };
            Ok(
                Some(
                    Article {
                        link: address,
                        title: heading.clone(),
                        summary,
                        source_link: link.clone(),
                        source_title: title.clone(),
                        timestamp: d,
                    },
                ),
            )
        },
        _ => Ok(None),
    }
}

/// The articles of the feed that was fetched from `url`: those of its first
/// `per_source` entries that have an address, a title and a date, and whose
/// date is not later than `before`.
pub fn articles_of_feed(feed: &FeedData, url: &str, per_source: usize, before: Option<i64>) -> (r:
    Result<Vec<Article>, OpenringError>)
    ensures
        found_view(r) == feed_articles(
            feed@,
            url@,
            per_source as int,
            match before {
                Some(b) => Some(b as int),
                None => None,
            },
        ),
{
    let title = match title_of_source(feed, url) {
        Ok(t) => t,
        Err(e) => {
            return Err(e);
        },
    };
    let link = match link_of_source(feed, url) {
        Ok(l) => l,
        Err(e) => {
            return Err(e);
        },
    };
    let n = if feed.entries.len() >= per_source {
        per_source
    } else {
        feed.entries.len()
    };
    let ghost limit: Option<int> = match before {
        Some(b) => Some(b as int),
        None => None,
    };
    let ghost entries = feed@.entries;
    let mut found: Vec<Article> = Vec::new();
    let mut i: usize = 0;
    assert(articles_view(found@) =~= Seq::<ArticleModel>::empty());
    while i < n
        invariant
            0 <= i <= n <= feed.entries.len(),
            n == entries_read(feed@, per_source as int),
            source_title(feed@, url@) == Ok::<Seq<char>, ErrorModel>(title@),
            source_link(feed@, url@) == Ok::<Seq<char>, ErrorModel>(link@),
            entries == feed@.entries,
            limit == match before {
                Some(b) => Some(b as int),
                None => None,
            },
            articles_upto(entries, i as int, url@, title@, link@, limit) == Ok::<
                Seq<ArticleModel>,
                ErrorModel,
            >(articles_view(found@)),
        decreases n - i,
    {
        assert(entries[i as int] == feed.entries@[i as int]@);
        match article_from(&feed.entries[i], url, &title, &link, before) {
            Ok(Some(a)) => {
                proof {
                    assert(articles_view(found@.push(a)) =~= articles_view(found@).push(a@));
                }
                found.push(a);
            },
            Ok(None) => {},
            Err(e) => {
                proof {
                    assert(articles_upto(entries, i + 1, url@, title@, link@, limit) == Err::<
                        Seq<ArticleModel>,
                        ErrorModel,
                    >(e@));
                    lemma_articles_upto_fails(entries, i + 1, n as int, url@, title@, link@, limit);
                }
                return Err(e);
            },
        }
        i = i + 1;
    }
    Ok(found)
}

/// Once the entries up to one of them fail, so do the entries up to any
/// later one, in the same way.
pub proof fn lemma_articles_upto_fails(
    entries: Seq<ItemModel>,
    k: int,
    n: int,
    url: Seq<char>,
    title: Seq<char>,
    link: Seq<char>,
    before: Option<int>,
)
    requires
        0 <= k <= n <= entries.len(),
        articles_upto(entries, k, url, title, link, before) is Err,
    ensures
        articles_upto(entries, n, url, title, link, before) == articles_upto(
            entries,
            k,
            url,
            title,
            link,
            before,
        ),
    decreases n - k,
{
    if k < n {
        lemma_articles_upto_fails(entries, k, n - 1, url, title, link, before);
    }
}

/// The articles of the first `n` feeds, feed by feed, or the failure of the
/// first feed that fails.
pub open spec fn articles_of_feeds(
    feeds: Seq<(FeedModel, Seq<char>)>,
    n: int,
    per_source: int,
    before: Option<int>,
) -> Result<Seq<ArticleModel>, ErrorModel>
    decreases n,
{
    if n <= 0 || n > feeds.len() {
        Ok(Seq::empty())
    } else {
        match articles_of_feeds(feeds, n - 1, per_source, before) {
            Err(x) => Err(x),
            Ok(found) => match feed_articles(feeds[n - 1].0, feeds[n - 1].1, per_source, before) {
                Err(x) => Err(x),
                Ok(more) => Ok(found + more),
            },
        }
    }
}

/// Once the feeds up to one of them fail, so do the feeds up to any later
/// one, in the same way.
pub proof fn lemma_articles_of_feeds_fails(
    feeds: Seq<(FeedModel, Seq<char>)>,
    k: int,
    n: int,
    per_source: int,
    before: Option<int>,
)
    requires
        0 <= k <= n <= feeds.len(),
        articles_of_feeds(feeds, k, per_source, before) is Err,
    ensures
        articles_of_feeds(feeds, n, per_source, before) == articles_of_feeds(
            feeds,
            k,
            per_source,
            before,
        ),
    decreases n - k,
{
    if k < n {
        lemma_articles_of_feeds_fails(feeds, k, n - 1, per_source, before);
    }
}

/// The articles of all the feeds, feed by feed.
pub fn collect_articles(feeds: &Vec<(FeedData, String)>, per_source: usize, before: Option<i64>) -> (r:
    Result<Vec<Article>, OpenringError>)
    ensures
        found_view(r) == articles_of_feeds(
            feeds_view(feeds@),
            feeds.len() as int,
            per_source as int,
            match before {
                Some(b) => Some(b as int),
                None => None,
            },
        ),
{
    let ghost all = feeds_view(feeds@);
    let ghost limit: Option<int> = match before {
        Some(b) => Some(b as int),
        None => None,
    };
    let mut found: Vec<Article> = Vec::new();
    let mut i: usize = 0;
    assert(articles_view(found@) =~= Seq::<ArticleModel>::empty());
    while i < feeds.len()
        invariant
            0 <= i <= feeds.len(),
            all == feeds_view(feeds@),
            limit == match before {
                Some(b) => Some(b as int),
                None => None,
            },
            articles_of_feeds(all, i as int, per_source as int, limit) == Ok::<
                Seq<ArticleModel>,
                ErrorModel,
            >(articles_view(found@)),
        decreases feeds.len() - i,
    {
        assert(all[i as int] == (feeds@[i as int].0@, feeds@[i as int].1@));
        match articles_of_feed(&feeds[i].0, feeds[i].1.as_str(), per_source, before) {
            Ok(mut more) => {
                let ghost earlier = found@;
                let ghost later = more@;
                found.append(&mut more);
                assert(articles_view(found@) =~= articles_view(earlier) + articles_view(later));
            },
            Err(e) => {
                proof {
                    assert(articles_of_feeds(all, i + 1, per_source as int, limit) == Err::<
                        Seq<ArticleModel>,
                        ErrorModel,
                    >(e@));
                    lemma_articles_of_feeds_fails(
                        all,
                        i + 1,
                        feeds.len() as int,
                        per_source as int,
                        limit,
                    );
                }
                return Err(e);
            },
        }
        i = i + 1;
    }
    Ok(found)
}

/// The articles stand newest first: none is older than one behind it.
pub open spec fn newest_first(articles: Seq<ArticleModel>) -> bool {
    forall|i: int, j: int|
        0 <= i <= j < articles.len() ==> articles[i].timestamp >= articles[j].timestamp
}

/// `shown` are the `count` newest of `all`, newest first: the beginning of
/// `all` put in that order, or the whole of it where it has no more than
/// `count` articles.
pub open spec fn are_newest(shown: Seq<ArticleModel>, all: Seq<ArticleModel>, count: int) -> bool {
    exists|sorted: Seq<ArticleModel>|
        {
            &&& #[trigger] sorted.to_multiset() == all.to_multiset()
            &&& newest_first(sorted)
            &&& shown == if sorted.len() >= count {
                sorted.subrange(0, count)
            } else {
                sorted
            }
        }
}

/// An empty list holds nothing.
proof fn lemma_empty_holds_nothing<A>(s: Seq<A>)
    requires
        s.len() == 0,
    ensures
        s.to_multiset() == Multiset::<A>::empty(),
{
    s.to_multiset_ensures();
    vstd::multiset::lemma_multiset_empty_len(s.to_multiset());
    assert(s.to_multiset() =~= Multiset::<A>::empty());
}

/// Putting one more article into a list adds it to what the list holds.
proof fn lemma_insert_adds<A>(s: Seq<A>, i: int, a: A)
    requires
        0 <= i <= s.len(),
    ensures
        s.insert(i, a).to_multiset() == s.to_multiset().insert(a),
{
    let t = s.insert(i, a);
    assert(t.remove(i) =~= s);
    assert(t[i] == a);
    vstd::seq_lib::to_multiset_remove(t, i);
    t.to_multiset_ensures();
    assert(t.contains(a));
    assert(t.to_multiset() =~= s.to_multiset().insert(a));
}

/// Puts a list of articles in order, the newest first. Which of two
/// articles of the same second comes first is left open.
pub fn sort_newest_first(articles: Vec<Article>) -> (sorted: Vec<Article>)
    ensures
        articles_view(sorted@).to_multiset() == articles_view(articles@).to_multiset(),
        newest_first(articles_view(sorted@)),
{
    let ghost all = articles_view(articles@);
    let mut rest = articles;
    let mut sorted: Vec<Article> = Vec::new();
    proof {
        lemma_empty_holds_nothing(articles_view(sorted@));
        assert(articles_view(sorted@).to_multiset().add(all.to_multiset()) =~= all.to_multiset());
    }
    while rest.len() > 0
        invariant
            newest_first(articles_view(sorted@)),
            articles_view(sorted@).to_multiset().add(articles_view(rest@).to_multiset())
                == all.to_multiset(),
        decreases rest.len(),
    {
        let ghost before_rest = articles_view(rest@);
        let ghost before_sorted = articles_view(sorted@);
        let a = rest.pop().unwrap();
        proof {
            assert(before_rest =~= articles_view(rest@).push(a@));
            vstd::seq_lib::to_multiset_build(articles_view(rest@), a@);
        }
        let mut p: usize = 0;
        while p < sorted.len() && sorted[p].timestamp >= a.timestamp
            invariant
                0 <= p <= sorted.len(),
                forall|k: int| 0 <= k < p ==> sorted@[k].timestamp >= a.timestamp,
            decreases sorted.len() - p,
        {
            p = p + 1;
        }
        let ghost stamp = a@;
        sorted.insert(p, a);
        proof {
            let after = articles_view(sorted@);
            assert(after =~= before_sorted.insert(p as int, stamp));
            lemma_insert_adds(before_sorted, p as int, stamp);
            assert(after.to_multiset().add(articles_view(rest@).to_multiset())
                =~= all.to_multiset());
            assert forall|i: int, j: int| 0 <= i <= j < after.len() implies after[i].timestamp
                >= after[j].timestamp by {
                if i < p && j > p {
                    assert(before_sorted[i].timestamp >= before_sorted[j - 1].timestamp);
                } else if i < p && j < p {
                    assert(before_sorted[i].timestamp >= before_sorted[j].timestamp);
                } else if i > p {
                    assert(before_sorted[i - 1].timestamp >= before_sorted[j - 1].timestamp);
                } else if i == p && j > p {
                    assert(before_sorted[p as int].timestamp >= before_sorted[j - 1].timestamp);
                } else if i < p && j == p {
                    assert(before_sorted[i] == sorted@[i]@);
                }
            }
        }
    }
    proof {
        lemma_empty_holds_nothing(articles_view(rest@));
        assert(articles_view(sorted@).to_multiset().add(articles_view(rest@).to_multiset())
            =~= articles_view(sorted@).to_multiset());
    }
    sorted
}

/// The articles to show: of the articles of all the feeds the
/// `num_articles` newest, newest first.
pub fn newest_articles(
    feeds: &Vec<(FeedData, String)>,
    per_source: usize,
    num_articles: usize,
    before: Option<i64>,
) -> (r: Result<Vec<Article>, OpenringError>)
    ensures
        match articles_of_feeds(
            feeds_view(feeds@),
            feeds.len() as int,
            per_source as int,
            match before {
                Some(b) => Some(b as int),
                None => None,
            },
        ) {
            Ok(all) => r matches Ok(shown) && are_newest(
                articles_view(shown@),
                all,
                num_articles as int,
            ),
            Err(x) => r matches Err(e) && e@ == x,
        },
{
    match collect_articles(feeds, per_source, before) {
        Ok(found) => {
            let ghost all = articles_view(found@);
            let mut sorted = sort_newest_first(found);
            let ghost whole = articles_view(sorted@);
            if sorted.len() >= num_articles {
                sorted.truncate(num_articles);
                assert(articles_view(sorted@) =~= whole.subrange(0, num_articles as int));
            }
            assert(are_newest(articles_view(sorted@), all, num_articles as int)) by {
                assert(whole.to_multiset() == all.to_multiset());
            }
            Ok(sorted)
        },
        Err(e) => Err(e),
    }
}

} // verus!
