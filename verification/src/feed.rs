//! A feed as far as the library reads it.
//!
//! The library does not parse feed text: the parser that the program uses
//! may give up on a text in a way that a library cannot answer for. The
//! program parses and hands the feed in as a [`FeedData`].

use vstd::prelude::*;
use crate::entry::text_of;
use crate::error::{ErrorModel, OpenringError};

verus! {

/// A link of a feed or of one of its entries.
#[derive(Clone, Debug, PartialEq, Eq)]
pub struct LinkData {
    /// Where the link points, absolute or relative.
    pub href: String,
    /// How the target relates to the feed: `alternate`, `self` and so on.
    pub rel: Option<String>,
}

/// A text of a feed that may name where it comes from.
#[derive(Clone, Debug, PartialEq, Eq)]
pub struct TextData {
    /// The text itself.
    pub content: String,
    /// The address that the text was taken from, if it names one.
    pub src: Option<String>,
}

/// One entry of a feed.
#[derive(Clone, Debug, PartialEq, Eq)]
pub struct EntryData {
    /// The links of the entry, in the order of the feed.
    pub links: Vec<LinkData>,
    /// The title of the entry.
    pub title: Option<String>,
    /// When the entry was published, in seconds since the Unix epoch.
    pub published: Option<i64>,
    /// When the entry was last changed, in seconds since the Unix epoch.
    pub updated: Option<i64>,
    /// A summary of the entry.
    pub summary: Option<String>,
    /// The body of the entry's content.
    pub content: Option<String>,
}

/// A feed.
#[derive(Clone, Debug, PartialEq, Eq)]
pub struct FeedData {
    /// The title of the feed.
    pub title: Option<TextData>,
    /// The links of the feed, in the order of the feed.
    pub links: Vec<LinkData>,
    /// The entries of the feed, in the order of the feed.
    pub entries: Vec<EntryData>,
}

/// The mathematical value of a [`LinkData`].
pub ghost struct LinkModel {
    pub href: Seq<char>,
    pub rel: Option<Seq<char>>,
}

/// The mathematical value of a [`TextData`].
pub ghost struct TextModel {
    pub content: Seq<char>,
    pub src: Option<Seq<char>>,
}

/// The mathematical value of an [`EntryData`].
pub ghost struct ItemModel {
    pub links: Seq<LinkModel>,
    pub title: Option<Seq<char>>,
    pub published: Option<int>,
    pub updated: Option<int>,
    pub summary: Option<Seq<char>>,
    pub content: Option<Seq<char>>,
}

/// The mathematical value of a [`FeedData`].
pub ghost struct FeedModel {
    pub title: Option<TextModel>,
    pub links: Seq<LinkModel>,
    pub entries: Seq<ItemModel>,
}

impl View for LinkData {
    type V = LinkModel;

    open spec fn view(&self) -> LinkModel {
        LinkModel { href: self.href@, rel: text_of(self.rel) }
    }
}

impl View for TextData {
    type V = TextModel;

    open spec fn view(&self) -> TextModel {
        TextModel { content: self.content@, src: text_of(self.src) }
    }
}

/// The values of a list of links.
pub open spec fn links_view(links: Seq<LinkData>) -> Seq<LinkModel> {
    links.map_values(|l: LinkData| l@)
}

/// The value of an optional second count.
pub open spec fn seconds_of(t: Option<i64>) -> Option<int> {
    match t {
        Some(s) => Some(s as int),
        None => None,
    }
}

impl View for EntryData {
    type V = ItemModel;

    open spec fn view(&self) -> ItemModel {
        ItemModel {
            links: links_view(self.links@),
            title: text_of(self.title),
            published: seconds_of(self.published),
            updated: seconds_of(self.updated),
            summary: text_of(self.summary),
            content: text_of(self.content),
        }
    }
}

impl View for FeedData {
    type V = FeedModel;

    open spec fn view(&self) -> FeedModel {
        FeedModel {
            title: match self.title {
                Some(t) => Some(t@),
                None => None,
            },
            links: links_view(self.links@),
            entries: self.entries@.map_values(|e: EntryData| e@),
        }
    }
}

/// The values of a list of feeds, each with the URL it was fetched from.
pub open spec fn feeds_view(feeds: Seq<(FeedData, String)>) -> Seq<(FeedModel, Seq<char>)> {
    feeds.map_values(|f: (FeedData, String)| (f.0@, f.1@))
}

/// What a fetch of `url` gives once its feed text has been parsed: the feed
/// with the URL it was fetched from, or the failure that the text is no
/// feed, with the parser's words.
///
/// Text that is no feed is the failure of this URL alone. The cache entry
/// that the fetch left behind is not touched by it: the text was fetched, it
/// just is no feed.
pub fn feed_from(url: &str, parsed: Result<FeedData, String>) -> (r: Result<
    (FeedData, String),
    OpenringError,
>)
    ensures
        match parsed {
            Ok(feed) => r matches Ok(pair) && pair.0 == feed && pair.1@ == url@,
            Err(m) => r matches Err(e) && e@ == ErrorModel::FeedParseError(m@),
        },
{
    match parsed {
        Ok(feed) => Ok((feed, String::from_str(url))),
        Err(m) => Err(OpenringError::FeedParseError(m)),
    }
}

} // verus!
