//! What can go wrong, as plain values.

use vstd::prelude::*;

verus! {

/// A line of a URL list that is no URL, with the place where it stands.
#[derive(Clone, Debug, PartialEq, Eq)]
pub struct FeedUrlError {
    /// Name of the file that holds the line.
    pub name: String,
    /// The whole text of that file.
    pub src: String,
    /// Which line it is, the first line being line 0.
    pub line: usize,
    /// The line itself.
    pub text: String,
    /// Why the line was refused.
    pub help: String,
}

/// Every failure that the library reports.
#[derive(Clone, Debug, PartialEq, Eq)]
pub enum OpenringError {
    /// No feed URL was given at all.
    FeedMissing,
    /// The feed at this URL has no usable title or link.
    FeedBadTitle(String),
    /// A date, in seconds since the epoch, lies outside what a timestamp can
    /// hold.
    CivilDateError(i64),
    /// A line of the URL list is no URL.
    FeedUrlError(FeedUrlError),
    /// A link is no URL.
    UrlParseError(String),
    /// The cache file is not what was written.
    CsvError(String),
    /// The origin answered, yet there is no feed text to read for this URL.
    EmptyFeedError(String),
    /// The origin asked to be left alone and nothing is cached for this URL.
    RateLimitError(String),
    /// The origin answered with a status that is neither success, nor
    /// "not modified", nor "too many requests".
    UnexpectedStatusError { url: String, status: u16 },
    /// The request did not get an answer.
    RequestError(String),
    /// The text that was fetched is no feed.
    FeedParseError(String),
}

/// The mathematical value of a [`FeedUrlError`].
pub ghost struct UrlLineModel {
    pub name: Seq<char>,
    pub src: Seq<char>,
    pub line: int,
    pub text: Seq<char>,
    pub help: Seq<char>,
}

/// The mathematical value of an [`OpenringError`].
pub ghost enum ErrorModel {
    FeedMissing,
    FeedBadTitle(Seq<char>),
    CivilDateError(int),
    FeedUrlError(UrlLineModel),
    UrlParseError(Seq<char>),
    CsvError(Seq<char>),
    EmptyFeedError(Seq<char>),
    RateLimitError(Seq<char>),
    UnexpectedStatusError { url: Seq<char>, status: int },
    RequestError(Seq<char>),
    FeedParseError(Seq<char>),
}

impl View for FeedUrlError {
    type V = UrlLineModel;

    open spec fn view(&self) -> UrlLineModel {
        UrlLineModel {
            name: self.name@,
            src: self.src@,
            line: self.line as int,
            text: self.text@,
            help: self.help@,
        }
    }
}

impl View for OpenringError {
    type V = ErrorModel;

    open spec fn view(&self) -> ErrorModel {
        match self {
            OpenringError::FeedMissing => ErrorModel::FeedMissing,
            OpenringError::FeedBadTitle(u) => ErrorModel::FeedBadTitle(u@),
            OpenringError::CivilDateError(d) => ErrorModel::CivilDateError(*d as int),
            OpenringError::FeedUrlError(e) => ErrorModel::FeedUrlError(e@),
            OpenringError::UrlParseError(m) => ErrorModel::UrlParseError(m@),
            OpenringError::CsvError(m) => ErrorModel::CsvError(m@),
            OpenringError::EmptyFeedError(u) => ErrorModel::EmptyFeedError(u@),
            OpenringError::RateLimitError(u) => ErrorModel::RateLimitError(u@),
            OpenringError::UnexpectedStatusError { url, status } => ErrorModel::UnexpectedStatusError {
                url: url@,
                status: *status as int,
            },
            OpenringError::RequestError(m) => ErrorModel::RequestError(m@),
            OpenringError::FeedParseError(m) => ErrorModel::FeedParseError(m@),
        }
    }
}

} // verus!
