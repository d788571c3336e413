//! One cached fetch result.

use vstd::prelude::*;

verus! {

/// The number of nanoseconds in a second.
pub const NANOS_PER_SEC: u32 = 1_000_000_000;

/// An instant: whole seconds since the Unix epoch, and the nanoseconds that
/// have passed since the last whole second.
#[derive(Clone, Copy, Debug, PartialEq, Eq)]
pub struct Instant {
    /// The whole seconds since the epoch, negative before it.
    pub secs: i64,
    /// The nanoseconds since that second began.
    pub nanos: u32,
}

/// A length of time: whole seconds and the nanoseconds beyond them.
#[derive(Clone, Copy, Debug, PartialEq, Eq)]
pub struct Age {
    /// The whole seconds.
    pub secs: u64,
    /// The nanoseconds beyond the whole seconds.
    pub nanos: u32,
}

impl Instant {
    /// The instant in nanoseconds since the epoch.
    pub open spec fn since_epoch(self) -> int {
        self.secs * NANOS_PER_SEC + self.nanos
    }

    /// The instant in nanoseconds since the epoch.
    pub fn as_nanos(&self) -> (n: i128)
        ensures
            n == self.since_epoch(),
    {
        self.secs as i128 * NANOS_PER_SEC as i128 + self.nanos as i128
    }
}

impl Age {
    /// The length in nanoseconds.
    pub open spec fn length(self) -> int {
        self.secs * NANOS_PER_SEC + self.nanos
    }

    /// The length in nanoseconds.
    pub fn as_nanos(&self) -> (n: i128)
        ensures
            n == self.length(),
    {
        self.secs as i128 * NANOS_PER_SEC as i128 + self.nanos as i128
    }
}

/// What is remembered of the last fetch of one feed.
#[derive(Clone, Debug, PartialEq, Eq)]
pub struct CacheEntry {
    /// Instant of the last fetch attempt or cache write.
    pub timestamp: Instant,
    /// Seconds to stay away: while `timestamp` and this many seconds lie in
    /// the future no request is sent.
    pub retry_after: Option<i64>,
    /// The `Last-Modified` header of the last response, verbatim.
    pub last_modified: Option<String>,
    /// The `ETag` header of the last response, always in quoted form.
    pub etag: Option<String>,
    /// The last feed text that was retrieved.
    pub body: Option<String>,
}

/// The mathematical value of a [`CacheEntry`].
pub ghost struct EntryModel {
    pub timestamp: Instant,
    pub retry_after: Option<int>,
    pub last_modified: Option<Seq<char>>,
    pub etag: Option<Seq<char>>,
    pub body: Option<Seq<char>>,
}

/// The text of an optional string.
pub open spec fn text_of(s: Option<String>) -> Option<Seq<char>> {
    match s {
        Some(t) => Some(t@),
        None => None,
    }
}

/// A copy of an optional text.
pub fn copy_text(t: &Option<String>) -> (r: Option<String>)
    ensures
        r == *t,
{
    match t {
        Some(s) => Some(s.clone()),
        None => None,
    }
}

impl View for CacheEntry {
    type V = EntryModel;

    open spec fn view(&self) -> EntryModel {
        EntryModel {
            timestamp: self.timestamp,
            retry_after: match self.retry_after {
                Some(r) => Some(r as int),
                None => None,
            },
            last_modified: text_of(self.last_modified),
            etag: text_of(self.etag),
            body: text_of(self.body),
        }
    }
}

} // verus!
