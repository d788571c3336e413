//! Feed aggregation for a webring.
//!
//! The library fetches nothing and touches no file. It holds the rules of a
//! run: the cache of fetched feeds and its file form, the conditional-request
//! protocol that keeps the cache fresh, the bookkeeping of a batch of
//! fetches, and the way from fetched feeds to the list of articles to show.
//! The program around it sends the requests and reads and writes the files.

pub mod articles;
pub mod batch;
pub mod cachefile;
pub mod entry;
pub mod error;
pub mod feed;
pub mod protocol;
pub mod record;
pub mod scan;
pub mod settings;
pub mod store;
pub mod text;
pub mod urls;
