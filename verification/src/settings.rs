//! What a run is told to do, and what that means for the cache file.

use vstd::prelude::*;
use crate::cachefile::{csv_rows, loaded};
use crate::entry::{Age, Instant};
use crate::store::Cache;

verus! {

/// Where the cache file stands, relative to the working directory.
pub const OPENRING_CACHE_FILE: &'static str = ".openringcache";

/// What a run is told to do.
#[derive(Clone, Debug, PartialEq, Eq)]
pub struct Args {
    /// How many articles to show in all.
    pub num_articles: usize,
    /// How many of its most recent entries each feed may contribute.
    pub per_source: usize,
    /// The file that lists feed URLs, one on each line.
    pub url_file: Option<String>,
    /// The file that holds the template.
    pub template_file: String,
    /// The feed URLs given one by one.
    pub url: Vec<String>,
    /// Articles dated later than this instant, in seconds since the Unix
    /// epoch, are left out.
    pub before: Option<i64>,
    /// Whether the cache file is read at the start and written at the end.
    pub cache: bool,
    /// Cache entries of this age or older are dropped on loading.
    pub max_cache_age: Age,
}

/// `a` is longer than `b`.
pub open spec fn exceeds(a: Age, b: Age) -> bool {
    a.length() > b.length()
}

/// The cache file is worth reading: caching is asked for, the file is there
/// and was last written no longer ago than the greatest cache age.
pub open spec fn cache_usable(args: Args, file_age: Option<Age>) -> bool {
    args.cache && file_age is Some && !exceeds(file_age->0, args.max_cache_age)
}

/// Decides whether the cache file is worth reading. `file_age` is the time
/// since the file was last written; `None` where there is no such file or
/// its age cannot be told.
///
/// This looks at the file as a whole and saves reading one in which nothing
/// can be fresh. It does not stand for the test of each entry, which
/// [`load_cache`] makes as well.
pub fn should_load_cache(args: &Args, file_age: Option<Age>) -> (r: bool)
    ensures
        r == cache_usable(*args, file_age),
{
    if !args.cache {
        return false;
    }
    match file_age {
        None => false,
        Some(age) => !(age.as_nanos() > args.max_cache_age.as_nanos()),
    }
}

/// Loads the cache from the bytes of the cache file, if it is worth
/// reading and can be read.
///
/// Starting without a cache is common and never a failure: a file that is
/// too old, bytes in which a fault is found and a row that writes no entry
/// all give `None`. Of a file that is read, the entries that are as old as
/// the greatest cache age, or older, are dropped.
pub fn load_cache(args: &Args, file_age: Option<Age>, bytes: &[u8], now: Instant) -> (r: Option<
    Cache,
>)
    ensures
        match r {
            Some(cache) => cache_usable(*args, file_age) && csv_rows(bytes@) is Some && loaded(
                csv_rows(bytes@)->0,
                now,
                args.max_cache_age,
            ) == Some(cache@),
            None => !cache_usable(*args, file_age) || csv_rows(bytes@) is None || loaded(
                csv_rows(bytes@)->0,
                now,
                args.max_cache_age,
            ) is None,
        },
{
    if !should_load_cache(args, file_age) {
        return None;
    }
    match Cache::load(bytes, args.max_cache_age, now) {
        Ok(cache) => Some(cache),
        Err(_) => None,
    }
}

} // verus!
