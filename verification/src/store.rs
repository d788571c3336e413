//! The mapping from feed URL to cache entry.
//!
//! An entry is kept under the normal form of its URL, so that two ways of
//! writing one URL meet in one entry, and every key of the cache is a URL.
//!
//! The fetches of a run share one cache, and each of them reads and writes
//! the entry of its own URL only. The cache is built on that: whoever
//! changes it holds it alone for the length of one call, and a call for one
//! URL leaves the entry of every other URL as it was. Fetches that run side
//! by side take turns at the cache; they never need it while they wait for
//! the network.

use vstd::prelude::*;
use dashmap::DashMap;
use crate::entry::{CacheEntry, EntryModel, Instant};
use crate::error::OpenringError;
use crate::protocol::{
    entry_after, entry_view, plan_fetch, planned, respond, yield_view, yielded, EventModel,
    FetchEvent, FetchPlan, STATUS_NOT_MODIFIED, STATUS_OK, STATUS_TOO_MANY_REQUESTS,
};
use crate::urls::{is_normal_url, lemma_normal_form, normal_form, url_key};

verus! {

/// `dashmap::DashMap`, a hash map that may be shared. Nothing is known of
/// what it holds but through [`held`].
#[verifier::external_type_specification]
#[verifier::external_body]
#[verifier::reject_recursive_types(K)]
#[verifier::reject_recursive_types(V)]
#[verifier::reject_recursive_types(S)]
pub struct ExDashMap<K, V, S>(DashMap<K, V, S>);

/// What a map holds: for each URL text the value of its entry.
pub uninterp spec fn held(m: DashMap<String, CacheEntry>) -> Map<Seq<char>, EntryModel>;

/// `pairs` names every binding of `m` once, in some order.
pub open spec fn lists(pairs: Seq<(String, CacheEntry)>, m: Map<Seq<char>, EntryModel>) -> bool {
    &&& forall|i: int|
        0 <= i < pairs.len() ==> m.contains_key(#[trigger] pairs[i].0@) && m[pairs[i].0@]
            == pairs[i].1@
    &&& forall|i: int, j: int|
        0 <= i < j < pairs.len() ==> #[trigger] pairs[i].0@ != #[trigger] pairs[j].0@
    &&& forall|k: Seq<char>|
        m.contains_key(k) ==> exists|i: int| 0 <= i < pairs.len() && #[trigger] pairs[i].0@ == k
}

/// `DashMap::new`: the new map holds nothing.
#[verifier::external_body]
fn map_new() -> (fresh: DashMap<String, CacheEntry>)
    ensures
        held(fresh) == (Map::<Seq<char>, EntryModel>::empty()),
{
    DashMap::new()
}

/// `DashMap::insert`: afterwards the key is bound to the value and every
/// other key is as before. The call comes back.
#[verifier::external_body]
fn map_insert(m: &mut DashMap<String, CacheEntry>, key: String, value: CacheEntry)
    ensures
        held(*final(m)) == held(*old(m)).insert(key@, value@),
    no_unwind
{
    m.insert(key, value);
}

/// `DashMap::get`: a copy of the entry bound to the key, if there is one.
#[verifier::external_body]
fn map_get(m: &DashMap<String, CacheEntry>, key: &str) -> (found: Option<CacheEntry>)
    ensures
        found is Some <==> held(*m).contains_key(key@),
        found matches Some(e) ==> e@ == held(*m)[key@],
{
    m.get(key).map(|e| e.value().clone())
}

/// `DashMap::len`: the number of bindings.
#[verifier::external_body]
fn map_len(m: &DashMap<String, CacheEntry>) -> (n: usize)
    ensures
        n == held(*m).dom().len(),
{
    m.len()
}

/// `DashMap::iter`: a copy of every binding, each once, in the order in
/// which the map happens to walk them.
#[verifier::external_body]
fn map_pairs(m: &DashMap<String, CacheEntry>) -> (pairs: Vec<(String, CacheEntry)>)
    ensures
        lists(pairs@, held(*m)),
{
    m.iter().map(|e| (e.key().clone(), e.value().clone())).collect()
}

/// The cache: at most one entry for each feed URL, kept under the normal
/// form of the URL.
pub struct Cache {
    map: DashMap<String, CacheEntry>,
}

/// The entry under the key `key` in `m`, if there is one.
pub open spec fn lookup(m: Map<Seq<char>, EntryModel>, key: Seq<char>) -> Option<EntryModel> {
    if m.contains_key(key) {
        Some(m[key])
    } else {
        None
    }
}

/// The entry of `url` in `m`: the one under its normal form. A text that is
/// no URL has none.
pub open spec fn entry_at(m: Map<Seq<char>, EntryModel>, url: Seq<char>) -> Option<EntryModel> {
    match normal_form(url) {
        Some(key) => lookup(m, key),
        None => None,
    }
}

/// The cache `m` with `e` as the entry of `url`. A text that is no URL gets
/// no entry.
pub open spec fn with_entry(m: Map<Seq<char>, EntryModel>, url: Seq<char>, e: EntryModel) -> Map<
    Seq<char>,
    EntryModel,
> {
    match normal_form(url) {
        Some(key) => m.insert(key, e),
        None => m,
    }
}

/// The cache `m` after the request for `url` ended in `event`: the entry of
/// `url` is what the protocol makes of it, and no other URL is touched.
pub open spec fn cache_after(
    m: Map<Seq<char>, EntryModel>,
    url: Seq<char>,
    event: EventModel,
    now: Instant,
) -> Map<Seq<char>, EntryModel> {
    match entry_after(entry_at(m, url), event, now) {
        Some(e) => with_entry(m, url, e),
        None => m,
    }
}

impl View for Cache {
    type V = Map<Seq<char>, EntryModel>;

    closed spec fn view(&self) -> Map<Seq<char>, EntryModel> {
        held(self.map)
    }
}

impl Cache {
    /// Every key is an absolute URL in normal form.
    #[verifier::type_invariant]
    spec fn keys_are_urls(self) -> bool {
        forall|k: Seq<char>| held(self.map).contains_key(k) ==> is_normal_url(k)
    }

    /// A cache that holds nothing.
    pub fn new() -> (cache: Cache)
        ensures
            cache@ == Map::<Seq<char>, EntryModel>::empty(),
    {
        Cache { map: map_new() }
    }

    /// A copy of the entry of `url`, if it has one.
    pub fn get(&self, url: &str) -> (found: Option<CacheEntry>)
        ensures
            entry_view(found) == entry_at(self@, url@),
    {
        match url_key(url) {
            Some(key) => map_get(&self.map, key.as_str()),
            None => None,
        }
    }

    /// Makes `entry` the entry of `url`, in place of the one it had, if any.
    /// Says whether `url` is a URL; a text that is none gets no entry.
    pub fn upsert(&mut self, url: &str, entry: CacheEntry) -> (kept: bool)
        ensures
            kept == normal_form(url@) is Some,
            final(self)@ == with_entry(old(self)@, url@, entry@),
    {
        proof {
            use_type_invariant(&*self);
            lemma_normal_form(url@);
        }
        match url_key(url) {
            Some(key) => {
                map_insert(&mut self.map, key, entry);
                true
            },
            None => false,
        }
    }

    /// The number of URLs that have an entry.
    pub fn len(&self) -> (n: usize)
        ensures
            n == self@.dom().len(),
    {
        map_len(&self.map)
    }

    /// Every URL with its entry, each once, in no particular order. Every
    /// URL is in normal form.
    pub fn entries(&self) -> (pairs: Vec<(String, CacheEntry)>)
        ensures
            lists(pairs@, self@),
            forall|k: Seq<char>| self@.contains_key(k) ==> is_normal_url(k),
    {
        proof {
            use_type_invariant(self);
        }
        map_pairs(&self.map)
    }

    /// Decides what to do for `url` before anything is sent.
    pub fn begin_fetch(&self, url: &str, now: Instant) -> (plan: FetchPlan)
        ensures
            plan@ == planned(entry_at(self@, url@), now),
    {
        let entry = self.get(url);
        match &entry {
            Some(e) => plan_fetch(Some(e), now),
            None => plan_fetch(None, now),
        }
    }

    /// Records how the request for `url` ended and returns the feed text that
    /// it yields, or the reason why it yields none.
    pub fn finish_fetch(&mut self, url: &str, event: FetchEvent, now: Instant) -> (text: Result<
        String,
        OpenringError,
    >)
        ensures
            final(self)@ == cache_after(old(self)@, url@, event@, now),
            yield_view(text) == yielded(entry_at(old(self)@, url@), url@, event@),
    {
        let entry = self.get(url);
        let (kept, text) = respond(entry, url, event, now);
        match kept {
            Some(e) => {
                self.upsert(url, e);
            },
            None => {},
        }
        text
    }
}

/// The end of a request for one URL leaves the entry of every other URL as
/// it was.
pub proof fn lemma_other_urls_untouched(
    m: Map<Seq<char>, EntryModel>,
    url: Seq<char>,
    other: Seq<char>,
    event: EventModel,
    now: Instant,
)
    requires
        normal_form(other) != normal_form(url),
    ensures
        entry_at(cache_after(m, url, event, now), other) == entry_at(m, other),
{
}

/// After the end of a request the entry of its URL is what the protocol
/// makes of the entry it had.
pub proof fn lemma_own_url_follows_protocol(
    m: Map<Seq<char>, EntryModel>,
    url: Seq<char>,
    event: EventModel,
    now: Instant,
)
    requires
        normal_form(url) is Some,
    ensures
        entry_at(cache_after(m, url, event, now), url) == entry_after(
            entry_at(m, url),
            event,
            now,
        ),
{
}

/// A status other than 200, 304 and 429, and a request without an answer,
/// leave the whole cache as it was: no entry changes and none is added.
pub proof fn lemma_failure_keeps_cache(
    m: Map<Seq<char>, EntryModel>,
    url: Seq<char>,
    event: EventModel,
    now: Instant,
)
    requires
        event matches EventModel::Answered(r) ==> r.status != STATUS_OK && r.status
            != STATUS_NOT_MODIFIED && r.status != STATUS_TOO_MANY_REQUESTS,
    ensures
        cache_after(m, url, event, now) == m,
{
    assert(cache_after(m, url, event, now) =~= m);
}

/// A cache in which every entry has a feed text is one after any end of a
/// request: the protocol never leaves an entry without a feed text behind.
pub proof fn lemma_cache_keeps_bodies(
    m: Map<Seq<char>, EntryModel>,
    url: Seq<char>,
    event: EventModel,
    now: Instant,
)
    requires
        forall|k: Seq<char>| m.contains_key(k) ==> (#[trigger] m[k]).body is Some,
    ensures
        forall|k: Seq<char>|
            cache_after(m, url, event, now).contains_key(k) ==> (#[trigger] cache_after(
                m,
                url,
                event,
                now,
            )[k]).body is Some,
{
    crate::protocol::lemma_bodies_are_kept(entry_at(m, url), event, now);
}

} // verus!
