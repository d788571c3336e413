//! The bookkeeping of one batch of fetches.
//!
//! A batch starts with the URLs to fetch, all pending. Each fetch ends on
//! its own, in any order, with a feed or with a failure; a failure never
//! ends the batch. What is left at the end is the list of feeds that came
//! through and the list of failures.

use vstd::prelude::*;
use vstd::string::*;
use crate::error::{ErrorModel, OpenringError};
use crate::feed::{feeds_view, FeedData, FeedModel};
use crate::scan::texts;

verus! {

/// The state of a batch of fetches.
pub struct Batch {
    pending: Vec<String>,
    feeds: Vec<(FeedData, String)>,
    failures: Vec<(String, OpenringError)>,
}

/// The mathematical value of a [`Batch`].
pub ghost struct BatchModel {
    /// The URLs whose fetch has not ended, in the order they were given.
    pub pending: Seq<Seq<char>>,
    /// The feeds that came through, each with its URL, in the order in
    /// which the fetches ended.
    pub feeds: Seq<(FeedModel, Seq<char>)>,
    /// The failures, each with its URL, in the order in which the fetches
    /// ended.
    pub failures: Seq<(Seq<char>, ErrorModel)>,
}

/// `urls` without the first occurrence of `url`.
pub open spec fn without(urls: Seq<Seq<char>>, url: Seq<char>) -> Seq<Seq<char>>
    decreases urls.len(),
{
    if urls.len() == 0 {
        urls
    } else if urls[0] == url {
        urls.drop_first()
    } else {
        seq![urls[0]] + without(urls.drop_first(), url)
    }
}

/// The values of a list of failures, each with the URL that failed.
pub open spec fn failures_view(failures: Seq<(String, OpenringError)>) -> Seq<
    (Seq<char>, ErrorModel),
> {
    failures.map_values(|f: (String, OpenringError)| (f.0@, f.1@))
}

/// The value of the end of a fetch.
pub open spec fn outcome_view(outcome: Result<FeedData, OpenringError>) -> Result<
    FeedModel,
    ErrorModel,
> {
    match outcome {
        Ok(f) => Ok(f@),
        Err(e) => Err(e@),
    }
}

/// The batch after the fetch of `url` ended in `outcome`. A URL that is not
/// pending changes nothing.
pub open spec fn completed(
    b: BatchModel,
    url: Seq<char>,
    outcome: Result<FeedModel, ErrorModel>,
) -> BatchModel {
    if !b.pending.contains(url) {
        b
    } else {
        match outcome {
            Ok(f) => BatchModel {
                pending: without(b.pending, url),
                feeds: b.feeds.push((f, url)),
                failures: b.failures,
            },
            Err(e) => BatchModel {
                pending: without(b.pending, url),
                feeds: b.feeds,
                failures: b.failures.push((url, e)),
            },
        }
    }
}

/// The texts of `parts` with `between` between each two.
pub open spec fn joined(parts: Seq<Seq<char>>, between: Seq<char>) -> Seq<char>
    decreases parts.len(),
{
    if parts.len() == 0 {
        Seq::empty()
    } else if parts.len() == 1 {
        parts[0]
    } else {
        joined(parts.drop_last(), between) + between + parts.last()
    }
}

/// Taking out the element at the place of the first occurrence takes out
/// the first occurrence.
pub proof fn lemma_without_removes(urls: Seq<Seq<char>>, url: Seq<char>, i: int)
    requires
        0 <= i < urls.len(),
        urls[i] == url,
        forall|j: int| 0 <= j < i ==> urls[j] != url,
    ensures
        without(urls, url) == urls.remove(i),
    decreases urls.len(),
{
    if i == 0 {
        assert(urls.remove(0) =~= urls.drop_first());
    } else {
        let rest = urls.drop_first();
        assert forall|j: int| 0 <= j < i - 1 implies rest[j] != url by {
            assert(rest[j] == urls[j + 1]);
        }
        lemma_without_removes(rest, url, i - 1);
        assert(urls.remove(i) =~= seq![urls[0]] + rest.remove(i - 1));
    }
}

impl View for Batch {
    type V = BatchModel;

    closed spec fn view(&self) -> BatchModel {
        BatchModel {
            pending: texts(self.pending@),
            feeds: feeds_view(self.feeds@),
            failures: failures_view(self.failures@),
        }
    }
}

impl Batch {
    /// A batch in which every one of `urls` is pending.
    pub fn new(urls: Vec<String>) -> (batch: Batch)
        ensures
            batch@ == (BatchModel {
                pending: texts(urls@),
                feeds: Seq::empty(),
                failures: Seq::empty(),
            }),
    {
        let batch = Batch { pending: urls, feeds: Vec::new(), failures: Vec::new() };
        assert(batch@.feeds =~= Seq::empty());
        assert(batch@.failures =~= Seq::empty());
        batch
    }

    /// The number of fetches that have not ended.
    pub fn pending_count(&self) -> (n: usize)
        ensures
            n == self@.pending.len(),
    {
        self.pending.len()
    }

    /// The number of fetches that ended with a feed.
    pub fn feed_count(&self) -> (n: usize)
        ensures
            n == self@.feeds.len(),
    {
        self.feeds.len()
    }

    /// The number of fetches that ended with a failure.
    pub fn failure_count(&self) -> (n: usize)
        ensures
            n == self@.failures.len(),
    {
        self.failures.len()
    }

    /// The URLs that are pending, with a comma and a space between each two.
    pub fn pending_message(&self) -> (message: String)
        ensures
            message@ == joined(self@.pending, ", "@),
    {
        let ghost all = texts(self.pending@);
        let mut message = String::new();
        let mut i: usize = 0;
        assert(all.subrange(0, 0) =~= Seq::<Seq<char>>::empty());
        while i < self.pending.len()
            invariant
                0 <= i <= self.pending.len(),
                all == texts(self.pending@),
                message@ == joined(all.subrange(0, i as int), ", "@),
            decreases self.pending.len() - i,
        {
            let ghost upto = all.subrange(0, i as int);
            let ghost next = all.subrange(0, i + 1);
            assert(next.drop_last() =~= upto);
            assert(next.last() == self.pending@[i as int]@);
            if i > 0 {
                message.append(", ");
            }
            message.append(self.pending[i].as_str());
            proof {
                if i == 0 {
                    assert(message@ =~= next[0]);
                }
            }
            i = i + 1;
        }
        assert(all.subrange(0, i as int) =~= all);
        message
    }

    /// Records that the fetch of `url` ended in `outcome`. Says whether
    /// `url` was pending; where it was not, nothing is recorded.
    pub fn complete(&mut self, url: String, outcome: Result<FeedData, OpenringError>) -> (known: bool)
        ensures
            known == old(self)@.pending.contains(url@),
            final(self)@ == completed(old(self)@, url@, outcome_view(outcome)),
    {
        let ghost before = self@;
        let mut i: usize = 0;
        while i < self.pending.len()
            invariant
                0 <= i <= self.pending.len(),
                self@ == before,
                before == old(self)@,
                forall|j: int| 0 <= j < i ==> before.pending[j] != url@,
            decreases self.pending.len() - i,
        {
            assert(before.pending[i as int] == self.pending@[i as int]@);
            if self.pending[i] == url {
                assert(before.pending.contains(url@));
                self.pending.remove(i);
                proof {
                    lemma_without_removes(before.pending, url@, i as int);
                    assert(texts(self.pending@) =~= before.pending.remove(i as int));
                }
                match outcome {
                    Ok(feed) => {
                        self.feeds.push((feed, url));
                        assert(self@.feeds =~= before.feeds.push((feed@, url@)));
                    },
                    Err(e) => {
                        self.failures.push((url, e));
                        assert(self@.failures =~= before.failures.push((url@, e@)));
                    },
                }
                return true;
            }
            i = i + 1;
        }
        false
    }

    /// Ends the batch: the feeds that came through and the failures, each
    /// with its URL, in the order in which the fetches ended.
    pub fn finish(self) -> (lists: (Vec<(FeedData, String)>, Vec<(String, OpenringError)>))
        ensures
            feeds_view(lists.0@) == self@.feeds,
            failures_view(lists.1@) == self@.failures,
    {
        (self.feeds, self.failures)
    }
}

} // verus!
