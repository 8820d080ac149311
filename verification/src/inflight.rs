//! Requests in flight, by URL, so that callers who ask for the same URL
//! while a fetch is outstanding share that one fetch.
//!
//! The table maps each URL with an outstanding fetch to the handle of that
//! fetch. The first caller for a URL registers a handle and starts the fetch;
//! later callers get a clone of the registered handle and wait on it. When
//! the fetch completes its entry is removed, so that the next call for the
//! URL starts a fresh fetch.

use vstd::prelude::*;
use vstd::string::StringExecFns;

verus! {

/// How a caller takes part in the fetch of a URL.
#[derive(Debug)]
pub enum Joined<H> {
    /// No fetch was outstanding: the caller's handle was registered, and the
    /// caller starts the fetch. Holds a clone of the registered handle.
    Started(H),
    /// A fetch is outstanding: the caller waits on it. Holds a clone of the
    /// handle registered by the caller that started it.
    Shared(H),
}

/// The table after a caller joins `url` with `candidate` in hand: an
/// outstanding fetch stays, otherwise the candidate is registered.
pub open spec fn spec_join<H>(m: Map<Seq<char>, H>, url: Seq<char>, candidate: H) -> Map<
    Seq<char>,
    H,
> {
    if m.contains_key(url) {
        m
    } else {
        m.insert(url, candidate)
    }
}

/// Whether a caller that joins `url` has to start the fetch.
pub open spec fn spec_starts<H>(m: Map<Seq<char>, H>, url: Seq<char>) -> bool {
    !m.contains_key(url)
}

/// The table after the callers holding `candidates` have joined `url` one
/// after the other.
pub open spec fn spec_join_all<H>(m: Map<Seq<char>, H>, url: Seq<char>, candidates: Seq<H>) -> Map<
    Seq<char>,
    H,
>
    decreases candidates.len(),
{
    if candidates.len() == 0 {
        m
    } else {
        spec_join(spec_join_all(m, url, candidates.drop_last()), url, candidates.last())
    }
}

struct Pending<H> {
    url: String,
    handle: H,
}

spec fn pending_urls<H>(pending: Seq<Pending<H>>) -> Seq<Seq<char>> {
    pending.map_values(|p: Pending<H>| p.url@)
}

spec fn pending_model<H>(pending: Seq<Pending<H>>) -> Map<Seq<char>, H> {
    Map::new(
        |url: Seq<char>| pending_urls(pending).contains(url),
        |url: Seq<char>| pending[pending_urls(pending).index_of(url)].handle,
    )
}

proof fn lemma_pending_at<H>(pending: Seq<Pending<H>>, i: int)
    requires
        pending_urls(pending).no_duplicates(),
        0 <= i < pending.len(),
    ensures
        pending_model(pending).contains_key(pending[i].url@),
        pending_model(pending)[pending[i].url@] == pending[i].handle,
{
    let urls = pending_urls(pending);
    assert(urls[i] == pending[i].url@);
    let j = urls.index_of(pending[i].url@);
    assert(urls[j] == urls[i]);
}

proof fn lemma_pending_absent<H>(pending: Seq<Pending<H>>, url: Seq<char>)
    requires
        forall|j: int| 0 <= j < pending.len() ==> pending[j].url@ != url,
    ensures
        !pending_model(pending).contains_key(url),
{
    let urls = pending_urls(pending);
    if urls.contains(url) {
        let j = choose|j: int| 0 <= j < urls.len() && urls[j] == url;
        assert(pending[j].url@ == url);
    }
}

/// The fetches that are outstanding, each under its URL with its handle.
pub struct InflightTable<H> {
    pending: Vec<Pending<H>>,
}

impl<H> View for InflightTable<H> {
    type V = Map<Seq<char>, H>;

    /// The registered handles by URL.
    closed spec fn view(&self) -> Map<Seq<char>, H> {
        pending_model(self.pending@)
    }
}

impl<H> InflightTable<H> {
    #[verifier::type_invariant]
    spec fn urls_are_distinct(&self) -> bool {
        pending_urls(self.pending@).no_duplicates()
    }

    /// Creates a table with no fetch outstanding.
    pub fn new() -> (table: InflightTable<H>)
        ensures
            table@ == Map::<Seq<char>, H>::empty(),
    {
        let table = InflightTable { pending: Vec::new() };
        assert(table@ =~= Map::<Seq<char>, H>::empty());
        table
    }

    fn position(&self, url: &str) -> (found: Option<usize>)
        ensures
            match found {
                Some(i) => i < self.pending@.len() && self.pending@[i as int].url@ == url@,
                None => forall|j: int| 0 <= j < self.pending@.len() ==> self.pending@[j].url@ != url@,
            },
    {
        let mut i: usize = 0;
        while i < self.pending.len()
            invariant
                i <= self.pending@.len(),
                forall|j: int| 0 <= j < i ==> self.pending@[j].url@ != url@,
            decreases self.pending@.len() - i,
        {
            if self.pending[i].url.as_str().eq(url) {
                return Some(i);
            }
            i += 1;
        }
        None
    }

    /// Whether a fetch of `url` is outstanding.
    pub fn is_pending(&self, url: &str) -> (pending: bool)
        ensures
            pending == self@.contains_key(url@),
    {
        proof {
            use_type_invariant(self);
        }
        match self.position(url) {
            Some(i) => {
                proof {
                    lemma_pending_at(self.pending@, i as int);
                }
                true
            },
            None => {
                proof {
                    lemma_pending_absent(self.pending@, url@);
                }
                false
            },
        }
    }

    /// Removes the entry of `url` once its fetch has completed, whether it
    /// succeeded or failed, and says whether an entry was there. Calling it
    /// again for the same URL changes nothing.
    pub fn complete(&mut self, url: &str) -> (removed: bool)
        ensures
            final(self)@ == old(self)@.remove(url@),
            removed == old(self)@.contains_key(url@),
    {
        proof {
            use_type_invariant(&*self);
        }
        let ghost before = self.pending@;
        match self.position(url) {
            Some(i) => {
                let mut pending: Vec<Pending<H>> = Vec::new();
                std::mem::swap(&mut self.pending, &mut pending);
                let _ = pending.remove(i);
                proof {
                    lemma_pending_at(before, i as int);
                    assert(pending_urls(pending@) =~= pending_urls(before).remove(i as int));
                    assert forall|a: int, b: int|
                        0 <= a < b < pending@.len() implies pending_urls(pending@)[a]
                        != pending_urls(pending@)[b] by {
                        let a0 = if a < i { a } else { a + 1 };
                        let b0 = if b < i { b } else { b + 1 };
                        assert(pending_urls(before)[a0] != pending_urls(before)[b0]);
                    }
                }
                self.pending = pending;
                proof {
                    let after = self.pending@;
                    let wanted = pending_model(before).remove(url@);
                    assert forall|k: Seq<char>| #[trigger]
                        pending_model(after).contains_key(k) implies wanted.contains_key(k)
                        && pending_model(after)[k] == wanted[k] by {
                        let j = pending_urls(after).index_of(k);
                        assert(pending_urls(after)[j] == k);
                        let j0 = if j < i { j } else { j + 1 };
                        assert(after[j] == before[j0]);
                        assert(pending_urls(before)[j0] != pending_urls(before)[i as int]);
                        lemma_pending_at(before, j0);
                    }
                    assert forall|k: Seq<char>| wanted.contains_key(k) implies #[trigger]
                        pending_model(after).contains_key(k) by {
                        let j0 = pending_urls(before).index_of(k);
                        assert(pending_urls(before)[j0] == k);
                        let j = if j0 < i { j0 } else { j0 - 1 };
                        assert(after[j] == before[j0]);
                        assert(pending_urls(after)[j] == k);
                    }
                    assert(pending_model(after) =~= wanted);
                }
                true
            },
            None => {
                proof {
                    lemma_pending_absent(before, url@);
                    assert(self@ =~= self@.remove(url@));
                }
                false
            },
        }
    }
}

impl<H: Clone> InflightTable<H> {
    /// Joins the fetch of `url`, with the handle `candidate` of a fetch that
    /// has not been started.
    ///
    /// If a fetch of `url` is outstanding the table stays as it is, the
    /// candidate is dropped and the caller gets a clone of the registered
    /// handle. Otherwise the candidate is registered under `url` and the
    /// caller, who gets a clone of it, has to start the fetch.
    pub fn join(&mut self, url: &str, candidate: H) -> (joined: Joined<H>)
        ensures
            final(self)@ == spec_join(old(self)@, url@, candidate),
            joined is Started <==> spec_starts(old(self)@, url@),
            match joined {
                Joined::Started(handle) => cloned(candidate, handle),
                Joined::Shared(handle) => cloned(old(self)@[url@], handle),
            },
    {
        proof {
            use_type_invariant(&*self);
        }
        let ghost before = self.pending@;
        match self.position(url) {
            Some(i) => {
                proof {
                    lemma_pending_at(before, i as int);
                }
                Joined::Shared(self.pending[i].handle.clone())
            },
            None => {
                proof {
                    lemma_pending_absent(before, url@);
                }
                let handle = candidate.clone();
                let entry = Pending { url: String::from_str(url), handle: candidate };
                let mut pending: Vec<Pending<H>> = Vec::new();
                std::mem::swap(&mut self.pending, &mut pending);
                pending.push(entry);
                assert(pending_urls(pending@) =~= pending_urls(before).push(url@));
                self.pending = pending;
                proof {
                    let after = self.pending@;
                    let wanted = pending_model(before).insert(url@, candidate);
                    let at = before.len() as int;
                    assert(pending_urls(after)[at] == url@);
                    assert forall|k: Seq<char>| #[trigger]
                        pending_model(after).contains_key(k) implies wanted.contains_key(k)
                        && pending_model(after)[k] == wanted[k] by {
                        let j = pending_urls(after).index_of(k);
                        assert(pending_urls(after)[j] == k);
                        if k != url@ {
                            assert(j != at);
                            assert(after[j] == before[j]);
                            lemma_pending_at(before, j);
                        } else {
                            assert(j == at);
                        }
                    }
                    assert forall|k: Seq<char>| wanted.contains_key(k) implies #[trigger]
                        pending_model(after).contains_key(k) by {
                        if k != url@ {
                            let j = pending_urls(before).index_of(k);
                            assert(pending_urls(after)[j] == k);
                        }
                    }
                    assert(pending_model(after) =~= wanted);
                }
                Joined::Started(handle)
            },
        }
    }
}

/// While a fetch of `url` is outstanding no joining caller starts another:
/// of the callers that join a URL with no fetch outstanding, one after the
/// other, only the first starts a fetch, and every one of them finds the
/// handle of the first registered.
pub proof fn law_single_fetch<H>(m: Map<Seq<char>, H>, url: Seq<char>, candidates: Seq<H>, k: int)
    requires
        !m.contains_key(url),
        0 <= k < candidates.len(),
    ensures
        spec_starts(spec_join_all(m, url, candidates.take(k)), url) <==> k == 0,
        spec_join_all(m, url, candidates.take(k + 1)).contains_key(url),
        spec_join_all(m, url, candidates.take(k + 1))[url] == candidates[0],
    decreases k,
{
    let upto = candidates.take(k + 1);
    assert(upto.drop_last() =~= candidates.take(k));
    assert(upto.last() == candidates[k]);
    if k > 0 {
        law_single_fetch(m, url, candidates, k - 1);
    } else {
        assert(candidates.take(0).len() == 0);
    }
}

/// Once the entry of `url` is removed the next caller starts a fresh fetch,
/// and removing it again changes nothing.
pub proof fn law_complete_resets<H>(m: Map<Seq<char>, H>, url: Seq<char>)
    ensures
        spec_starts(m.remove(url), url),
        m.remove(url).remove(url) == m.remove(url),
{
    assert(m.remove(url).remove(url) =~= m.remove(url));
}

} // verus!
