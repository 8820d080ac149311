//! The most recent search queries, newest first.

use crate::text::is_blank;
use crate::text::spec_is_blank;
use crate::text::spec_texts;
use std::collections::VecDeque;
use vstd::prelude::*;

verus! {

/// The number of queries that a history keeps.
pub const MAX_HISTORY_SIZE: usize = 20;

/// The least index at which `history` holds `query`, or the length of
/// `history` where it does not hold it.
pub open spec fn spec_first_index(history: Seq<Seq<char>>, query: Seq<char>) -> int
    decreases history.len(),
{
    if history.len() == 0 {
        0
    } else if history[0] == query {
        0
    } else {
        1 + spec_first_index(history.drop_first(), query)
    }
}

/// The history after `query` is searched for: a blank query leaves it as it
/// is; any other query moves to the front, leaving the place where it first
/// stood, and a history that has grown past [`MAX_HISTORY_SIZE`] drops its
/// oldest query.
pub open spec fn spec_add(history: Seq<Seq<char>>, query: Seq<char>) -> Seq<Seq<char>> {
    if spec_is_blank(query) {
        history
    } else {
        let at = spec_first_index(history, query);
        let rest = if at < history.len() {
            history.remove(at)
        } else {
            history
        };
        let grown = seq![query] + rest;
        if grown.len() > MAX_HISTORY_SIZE {
            grown.drop_last()
        } else {
            grown
        }
    }
}

proof fn lemma_first_index(history: Seq<Seq<char>>, query: Seq<char>, i: int)
    requires
        0 <= i <= history.len(),
        forall|j: int| 0 <= j < i ==> history[j] != query,
        i < history.len() ==> history[i] == query,
    ensures
        spec_first_index(history, query) == i,
    decreases history.len(),
{
    if history.len() > 0 && i > 0 {
        let rest = history.drop_first();
        assert forall|j: int| 0 <= j < i - 1 implies rest[j] != query by {
            assert(rest[j] == history[j + 1]);
        }
        lemma_first_index(rest, query, i - 1);
    }
}

/// The search queries of the user, newest first, without repetition of the
/// query that was searched for last.
pub struct SearchHistory {
    history: VecDeque<String>,
}

impl View for SearchHistory {
    type V = Seq<Seq<char>>;

    /// The texts of the queries, newest first.
    closed spec fn view(&self) -> Seq<Seq<char>> {
        spec_texts(self.history@)
    }
}

impl SearchHistory {
    /// Creates an empty history.
    pub fn new() -> (history: SearchHistory)
        ensures
            history@ == Seq::<Seq<char>>::empty(),
    {
        let history = SearchHistory { history: VecDeque::new() };
        assert(history@ =~= Seq::<Seq<char>>::empty());
        history
    }

    /// Creates a history that holds `queries`, newest first, as they are.
    pub fn with_queries(queries: Vec<String>) -> (history: SearchHistory)
        ensures
            history@ == spec_texts(queries@),
    {
        let mut history: VecDeque<String> = VecDeque::new();
        let ghost all = queries@;
        for query in it: queries
            invariant
                it.seq() == all,
                history@ == all.take(it.index() as int),
        {
            history.push_back(query);
            assert(history@ =~= all.take(it.index() + 1));
        }
        assert(all.take(all.len() as int) =~= all);
        SearchHistory { history }
    }

    /// Records that `query` was searched for, and says whether the history
    /// took it: a blank query is not recorded.
    pub fn add(&mut self, query: String) -> (recorded: bool)
        ensures
            final(self)@ == spec_add(old(self)@, query@),
            recorded == !spec_is_blank(query@),
    {
        if is_blank(query.as_str()) {
            return false;
        }
        let ghost before = self.history@;
        let mut i: usize = 0;
        while i < self.history.len()
            invariant
                i <= self.history@.len(),
                self.history@ == before,
                forall|j: int| 0 <= j < i ==> spec_texts(before)[j] != query@,
            ensures
                i <= self.history@.len(),
                forall|j: int| 0 <= j < i ==> spec_texts(before)[j] != query@,
                i < before.len() ==> spec_texts(before)[i as int] == query@,
            decreases self.history@.len() - i,
        {
            if self.history[i] == query {
                break ;
            }
            i += 1;
        }
        proof {
            lemma_first_index(spec_texts(before), query@, i as int);
        }
        if i < self.history.len() {
            let _ = self.history.remove(i);
            assert(spec_texts(self.history@) =~= spec_texts(before).remove(i as int));
        }
        let ghost rest = self.history@;
        self.history.push_front(query);
        assert(spec_texts(self.history@) =~= seq![query@] + spec_texts(rest));
        if self.history.len() > MAX_HISTORY_SIZE {
            let ghost grown = self.history@;
            let _ = self.history.pop_back();
            assert(spec_texts(self.history@) =~= spec_texts(grown).drop_last());
        }
        true
    }

    /// The queries, newest first.
    pub fn get_all(&self) -> (queries: Vec<String>)
        ensures
            spec_texts(queries@) == self@,
    {
        let mut queries: Vec<String> = Vec::new();
        let mut i: usize = 0;
        while i < self.history.len()
            invariant
                i <= self.history@.len(),
                queries@ == self.history@.take(i as int),
            decreases self.history@.len() - i,
        {
            queries.push(self.history[i].clone());
            assert(queries@ =~= self.history@.take(i + 1));
            i += 1;
        }
        assert(self.history@.take(i as int) =~= self.history@);
        queries
    }

    /// Removes all queries.
    pub fn clear(&mut self)
        ensures
            final(self)@ == Seq::<Seq<char>>::empty(),
    {
        self.history.clear();
        assert(self@ =~= Seq::<Seq<char>>::empty());
    }
}

/// A history of no more than [`MAX_HISTORY_SIZE`] queries stays so, and the
/// query that was searched for last stands at its front.
pub proof fn law_history_bounded(history: Seq<Seq<char>>, query: Seq<char>)
    requires
        history.len() <= MAX_HISTORY_SIZE,
    ensures
        spec_add(history, query).len() <= MAX_HISTORY_SIZE,
        !spec_is_blank(query) ==> spec_add(history, query).len() > 0 && spec_add(history, query)[0]
            == query,
{
    lemma_first_index_is_first(history, query);
}

/// A history in which no query stands twice stays so.
pub proof fn law_history_without_repetition(history: Seq<Seq<char>>, query: Seq<char>)
    requires
        history.no_duplicates(),
    ensures
        spec_add(history, query).no_duplicates(),
{
    if !spec_is_blank(query) {
        let at = spec_first_index(history, query);
        lemma_first_index_is_first(history, query);
        let rest = if at < history.len() {
            history.remove(at)
        } else {
            history
        };
        assert(rest.no_duplicates());
        assert(!rest.contains(query)) by {
            if rest.contains(query) {
                let j = choose|j: int| 0 <= j < rest.len() && rest[j] == query;
                if at < history.len() {
                    let j0 = if j < at {
                        j
                    } else {
                        j + 1
                    };
                    assert(history[j0] == query);
                    assert(history[at] == query);
                } else {
                    assert(history[j] == query);
                }
            }
        }
        let grown = seq![query] + rest;
        assert forall|a: int, b: int| 0 <= a < grown.len() && 0 <= b < grown.len() && a != b implies grown[a]
            != grown[b] by {
            if a > 0 {
                assert(grown[a] == rest[a - 1]);
            }
            if b > 0 {
                assert(grown[b] == rest[b - 1]);
            }
        }
    }
}

proof fn lemma_first_index_is_first(history: Seq<Seq<char>>, query: Seq<char>)
    ensures
        0 <= spec_first_index(history, query) <= history.len(),
        forall|j: int| 0 <= j < spec_first_index(history, query) ==> history[j] != query,
        spec_first_index(history, query) < history.len() ==> history[spec_first_index(
            history,
            query,
        )] == query,
    decreases history.len(),
{
    if history.len() > 0 && history[0] != query {
        let rest = history.drop_first();
        lemma_first_index_is_first(rest, query);
        assert forall|j: int| 0 <= j < spec_first_index(history, query) implies history[j]
            != query by {
            if j > 0 {
                assert(history[j] == rest[j - 1]);
            }
        }
    }
}

} // verus!
