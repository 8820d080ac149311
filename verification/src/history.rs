//! The stories that were viewed, most recent first.
//!
//! Time is a count of milliseconds since the Unix epoch. The methods whose
//! name ends in `_at` take the present time as an argument; the others read
//! the wall clock.

use crate::clock::epoch_ms;
use crate::models::Story;
use crate::text::decimal_string;
use crate::text::join2;
use crate::text::spec_decimal;
use std::collections::VecDeque;
use vstd::prelude::*;
use vstd::string::StringExecFns;

verus! {

/// The number of stories that a history keeps.
pub const MAX_HISTORY_SIZE: usize = 50;

/// A story that was viewed, and when.
#[derive(Debug, PartialEq, Eq)]
pub struct ViewedStory {
    pub id: u32,
    pub title: Option<String>,
    pub url: Option<String>,
    /// When the story was viewed, in milliseconds since the Unix epoch.
    pub viewed_at: i64,
}

impl Clone for ViewedStory {
    /// A clone holds what the entry holds.
    fn clone(&self) -> (copy: ViewedStory)
        ensures
            copy == *self,
    {
        ViewedStory {
            id: self.id,
            title: self.title.clone(),
            url: self.url.clone(),
            viewed_at: self.viewed_at,
        }
    }
}

/// The entry of a story viewed at `now`.
pub open spec fn spec_viewed(story: Story, now: i64) -> ViewedStory {
    ViewedStory { id: story.id, title: story.title, url: story.url, viewed_at: now }
}

/// The history after a story is viewed: its entry stands at the front, the
/// earlier entries of the same story are gone, and a history that has grown
/// past [`MAX_HISTORY_SIZE`] has dropped its oldest entry.
pub open spec fn spec_add(history: Seq<ViewedStory>, entry: ViewedStory) -> Seq<ViewedStory> {
    let grown = seq![entry] + history.filter(|s: ViewedStory| s.id != entry.id);
    if grown.len() > MAX_HISTORY_SIZE {
        grown.drop_last()
    } else {
        grown
    }
}

/// The whole seconds from `then` to `now`, both in milliseconds; negative if
/// `then` is the later one.
pub open spec fn spec_elapsed_seconds(then: i64, now: i64) -> int {
    if now >= then {
        (now - then) / 1000
    } else {
        -((then - now) / 1000)
    }
}

/// How long ago something was, in words: `just now` up to a minute, then
/// whole minutes, hours, days of 24 hours, and months of 30 days.
pub open spec fn spec_format_elapsed(seconds: int) -> Seq<char> {
    if seconds < 60 {
        "just now"@
    } else if seconds < 3600 {
        spec_decimal((seconds / 60) as nat) + "m ago"@
    } else if seconds < 86400 {
        spec_decimal((seconds / 3600) as nat) + "h ago"@
    } else if seconds < 2592000 {
        spec_decimal((seconds / 86400) as nat) + "d ago"@
    } else {
        spec_decimal((seconds / 2592000) as nat) + "mo ago"@
    }
}

/// Says in words how many seconds ago something was.
pub fn format_elapsed(seconds: i64) -> (text: String)
    ensures
        text@ == spec_format_elapsed(seconds as int),
{
    if seconds < 60 {
        String::from_str("just now")
    } else if seconds < 3600 {
        let count = decimal_string((seconds / 60) as u64);
        join2(count.as_str(), "m ago")
    } else if seconds < 86400 {
        let count = decimal_string((seconds / 3600) as u64);
        join2(count.as_str(), "h ago")
    } else if seconds < 2592000 {
        let count = decimal_string((seconds / 86400) as u64);
        join2(count.as_str(), "d ago")
    } else {
        let count = decimal_string((seconds / 2592000) as u64);
        join2(count.as_str(), "mo ago")
    }
}

/// The stories that the user viewed, most recent first, each story once.
pub struct History {
    history: VecDeque<ViewedStory>,
}

impl View for History {
    type V = Seq<ViewedStory>;

    /// The entries, most recent first.
    closed spec fn view(&self) -> Seq<ViewedStory> {
        self.history@
    }
}

impl History {
    /// Creates an empty history.
    pub fn new() -> (history: History)
        ensures
            history@ == Seq::<ViewedStory>::empty(),
    {
        History { history: VecDeque::new() }
    }

    /// Creates a history that holds `entries`, most recent first, as they
    /// are.
    pub fn with_entries(entries: Vec<ViewedStory>) -> (history: History)
        ensures
            history@ == entries@,
    {
        let mut history: VecDeque<ViewedStory> = VecDeque::new();
        let ghost all = entries@;
        for entry in it: entries
            invariant
                it.seq() == all,
                history@ == all.take(it.index() as int),
        {
            history.push_back(entry);
            assert(history@ =~= all.take(it.index() + 1));
        }
        assert(all.take(all.len() as int) =~= all);
        History { history }
    }

    /// Records that `story` was viewed at `now`.
    pub fn add_at(&mut self, story: &Story, now: i64)
        ensures
            final(self)@ == spec_add(old(self)@, spec_viewed(*story, now)),
    {
        let entry = ViewedStory {
            id: story.id,
            title: story.title.clone(),
            url: story.url.clone(),
            viewed_at: now,
        };
        assert(entry == spec_viewed(*story, now));
        let ghost before = self.history@;
        let ghost other = |s: ViewedStory| s.id != entry.id;
        let mut rest: VecDeque<ViewedStory> = VecDeque::new();
        rest.push_back(entry);
        let n = self.history.len();
        let mut i: usize = 0;
        while i < n
            invariant
                i <= n,
                n == before.len(),
                self.history@ == before.subrange(i as int, n as int),
                entry.id == story.id,
                other == (|s: ViewedStory| s.id != entry.id),
                rest@ == seq![entry] + before.take(i as int).filter(other),
            decreases n - i,
        {
            proof {
                reveal(Seq::filter);
                let upto = before.take(i + 1);
                assert(upto.drop_last() =~= before.take(i as int));
                assert(upto.last() == before[i as int]);
                assert(upto.filter(other) == if other(before[i as int]) {
                    before.take(i as int).filter(other).push(before[i as int])
                } else {
                    before.take(i as int).filter(other)
                });
            }
            assert(self.history@[0] == before[i as int]);
            let viewed = self.history.pop_front().unwrap();
            assert(self.history@ =~= before.subrange(i + 1, n as int));
            if viewed.id != story.id {
                rest.push_back(viewed);
            }
            assert(rest@ =~= seq![entry] + before.take(i + 1).filter(other));
            i += 1;
        }
        assert(before.take(n as int) =~= before);
        if rest.len() > MAX_HISTORY_SIZE {
            let ghost grown = rest@;
            let _ = rest.pop_back();
            assert(rest@ =~= grown.drop_last());
        }
        self.history = rest;
    }

    /// Records that `story` was viewed at the present time of the wall
    /// clock.
    pub fn add(&mut self, story: &Story)
        ensures
            exists|now: i64| final(self)@ == spec_add(old(self)@, #[trigger] spec_viewed(*story, now)),
    {
        let now = epoch_ms();
        self.add_at(story, now);
        assert(self@ == spec_add(old(self)@, spec_viewed(*story, now)));
    }

    /// The entries, most recent first.
    pub fn get_all(&self) -> (entries: Vec<ViewedStory>)
        ensures
            entries@ == self@,
    {
        let mut entries: Vec<ViewedStory> = Vec::new();
        let mut i: usize = 0;
        while i < self.history.len()
            invariant
                i <= self.history@.len(),
                entries@ == self.history@.take(i as int),
            decreases self.history@.len() - i,
        {
            entries.push(self.history[i].clone());
            assert(entries@ =~= self.history@.take(i + 1));
            i += 1;
        }
        assert(self.history@.take(i as int) =~= self.history@);
        entries
    }

    /// Removes all entries.
    pub fn clear(&mut self)
        ensures
            final(self)@ == Seq::<ViewedStory>::empty(),
    {
        self.history.clear();
    }

    /// The number of entries.
    pub fn count(&self) -> (n: usize)
        ensures
            n == self@.len(),
    {
        self.history.len()
    }

    /// Says in words how long before `now` the time `timestamp` was.
    pub fn format_viewed_ago_at(timestamp: i64, now: i64) -> (text: String)
        ensures
            text@ == spec_format_elapsed(spec_elapsed_seconds(timestamp, now)),
    {
        if now < timestamp {
            String::from_str("just now")
        } else {
            let span: i128 = now as i128 - timestamp as i128;
            let seconds = span / 1000;
            format_elapsed(seconds as i64)
        }
    }

    /// Says in words how long ago the time `timestamp` was, by the wall
    /// clock.
    pub fn format_viewed_ago(timestamp: i64) -> (text: String)
        ensures
            exists|now: i64|
                text@ == spec_format_elapsed(#[trigger] spec_elapsed_seconds(timestamp, now)),
    {
        let now = epoch_ms();
        let text = History::format_viewed_ago_at(timestamp, now);
        assert(text@ == spec_format_elapsed(spec_elapsed_seconds(timestamp, now)));
        text
    }
}

impl Default for History {
    fn default() -> (history: History)
        ensures
            history@ == Seq::<ViewedStory>::empty(),
    {
        History::new()
    }
}

/// A history of no more than [`MAX_HISTORY_SIZE`] entries stays so, the
/// story viewed last stands at its front, and no later entry is of that
/// story.
pub proof fn law_history_bounded(history: Seq<ViewedStory>, entry: ViewedStory)
    requires
        history.len() <= MAX_HISTORY_SIZE,
    ensures
        0 < spec_add(history, entry).len() <= MAX_HISTORY_SIZE,
        spec_add(history, entry)[0] == entry,
        forall|i: int| 1 <= i < spec_add(history, entry).len() ==> spec_add(history, entry)[i].id != entry.id,
{
    let other = |s: ViewedStory| s.id != entry.id;
    let rest = history.filter(other);
    history.lemma_filter_len(other);
    assert forall|i: int| 0 <= i < rest.len() implies rest[i].id != entry.id by {
        history.lemma_filter_pred(other, i);
    }
    let grown = seq![entry] + rest;
    assert forall|i: int| 1 <= i < grown.len() implies grown[i].id != entry.id by {
        assert(grown[i] == rest[i - 1]);
    }
}

} // verus!
