//! The stories that the user bookmarked.
//!
//! Time is a count of milliseconds since the Unix epoch. The methods whose
//! name ends in `_at` take the present time as an argument; the others read
//! the wall clock.

use crate::clock::epoch_ms;
use crate::models::Story;
use std::collections::HashMap;
use vstd::prelude::*;
use vstd::std_specs::hash::spec_hash_map_iter;
use vstd::std_specs::iter::IteratorSpec;

verus! {

broadcast use vstd::std_specs::hash::group_hash_axioms;

/// A story that was bookmarked, and when.
#[derive(Debug, PartialEq, Eq)]
pub struct BookmarkedStory {
    pub id: u32,
    pub title: Option<String>,
    pub url: Option<String>,
    /// When the story was bookmarked, in milliseconds since the Unix epoch.
    pub bookmarked_at: i64,
}

impl Clone for BookmarkedStory {
    /// A clone holds what the bookmark holds.
    fn clone(&self) -> (copy: BookmarkedStory)
        ensures
            copy == *self,
    {
        BookmarkedStory {
            id: self.id,
            title: self.title.clone(),
            url: self.url.clone(),
            bookmarked_at: self.bookmarked_at,
        }
    }
}

/// The bookmark of a story bookmarked at `now`.
pub open spec fn spec_bookmarked(story: Story, now: i64) -> BookmarkedStory {
    BookmarkedStory { id: story.id, title: story.title, url: story.url, bookmarked_at: now }
}

/// The bookmarks after the bookmark of `story` is toggled at `now`: a
/// story that was bookmarked no longer is, any other story is bookmarked.
pub open spec fn spec_toggle(m: Map<u32, BookmarkedStory>, story: Story, now: i64) -> Map<
    u32,
    BookmarkedStory,
> {
    if m.contains_key(story.id) {
        m.remove(story.id)
    } else {
        m.insert(story.id, spec_bookmarked(story, now))
    }
}

/// Whether `listed` lists the bookmarks of `m`: each of them once, under
/// one of the keys of `m` each.
pub open spec fn spec_lists(listed: Seq<BookmarkedStory>, m: Map<u32, BookmarkedStory>) -> bool {
    exists|keys: Seq<u32>| #[trigger] spec_lists_by(listed, m, keys)
}

/// Whether `listed` lists the bookmarks of `m` in the order of `keys`.
pub open spec fn spec_lists_by(
    listed: Seq<BookmarkedStory>,
    m: Map<u32, BookmarkedStory>,
    keys: Seq<u32>,
) -> bool {
    &&& keys.no_duplicates()
    &&& keys.len() == listed.len()
    &&& forall|k: u32| m.contains_key(k) <==> keys.contains(k)
    &&& forall|i: int| 0 <= i < keys.len() ==> listed[i] == m[#[trigger] keys[i]]
}

/// Whether the bookmarks stand newest first.
pub open spec fn spec_newest_first(listed: Seq<BookmarkedStory>) -> bool {
    forall|i: int, j: int|
        0 <= i < j < listed.len() ==> listed[i].bookmarked_at >= listed[j].bookmarked_at
}

/// The bookmarks of the user, by the id of the story.
pub struct Bookmarks {
    bookmarks: HashMap<u32, BookmarkedStory>,
}

impl View for Bookmarks {
    type V = Map<u32, BookmarkedStory>;

    /// The bookmarks by the id under which they are kept.
    closed spec fn view(&self) -> Map<u32, BookmarkedStory> {
        self.bookmarks@
    }
}

impl Bookmarks {
    /// Creates an empty set of bookmarks.
    pub fn new() -> (bookmarks: Bookmarks)
        ensures
            bookmarks@ == Map::<u32, BookmarkedStory>::empty(),
    {
        Bookmarks { bookmarks: HashMap::new() }
    }

    /// Creates a set of bookmarks that holds `bookmarks` as they are.
    pub fn with_bookmarks(bookmarks: HashMap<u32, BookmarkedStory>) -> (loaded: Bookmarks)
        ensures
            loaded@ == bookmarks@,
    {
        Bookmarks { bookmarks }
    }

    /// Takes over the bookmarks of `imported`, each under its key and in
    /// place of a bookmark that was kept under that key, and returns their
    /// number.
    pub fn import(&mut self, imported: &HashMap<u32, BookmarkedStory>) -> (count: usize)
        ensures
            final(self)@ == old(self)@.union_prefer_right(imported@),
            imported@.dom().finite(),
            count == imported@.dom().len(),
    {
        let ghost before = self.bookmarks@;
        let ghost pairs = spec_hash_map_iter(imported).remaining();
        let ghost mut done: Set<u32> = Set::empty();
        assert(before =~= before.union_prefer_right(imported@.restrict(done)));
        for pair in it: imported.iter()
            invariant
                it.seq() == pairs,
                forall|j: int|
                    0 <= j < pairs.len() ==> imported@.contains_key(*(#[trigger] pairs[j]).0)
                        && imported@[*pairs[j].0] == *pairs[j].1,
                forall|j: int| 0 <= j < it.index() ==> done.contains(*(#[trigger] pairs[j]).0),
                forall|k: u32| done.contains(k) ==> imported@.contains_key(k),
                self.bookmarks@ == before.union_prefer_right(imported@.restrict(done)),
        {
            let ghost at = it.index() as int;
            let ghost earlier_done = done;
            assert(pair == pairs[at]);
            let _ = self.bookmarks.insert(*pair.0, pair.1.clone());
            proof {
                done = earlier_done.insert(*pair.0);
                assert(self.bookmarks@ =~= before.union_prefer_right(imported@.restrict(done)));
            }
        }
        proof {
            assert forall|k: u32| imported@.contains_key(k) implies done.contains(k) by {
                assert(pairs.contains((&k, &imported@[k])));
                let j = choose|j: int| 0 <= j < pairs.len() && pairs[j] == (&k, &imported@[k]);
                assert(done.contains(*pairs[j].0));
            }
            assert(imported@.restrict(done) =~= imported@);
        }
        imported.len()
    }

    /// Toggles the bookmark of `story` at `now`, and says whether the story
    /// is bookmarked afterwards.
    pub fn toggle_at(&mut self, story: &Story, now: i64) -> (bookmarked: bool)
        ensures
            final(self)@ == spec_toggle(old(self)@, *story, now),
            bookmarked == !old(self)@.contains_key(story.id),
    {
        if self.bookmarks.contains_key(&story.id) {
            let _ = self.bookmarks.remove(&story.id);
            false
        } else {
            let bookmark = BookmarkedStory {
                id: story.id,
                title: story.title.clone(),
                url: story.url.clone(),
                bookmarked_at: now,
            };
            assert(bookmark == spec_bookmarked(*story, now));
            let _ = self.bookmarks.insert(story.id, bookmark);
            true
        }
    }

    /// Toggles the bookmark of `story` at the present time of the wall
    /// clock, and says whether the story is bookmarked afterwards.
    pub fn toggle(&mut self, story: &Story) -> (bookmarked: bool)
        ensures
            exists|now: i64| final(self)@ == #[trigger] spec_toggle(old(self)@, *story, now),
            bookmarked == !old(self)@.contains_key(story.id),
    {
        let now = epoch_ms();
        let bookmarked = self.toggle_at(story, now);
        assert(self@ == spec_toggle(old(self)@, *story, now));
        bookmarked
    }

    /// Whether the story with the id `story_id` is bookmarked.
    pub fn is_bookmarked(&self, story_id: u32) -> (bookmarked: bool)
        ensures
            bookmarked == self@.contains_key(story_id),
    {
        self.bookmarks.contains_key(&story_id)
    }

    /// The bookmarks, newest first. Bookmarks of the same time stand in no
    /// particular order.
    pub fn get_all(&self) -> (listed: Vec<BookmarkedStory>)
        ensures
            spec_lists(listed@, self@),
            spec_newest_first(listed@),
    {
        let ghost m = self.bookmarks@;
        let ghost pairs = spec_hash_map_iter(&self.bookmarks).remaining();
        let mut listed: Vec<BookmarkedStory> = Vec::new();
        let ghost mut keys: Seq<u32> = Seq::empty();
        let ghost mut origin: Seq<int> = Seq::empty();
        for pair in it: self.bookmarks.iter()
            invariant
                m == self.bookmarks@,
                it.seq() == pairs,
                pairs.no_duplicates(),
                forall|j: int|
                    0 <= j < pairs.len() ==> m.contains_key(*(#[trigger] pairs[j]).0) && m[*pairs[j].0]
                        == *pairs[j].1,
                keys.len() == listed@.len() == it.index(),
                keys.no_duplicates(),
                forall|i: int| 0 <= i < keys.len() ==> listed@[i] == m[#[trigger] keys[i]],
                forall|j: int| 0 <= j < it.index() ==> keys.contains(*(#[trigger] pairs[j]).0),
                origin.len() == keys.len(),
                forall|i: int|
                    0 <= i < keys.len() ==> 0 <= #[trigger] origin[i] < it.index() && keys[i]
                        == *pairs[origin[i]].0,
                spec_newest_first(listed@),
        {
            let ghost at = it.index() as int;
            let ghost earlier_keys = keys;
            let ghost earlier_origin = origin;
            let ghost earlier = listed@;
            let n = listed.len();
            let mut p: usize = 0;
            while p < n && listed[p].bookmarked_at >= pair.1.bookmarked_at
                invariant
                    p <= n,
                    n == listed@.len(),
                    forall|i: int| 0 <= i < p ==> listed@[i].bookmarked_at >= pair.1.bookmarked_at,
                decreases n - p,
            {
                p += 1;
            }
            listed.insert(p, pair.1.clone());
            proof {
                let key = *pair.0;
                assert(pair == pairs[at]);
                assert(!earlier_keys.contains(key)) by {
                    if earlier_keys.contains(key) {
                        let i = choose|i: int| 0 <= i < earlier_keys.len() && earlier_keys[i] == key;
                        let j = earlier_origin[i];
                        assert(*pairs[j].1 == m[key]);
                        assert(pairs[j] == pairs[at]);
                    }
                }
                keys = earlier_keys.insert(p as int, key);
                origin = earlier_origin.insert(p as int, at);
                assert forall|a: int, b: int|
                    0 <= a < keys.len() && 0 <= b < keys.len() && a != b implies keys[a]
                    != keys[b] by {
                    let a0 = if a < p { a } else { a - 1 };
                    let b0 = if b < p { b } else { b - 1 };
                    if a != p && b != p {
                        assert(earlier_keys[a0] != earlier_keys[b0]);
                    } else if a == p {
                        assert(earlier_keys[b0] == keys[b]);
                    } else {
                        assert(earlier_keys[a0] == keys[a]);
                    }
                }
                assert forall|i: int| 0 <= i < keys.len() implies listed@[i] == m[#[trigger] keys[i]] by {
                    if i < p {
                        assert(keys[i] == earlier_keys[i]);
                    } else if i > p {
                        assert(keys[i] == earlier_keys[i - 1]);
                    }
                }
                assert forall|j: int| 0 <= j < at + 1 implies keys.contains(
                    *(#[trigger] pairs[j]).0,
                ) by {
                    if j < at {
                        let i = choose|i: int|
                            0 <= i < earlier_keys.len() && earlier_keys[i] == *pairs[j].0;
                        let i1 = if i < p { i } else { i + 1 };
                        assert(keys[i1] == *pairs[j].0);
                    } else {
                        assert(keys[p as int] == key);
                    }
                }
                assert forall|i: int| 0 <= i < keys.len() implies 0 <= #[trigger] origin[i] < at + 1
                    && keys[i] == *pairs[origin[i]].0 by {
                    if i != p {
                        let i0 = if i < p { i } else { i - 1 };
                        assert(origin[i] == earlier_origin[i0]);
                        assert(keys[i] == earlier_keys[i0]);
                    }
                }
                assert forall|a: int, b: int| 0 <= a < b < listed@.len() implies listed@[a].bookmarked_at
                    >= listed@[b].bookmarked_at by {
                    let a0 = if a < p { a } else { a - 1 };
                    let b0 = if b < p { b } else { b - 1 };
                    if a != p && b != p {
                        assert(earlier[a0].bookmarked_at >= earlier[b0].bookmarked_at);
                    } else if a == p {
                        assert(listed@[b] == earlier[b0]);
                        if (p as int) < earlier.len() {
                            assert(earlier[p as int].bookmarked_at >= earlier[b0].bookmarked_at);
                        }
                    } else {
                        assert(listed@[a] == earlier[a0]);
                    }
                }
            }
        }
        proof {
            assert forall|k: u32| m.contains_key(k) implies keys.contains(k) by {
                assert(pairs.contains((&k, &m[k])));
                let j = choose|j: int| 0 <= j < pairs.len() && pairs[j] == (&k, &m[k]);
                assert(keys.contains(*pairs[j].0));
            }
            assert forall|k: u32| keys.contains(k) implies m.contains_key(k) by {
                let i = choose|i: int| 0 <= i < keys.len() && keys[i] == k;
                assert(m.contains_key(*pairs[origin[i]].0));
            }
            assert(spec_lists_by(listed@, m, keys));
        }
        listed
    }

    /// The number of bookmarks.
    pub fn count(&self) -> (n: usize)
        ensures
            self@.dom().finite(),
            n == self@.dom().len(),
    {
        self.bookmarks.len()
    }
}

impl Default for Bookmarks {
    fn default() -> (bookmarks: Bookmarks)
        ensures
            bookmarks@ == Map::<u32, BookmarkedStory>::empty(),
    {
        Bookmarks::new()
    }
}

} // verus!
