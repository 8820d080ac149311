//! Which stories of a list are shown, and in which order.

use crate::models::Story;
use crate::models::StoryView;
use crate::text::chars_of;
use crate::text::lowercase;
use crate::text::matches_at;
use crate::text::spec_matches_at;
use crate::text::unicode_lowercase;
use vstd::prelude::*;

verus! {

/// Where a search query is looked for.
#[derive(Debug, Clone, Copy, PartialEq, Eq, Structural)]
pub enum SearchMode {
    /// In the title.
    Title,
    /// In the title; the comments are not searched.
    Comments,
    /// In the title and in the URL.
    Both,
}

/// By what the stories are ordered.
#[derive(Debug, Clone, Copy, PartialEq, Eq, Structural)]
pub enum SortOption {
    /// By their score.
    Score,
    /// By the number of their comments.
    Comments,
    /// By the time of their posting.
    Time,
}

/// In which direction the stories are ordered.
#[derive(Debug, Clone, Copy, PartialEq, Eq, Structural)]
pub enum SortOrder {
    Ascending,
    Descending,
}

impl SearchMode {
    /// The mode that follows in the cycle title, comments, both.
    pub open spec fn spec_next(self) -> SearchMode {
        match self {
            SearchMode::Title => SearchMode::Comments,
            SearchMode::Comments => SearchMode::Both,
            SearchMode::Both => SearchMode::Title,
        }
    }

    /// The mode that follows in the cycle title, comments, both.
    pub fn next(self) -> (following: SearchMode)
        ensures
            following == self.spec_next(),
    {
        match self {
            SearchMode::Title => SearchMode::Comments,
            SearchMode::Comments => SearchMode::Both,
            SearchMode::Both => SearchMode::Title,
        }
    }
}

impl SortOption {
    /// The option that follows in the cycle score, comments, time.
    pub open spec fn spec_next(self) -> SortOption {
        match self {
            SortOption::Score => SortOption::Comments,
            SortOption::Comments => SortOption::Time,
            SortOption::Time => SortOption::Score,
        }
    }

    /// The option that follows in the cycle score, comments, time.
    pub fn next(self) -> (following: SortOption)
        ensures
            following == self.spec_next(),
    {
        match self {
            SortOption::Score => SortOption::Comments,
            SortOption::Comments => SortOption::Time,
            SortOption::Time => SortOption::Score,
        }
    }
}

impl SortOrder {
    /// The other direction.
    pub open spec fn spec_toggled(self) -> SortOrder {
        match self {
            SortOrder::Ascending => SortOrder::Descending,
            SortOrder::Descending => SortOrder::Ascending,
        }
    }

    /// The other direction.
    pub fn toggled(self) -> (other: SortOrder)
        ensures
            other == self.spec_toggled(),
    {
        match self {
            SortOrder::Ascending => SortOrder::Descending,
            SortOrder::Descending => SortOrder::Ascending,
        }
    }
}

/// The number by which a story is ordered; 0 where the story has none.
pub open spec fn spec_sort_key(story: StoryView, option: SortOption) -> int {
    match option {
        SortOption::Score => match story.score {
            Some(score) => score as int,
            None => 0,
        },
        SortOption::Comments => match story.descendants {
            Some(comments) => comments as int,
            None => 0,
        },
        SortOption::Time => match story.time {
            Some(time) => time as int,
            None => 0,
        },
    }
}

/// Whether a story with the key `a` may stand before one with the key `b`.
pub open spec fn spec_may_precede(a: int, b: int, order: SortOrder) -> bool {
    match order {
        SortOrder::Ascending => a <= b,
        SortOrder::Descending => a >= b,
    }
}

/// Whether the stories stand in order.
pub open spec fn spec_is_sorted(stories: Seq<StoryView>, option: SortOption, order: SortOrder) -> bool {
    forall|i: int, j: int|
        0 <= i < j < stories.len() ==> spec_may_precede(
            spec_sort_key(stories[i], option),
            spec_sort_key(stories[j], option),
            order,
        )
}

/// The ordered stories `sorted` with `story` added: it stands behind the
/// last story that may stand before it.
pub open spec fn spec_insert_sorted(
    sorted: Seq<StoryView>,
    story: StoryView,
    option: SortOption,
    order: SortOrder,
) -> Seq<StoryView>
    decreases sorted.len(),
{
    if sorted.len() == 0 || spec_may_precede(
        spec_sort_key(sorted.last(), option),
        spec_sort_key(story, option),
        order,
    ) {
        sorted.push(story)
    } else {
        spec_insert_sorted(sorted.drop_last(), story, option, order).push(sorted.last())
    }
}

/// The stories in order. Stories with the same key keep the order in which
/// they stand.
pub open spec fn spec_sort(stories: Seq<StoryView>, option: SortOption, order: SortOrder) -> Seq<
    StoryView,
>
    decreases stories.len(),
{
    if stories.len() == 0 {
        stories
    } else {
        spec_insert_sorted(
            spec_sort(stories.drop_last(), option, order),
            stories.last(),
            option,
            order,
        )
    }
}

/// The number by which a story is ordered.
pub fn sort_key(story: &Story, option: SortOption) -> (key: i64)
    ensures
        key == spec_sort_key(story@, option),
{
    match option {
        SortOption::Score => match story.score {
            Some(score) => score as i64,
            None => 0,
        },
        SortOption::Comments => match story.descendants {
            Some(comments) => comments as i64,
            None => 0,
        },
        SortOption::Time => match story.time {
            Some(time) => time,
            None => 0,
        },
    }
}

fn may_precede(a: i64, b: i64, order: SortOrder) -> (may: bool)
    ensures
        may == spec_may_precede(a as int, b as int, order),
{
    match order {
        SortOrder::Ascending => a <= b,
        SortOrder::Descending => a >= b,
    }
}

/// What the stories hold, story by story.
pub open spec fn spec_views(stories: Seq<Story>) -> Seq<StoryView> {
    stories.map_values(|story: Story| story@)
}

/// Puts the stories in order. Stories with the same key keep the order in
/// which they stand.
pub fn sort_stories(stories: Vec<Story>, option: SortOption, order: SortOrder) -> (sorted: Vec<Story>)
    ensures
        spec_views(sorted@) == spec_sort(spec_views(stories@), option, order),
{
    let ghost all = spec_views(stories@);
    let ghost given = stories@;
    let mut sorted: Vec<Story> = Vec::new();
    assert(spec_views(sorted@) =~= spec_sort(all.take(0), option, order));
    for story in it: stories
        invariant
            it.seq() == given,
            all == spec_views(given),
            spec_views(sorted@) == spec_sort(all.take(it.index() as int), option, order),
    {
        let ghost before = spec_views(sorted@);
        let ghost before_stories = sorted@;
        proof {
            let upto = all.take(it.index() + 1);
            assert(upto.drop_last() =~= all.take(it.index() as int));
            assert(upto.last() == story@);
        }
        let key = sort_key(&story, option);
        let mut p: usize = sorted.len();
        assert(before.take(p as int) =~= before);
        assert(spec_insert_sorted(before, story@, option, order) =~= spec_insert_sorted(
            before.take(p as int),
            story@,
            option,
            order,
        ) + before.subrange(p as int, before.len() as int));
        while p > 0 && !may_precede(sort_key(&sorted[p - 1], option), key, order)
            invariant
                p <= sorted@.len(),
                sorted@ == before_stories,
                before == spec_views(before_stories),
                key == spec_sort_key(story@, option),
                spec_insert_sorted(before, story@, option, order) == spec_insert_sorted(
                    before.take(p as int),
                    story@,
                    option,
                    order,
                ) + before.subrange(p as int, before.len() as int),
            decreases p,
        {
            proof {
                let head = before.take(p as int);
                assert(head.last() == before[p - 1]);
                assert(before[p - 1] == sorted@[p - 1]@);
                assert(head.drop_last() =~= before.take(p - 1));
                assert(spec_insert_sorted(head, story@, option, order) == spec_insert_sorted(
                    before.take(p - 1),
                    story@,
                    option,
                    order,
                ).push(before[p - 1]));
                assert(spec_insert_sorted(before.take(p - 1), story@, option, order).push(
                    before[p - 1],
                ) + before.subrange(p as int, before.len() as int) =~= spec_insert_sorted(
                    before.take(p - 1),
                    story@,
                    option,
                    order,
                ) + before.subrange(p - 1, before.len() as int));
            }
            p -= 1;
        }
        proof {
            let head = before.take(p as int);
            if p > 0 {
                assert(head.last() == before[p - 1]);
                assert(before[p - 1] == sorted@[p - 1]@);
            }
            assert(spec_insert_sorted(head, story@, option, order) == head.push(story@));
            assert(head.push(story@) + before.subrange(p as int, before.len() as int)
                =~= before.insert(p as int, story@));
        }
        sorted.insert(p, story);
        assert(spec_views(sorted@) =~= before.insert(p as int, story@));
    }
    assert(all.take(all.len() as int) =~= all);
    sorted
}

/// Adding a story to ordered stories leaves them ordered, and holding the
/// stories that were there and the added one.
pub proof fn lemma_insert_sorted(
    sorted: Seq<StoryView>,
    story: StoryView,
    option: SortOption,
    order: SortOrder,
)
    requires
        spec_is_sorted(sorted, option, order),
    ensures
        spec_is_sorted(spec_insert_sorted(sorted, story, option, order), option, order),
        spec_insert_sorted(sorted, story, option, order).to_multiset() == sorted.to_multiset().insert(
            story,
        ),
        spec_insert_sorted(sorted, story, option, order).len() == sorted.len() + 1,
    decreases sorted.len(),
{
    broadcast use vstd::seq_lib::group_to_multiset_ensures;

    let result = spec_insert_sorted(sorted, story, option, order);
    if sorted.len() == 0 || spec_may_precede(
        spec_sort_key(sorted.last(), option),
        spec_sort_key(story, option),
        order,
    ) {
        assert forall|i: int, j: int| 0 <= i < j < result.len() implies spec_may_precede(
            spec_sort_key(result[i], option),
            spec_sort_key(result[j], option),
            order,
        ) by {
            if j == sorted.len() && i < sorted.len() - 1 {
                assert(spec_may_precede(
                    spec_sort_key(sorted[i], option),
                    spec_sort_key(sorted[sorted.len() - 1], option),
                    order,
                ));
            }
        }
    } else {
        let front = sorted.drop_last();
        let last = sorted.last();
        assert forall|i: int, j: int| 0 <= i < j < front.len() implies spec_may_precede(
            spec_sort_key(front[i], option),
            spec_sort_key(front[j], option),
            order,
        ) by {
            assert(front[i] == sorted[i] && front[j] == sorted[j]);
        }
        lemma_insert_sorted(front, story, option, order);
        let inner = spec_insert_sorted(front, story, option, order);
        assert(sorted =~= front.push(last));
        assert forall|i: int, j: int| 0 <= i < j < result.len() implies spec_may_precede(
            spec_sort_key(result[i], option),
            spec_sort_key(result[j], option),
            order,
        ) by {
            if j == inner.len() {
                // Every story of `inner` is `story` or one of `front`.
                assert(inner.to_multiset().count(result[i]) > 0) by {
                    assert(inner.contains(inner[i]));
                }
                if result[i] != story {
                    assert(front.to_multiset().count(result[i]) > 0);
                    assert(front.contains(result[i]));
                    let k = choose|k: int| 0 <= k < front.len() && front[k] == result[i];
                    assert(spec_may_precede(
                        spec_sort_key(sorted[k], option),
                        spec_sort_key(sorted[sorted.len() - 1], option),
                        order,
                    ));
                }
            }
        }
    }
}

/// The ordered stories stand in order, and they are the stories that were
/// given: each as often as it was given.
pub proof fn law_sort(stories: Seq<StoryView>, option: SortOption, order: SortOrder)
    ensures
        spec_is_sorted(spec_sort(stories, option, order), option, order),
        spec_sort(stories, option, order).to_multiset() == stories.to_multiset(),
        spec_sort(stories, option, order).len() == stories.len(),
    decreases stories.len(),
{
    broadcast use vstd::seq_lib::group_to_multiset_ensures;

    if stories.len() > 0 {
        law_sort(stories.drop_last(), option, order);
        lemma_insert_sorted(
            spec_sort(stories.drop_last(), option, order),
            stories.last(),
            option,
            order,
        );
        assert(stories =~= stories.drop_last().push(stories.last()));
    }
}

/// Stories that stand in order stay as they are: ordering moves no story
/// past another with the same key.
pub proof fn law_sort_keeps_order(stories: Seq<StoryView>, option: SortOption, order: SortOrder)
    requires
        spec_is_sorted(stories, option, order),
    ensures
        spec_sort(stories, option, order) == stories,
    decreases stories.len(),
{
    if stories.len() > 0 {
        let front = stories.drop_last();
        assert forall|i: int, j: int| 0 <= i < j < front.len() implies spec_may_precede(
            spec_sort_key(front[i], option),
            spec_sort_key(front[j], option),
            order,
        ) by {
            assert(front[i] == stories[i] && front[j] == stories[j]);
        }
        law_sort_keeps_order(front, option, order);
        if front.len() > 0 {
            assert(spec_may_precede(
                spec_sort_key(stories[front.len() - 1], option),
                spec_sort_key(stories[stories.len() - 1], option),
                order,
            ));
        }
        assert(front.push(stories.last()) =~= stories);
    }
}

/// Whether `regex::Regex::new` accepts a pattern.
pub uninterp spec fn regex_compiles(pattern: Seq<char>) -> bool;

/// Whether `regex::Regex::is_match` finds a match in `text`, for the regex
/// that `regex::Regex::new` makes of `pattern`.
pub uninterp spec fn regex_matches(pattern: Seq<char>, text: Seq<char>) -> bool;

/// `regex::Regex::new` on `pattern`, then `regex::Regex::is_match` on each
/// of `texts`. `None` if and only if the pattern is not accepted; else one
/// verdict for each text, in their order: whether the regex finds a match
/// in it. Acceptance depends on the pattern alone, a verdict on the pattern
/// and the text alone.
#[verifier::external_body]
fn regex_hits(pattern: &str, texts: &Vec<String>) -> (hits: Option<Vec<bool>>)
    ensures
        hits is Some <==> regex_compiles(pattern@),
        hits matches Some(found) ==> found@.len() == texts@.len() && forall|i: int|
            0 <= i < found@.len() ==> found@[i] == regex_matches(pattern@, #[trigger] texts@[i]@),
{
    let regex = regex::Regex::new(pattern).ok()?;
    Some(texts.iter().map(|text| regex.is_match(text)).collect())
}

/// Whether `text` holds `part` somewhere.
pub open spec fn spec_contains(text: Seq<char>, part: Seq<char>) -> bool {
    exists|at: int| spec_matches_at(text, at, part)
}

/// Whether a text matches a query: as a regex if the query is one that is
/// accepted, else as a piece of text that the text holds, both taken in
/// lower case. A text that is missing matches no query.
pub open spec fn spec_text_matches(text: Option<Seq<char>>, query: Seq<char>) -> bool {
    match text {
        Some(t) => if regex_compiles(query) {
            regex_matches(query, t)
        } else {
            spec_contains(unicode_lowercase(t), unicode_lowercase(query))
        },
        None => false,
    }
}

/// Whether a story matches a query: by its title, and in the mode
/// [`SearchMode::Both`] by its title or its URL.
pub open spec fn spec_story_matches(story: StoryView, query: Seq<char>, mode: SearchMode) -> bool {
    match mode {
        SearchMode::Title => spec_text_matches(story.title, query),
        SearchMode::Comments => spec_text_matches(story.title, query),
        SearchMode::Both => spec_text_matches(story.title, query) || spec_text_matches(
            story.url,
            query,
        ),
    }
}

/// The stories that match a query, in their order; all stories for an empty
/// query.
pub open spec fn spec_filter(stories: Seq<StoryView>, query: Seq<char>, mode: SearchMode) -> Seq<
    StoryView,
> {
    if query.len() == 0 {
        stories
    } else {
        stories.filter(|story: StoryView| spec_story_matches(story, query, mode))
    }
}

/// Whether `text` holds `part` somewhere.
pub fn contains(text: &Vec<char>, part: &Vec<char>) -> (found: bool)
    ensures
        found == spec_contains(text@, part@),
{
    let n = text.len();
    let m = part.len();
    if m > n {
        assert forall|at: int| !spec_matches_at(text@, at, part@) by {}
        return false;
    }
    let last = n - m;
    let mut at: usize = 0;
    loop
        invariant
            at <= last,
            last == n - m,
            n == text@.len(),
            m == part@.len(),
            forall|k: int| 0 <= k < at ==> !spec_matches_at(text@, k, part@),
        decreases last - at,
    {
        if matches_at(text, at, part) {
            return true;
        }
        if at == last {
            assert forall|k: int| !spec_matches_at(text@, k, part@) by {}
            return false;
        }
        at += 1;
    }
}

spec fn spec_field(story: StoryView, url: bool) -> Option<Seq<char>> {
    if url {
        story.url
    } else {
        story.title
    }
}

fn field(story: &Story, url: bool) -> (text: &Option<String>)
    ensures
        crate::models::spec_text(*text) == spec_field(story@, url),
{
    if url {
        &story.url
    } else {
        &story.title
    }
}

/// For each story whether its title, or its URL if `url` is set, matches
/// the query.
fn text_hits(stories: &Vec<Story>, url: bool, query: &str) -> (hits: Vec<bool>)
    ensures
        hits@.len() == stories@.len(),
        forall|i: int|
            0 <= i < hits@.len() ==> hits@[i] == spec_text_matches(
                spec_field((#[trigger] stories@[i])@, url),
                query@,
            ),
{
    let n = stories.len();
    let mut texts: Vec<String> = Vec::new();
    let mut i: usize = 0;
    while i < n
        invariant
            i <= n,
            n == stories@.len(),
            texts@.len() == i,
            forall|k: int|
                0 <= k < i ==> (spec_field((#[trigger] stories@[k])@, url) matches Some(t)
                    ==> texts@[k]@ == t),
        decreases n - i,
    {
        let text = match field(&stories[i], url) {
            Some(t) => t.clone(),
            None => String::new(),
        };
        texts.push(text);
        i += 1;
    }
    let mut hits: Vec<bool> = Vec::new();
    match regex_hits(query, &texts) {
        Some(found) => {
            let mut i: usize = 0;
            while i < n
                invariant
                    i <= n,
                    n == stories@.len(),
                    found@.len() == n,
                    texts@.len() == n,
                    regex_compiles(query@),
                    hits@.len() == i,
                    forall|k: int|
                        0 <= k < n ==> (spec_field((#[trigger] stories@[k])@, url) matches Some(t)
                            ==> texts@[k]@ == t),
                    forall|k: int|
                        0 <= k < n ==> found@[k] == regex_matches(query@, #[trigger] texts@[k]@),
                    forall|k: int|
                        0 <= k < i ==> hits@[k] == spec_text_matches(
                            spec_field((#[trigger] stories@[k])@, url),
                            query@,
                        ),
                decreases n - i,
            {
                let present = field(&stories[i], url).is_some();
                assert(found@[i as int] == regex_matches(query@, texts@[i as int]@));
                hits.push(present && found[i]);
                i += 1;
            }
        },
        None => {
            let lower_query = lowercase(query);
            let part = chars_of(lower_query.as_str());
            let mut i: usize = 0;
            while i < n
                invariant
                    i <= n,
                    n == stories@.len(),
                    !regex_compiles(query@),
                    part@ == unicode_lowercase(query@),
                    hits@.len() == i,
                    forall|k: int|
                        0 <= k < i ==> hits@[k] == spec_text_matches(
                            spec_field((#[trigger] stories@[k])@, url),
                            query@,
                        ),
                decreases n - i,
            {
                let hit = match field(&stories[i], url) {
                    Some(t) => {
                        let lower = lowercase(t.as_str());
                        let text = chars_of(lower.as_str());
                        contains(&text, &part)
                    },
                    None => false,
                };
                hits.push(hit);
                i += 1;
            }
        },
    }
    hits
}

/// Keeps the stories that match the query, in their order; all stories for
/// an empty query.
pub fn filter_stories(stories: Vec<Story>, query: &str, mode: SearchMode) -> (kept: Vec<Story>)
    ensures
        spec_views(kept@) == spec_filter(spec_views(stories@), query@, mode),
{
    if query.is_empty() {
        return stories;
    }
    let by_title = text_hits(&stories, false, query);
    let by_url = match mode {
        SearchMode::Both => text_hits(&stories, true, query),
        _ => Vec::new(),
    };
    let ghost given = stories@;
    let ghost all = spec_views(given);
    let ghost matching = |story: StoryView| spec_story_matches(story, query@, mode);
    let mut kept: Vec<Story> = Vec::new();
    let mut i: usize = 0;
    assert(spec_views(kept@) =~= all.take(0).filter(matching)) by {
        reveal(Seq::filter);
    }
    for story in it: stories
        invariant
            it.seq() == given,
            all == spec_views(given),
            i == it.index(),
            by_title@.len() == given.len(),
            mode == SearchMode::Both ==> by_url@.len() == given.len(),
            forall|k: int|
                0 <= k < given.len() ==> by_title@[k] == spec_text_matches(
                    (#[trigger] given[k])@.title,
                    query@,
                ),
            mode == SearchMode::Both ==> forall|k: int|
                0 <= k < given.len() ==> by_url@[k] == spec_text_matches(
                    (#[trigger] given[k])@.url,
                    query@,
                ),
            matching == (|story: StoryView| spec_story_matches(story, query@, mode)),
            spec_views(kept@) == all.take(it.index() as int).filter(matching),
    {
        let ghost at = it.index() as int;
        let ghost before = spec_views(kept@);
        assert(story == given[at]);
        let hit = match mode {
            SearchMode::Both => by_title[i] || by_url[i],
            _ => by_title[i],
        };
        assert(hit == matching(story@));
        proof {
            reveal(Seq::filter);
            let upto = all.take(at + 1);
            assert(upto.drop_last() =~= all.take(at));
            assert(upto.last() == story@);
            assert(upto.filter(matching) == if matching(story@) {
                all.take(at).filter(matching).push(story@)
            } else {
                all.take(at).filter(matching)
            });
        }
        if hit {
            kept.push(story);
            assert(spec_views(kept@) =~= before.push(story@));
        }
        assert(i < by_title.len());
        i += 1;
    }
    assert(all.take(all.len() as int) =~= all);
    kept
}

/// The stories that match the query, in order: those of `stories` whose
/// title, or in the mode [`SearchMode::Both`] whose title or URL, matches
/// `search_query`, ordered by `sort_option` in the direction `sort_order`.
pub fn filter_and_sort_stories(
    stories: &[Story],
    search_query: &str,
    search_mode: SearchMode,
    sort_option: SortOption,
    sort_order: SortOrder,
) -> (shown: Vec<Story>)
    ensures
        spec_views(shown@) == spec_sort(
            spec_filter(spec_views(stories@), search_query@, search_mode),
            sort_option,
            sort_order,
        ),
{
    let mut copies: Vec<Story> = Vec::new();
    let mut i: usize = 0;
    while i < stories.len()
        invariant
            i <= stories@.len(),
            spec_views(copies@) == spec_views(stories@).take(i as int),
        decreases stories@.len() - i,
    {
        let ghost before = spec_views(copies@);
        let copy = stories[i].clone();
        assert(copy@ == stories@[i as int]@);
        copies.push(copy);
        assert(spec_views(copies@) =~= before.push(copy@));
        assert(spec_views(stories@).take(i + 1) =~= spec_views(stories@).take(i as int).push(
            stories@[i as int]@,
        ));
        i += 1;
    }
    assert(spec_views(stories@).take(i as int) =~= spec_views(stories@));
    let kept = filter_stories(copies, search_query, search_mode);
    sort_stories(kept, sort_option, sort_order)
}

} // verus!
