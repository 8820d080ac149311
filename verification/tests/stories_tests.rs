use hn_core::models::Story;
use hn_core::stories::contains;
use hn_core::stories::filter_and_sort_stories;
use hn_core::stories::filter_stories;
use hn_core::stories::sort_key;
use hn_core::stories::sort_stories;
use hn_core::stories::SearchMode;
use hn_core::stories::SortOption;
use hn_core::stories::SortOrder;

fn create_story(id: u32, title: &str, score: u32, comments: u32, time: u64) -> Story {
    Story {
        id,
        title: Some(title.to_string()),
        url: None,
        by: None,
        score: Some(score),
        time: Some(time as i64),
        descendants: Some(comments),
        kids: None,
    }
}

fn ids(stories: &[Story]) -> Vec<u32> {
    stories.iter().map(|story| story.id).collect()
}

#[test]
fn test_filter_by_title() {
    let stories = vec![
        create_story(1, "Rust is great", 100, 10, 1000),
        create_story(2, "Python is good", 50, 5, 2000),
        create_story(3, "Rust vs C++", 80, 20, 3000),
    ];

    let filtered = filter_and_sort_stories(
        &stories,
        "Rust",
        SearchMode::Title,
        SortOption::Score,
        SortOrder::Descending,
    );

    assert_eq!(filtered.len(), 2);
    assert_eq!(filtered[0].id, 1); // 100 score
    assert_eq!(filtered[1].id, 3); // 80 score
}

#[test]
fn test_filter_regex() {
    let stories = vec![
        create_story(1, "Rust 1.0", 100, 10, 1000),
        create_story(2, "Rust 2.0", 50, 5, 2000),
        create_story(3, "Go 1.0", 80, 20, 3000),
    ];

    let filtered = filter_and_sort_stories(
        &stories,
        r"Rust \d\.\d",
        SearchMode::Title,
        SortOption::Score,
        SortOrder::Descending,
    );

    assert_eq!(filtered.len(), 2);
}

#[test]
fn test_sort_by_comments() {
    let stories = vec![
        create_story(1, "A", 10, 5, 1000),
        create_story(2, "B", 10, 20, 1000),
        create_story(3, "C", 10, 10, 1000),
    ];

    let sorted = filter_and_sort_stories(
        &stories,
        "",
        SearchMode::Title,
        SortOption::Comments,
        SortOrder::Descending,
    );

    assert_eq!(sorted[0].id, 2); // 20 comments
    assert_eq!(sorted[1].id, 3); // 10 comments
    assert_eq!(sorted[2].id, 1); // 5 comments
}

#[test]
fn test_sort_ascending() {
    let stories = vec![
        create_story(1, "A", 100, 10, 1000),
        create_story(2, "B", 50, 10, 1000),
        create_story(3, "C", 200, 10, 1000),
    ];

    let sorted = filter_and_sort_stories(
        &stories,
        "",
        SearchMode::Title,
        SortOption::Score,
        SortOrder::Ascending,
    );

    assert_eq!(sorted[0].id, 2); // 50
    assert_eq!(sorted[1].id, 1); // 100
    assert_eq!(sorted[2].id, 3); // 200
}

#[test]
fn sort_keeps_the_order_of_equal_keys() {
    let stories = vec![
        create_story(1, "A", 10, 0, 5),
        create_story(2, "B", 20, 0, 5),
        create_story(3, "C", 10, 0, 5),
        create_story(4, "D", 20, 0, 5),
        create_story(5, "E", 10, 0, 5),
    ];
    let up = sort_stories(stories.clone(), SortOption::Score, SortOrder::Ascending);
    assert_eq!(ids(&up), vec![1, 3, 5, 2, 4]);
    let down = sort_stories(stories.clone(), SortOption::Score, SortOrder::Descending);
    assert_eq!(ids(&down), vec![2, 4, 1, 3, 5]);
    let same = sort_stories(stories.clone(), SortOption::Time, SortOrder::Descending);
    assert_eq!(ids(&same), vec![1, 2, 3, 4, 5]);
    assert_eq!(same, stories);
}

#[test]
fn sort_agrees_with_the_stable_sort_of_std() {
    let mut stories = Vec::new();
    let mut seed: u32 = 12345;
    for id in 0..60u32 {
        seed = seed.wrapping_mul(1103515245).wrapping_add(12345);
        let score = (seed >> 16) % 7;
        let time = ((seed >> 8) % 5) as i64 - 2;
        let mut story = create_story(id, "t", score, id % 3, 0);
        story.time = if id % 11 == 0 { None } else { Some(time) };
        story.score = if id % 13 == 0 { None } else { Some(score) };
        stories.push(story);
    }
    for option in [SortOption::Score, SortOption::Comments, SortOption::Time] {
        for order in [SortOrder::Ascending, SortOrder::Descending] {
            let mut expected = stories.clone();
            expected.sort_by(|a, b| {
                let ord = sort_key(a, option).cmp(&sort_key(b, option));
                match order {
                    SortOrder::Ascending => ord,
                    SortOrder::Descending => ord.reverse(),
                }
            });
            assert_eq!(sort_stories(stories.clone(), option, order), expected);
        }
    }
}

#[test]
fn sort_key_is_zero_where_the_story_has_none() {
    let mut story = create_story(1, "A", 7, 8, 9);
    assert_eq!(sort_key(&story, SortOption::Score), 7);
    assert_eq!(sort_key(&story, SortOption::Comments), 8);
    assert_eq!(sort_key(&story, SortOption::Time), 9);
    story.score = None;
    story.descendants = None;
    story.time = None;
    assert_eq!(sort_key(&story, SortOption::Score), 0);
    assert_eq!(sort_key(&story, SortOption::Comments), 0);
    assert_eq!(sort_key(&story, SortOption::Time), 0);
    story.time = Some(-5);
    story.score = Some(u32::MAX);
    assert_eq!(sort_key(&story, SortOption::Time), -5);
    assert_eq!(sort_key(&story, SortOption::Score), 4294967295);
    assert_eq!(SortOrder::Ascending.toggled(), SortOrder::Descending);
    assert_eq!(SortOrder::Descending.toggled(), SortOrder::Ascending);
}

#[test]
fn filter_by_url_only_in_the_mode_both() {
    let mut with_url = create_story(1, "Nothing here", 1, 1, 1);
    with_url.url = Some("https://www.rust-lang.org/".to_string());
    let stories = vec![with_url, create_story(2, "Rust", 1, 1, 1), create_story(3, "Go", 1, 1, 1)];
    assert_eq!(ids(&filter_stories(stories.clone(), "rust", SearchMode::Title)), Vec::<u32>::new());
    assert_eq!(ids(&filter_stories(stories.clone(), "rust", SearchMode::Both)), vec![1]);
    assert_eq!(ids(&filter_stories(stories.clone(), "[Rr]ust", SearchMode::Both)), vec![1, 2]);
    assert_eq!(ids(&filter_stories(stories.clone(), "[Rr]ust", SearchMode::Comments)), vec![2]);
    assert_eq!(ids(&filter_stories(stories.clone(), "", SearchMode::Title)), vec![1, 2, 3]);
}

#[test]
fn filter_takes_a_query_that_is_no_regex_as_text_in_any_case() {
    let stories = vec![
        create_story(1, "What does C++ (Not C) do?", 1, 1, 1),
        create_story(2, "c++ (not c) again", 1, 1, 1),
        create_story(3, "C++ Not C", 1, 1, 1),
    ];
    // An unclosed parenthesis: no regex.
    assert_eq!(ids(&filter_stories(stories.clone(), "C++ (NOT", SearchMode::Title)), vec![1, 2]);
    assert_eq!(ids(&filter_stories(stories.clone(), "(", SearchMode::Title)), vec![1, 2]);
    assert_eq!(ids(&filter_stories(stories.clone(), "[", SearchMode::Title)), Vec::<u32>::new());
}

#[test]
fn filter_drops_stories_without_title() {
    let mut untitled = create_story(1, "x", 1, 1, 1);
    untitled.title = None;
    let stories = vec![untitled, create_story(2, "", 1, 1, 1)];
    // The regex that matches the empty text matches an empty title, not a missing one.
    assert_eq!(ids(&filter_stories(stories.clone(), "^$", SearchMode::Both)), vec![2]);
    assert_eq!(ids(&filter_stories(stories.clone(), ".*", SearchMode::Title)), vec![2]);
}

#[test]
fn contains_finds_a_part_anywhere() {
    let chars = |s: &str| s.chars().collect::<Vec<char>>();
    assert!(contains(&chars("hello"), &chars("")));
    assert!(contains(&chars(""), &chars("")));
    assert!(!contains(&chars(""), &chars("a")));
    assert!(contains(&chars("hello"), &chars("hello")));
    assert!(contains(&chars("hello"), &chars("llo")));
    assert!(contains(&chars("hello"), &chars("h")));
    assert!(!contains(&chars("hello"), &chars("hello!")));
    assert!(!contains(&chars("hello"), &chars("lol")));
    assert!(contains(&chars("aab"), &chars("ab")));
}
