use hn_core::history::format_elapsed;
use hn_core::history::History;
use hn_core::history::ViewedStory;
use hn_core::history::MAX_HISTORY_SIZE;
use hn_core::models::Story;

fn mock_story(id: u32, title: &str) -> Story {
    Story {
        id,
        title: Some(title.to_string()),
        url: Some(format!("https://example.com/{}", id)),
        by: Some("test_user".to_string()),
        score: Some(100),
        time: Some(1234567890),
        descendants: Some(10),
        kids: None,
    }
}

#[test]
fn test_add_story() {
    let mut history = History::new();
    let story = mock_story(1, "Test Story");

    history.add(&story);
    assert_eq!(history.count(), 1);

    let all = history.get_all();
    assert_eq!(all[0].id, 1);
    assert_eq!(all[0].title, Some("Test Story".to_string()));
}

#[test]
fn test_add_duplicate_moves_to_front() {
    let mut history = History::new();

    let story1 = mock_story(1, "First Story");
    let story2 = mock_story(2, "Second Story");

    history.add_at(&story1, 1_000);
    history.add_at(&story2, 1_010);
    history.add_at(&story1, 1_020); // Add first story again

    let all = history.get_all();
    assert_eq!(all.len(), 2);
    // First story should now be at front
    assert_eq!(all[0].id, 1);
    assert_eq!(all[1].id, 2);
    assert_eq!(all[0].viewed_at, 1_020);
}

#[test]
fn test_max_capacity() {
    let mut history = History::new();

    // Add more than MAX_HISTORY_SIZE stories
    for i in 0..(MAX_HISTORY_SIZE + 10) {
        let story = mock_story(i as u32, &format!("Story {}", i));
        history.add(&story);
    }

    assert_eq!(history.count(), MAX_HISTORY_SIZE);

    // Most recent should be at front
    let all = history.get_all();
    assert_eq!(all[0].id, (MAX_HISTORY_SIZE + 9) as u32);
}

#[test]
fn test_clear() {
    let mut history = History::new();

    let story = mock_story(1, "Test Story");
    history.add(&story);
    assert_eq!(history.count(), 1);

    history.clear();
    assert_eq!(history.count(), 0);
}

#[test]
fn test_format_viewed_ago() {
    let now: i64 = 1_700_000_000_000;

    // Test "just now"
    assert_eq!(History::format_viewed_ago_at(now, now), "just now");

    // Test minutes ago (5 minutes = 300 seconds)
    assert_eq!(History::format_viewed_ago_at(now - 300_000, now), "5m ago");

    // Test hours ago (2 hours = 7200 seconds)
    assert_eq!(History::format_viewed_ago_at(now - 7_200_000, now), "2h ago");

    // Test days ago (3 days = 259200 seconds)
    assert_eq!(History::format_viewed_ago_at(now - 259_200_000, now), "3d ago");
}

#[test]
fn format_elapsed_at_its_thresholds() {
    assert_eq!(format_elapsed(i64::MIN), "just now");
    assert_eq!(format_elapsed(-1), "just now");
    assert_eq!(format_elapsed(0), "just now");
    assert_eq!(format_elapsed(59), "just now");
    assert_eq!(format_elapsed(60), "1m ago");
    assert_eq!(format_elapsed(119), "1m ago");
    assert_eq!(format_elapsed(3599), "59m ago");
    assert_eq!(format_elapsed(3600), "1h ago");
    assert_eq!(format_elapsed(86399), "23h ago");
    assert_eq!(format_elapsed(86400), "1d ago");
    assert_eq!(format_elapsed(2591999), "29d ago");
    assert_eq!(format_elapsed(2592000), "1mo ago");
    assert_eq!(format_elapsed(i64::MAX), "3558399705576mo ago");
}

#[test]
fn viewed_ago_with_times_apart_as_far_as_can_be() {
    assert_eq!(History::format_viewed_ago_at(i64::MAX, i64::MIN), "just now");
    assert_eq!(History::format_viewed_ago_at(i64::MIN, i64::MAX), "7116799411mo ago");
    assert_eq!(History::format_viewed_ago_at(59_999, 0), "just now");
    assert_eq!(History::format_viewed_ago_at(0, 59_999), "just now");
    assert_eq!(History::format_viewed_ago_at(0, 60_000), "1m ago");
    assert_eq!(History::format_viewed_ago(i64::MAX), "just now");
    assert_eq!(History::format_viewed_ago(0).ends_with("mo ago"), true);
}

#[test]
fn history_drops_the_oldest_entry_beyond_fifty() {
    let mut history = History::default();
    for i in 0..50u32 {
        history.add_at(&mock_story(i, "s"), i as i64);
    }
    assert_eq!(history.count(), 50);
    // A story that is in the history moves, and nothing is dropped.
    history.add_at(&mock_story(0, "s"), 100);
    let all = history.get_all();
    assert_eq!(all.len(), 50);
    assert_eq!(all[0].id, 0);
    assert_eq!(all[49].id, 1);
    // A new story drops the oldest one.
    history.add_at(&mock_story(77, "s"), 101);
    let all = history.get_all();
    assert_eq!(all.len(), 50);
    assert_eq!(all[0].id, 77);
    assert_eq!(all[1].id, 0);
    assert_eq!(all[49].id, 2);
}

#[test]
fn history_with_entries_takes_them_as_they_are() {
    let entry = |id: u32, at: i64| ViewedStory { id, title: None, url: None, viewed_at: at };
    let mut history = History::with_entries(vec![entry(1, 5), entry(2, 4), entry(1, 3), entry(3, 2)]);
    assert_eq!(history.count(), 4);
    // Every earlier entry of a story goes when the story is viewed again.
    history.add_at(&mock_story(1, "One"), 9);
    let all = history.get_all();
    assert_eq!(all.len(), 3);
    assert_eq!(
        all[0],
        ViewedStory {
            id: 1,
            title: Some("One".to_string()),
            url: Some("https://example.com/1".to_string()),
            viewed_at: 9
        }
    );
    assert_eq!(all[1], entry(2, 4));
    assert_eq!(all[2], entry(3, 2));
}
