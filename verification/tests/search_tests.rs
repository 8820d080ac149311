use hn_core::search::SearchHistory;
use hn_core::search::MAX_HISTORY_SIZE;
use hn_core::text::is_blank;
use hn_core::text::is_whitespace;

fn strings(items: &[&str]) -> Vec<String> {
    items.iter().map(|s| s.to_string()).collect()
}

#[test]
fn search_history_starts_empty() {
    let history = SearchHistory::new();
    assert_eq!(history.get_all(), Vec::<String>::new());
}

#[test]
fn search_history_newest_first() {
    let mut history = SearchHistory::new();
    assert!(history.add("rust".to_string()));
    assert!(history.add("verus".to_string()));
    assert_eq!(history.get_all(), strings(&["verus", "rust"]));
}

#[test]
fn search_history_moves_a_repeated_query_to_the_front() {
    let mut history = SearchHistory::new();
    history.add("a".to_string());
    history.add("b".to_string());
    history.add("c".to_string());
    history.add("a".to_string());
    assert_eq!(history.get_all(), strings(&["a", "c", "b"]));
    history.add("a".to_string());
    assert_eq!(history.get_all(), strings(&["a", "c", "b"]));
}

#[test]
fn search_history_ignores_blank_queries() {
    let mut history = SearchHistory::new();
    history.add("a".to_string());
    assert!(!history.add("".to_string()));
    assert!(!history.add("   ".to_string()));
    assert!(!history.add("\t\n\u{a0}\u{3000}".to_string()));
    assert_eq!(history.get_all(), strings(&["a"]));
    assert!(history.add(" a ".to_string()));
    assert_eq!(history.get_all(), strings(&[" a ", "a"]));
}

#[test]
fn search_history_keeps_twenty_queries() {
    let mut history = SearchHistory::new();
    for i in 0..25 {
        history.add(format!("q{}", i));
    }
    let all = history.get_all();
    assert_eq!(all.len(), MAX_HISTORY_SIZE);
    assert_eq!(all.len(), 20);
    assert_eq!(all[0], "q24");
    assert_eq!(all[19], "q5");
    // A query that is in the history moves and nothing is dropped.
    history.add("q5".to_string());
    let all = history.get_all();
    assert_eq!(all.len(), 20);
    assert_eq!(all[0], "q5");
    assert_eq!(all[19], "q6");
}

#[test]
fn search_history_clear() {
    let mut history = SearchHistory::new();
    history.add("a".to_string());
    history.clear();
    assert_eq!(history.get_all(), Vec::<String>::new());
}

#[test]
fn search_history_with_queries_takes_them_as_they_are() {
    let mut history = SearchHistory::with_queries(strings(&["a", "b", "a", "c"]));
    assert_eq!(history.get_all(), strings(&["a", "b", "a", "c"]));
    // Only the first place of a repeated query is left.
    history.add("a".to_string());
    assert_eq!(history.get_all(), strings(&["a", "b", "a", "c"]));
    history.add("c".to_string());
    assert_eq!(history.get_all(), strings(&["c", "a", "b", "a"]));
}

#[test]
fn white_space_is_what_std_calls_white_space() {
    let mut c = 0u32;
    while c <= 0x3100 {
        if let Some(ch) = char::from_u32(c) {
            assert_eq!(is_whitespace(ch), ch.is_whitespace(), "U+{:04X}", c);
        }
        c += 1;
    }
    assert!(is_blank(""));
    assert!(is_blank(" \t"));
    assert!(!is_blank(" x "));
    assert_eq!(is_blank(" \u{200b}"), " \u{200b}".trim().is_empty());
}
