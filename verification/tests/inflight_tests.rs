use hn_core::inflight::InflightTable;
use hn_core::inflight::Joined;

#[test]
fn first_caller_starts_the_fetch() {
    let mut table: InflightTable<u32> = InflightTable::new();
    assert!(!table.is_pending("http://h/a"));
    assert!(matches!(table.join("http://h/a", 1), Joined::Started(1)));
    assert!(table.is_pending("http://h/a"));
}

#[test]
fn test_request_deduplication() {
    let mut table: InflightTable<u32> = InflightTable::new();
    let mut started = 0;
    let mut handles = Vec::new();
    for caller in 0..5u32 {
        match table.join("http://h/item/12345.json", 100 + caller) {
            Joined::Started(handle) => {
                started += 1;
                handles.push(handle);
            }
            Joined::Shared(handle) => handles.push(handle),
        }
    }
    assert_eq!(started, 1);
    assert_eq!(handles, vec![100, 100, 100, 100, 100]);
}

#[test]
fn different_urls_do_not_share() {
    let mut table: InflightTable<u32> = InflightTable::new();
    assert!(matches!(table.join("http://h/a", 1), Joined::Started(1)));
    assert!(matches!(table.join("http://h/b", 2), Joined::Started(2)));
    assert!(matches!(table.join("http://h/a", 3), Joined::Shared(1)));
    assert!(matches!(table.join("http://h/b", 4), Joined::Shared(2)));
    assert!(matches!(table.join("http://h/", 5), Joined::Started(5)));
}

#[test]
fn a_completed_fetch_is_not_replayed() {
    let mut table: InflightTable<u32> = InflightTable::new();
    assert!(matches!(table.join("http://h/a", 1), Joined::Started(1)));
    assert!(table.complete("http://h/a"));
    assert!(!table.is_pending("http://h/a"));
    assert!(matches!(table.join("http://h/a", 2), Joined::Started(2)));
}

#[test]
fn completing_again_changes_nothing() {
    let mut table: InflightTable<u32> = InflightTable::new();
    table.join("http://h/a", 1);
    table.join("http://h/b", 2);
    table.join("http://h/c", 3);
    assert!(table.complete("http://h/b"));
    assert!(!table.complete("http://h/b"));
    assert!(!table.complete("http://h/never"));
    assert!(table.is_pending("http://h/a"));
    assert!(!table.is_pending("http://h/b"));
    assert!(table.is_pending("http://h/c"));
    assert!(matches!(table.join("http://h/a", 9), Joined::Shared(1)));
    assert!(matches!(table.join("http://h/c", 9), Joined::Shared(3)));
}

#[test]
fn handles_are_cloned_for_each_caller() {
    let mut table: InflightTable<String> = InflightTable::new();
    let first = match table.join("u", "fetch-1".to_string()) {
        Joined::Started(handle) => handle,
        other => panic!("unexpected: {:?}", other),
    };
    let second = match table.join("u", "fetch-2".to_string()) {
        Joined::Shared(handle) => handle,
        other => panic!("unexpected: {:?}", other),
    };
    assert_eq!(first, "fetch-1");
    assert_eq!(second, "fetch-1");
}
