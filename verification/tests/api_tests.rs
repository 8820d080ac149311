use hn_core::api::decode_story_ids;
use hn_core::api::get_story_list_url;
use hn_core::api::hn_item_url;
use hn_core::api::item_url;
use hn_core::api::list_url;
use hn_core::api::ApiService;
use hn_core::api::Plan;
use hn_core::api::StoryListType;
use hn_core::api::HN_API_BASE_URL;
use hn_core::error::FetchError;
use hn_core::error::Operation;
use hn_core::models::Comment;
use hn_core::models::Story;
use hn_core::network::NetworkConfig;

fn sample_story(id: u32, title: &str) -> Story {
    Story {
        id,
        title: Some(title.to_string()),
        url: Some(format!("https://example.com/{}", id)),
        by: Some("testuser".to_string()),
        score: Some(100),
        time: Some(1234567890),
        descendants: Some(10),
        kids: Some(vec![1, 2, 3]),
    }
}

fn sample_comment(id: u32) -> Comment {
    Comment {
        id,
        by: Some("commenter".to_string()),
        text: Some("This is a comment".to_string()),
        time: Some(1234567890),
        parent: Some(12345),
        kids: Some(vec![10, 11]),
        deleted: false,
    }
}

#[test]
fn test_story_list_type_as_api_str() {
    assert_eq!(StoryListType::Best.as_api_str(), "beststories");
    assert_eq!(StoryListType::Top.as_api_str(), "topstories");
    assert_eq!(StoryListType::New.as_api_str(), "newstories");
    assert_eq!(StoryListType::Ask.as_api_str(), "askstories");
    assert_eq!(StoryListType::Show.as_api_str(), "showstories");
    assert_eq!(StoryListType::Job.as_api_str(), "jobstories");
}

#[test]
fn test_hn_item_url() {
    assert_eq!(
        hn_item_url(12345),
        "https://hacker-news.firebaseio.com/v0/item/12345.json"
    );
}

#[test]
fn test_get_story_list_url() {
    assert_eq!(
        get_story_list_url(StoryListType::Top),
        "https://hacker-news.firebaseio.com/v0/topstories.json"
    );
    assert_eq!(
        get_story_list_url(StoryListType::Best),
        "https://hacker-news.firebaseio.com/v0/beststories.json"
    );
}

#[test]
fn test_api_service_default() {
    let service = ApiService::new();
    assert!(service.get_base_url() == HN_API_BASE_URL);
}

#[test]
fn test_network_config_custom() {
    let config = NetworkConfig {
        max_retries: 5,
        initial_retry_delay_ms: 1000,
        max_retry_delay_ms: 10000,
        retry_on_timeout: false,
        concurrent_requests: 20,
        rate_limit_permits: 5,
    };

    let service = ApiService::with_config(config);
    assert_eq!(service.network_config().max_retries, 5);
    assert_eq!(service.network_config().concurrent_requests, 20);
}

#[test]
fn network_config_defaults() {
    let config = NetworkConfig::default();
    assert_eq!(config.max_retries, 3);
    assert_eq!(config.initial_retry_delay_ms, 500);
    assert_eq!(config.max_retry_delay_ms, 5000);
    assert!(config.retry_on_timeout);
    assert_eq!(config.concurrent_requests, 10);
    assert_eq!(config.rate_limit_permits, 3);
    assert_eq!(ApiService::new().network_config(), config);
}

#[test]
fn item_urls_hold_the_decimal_id() {
    assert_eq!(item_url("http://localhost:1/", 0), "http://localhost:1/item/0.json");
    assert_eq!(item_url("http://localhost:1/", 7), "http://localhost:1/item/7.json");
    assert_eq!(item_url("http://localhost:1/", 10), "http://localhost:1/item/10.json");
    assert_eq!(
        item_url("", u32::MAX),
        "item/4294967295.json"
    );
    assert_eq!(list_url("http://h/", StoryListType::Job), "http://h/jobstories.json");
}

#[test]
fn service_with_base_url_and_metrics() {
    let service = ApiService::with_base_url("http://127.0.0.1:9/".to_string());
    assert_eq!(service.get_base_url(), "http://127.0.0.1:9/");
    assert!(!service.metrics_enabled());
    let service = service.with_metrics(true);
    assert!(service.metrics_enabled());
    assert_eq!(service.get_base_url(), "http://127.0.0.1:9/");
}

#[test]
fn decode_story_ids_reads_a_json_array() {
    let decoded = decode_story_ids("http://h/topstories.json", Ok("[1, 2, 3, 4, 5]"));
    assert_eq!(decoded.unwrap(), vec![1, 2, 3, 4, 5]);
    let decoded = decode_story_ids("http://h/topstories.json", Ok("[]"));
    assert_eq!(decoded.unwrap(), Vec::<u32>::new());
}

#[test]
fn decode_story_ids_reports_a_parse_failure_with_the_url() {
    let decoded = decode_story_ids("http://h/topstories.json", Ok("invalid json"));
    match decoded {
        Err(FetchError::Parse { operation, url, message }) => {
            assert_eq!(operation, None);
            assert_eq!(url, "http://h/topstories.json");
            assert!(!message.is_empty());
        }
        other => panic!("unexpected: {:?}", other),
    }
    let decoded = decode_story_ids("u", Ok("[1, -2]"));
    assert!(matches!(decoded, Err(FetchError::Parse { .. })));
    let decoded = decode_story_ids("u", Ok("[4294967296]"));
    assert!(matches!(decoded, Err(FetchError::Parse { .. })));
    let decoded = decode_story_ids("u", Ok("{\"a\": 1}"));
    assert!(matches!(decoded, Err(FetchError::Parse { .. })));
}

#[test]
fn decode_story_ids_relays_a_network_failure() {
    let decoded = decode_story_ids("u", Err("failed to send GET request to u".to_string()));
    match decoded {
        Err(FetchError::Network { operation, message }) => {
            assert_eq!(operation, None);
            assert_eq!(message, "failed to send GET request to u");
        }
        other => panic!("unexpected: {:?}", other),
    }
}

#[test]
fn test_fetch_story_ids_success() {
    let mut service = ApiService::with_base_url("http://mock/".to_string());
    let url = match service.plan_story_ids(StoryListType::Top, false, 0) {
        Plan::Fetch { url } => url,
        other => panic!("unexpected: {:?}", other),
    };
    assert_eq!(url, "http://mock/topstories.json");
    let decoded = decode_story_ids(&url, Ok("[1, 2, 3, 4, 5]"));
    let result = service.settle_story_ids(StoryListType::Top, decoded, 0);
    assert_eq!(result.unwrap(), vec![1, 2, 3, 4, 5]);

    // Within 300 s the list comes from the cache and nothing is fetched.
    match service.plan_story_ids(StoryListType::Top, false, 299_999) {
        Plan::Ready(Ok(ids)) => assert_eq!(ids, vec![1, 2, 3, 4, 5]),
        other => panic!("unexpected: {:?}", other),
    }
    // Another list is not affected.
    assert!(matches!(
        service.plan_story_ids(StoryListType::Best, false, 1),
        Plan::Fetch { .. }
    ));
    // After 300 s it is fetched again.
    assert!(matches!(
        service.plan_story_ids(StoryListType::Top, false, 300_000),
        Plan::Fetch { .. }
    ));
}

#[test]
fn test_fetch_story_ids_network_error() {
    let mut service = ApiService::with_base_url("http://localhost:1/".to_string());
    let decoded = decode_story_ids(
        "http://localhost:1/topstories.json",
        Err("failed to send GET request to http://localhost:1/topstories.json".to_string()),
    );
    let result = service.settle_story_ids(StoryListType::Top, decoded, 0);
    let error = result.unwrap_err();
    assert!(error.message().contains("fetch_story_ids failed"));
    assert_eq!(error.message(), "fetch_story_ids failed for list Top");
    assert!(matches!(
        error,
        FetchError::Network { operation: Some(Operation::StoryIds(StoryListType::Top)), .. }
    ));
    // Nothing was cached.
    assert!(matches!(
        service.plan_story_ids(StoryListType::Top, false, 1),
        Plan::Fetch { .. }
    ));
}

#[test]
fn test_fetch_story_ids_with_cancellation() {
    let service = ApiService::with_base_url("http://mock/".to_string());
    match service.plan_story_ids(StoryListType::Top, true, 0) {
        Plan::Ready(Err(error)) => {
            assert!(error.is_cancelled());
            assert!(error.message().contains("cancelled"));
            assert_eq!(error.message(), "Request cancelled");
        }
        other => panic!("unexpected: {:?}", other),
    }
}

#[test]
fn cancellation_comes_before_the_cache() {
    let mut service = ApiService::new();
    let result = service.settle_story_ids(StoryListType::Top, Ok(vec![1, 2, 3]), 0);
    assert!(result.is_ok());
    assert!(matches!(
        service.plan_story_ids(StoryListType::Top, true, 1),
        Plan::Ready(Err(FetchError::Cancelled))
    ));
}

#[test]
fn cancellation_during_the_fetch_is_handed_out_as_it_is() {
    let mut service = ApiService::new();
    let result = service.settle_story_ids(StoryListType::Top, Err(FetchError::Cancelled), 0);
    assert!(matches!(result, Err(FetchError::Cancelled)));
}

#[test]
fn test_fetch_story_content_success() {
    let mut service = ApiService::with_base_url("http://mock/".to_string());
    match service.plan_story(12345, false, 0) {
        Plan::Fetch { url } => assert_eq!(url, "http://mock/item/12345.json"),
        other => panic!("unexpected: {:?}", other),
    }
    let result = service.settle_story(12345, Ok(sample_story(12345, "Test Story")), 0);
    let story = result.unwrap();
    assert_eq!(story.id, 12345);
    assert_eq!(story.title, Some("Test Story".to_string()));
    assert_eq!(story.by, Some("testuser".to_string()));
    match service.plan_story(12345, false, 1000) {
        Plan::Ready(Ok(cached)) => assert_eq!(cached, sample_story(12345, "Test Story")),
        other => panic!("unexpected: {:?}", other),
    }
}

#[test]
fn test_fetch_story_content_invalid_json() {
    let mut service = ApiService::with_base_url("http://mock/".to_string());
    let failure = FetchError::parse("http://mock/item/12345.json", "expected value".to_string());
    assert_eq!(
        failure.message(),
        "failed to parse JSON response from http://mock/item/12345.json"
    );
    let result = service.settle_story(12345, Err(failure), 0);
    let error = result.unwrap_err();
    assert_eq!(error.message(), "fetch_story_content failed for id 12345");
    match error {
        FetchError::Parse { operation, url, message } => {
            assert_eq!(operation, Some(Operation::Story(12345)));
            assert_eq!(url, "http://mock/item/12345.json");
            assert_eq!(message, "expected value");
        }
        other => panic!("unexpected: {:?}", other),
    }
}

#[test]
fn test_fetch_comment_content_success() {
    let mut service = ApiService::with_base_url("http://mock/".to_string());
    match service.plan_comment(67890, false, 0) {
        Plan::Fetch { url } => assert_eq!(url, "http://mock/item/67890.json"),
        other => panic!("unexpected: {:?}", other),
    }
    let result = service.settle_comment(67890, Ok(sample_comment(67890)), 0);
    let comment = result.unwrap();
    assert_eq!(comment.id, 67890);
    assert_eq!(comment.by, Some("commenter".to_string()));
    assert_eq!(comment.text, Some("This is a comment".to_string()));
    match service.plan_comment(67890, false, 299_999) {
        Plan::Ready(Ok(cached)) => assert_eq!(cached, sample_comment(67890)),
        other => panic!("unexpected: {:?}", other),
    }
}

#[test]
fn test_fetch_comment_content_http_error() {
    let mut service = ApiService::with_base_url("http://mock/".to_string());
    let failure = FetchError::network("boom".to_string());
    assert_eq!(failure.message(), "boom");
    let result = service.settle_comment(99999, Err(failure), 0);
    let error = result.unwrap_err();
    assert_eq!(error.message(), "fetch_comment_content failed for id 99999");
    assert!(matches!(
        error,
        FetchError::Network { operation: Some(Operation::Comment(99999)), .. }
    ));
}

#[test]
fn stale_story_is_served_when_the_fetch_fails() {
    let mut service = ApiService::new();
    let result = service.settle_story(1, Ok(sample_story(1, "First")), 0);
    assert!(result.is_ok());
    // Long after expiry the story has to be fetched again ...
    assert!(matches!(service.plan_story(1, false, 10_000_000), Plan::Fetch { .. }));
    // ... and when that fetch fails the cached story comes back.
    let result = service.settle_story(1, Err(FetchError::network("down".to_string())), 10_000_000);
    assert_eq!(result.unwrap(), sample_story(1, "First"));
    // A story that was never cached has no fallback.
    let result = service.settle_story(2, Err(FetchError::network("down".to_string())), 10_000_000);
    assert!(result.is_err());
    // Stories and comments are cached apart.
    let result = service.settle_comment(1, Err(FetchError::network("down".to_string())), 0);
    assert!(result.is_err());
}

#[test]
fn stale_comment_is_served_when_the_fetch_fails() {
    let mut service = ApiService::new();
    assert!(service.settle_comment(5, Ok(sample_comment(5)), 100).is_ok());
    let result = service.settle_comment(5, Err(FetchError::Cancelled), 900_000);
    assert_eq!(result.unwrap(), sample_comment(5));
}

#[test]
fn cancelled_item_is_not_fetched() {
    let mut service = ApiService::new();
    assert!(service.settle_story(1, Ok(sample_story(1, "First")), 0).is_ok());
    assert!(matches!(
        service.plan_story(1, true, 1),
        Plan::Ready(Err(FetchError::Cancelled))
    ));
    assert!(matches!(
        service.plan_comment(1, true, 1),
        Plan::Ready(Err(FetchError::Cancelled))
    ));
}

#[test]
fn operation_failure_texts() {
    assert_eq!(
        Operation::StoryIds(StoryListType::Best).failure_text(),
        "fetch_story_ids failed for list Best"
    );
    assert_eq!(Operation::Story(0).failure_text(), "fetch_story_content failed for id 0");
    assert_eq!(
        Operation::Comment(4294967295).failure_text(),
        "fetch_comment_content failed for id 4294967295"
    );
    assert_eq!(StoryListType::Show.label(), "Show");
    assert_eq!(StoryListType::New.label(), "New");
    assert_eq!(StoryListType::Ask.label(), "Ask");
    assert_eq!(StoryListType::Job.label(), "Job");
}
