//! The fetch service: which list, story or comment is served from the cache,
//! which is fetched from where, and what becomes of a finished fetch.

use crate::cache::spec_get;
use crate::cache::spec_get_stale;
use crate::cache::spec_insert;
use crate::cache::Cache;
use crate::cache::Slot;
use crate::clock::Clock;
use crate::error::FetchError;
use crate::error::Operation;
use crate::json::json_id_list;
use crate::json::parse_id_list;
use crate::models::Comment;
use crate::models::Story;
use crate::network::NetworkConfig;
use crate::text::decimal_string;
use crate::text::join2;
use crate::text::join3;
use crate::text::lemma_decimal_injective;
use crate::text::lemma_prefix_cancels;
use crate::text::spec_decimal;
use vstd::prelude::*;
use vstd::string::StringExecFns;

verus! {

/// The story lists that the upstream API serves.
#[derive(Debug, Clone, Copy, PartialEq, Eq, Structural)]
pub enum StoryListType {
    Best,
    Top,
    New,
    Ask,
    Show,
    Job,
}

impl StoryListType {
    /// The name of the list in the path of its URL.
    pub open spec fn spec_api_str(self) -> Seq<char> {
        match self {
            StoryListType::Best => "beststories"@,
            StoryListType::Top => "topstories"@,
            StoryListType::New => "newstories"@,
            StoryListType::Ask => "askstories"@,
            StoryListType::Show => "showstories"@,
            StoryListType::Job => "jobstories"@,
        }
    }

    /// The name of the list in messages.
    pub open spec fn spec_label(self) -> Seq<char> {
        match self {
            StoryListType::Best => "Best"@,
            StoryListType::Top => "Top"@,
            StoryListType::New => "New"@,
            StoryListType::Ask => "Ask"@,
            StoryListType::Show => "Show"@,
            StoryListType::Job => "Job"@,
        }
    }

    /// The name of the list in the path of its URL.
    pub fn as_api_str(&self) -> (name: &'static str)
        ensures
            name@ == self.spec_api_str(),
    {
        match self {
            StoryListType::Best => "beststories",
            StoryListType::Top => "topstories",
            StoryListType::New => "newstories",
            StoryListType::Ask => "askstories",
            StoryListType::Show => "showstories",
            StoryListType::Job => "jobstories",
        }
    }

    /// The name of the list in messages.
    pub fn label(&self) -> (name: &'static str)
        ensures
            name@ == self.spec_label(),
    {
        match self {
            StoryListType::Best => "Best",
            StoryListType::Top => "Top",
            StoryListType::New => "New",
            StoryListType::Ask => "Ask",
            StoryListType::Show => "Show",
            StoryListType::Job => "Job",
        }
    }
}

/// The base URL of the public API.
pub const HN_API_BASE_URL: &'static str = "https://hacker-news.firebaseio.com/v0/";

/// The URL of the item `id` under `base`.
pub open spec fn spec_item_url(base: Seq<char>, id: u32) -> Seq<char> {
    base + "item/"@ + spec_decimal(id as nat) + ".json"@
}

/// The URL of the list `list_type` under `base`.
pub open spec fn spec_list_url(base: Seq<char>, list_type: StoryListType) -> Seq<char> {
    base + list_type.spec_api_str() + ".json"@
}

/// Writes the URL of the item `id` under `base`.
pub fn item_url(base: &str, id: u32) -> (url: String)
    ensures
        url@ == spec_item_url(base@, id),
{
    let number = decimal_string(id as u64);
    let mut url = join3(base, "item/", number.as_str());
    url.append(".json");
    url
}

/// Writes the URL of the list `list_type` under `base`.
pub fn list_url(base: &str, list_type: StoryListType) -> (url: String)
    ensures
        url@ == spec_list_url(base@, list_type),
{
    join3(base, list_type.as_api_str(), ".json")
}

/// Writes the URL of the item `id` on the public API.
pub fn hn_item_url(id: u32) -> (url: String)
    ensures
        url@ == spec_item_url(HN_API_BASE_URL@, id),
{
    item_url(HN_API_BASE_URL, id)
}

/// Writes the URL of the list `list_type` on the public API.
pub fn get_story_list_url(list_type: StoryListType) -> (url: String)
    ensures
        url@ == spec_list_url(HN_API_BASE_URL@, list_type),
{
    list_url(HN_API_BASE_URL, list_type)
}

/// Seconds for which a cached list, story or comment is fresh.
pub const CACHE_TTL_SECONDS: u64 = 300;

/// The key of the list `list_type` in the cache of story lists.
pub open spec fn spec_story_ids_key(list_type: StoryListType) -> Seq<char> {
    "story_ids_"@ + list_type.spec_api_str()
}

/// The key of the story `id` in the cache of stories.
pub open spec fn spec_story_key(id: u32) -> Seq<char> {
    "story_"@ + spec_decimal(id as nat)
}

/// The key of the comment `id` in the cache of comments.
pub open spec fn spec_comment_key(id: u32) -> Seq<char> {
    "comment_"@ + spec_decimal(id as nat)
}

/// Writes the key of the list `list_type` in the cache of story lists.
pub fn story_ids_key(list_type: StoryListType) -> (key: String)
    ensures
        key@ == spec_story_ids_key(list_type),
{
    join2("story_ids_", list_type.as_api_str())
}

/// Writes the key of the story `id` in the cache of stories.
pub fn story_key(id: u32) -> (key: String)
    ensures
        key@ == spec_story_key(id),
{
    let number = decimal_string(id as u64);
    join2("story_", number.as_str())
}

/// Writes the key of the comment `id` in the cache of comments.
pub fn comment_key(id: u32) -> (key: String)
    ensures
        key@ == spec_comment_key(id),
{
    let number = decimal_string(id as u64);
    join2("comment_", number.as_str())
}

/// What an operation does next.
#[derive(Debug)]
pub enum Plan<T> {
    /// Nothing is fetched: this is the result of the operation.
    Ready(Result<T, FetchError>),
    /// The value is fetched from `url`; what comes of the fetch is settled
    /// afterwards.
    Fetch { url: String },
}

/// The result of an operation that is asked for the value under `key` at
/// `now` and fetches nothing: a cancelled operation fails at once, a fresh
/// entry is served from the cache. `None` where the value has to be fetched.
pub open spec fn spec_plan<T>(
    m: Map<Seq<char>, Slot<T>>,
    key: Seq<char>,
    cancelled: bool,
    now: u64,
) -> Option<Result<T, FetchError>> {
    if cancelled {
        Some(Err(FetchError::Cancelled))
    } else {
        match spec_get(m, key, now) {
            Some(value) => Some(Ok(value)),
            None => None,
        }
    }
}

/// The cache after a fetch for `key` is settled at `now`: a fetched value is
/// stored, a failure leaves the cache as it is.
pub open spec fn spec_settled_cache<T>(
    m: Map<Seq<char>, Slot<T>>,
    key: Seq<char>,
    fetched: Result<T, FetchError>,
    now: u64,
    ttl_ms: int,
) -> Map<Seq<char>, Slot<T>> {
    match fetched {
        Ok(value) => spec_insert(m, key, value, now, ttl_ms),
        Err(_) => m,
    }
}

/// The result of a list fetch that is settled: the fetched ids, or the
/// failure with the operation recorded.
pub open spec fn spec_settled_list<T>(
    fetched: Result<T, FetchError>,
    operation: Operation,
) -> Result<T, FetchError> {
    match fetched {
        Ok(value) => Ok(value),
        Err(error) => Err(error.spec_during(operation)),
    }
}

/// The result of an item fetch that is settled: the fetched item; after a
/// failure the item that the cache still holds, expired or not; and only
/// where it holds none the failure, with the operation recorded.
pub open spec fn spec_settled_item<T>(
    m: Map<Seq<char>, Slot<T>>,
    key: Seq<char>,
    fetched: Result<T, FetchError>,
    operation: Operation,
) -> Result<T, FetchError> {
    match fetched {
        Ok(value) => Ok(value),
        Err(error) => match spec_get_stale(m, key) {
            Some(stale) => Ok(stale),
            None => Err(error.spec_during(operation)),
        },
    }
}

/// Whether `got` is the result `wanted` as a caller receives it: the same
/// failure, or a clone of the value.
pub open spec fn spec_received<T: Clone>(
    wanted: Result<T, FetchError>,
    got: Result<T, FetchError>,
) -> bool {
    match (wanted, got) {
        (Ok(w), Ok(g)) => cloned(w, g),
        (Err(w), Err(g)) => w == g,
        _ => false,
    }
}

/// Classifies the outcome of a fetch of `url` whose body, if one arrived,
/// has been decoded: `Ok(Ok(value))` for a decoded body, `Ok(Err(reason))`
/// for a body that could not be decoded, `Err(report)` for a fetch that
/// failed.
///
/// A decoded value is the result. A body that could not be decoded gives a
/// parse error that names the URL and the reason, a failed fetch a network
/// error with the failure as it was reported; neither names an operation.
pub fn classify<T>(url: &str, fetched: Result<Result<T, String>, String>) -> (decoded: Result<
    T,
    FetchError,
>)
    ensures
        match fetched {
            Ok(Ok(value)) => decoded == Ok::<T, FetchError>(value),
            Ok(Err(reason)) => decoded matches Err(
                FetchError::Parse { operation: None, url: named, message },
            ) && named@ == url@ && message == reason,
            Err(report) => decoded == Err::<T, FetchError>(
                FetchError::Network { operation: None, message: report },
            ),
        },
{
    match fetched {
        Ok(Ok(value)) => Ok(value),
        Ok(Err(reason)) => Err(FetchError::parse(url, reason)),
        Err(report) => Err(FetchError::network(report)),
    }
}

/// Decodes the outcome of a fetch of `url` that is to yield a list of ids.
///
/// A fetch that failed gives a network error with the failure as it was
/// reported. A body gives the list of ids that it holds as JSON, or a parse
/// error that names the URL.
pub fn decode_story_ids(url: &str, fetched: Result<&str, String>) -> (decoded: Result<
    Vec<u32>,
    FetchError,
>)
    ensures
        match fetched {
            Ok(body) => match json_id_list(body@) {
                Some(ids) => decoded matches Ok(got) && got@ == ids,
                None => decoded matches Err(FetchError::Parse { operation: None, url: named, message: _ })
                    && named@ == url@,
            },
            Err(message) => decoded == Err::<Vec<u32>, FetchError>(
                FetchError::Network { operation: None, message },
            ),
        },
{
    match fetched {
        Ok(body) => match parse_id_list(body) {
            Ok(ids) => classify(url, Ok(Ok(ids))),
            Err(error) => classify(url, Ok(Err(error.to_string()))),
        },
        Err(message) => classify(url, Err(message)),
    }
}

fn plan_item<T: Clone>(cache: &Cache<T>, key: &str, url: String, cancelled: bool, now: u64) -> (plan:
    Plan<T>)
    ensures
        match spec_plan(cache@, key@, cancelled, now) {
            Some(wanted) => plan matches Plan::Ready(got) && spec_received(wanted, got),
            None => plan == (Plan::<T>::Fetch { url }),
        },
{
    if cancelled {
        Plan::Ready(Err(FetchError::Cancelled))
    } else {
        match cache.get_at(key, now) {
            Some(value) => Plan::Ready(Ok(value)),
            None => Plan::Fetch { url },
        }
    }
}

fn settle_item<T: Clone>(
    cache: &mut Cache<T>,
    key: String,
    operation: Operation,
    fetched: Result<T, FetchError>,
    now: u64,
) -> (result: Result<T, FetchError>)
    ensures
        final(cache)@ == spec_settled_cache(old(cache)@, key@, fetched, now, old(cache).ttl_ms()),
        final(cache).ttl_ms() == old(cache).ttl_ms(),
        spec_received(spec_settled_item(old(cache)@, key@, fetched, operation), result),
{
    match fetched {
        Ok(value) => {
            let copy = value.clone();
            cache.insert_at(key, value, now);
            Ok(copy)
        },
        Err(error) => match cache.get_stale(key.as_str()) {
            Some(stale) => Ok(stale),
            None => Err(error.during(operation)),
        },
    }
}

/// The state of the fetch service: the caches of story lists, stories and
/// comments, and the settings it was built with.
pub struct ApiService {
    story_ids_cache: Cache<Vec<u32>>,
    story_cache: Cache<Story>,
    comment_cache: Cache<Comment>,
    network_config: NetworkConfig,
    base_url: Option<String>,
    enable_metrics: bool,
    clock: Clock,
}

impl ApiService {
    /// The cached story lists by key.
    pub closed spec fn story_ids(&self) -> Map<Seq<char>, Slot<Vec<u32>>> {
        self.story_ids_cache@
    }

    /// The cached stories by key.
    pub closed spec fn stories(&self) -> Map<Seq<char>, Slot<Story>> {
        self.story_cache@
    }

    /// The cached comments by key.
    pub closed spec fn comments(&self) -> Map<Seq<char>, Slot<Comment>> {
        self.comment_cache@
    }

    /// The network settings of the service.
    pub closed spec fn config(&self) -> NetworkConfig {
        self.network_config
    }

    /// The base URL under which the service fetches.
    pub closed spec fn base(&self) -> Seq<char> {
        match self.base_url {
            Some(url) => url@,
            None => HN_API_BASE_URL@,
        }
    }

    /// Whether the caller is asked to log performance metrics.
    pub closed spec fn metrics(&self) -> bool {
        self.enable_metrics
    }

    /// Every cache of the service keeps its entries fresh for
    /// [`CACHE_TTL_SECONDS`].
    pub closed spec fn well_formed(&self) -> bool {
        &&& self.story_ids_cache.ttl_ms() == CACHE_TTL_SECONDS * 1000
        &&& self.story_cache.ttl_ms() == CACHE_TTL_SECONDS * 1000
        &&& self.comment_cache.ttl_ms() == CACHE_TTL_SECONDS * 1000
    }

    /// Whether `other` has the settings of this service.
    pub open spec fn same_settings(&self, other: &ApiService) -> bool {
        &&& other.config() == self.config()
        &&& other.base() == self.base()
        &&& other.metrics() == self.metrics()
    }

    fn build(network_config: NetworkConfig, base_url: Option<String>) -> (service: ApiService)
        ensures
            service.well_formed(),
            service.story_ids() == Map::<Seq<char>, Slot<Vec<u32>>>::empty(),
            service.stories() == Map::<Seq<char>, Slot<Story>>::empty(),
            service.comments() == Map::<Seq<char>, Slot<Comment>>::empty(),
            service.config() == network_config,
            service.base_url == base_url,
            !service.metrics(),
    {
        ApiService {
            story_ids_cache: Cache::new(CACHE_TTL_SECONDS),
            story_cache: Cache::new(CACHE_TTL_SECONDS),
            comment_cache: Cache::new(CACHE_TTL_SECONDS),
            network_config,
            base_url,
            enable_metrics: false,
            clock: Clock::start(),
        }
    }

    /// Creates a service with the default settings, empty caches, the public
    /// base URL and metrics off.
    pub fn new() -> (service: ApiService)
        ensures
            service.well_formed(),
            service.story_ids() == Map::<Seq<char>, Slot<Vec<u32>>>::empty(),
            service.stories() == Map::<Seq<char>, Slot<Story>>::empty(),
            service.comments() == Map::<Seq<char>, Slot<Comment>>::empty(),
            service.config() == NetworkConfig::spec_default(),
            service.base() == HN_API_BASE_URL@,
            !service.metrics(),
    {
        ApiService::build(NetworkConfig::default(), None)
    }

    /// Creates a service with the settings `network_config`, empty caches,
    /// the public base URL and metrics off.
    pub fn with_config(network_config: NetworkConfig) -> (service: ApiService)
        ensures
            service.well_formed(),
            service.story_ids() == Map::<Seq<char>, Slot<Vec<u32>>>::empty(),
            service.stories() == Map::<Seq<char>, Slot<Story>>::empty(),
            service.comments() == Map::<Seq<char>, Slot<Comment>>::empty(),
            service.config() == network_config,
            service.base() == HN_API_BASE_URL@,
            !service.metrics(),
    {
        ApiService::build(network_config, None)
    }

    /// Creates a service that fetches under `base_url`, with the default
    /// settings, empty caches and metrics off.
    pub fn with_base_url(base_url: String) -> (service: ApiService)
        ensures
            service.well_formed(),
            service.story_ids() == Map::<Seq<char>, Slot<Vec<u32>>>::empty(),
            service.stories() == Map::<Seq<char>, Slot<Story>>::empty(),
            service.comments() == Map::<Seq<char>, Slot<Comment>>::empty(),
            service.config() == NetworkConfig::spec_default(),
            service.base() == base_url@,
            !service.metrics(),
    {
        ApiService::build(NetworkConfig::default(), Some(base_url))
    }

    /// Turns the request for performance metrics on or off; all else stays.
    pub fn with_metrics(self, enable: bool) -> (service: ApiService)
        ensures
            service.metrics() == enable,
            service.well_formed() == self.well_formed(),
            service.story_ids() == self.story_ids(),
            service.stories() == self.stories(),
            service.comments() == self.comments(),
            service.config() == self.config(),
            service.base() == self.base(),
    {
        let mut service = self;
        service.enable_metrics = enable;
        service
    }

    /// The base URL under which the service fetches.
    pub fn get_base_url(&self) -> (base: &str)
        ensures
            base@ == self.base(),
    {
        match &self.base_url {
            Some(url) => url.as_str(),
            None => HN_API_BASE_URL,
        }
    }

    /// The network settings of the service.
    pub fn network_config(&self) -> (config: NetworkConfig)
        ensures
            config == self.config(),
    {
        self.network_config
    }

    /// Whether the caller is asked to log performance metrics.
    pub fn metrics_enabled(&self) -> (enabled: bool)
        ensures
            enabled == self.metrics(),
    {
        self.enable_metrics
    }

    /// The present time on the service's clock, in milliseconds.
    pub fn now_ms(&self) -> (now: u64) {
        self.clock.now_ms()
    }

    /// Plans the fetch of the ids of `list_type` at time `now`.
    ///
    /// If `cancelled` says that the caller's cancellation signal has fired,
    /// the operation fails as cancelled and nothing is fetched. Otherwise a
    /// fresh cached list is the result, and without one the list is fetched
    /// from its URL under the base URL.
    pub fn plan_story_ids(&self, list_type: StoryListType, cancelled: bool, now: u64) -> (plan: Plan<
        Vec<u32>,
    >)
        ensures
            match spec_plan(
                self.story_ids(),
                spec_story_ids_key(list_type),
                cancelled,
                now,
            ) {
                Some(wanted) => plan matches Plan::Ready(got) && spec_received(wanted, got),
                None => plan matches Plan::Fetch { url } && url@ == spec_list_url(
                    self.base(),
                    list_type,
                ),
            },
    {
        let key = story_ids_key(list_type);
        let url = list_url(self.get_base_url(), list_type);
        plan_item(&self.story_ids_cache, key.as_str(), url, cancelled, now)
    }

    /// Settles the fetch of the ids of `list_type` at time `now`.
    ///
    /// Fetched ids are cached and handed out. A failure leaves the cache as
    /// it is and is handed out with the operation recorded; a cancellation
    /// that fired while the fetch was under way is handed out as it is.
    pub fn settle_story_ids(
        &mut self,
        list_type: StoryListType,
        fetched: Result<Vec<u32>, FetchError>,
        now: u64,
    ) -> (result: Result<Vec<u32>, FetchError>)
        requires
            old(self).well_formed(),
        ensures
            final(self).well_formed(),
            final(self).story_ids() == spec_settled_cache(
                old(self).story_ids(),
                spec_story_ids_key(list_type),
                fetched,
                now,
                CACHE_TTL_SECONDS * 1000,
            ),
            final(self).stories() == old(self).stories(),
            final(self).comments() == old(self).comments(),
            old(self).same_settings(final(self)),
            spec_received(spec_settled_list(fetched, Operation::StoryIds(list_type)), result),
    {
        match fetched {
            Ok(ids) => {
                let copy = ids.clone();
                self.story_ids_cache.insert_at(story_ids_key(list_type), ids, now);
                Ok(copy)
            },
            Err(error) => Err(error.during(Operation::StoryIds(list_type))),
        }
    }

    /// Plans the fetch of the story `id` at time `now`.
    ///
    /// If `cancelled` says that the caller's cancellation signal has fired,
    /// the operation fails as cancelled and nothing is fetched. Otherwise a
    /// fresh cached story is the result, and without one the story is
    /// fetched from its URL under the base URL.
    pub fn plan_story(&self, id: u32, cancelled: bool, now: u64) -> (plan: Plan<Story>)
        ensures
            match spec_plan(
                self.stories(),
                spec_story_key(id),
                cancelled,
                now,
            ) {
                Some(wanted) => plan matches Plan::Ready(got) && spec_received(wanted, got),
                None => plan matches Plan::Fetch { url } && url@ == spec_item_url(self.base(), id),
            },
    {
        let key = story_key(id);
        let url = item_url(self.get_base_url(), id);
        plan_item(&self.story_cache, key.as_str(), url, cancelled, now)
    }

    /// Settles the fetch of the story `id` at time `now`.
    ///
    /// A fetched story is cached and handed out. After a failure the cache
    /// stays as it is, and the story that it still holds, expired or not, is
    /// handed out in place of the failure; only where it holds none the
    /// failure is handed out, with the operation recorded.
    pub fn settle_story(&mut self, id: u32, fetched: Result<Story, FetchError>, now: u64) -> (result:
        Result<Story, FetchError>)
        requires
            old(self).well_formed(),
        ensures
            final(self).well_formed(),
            final(self).stories() == spec_settled_cache(
                old(self).stories(),
                spec_story_key(id),
                fetched,
                now,
                CACHE_TTL_SECONDS * 1000,
            ),
            final(self).story_ids() == old(self).story_ids(),
            final(self).comments() == old(self).comments(),
            old(self).same_settings(final(self)),
            spec_received(
                spec_settled_item(old(self).stories(), spec_story_key(id), fetched, Operation::Story(id)),
                result,
            ),
    {
        settle_item(&mut self.story_cache, story_key(id), Operation::Story(id), fetched, now)
    }

    /// Plans the fetch of the comment `id` at time `now`, as
    /// [`ApiService::plan_story`] does for a story.
    pub fn plan_comment(&self, id: u32, cancelled: bool, now: u64) -> (plan: Plan<Comment>)
        ensures
            match spec_plan(
                self.comments(),
                spec_comment_key(id),
                cancelled,
                now,
            ) {
                Some(wanted) => plan matches Plan::Ready(got) && spec_received(wanted, got),
                None => plan matches Plan::Fetch { url } && url@ == spec_item_url(self.base(), id),
            },
    {
        let key = comment_key(id);
        let url = item_url(self.get_base_url(), id);
        plan_item(&self.comment_cache, key.as_str(), url, cancelled, now)
    }

    /// Settles the fetch of the comment `id` at time `now`, as
    /// [`ApiService::settle_story`] does for a story.
    pub fn settle_comment(
        &mut self,
        id: u32,
        fetched: Result<Comment, FetchError>,
        now: u64,
    ) -> (result: Result<Comment, FetchError>)
        requires
            old(self).well_formed(),
        ensures
            final(self).well_formed(),
            final(self).comments() == spec_settled_cache(
                old(self).comments(),
                spec_comment_key(id),
                fetched,
                now,
                CACHE_TTL_SECONDS * 1000,
            ),
            final(self).story_ids() == old(self).story_ids(),
            final(self).stories() == old(self).stories(),
            old(self).same_settings(final(self)),
            spec_received(
                spec_settled_item(
                    old(self).comments(),
                    spec_comment_key(id),
                    fetched,
                    Operation::Comment(id),
                ),
                result,
            ),
    {
        settle_item(&mut self.comment_cache, comment_key(id), Operation::Comment(id), fetched, now)
    }
}

/// Cancellation comes first: an operation whose cancellation signal has
/// fired before it starts fetches nothing and fails as cancelled, whatever
/// the cache holds.
pub proof fn law_cancellation_precedence<T>(m: Map<Seq<char>, Slot<T>>, key: Seq<char>, now: u64)
    ensures
        spec_plan(m, key, true, now) == Some(Err::<T, FetchError>(FetchError::Cancelled)),
{
}

/// A value that was fetched and settled at `settled_at` is served from the
/// cache, with nothing fetched, at every time before its expiry; from its
/// expiry on it is fetched again.
pub proof fn law_served_from_cache<T>(
    m: Map<Seq<char>, Slot<T>>,
    key: Seq<char>,
    value: T,
    settled_at: u64,
    ttl_ms: int,
    now: u64,
)
    ensures
        now < settled_at + ttl_ms ==> spec_plan(
            spec_settled_cache(m, key, Ok(value), settled_at, ttl_ms),
            key,
            false,
            now,
        ) == Some(Ok::<T, FetchError>(value)),
        now >= settled_at + ttl_ms ==> spec_plan(
            spec_settled_cache(m, key, Ok(value), settled_at, ttl_ms),
            key,
            false,
            now,
        ) is None,
{
}

/// Stale fallback: once an item was fetched and settled, a later fetch of it
/// that fails hands out the cached item in place of the failure, however
/// long ago the item expired.
pub proof fn law_stale_fallback<T>(
    m: Map<Seq<char>, Slot<T>>,
    key: Seq<char>,
    value: T,
    settled_at: u64,
    ttl_ms: int,
    error: FetchError,
    operation: Operation,
)
    ensures
        spec_settled_item(
            spec_settled_cache(m, key, Ok(value), settled_at, ttl_ms),
            key,
            Err(error),
            operation,
        ) == Ok::<T, FetchError>(value),
{
}

/// Different lists have different names, and so different cache keys and
/// URLs.
pub proof fn law_list_keys_distinct(a: StoryListType, b: StoryListType)
    ensures
        a.spec_api_str() == b.spec_api_str() ==> a == b,
        spec_story_ids_key(a) == spec_story_ids_key(b) ==> a == b,
{
    reveal_strlit("beststories");
    reveal_strlit("topstories");
    reveal_strlit("newstories");
    reveal_strlit("askstories");
    reveal_strlit("showstories");
    reveal_strlit("jobstories");
    lemma_prefix_cancels("story_ids_"@, a.spec_api_str(), b.spec_api_str());
    if a.spec_api_str() == b.spec_api_str() {
        assert(a.spec_api_str()[0] == b.spec_api_str()[0]);
    }
}

/// Different items have different cache keys.
pub proof fn law_item_keys_distinct(a: u32, b: u32)
    ensures
        spec_story_key(a) == spec_story_key(b) ==> a == b,
        spec_comment_key(a) == spec_comment_key(b) ==> a == b,
{
    lemma_decimal_injective(a as nat, b as nat);
    lemma_prefix_cancels("story_"@, spec_decimal(a as nat), spec_decimal(b as nat));
    lemma_prefix_cancels("comment_"@, spec_decimal(a as nat), spec_decimal(b as nat));
}

} // verus!
