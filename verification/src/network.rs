//! Network settings of the fetch service.

use vstd::prelude::*;

verus! {

/// How the fetch service retries, throttles and fans out its requests.
///
/// A configuration is fixed when a service is built; a service with other
/// settings is a new service.
#[derive(Debug, Clone, Copy, PartialEq, Eq)]
pub struct NetworkConfig {
    /// Retries allowed after the first attempt (0 = no retries).
    pub max_retries: u32,
    /// Wait before the first retry, in milliseconds.
    pub initial_retry_delay_ms: u64,
    /// Cap on the doubled wait, in milliseconds.
    pub max_retry_delay_ms: u64,
    /// Whether a timed-out request is attempted again.
    pub retry_on_timeout: bool,
    /// Most item fetches of one batch that run at the same time.
    pub concurrent_requests: usize,
    /// Permits in the rate limiter's pool: the requests-per-second rate,
    /// rounded up to a whole number.
    pub rate_limit_permits: usize,
}

impl NetworkConfig {
    /// The settings used when none are given: 3 retries, waits from 500 ms
    /// doubling up to 5000 ms, timeouts retried, 10 concurrent requests and
    /// 3 permits.
    pub open spec fn spec_default() -> NetworkConfig {
        NetworkConfig {
            max_retries: 3,
            initial_retry_delay_ms: 500,
            max_retry_delay_ms: 5000,
            retry_on_timeout: true,
            concurrent_requests: 10,
            rate_limit_permits: 3,
        }
    }
}

impl Default for NetworkConfig {
    fn default() -> (config: NetworkConfig)
        ensures
            config == NetworkConfig::spec_default(),
    {
        NetworkConfig {
            max_retries: 3,
            initial_retry_delay_ms: 500,
            max_retry_delay_ms: 5000,
            retry_on_timeout: true,
            concurrent_requests: 10,
            rate_limit_permits: 3,
        }
    }
}

} // verus!
