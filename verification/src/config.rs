//! Settings of a session.

use vstd::prelude::*;

verus! {

/// Polling interval of the event loop when none is given, in milliseconds.
pub const DEFAULT_INTERVAL_MS: u64 = 100;

/// Base address of the API when none is given.
pub const DEFAULT_API_ENDPOINT: &'static str = "https://tracker-api-gdesfolyga-uw.a.run.app";

/// Settings of a session. They are fixed once the session has started.
#[derive(Clone, Debug)]
pub struct Config {
    /// How long the event loop waits for a key press, in milliseconds. This
    /// bounds both the delay of the reaction to a key and the pace of the
    /// loop while the stream is silent.
    pub interval_ms: u64,
    /// Base address of the API.
    pub api_endpoint: String,
}

impl Default for Config {
    fn default() -> (config: Config)
        ensures
            config.interval_ms == DEFAULT_INTERVAL_MS,
            config.api_endpoint@ == DEFAULT_API_ENDPOINT@,
    {
        Config { interval_ms: DEFAULT_INTERVAL_MS, api_endpoint: DEFAULT_API_ENDPOINT.to_owned() }
    }
}

} // verus!
