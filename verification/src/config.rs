//! Settings that a download job is started with.

use vstd::prelude::*;
use crate::user_agent::UserAgent;

verus! {

/// The chunk size of a fresh configuration, in bytes.
pub const DEFAULT_CHUNK_SIZE: u64 = 10_000_000;

/// The number of downloads of segments that a fresh configuration lets run
/// at a time.
pub const DEFAULT_MAX_CONCURRENT: usize = 5;

/// The settings: whether requests go through Tor, which browser they pass
/// for, the size of a segment, and how many segments are fetched at a time.
#[derive(Clone, Copy, Debug, PartialEq, Eq, Structural)]
pub struct Config {
    pub use_tor: bool,
    pub user_agent: UserAgent,
    pub chunk_size: u64,
    pub max_concurrent_count: usize,
}

impl Config {
    /// The settings can be worked with: a segment has at least one byte, and
    /// at least one segment is fetched at a time.
    pub open spec fn usable(&self) -> bool {
        self.chunk_size >= 1 && self.max_concurrent_count >= 1
    }

    /// The settings that are used where none are stored.
    pub fn new() -> (config: Self)
        ensures
            config == (Config {
                use_tor: false,
                user_agent: UserAgent::Chrome,
                chunk_size: 10_000_000,
                max_concurrent_count: 5,
            }),
            config.usable(),
    {
        Self {
            use_tor: false,
            user_agent: UserAgent::Chrome,
            chunk_size: DEFAULT_CHUNK_SIZE,
            max_concurrent_count: DEFAULT_MAX_CONCURRENT,
        }
    }

    /// Tells whether the settings can be worked with.
    pub fn is_usable(&self) -> (usable: bool)
        ensures
            usable == self.usable(),
    {
        self.chunk_size >= 1 && self.max_concurrent_count >= 1
    }
}

} // verus!
