//! Requests configuration.
use vstd::prelude::*;

use super::constants::{DEFAULT_MAX_BODY_SIZE, DEFAULT_MAX_DURATION_SECONDS};

verus! {

/// Requests configuration.
#[derive(Debug, Clone, Copy)]
pub struct RequestsConfiguration {
    /// Maximum body size in bytes.
    pub max_body_size: u64,
    /// Maximum duration in seconds.
    pub max_duration: u64,
}

impl Default for RequestsConfiguration {
    fn default() -> (configuration: Self)
        ensures
            configuration.max_body_size == 4096,
            configuration.max_duration == 5,
    {
        RequestsConfiguration { max_body_size: DEFAULT_MAX_BODY_SIZE, max_duration: DEFAULT_MAX_DURATION_SECONDS }
    }
}

} // verus!
