//! Switch policy.

use vstd::prelude::*;

verus! {

/// Serves requests for other models in the order in which they came. Times are whole seconds.
#[derive(Debug, Clone, Copy, PartialEq, Eq, Structural)]
pub struct FifoPolicy {
    /// How long a request waits for a switch; `None` for as long as it takes.
    pub request_timeout_secs: Option<u64>,
    /// Whether requests in flight are let finish before a switch.
    pub drain_before_switch: bool,
    /// How long a model stays active before it can be put to sleep.
    pub min_active_secs: u64,
}

impl FifoPolicy {
    /// A policy with the given limits.
    pub fn new(
        request_timeout_secs: Option<u64>,
        drain_before_switch: bool,
        min_active_secs: u64,
    ) -> (policy: FifoPolicy)
        ensures
            policy == (FifoPolicy { request_timeout_secs, drain_before_switch, min_active_secs }),
    {
        FifoPolicy { request_timeout_secs, drain_before_switch, min_active_secs }
    }
}

} // verus!
