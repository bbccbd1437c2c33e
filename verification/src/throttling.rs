//! Configuration of the message-throttling proxy. The proxy itself delays
//! each message by a random number of milliseconds drawn outside the
//! verified core; only its configuration lives here.

use vstd::prelude::*;

verus! {

/// Messages passing through the throttling proxy are delayed by a random
/// number of milliseconds in the range `[0, max_delay_ms)`.
pub struct ThrottlingHandler {
    pub max_delay_ms: u64,
}

impl ThrottlingHandler {
    pub fn new(max_delay_ms: u64) -> (r: Self)
        ensures
            r.max_delay_ms == max_delay_ms,
    {
        ThrottlingHandler { max_delay_ms }
    }
}

} // verus!
