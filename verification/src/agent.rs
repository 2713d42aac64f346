//! The HTTP client handle that a format carries.

use std::time::Duration;
use ureq::Agent;
use ureq::AgentBuilder;
use vstd::prelude::*;

verus! {

#[verifier::external_type_specification]
#[verifier::external_body]
pub struct ExAgent(ureq::Agent);

/// Builds a client handle with `ureq::AgentBuilder`: `new`, then `timeout_read`
/// and `timeout_write` with the two durations in whole seconds, then `build`.
/// The handle is opaque here, so nothing is claimed of it; building it sends
/// nothing.
#[verifier::external_body]
pub(crate) fn build_agent(read_secs: u64, write_secs: u64) -> Agent {
    AgentBuilder::new()
        .timeout_read(Duration::from_secs(read_secs))
        .timeout_write(Duration::from_secs(write_secs))
        .build()
}

} // verus!
