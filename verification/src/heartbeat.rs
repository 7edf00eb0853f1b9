//! The agent's heartbeat: who it is, how often it reports, and how long it has been up.
use vstd::prelude::*;

verus! {

/// Nanoseconds in a second.
pub const NANOS_PER_SECOND: u128 = 1_000_000_000;

/// Who an agent is and when it started (nanoseconds since the UNIX epoch).
pub struct AgentIdentity {
    pub node_name: String,
    pub version: String,
    pub started_at: u128,
}

/// How often the agent reports.
pub struct AgentConfig {
    pub interval_seconds: u64,
}

impl AgentIdentity {
    /// Whole seconds since the agent started, at time `now` (nanoseconds since the UNIX epoch).
    pub fn uptime_seconds(&self, now: u128) -> (uptime: u64)
        requires
            now >= self.started_at,
            (now - self.started_at) / (NANOS_PER_SECOND as int) <= u64::MAX,
        ensures
            uptime == (now - self.started_at) / (NANOS_PER_SECOND as int),
    {
        ((now - self.started_at) / NANOS_PER_SECOND) as u64
    }
}

} // verus!
