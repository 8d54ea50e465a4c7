use vstd::prelude::*;

use std::time::Duration;

use crate::config::EngineConfig;
use crate::utils::{duration_as_nanos, duration_nanos};

verus! {

/// What the health check does after one look at the engine.
#[derive(Debug, Clone, Copy, PartialEq, Eq, Structural)]
pub enum MonitorAction {
    /// All work is done: raise the shutdown signal and stop watching.
    InitiateShutdown,
    /// Someone else raised the shutdown signal: stop watching.
    Stop,
    /// Look again later.
    Continue,
}

/// The engine has nothing left to do: no download in flight, no request waiting, and no
/// activity for at least the idle timeout (both in nanoseconds).
pub open spec fn spec_all_work_done(
    active_requests: usize,
    scheduler_empty: bool,
    idle_nanos: nat,
    idle_timeout_nanos: nat,
) -> bool {
    active_requests == 0 && scheduler_empty && idle_nanos >= idle_timeout_nanos
}

/// One look of the health check: shut the engine down once all work is done, stop when the
/// shutdown signal is already up, and otherwise go on watching.
pub fn monitor_step(
    active_requests: usize,
    scheduler_empty: bool,
    idle_time: Duration,
    config: &EngineConfig,
    shutdown_signal: bool,
) -> (a: MonitorAction)
    ensures
        spec_all_work_done(
            active_requests,
            scheduler_empty,
            duration_nanos(idle_time),
            duration_nanos(config.idle_timeout),
        )
            ==> a == MonitorAction::InitiateShutdown,
        !spec_all_work_done(
            active_requests,
            scheduler_empty,
            duration_nanos(idle_time),
            duration_nanos(config.idle_timeout),
        )
            && shutdown_signal ==> a == MonitorAction::Stop,
        !spec_all_work_done(
            active_requests,
            scheduler_empty,
            duration_nanos(idle_time),
            duration_nanos(config.idle_timeout),
        )
            && !shutdown_signal ==> a == MonitorAction::Continue,
{
    let idle = duration_as_nanos(&idle_time);
    let timeout = duration_as_nanos(&config.idle_timeout);
    if active_requests == 0 && scheduler_empty && idle >= timeout {
        MonitorAction::InitiateShutdown
    } else if shutdown_signal {
        MonitorAction::Stop
    } else {
        MonitorAction::Continue
    }
}

} // verus!
