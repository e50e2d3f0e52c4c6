use vstd::prelude::*;
use crate::config::Config;

verus! {

/// A layer that sends periodic in-progress acknowledgements to extend
/// `ack_wait` while a job runs. The heartbeat starts before the handler and
/// stops when the handler returns on any path.
#[derive(Debug, Clone, Copy, PartialEq, Eq, Structural)]
pub struct ProgressHeartbeatLayer {
    /// Tick interval in milliseconds; must stay below the consumer's
    /// `ack_wait`.
    pub interval_ms: u64,
}

impl ProgressHeartbeatLayer {
    /// Create a heartbeat layer that ticks at the given interval. The
    /// interval must be less than the consumer's `ack_wait`.
    pub fn new(interval_ms: u64) -> (r: Self)
        ensures
            r.interval_ms == interval_ms,
    {
        ProgressHeartbeatLayer { interval_ms }
    }

    /// Wrap a handler service with this heartbeat.
    pub fn layer<S>(&self, service: S) -> (r: ProgressHeartbeatService<S>)
        ensures
            r.interval_ms == self.interval_ms,
    {
        ProgressHeartbeatService { service, interval_ms: self.interval_ms }
    }
}

/// The wrapped handler service: runs the inner service with a heartbeat
/// ticking beside it.
#[derive(Debug, Clone)]
pub struct ProgressHeartbeatService<S> {
    /// The wrapped handler service.
    pub service: S,
    /// Tick interval in milliseconds.
    pub interval_ms: u64,
}

/// Whether a heartbeat interval is admissible under a configuration: a
/// positive tick strictly inside the visibility timeout.
pub open spec fn interval_admissible(interval_ms: u64, cfg: Config) -> bool {
    0 < interval_ms < cfg.ack_wait_ms
}

/// Check a heartbeat interval against the configuration.
pub fn heartbeat_interval_valid(interval_ms: u64, cfg: &Config) -> (r: bool)
    ensures
        r == interval_admissible(interval_ms, *cfg),
{
    0 < interval_ms && interval_ms < cfg.ack_wait_ms
}

/// The last heartbeat signal at or before time `t` (milliseconds since the
/// delivery): the delivery itself signals at 0, and the ticker signals at
/// every whole interval while the handler runs.
pub open spec fn last_signal_before(t: int, interval: int) -> int {
    (t / interval) * interval
}

/// The broker redelivers at time `t` when a whole visibility window has
/// passed since the last signal.
pub open spec fn redelivery_due(t: int, interval: int, ack_wait: int) -> bool {
    t - last_signal_before(t, interval) >= ack_wait
}

/// A handler that runs under the heartbeat layer with an interval strictly
/// below `ack_wait` is never redelivered while it runs, however long it
/// takes: the gap since the last signal never reaches the visibility
/// timeout.
pub proof fn lemma_heartbeat_prevents_redelivery(t: int, interval: int, ack_wait: int)
    requires
        0 < interval < ack_wait,
        0 <= t,
    ensures
        !redelivery_due(t, interval, ack_wait),
        t - last_signal_before(t, interval) < interval,
{
    vstd::arithmetic::div_mod::lemma_fundamental_div_mod(t, interval);
    vstd::arithmetic::div_mod::lemma_mod_division_less_than_divisor(t, interval);
    assert(interval * (t / interval) == (t / interval) * interval) by (nonlinear_arith);
    assert(t - last_signal_before(t, interval) == t % interval);
}

/// The admissible intervals of a configuration keep every running handler
/// visible: under any of them, no time during a run is due for redelivery.
pub proof fn lemma_admissible_interval_keeps_visibility(interval_ms: u64, cfg: Config, t: int)
    requires
        interval_admissible(interval_ms, cfg),
        0 <= t,
    ensures
        !redelivery_due(t, interval_ms as int, cfg.ack_wait_ms as int),
{
    lemma_heartbeat_prevents_redelivery(t, interval_ms as int, cfg.ack_wait_ms as int);
}

} // verus!
