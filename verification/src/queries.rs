use vstd::prelude::*;
use crate::config::Config;
use crate::errors::NatsPollError;
use crate::names::{consumer_name, consumer_name_of};
use crate::priority::Priority;

verus! {

/// Operational counters of the backend. The broker tracks only pending and
/// dead-lettered messages; the other counters are reported as zero.
#[derive(Debug, Clone, Copy, PartialEq, Eq, Structural)]
pub struct Stat {
    /// Messages waiting on the priority streams.
    pub pending: u64,
    /// Not tracked; always zero.
    pub running: u64,
    /// Not tracked; always zero.
    pub dead: u64,
    /// Messages on the dead-letter stream, when it is enabled.
    pub failed: u64,
    /// Not tracked; always zero.
    pub success: u64,
}

/// Queue information for one stream.
#[derive(Debug, Clone)]
pub struct NatsQueueInfo {
    /// The stream name.
    pub stream: String,
    /// Number of pending messages.
    pub pending: u64,
}

/// The sum of the three per-priority message counts, saturating at the
/// integer's ceiling.
pub fn total_len(high: u64, medium: u64, low: u64) -> (r: u64)
    ensures
        high + medium + low <= u64::MAX ==> r == high + medium + low,
        high + medium + low > u64::MAX ==> r == u64::MAX,
{
    match high.checked_add(medium) {
        Some(hm) => match hm.checked_add(low) {
            Some(t) => t,
            None => u64::MAX,
        },
        None => u64::MAX,
    }
}

/// Whether all three priority streams are empty.
pub fn queue_is_empty(high: u64, medium: u64, low: u64) -> (r: bool)
    ensures
        r == (high == 0 && medium == 0 && low == 0),
{
    high == 0 && medium == 0 && low == 0
}

/// The backend statistics from the stream counts: pending totals the
/// priority streams, failed is the dead-letter count when the DLQ is
/// enabled, and the untracked counters are zero.
pub fn stats_from_counts(high: u64, medium: u64, low: u64, dlq: Option<u64>) -> (r: Stat)
    ensures
        high + medium + low <= u64::MAX ==> r.pending == high + medium + low,
        high + medium + low > u64::MAX ==> r.pending == u64::MAX,
        r.failed == (match dlq {
            Some(d) => d,
            None => 0u64,
        }),
        r.running == 0,
        r.dead == 0,
        r.success == 0,
{
    let pending = total_len(high, medium, low);
    let failed = match dlq {
        Some(d) => d,
        None => 0,
    };
    Stat { pending, running: 0, dead: 0, failed, success: 0 }
}

/// Nothing to reclaim: the work-queue retention removes acknowledged
/// messages by itself.
pub fn vacuum() -> (r: usize)
    ensures
        r == 0,
{
    0
}

/// The worker records to report: one consumer name for each priority whose
/// shared consumer currently exists, in fetch order.
pub open spec fn expected_workers(ns: Seq<u8>, high: bool, medium: bool, low: bool) -> Seq<
    Seq<u8>,
> {
    (if high {
        seq![consumer_name_of(ns, Priority::High)]
    } else {
        Seq::empty()
    }) + (if medium {
        seq![consumer_name_of(ns, Priority::Medium)]
    } else {
        Seq::empty()
    }) + (if low {
        seq![consumer_name_of(ns, Priority::Low)]
    } else {
        Seq::empty()
    })
}

/// List the worker identities: the consumer names of the priorities whose
/// shared consumer exists.
pub fn worker_names(cfg: &Config, high_exists: bool, medium_exists: bool, low_exists: bool) -> (r:
    Vec<Vec<u8>>)
    ensures
        r@.map_values(|v: Vec<u8>| v@) == expected_workers(
            cfg.namespace@,
            high_exists,
            medium_exists,
            low_exists,
        ),
{
    let mut r: Vec<Vec<u8>> = Vec::new();
    if high_exists {
        r.push(consumer_name(&cfg.namespace, Priority::High));
    }
    if medium_exists {
        r.push(consumer_name(&cfg.namespace, Priority::Medium));
    }
    if low_exists {
        r.push(consumer_name(&cfg.namespace, Priority::Low));
    }
    proof {
        assert(r@.map_values(|v: Vec<u8>| v@) =~= expected_workers(
            cfg.namespace@,
            high_exists,
            medium_exists,
            low_exists,
        ));
    }
    r
}

/// The error raw pushes report: they are not supported.
pub fn raw_push_unsupported() -> (e: NatsPollError)
    ensures
        e matches NatsPollError::Storage(m) && m@ == "Raw requests not supported"@,
{
    NatsPollError::Storage(String::from_str("Raw requests not supported"))
}

/// The error scheduling reports: it is not implemented.
pub fn schedule_unsupported() -> (e: NatsPollError)
    ensures
        e matches NatsPollError::Storage(m) && m@ == "Scheduling not yet implemented"@,
{
    NatsPollError::Storage(String::from_str("Scheduling not yet implemented"))
}

/// The error in-place updates report: they are not supported.
pub fn update_unsupported() -> (e: NatsPollError)
    ensures
        e matches NatsPollError::Storage(m) && m@ == "Updates not supported"@,
{
    NatsPollError::Storage(String::from_str("Updates not supported"))
}

/// The error rescheduling reports: it is not implemented.
pub fn reschedule_unsupported() -> (e: NatsPollError)
    ensures
        e matches NatsPollError::Storage(m) && m@ == "Rescheduling not yet implemented"@,
{
    NatsPollError::Storage(String::from_str("Rescheduling not yet implemented"))
}

} // verus!
