use vstd::prelude::*;
use crate::config::Config;
use crate::priority::Priority;
use crate::names::{stream_name, subject, consumer_name, dlq_stream_name, dlq_subject};
use crate::names::{stream_name_of, subject_of, consumer_name_of, dlq_stream_name_of,
    dlq_subject_of};

verus! {

/// Age limit of a priority stream: seven days, in seconds.
pub const PRIORITY_MAX_AGE_SECS: u64 = 604_800;

/// Age limit of the dead-letter stream: thirty days, in seconds.
pub const DLQ_MAX_AGE_SECS: u64 = 2_592_000;

/// Width of the duplicate-suppression window, in seconds.
pub const DUPLICATE_WINDOW_SECS: u64 = 120;

/// Idle period after which the broker may reap a consumer, in seconds.
pub const INACTIVE_THRESHOLD_SECS: u64 = 300;

/// Retention of a provisioned stream.
#[derive(Debug, Clone, Copy, PartialEq, Eq, Structural)]
pub enum RetentionKind {
    /// Acknowledged messages are removed: single-consumption semantics.
    WorkQueue,
    /// The broker's default limit-based retention.
    Limits,
}

/// Everything the provisioner sets on one stream.
#[derive(Debug, Clone)]
pub struct StreamPlan {
    /// Stream name.
    pub name: Vec<u8>,
    /// The single subject the stream listens on.
    pub subject: Vec<u8>,
    /// Age limit of stored messages, in seconds.
    pub max_age_secs: u64,
    /// Retention policy.
    pub retention: RetentionKind,
    /// Discard oldest messages first when the stream is full.
    pub discard_old: bool,
    /// Duplicate-suppression window, in seconds; zero leaves the broker's
    /// default.
    pub duplicate_window_secs: u64,
    /// Replication factor.
    pub num_replicas: usize,
    /// File-backed storage.
    pub file_storage: bool,
}

/// The work-queue stream for one priority: named `{ns}_{priority}` on
/// subject `{ns}.{priority}`, file-backed, seven days of age, work-queue
/// retention, oldest-first discard, a 120 s duplicate window, and the
/// configured replica count.
pub fn priority_stream_plan(cfg: &Config, p: Priority) -> (r: StreamPlan)
    ensures
        r.name@ == stream_name_of(cfg.namespace@, p),
        r.subject@ == subject_of(cfg.namespace@, p),
        r.max_age_secs == PRIORITY_MAX_AGE_SECS,
        r.retention is WorkQueue,
        r.discard_old,
        r.duplicate_window_secs == DUPLICATE_WINDOW_SECS,
        r.num_replicas == cfg.num_replicas,
        r.file_storage,
{
    StreamPlan {
        name: stream_name(&cfg.namespace, p),
        subject: subject(&cfg.namespace, p),
        max_age_secs: PRIORITY_MAX_AGE_SECS,
        retention: RetentionKind::WorkQueue,
        discard_old: true,
        duplicate_window_secs: DUPLICATE_WINDOW_SECS,
        num_replicas: cfg.num_replicas,
        file_storage: true,
    }
}

/// The dead-letter stream: named `{ns}_dlq` on subject `{ns}.dlq`,
/// file-backed, thirty days of age, default retention and discard, and the
/// configured replica count.
pub fn dlq_stream_plan(cfg: &Config) -> (r: StreamPlan)
    ensures
        r.name@ == dlq_stream_name_of(cfg.namespace@),
        r.subject@ == dlq_subject_of(cfg.namespace@),
        r.max_age_secs == DLQ_MAX_AGE_SECS,
        r.retention is Limits,
        r.discard_old,
        r.duplicate_window_secs == 0,
        r.num_replicas == cfg.num_replicas,
        r.file_storage,
{
    StreamPlan {
        name: dlq_stream_name(&cfg.namespace),
        subject: dlq_subject(&cfg.namespace),
        max_age_secs: DLQ_MAX_AGE_SECS,
        retention: RetentionKind::Limits,
        discard_old: true,
        duplicate_window_secs: 0,
        num_replicas: cfg.num_replicas,
        file_storage: true,
    }
}

/// Everything the consumer factory sets on one shared durable pull
/// consumer.
#[derive(Debug, Clone)]
pub struct ConsumerPlan {
    /// Consumer name.
    pub name: Vec<u8>,
    /// Durable name; equal to the consumer name, so the cursor survives.
    pub durable_name: Vec<u8>,
    /// Explicit acknowledgement policy.
    pub ack_policy_explicit: bool,
    /// Visibility timeout per delivery, in milliseconds.
    pub ack_wait_ms: u64,
    /// Delivery attempts the broker allows.
    pub max_deliver: u64,
    /// The single subject the consumer filters on.
    pub filter_subject: Vec<u8>,
    /// Deliver from the start of the stream.
    pub deliver_all: bool,
    /// Ceiling of unacknowledged messages.
    pub max_ack_pending: u64,
    /// Instant replay.
    pub replay_instant: bool,
    /// Idle period after which the broker may reap the consumer, in
    /// seconds; it is recreated on demand.
    pub inactive_threshold_secs: u64,
}

/// The shared durable pull consumer for one priority: named
/// `{ns}_{priority}_consumer`, explicit acks, the configured `ack_wait`,
/// `max_deliver` and `max_ack_pending`, filtered to `{ns}.{priority}`,
/// delivering all, instant replay, and a 300 s inactivity threshold.
pub fn consumer_plan(cfg: &Config, p: Priority) -> (r: ConsumerPlan)
    ensures
        r.name@ == consumer_name_of(cfg.namespace@, p),
        r.durable_name@ == consumer_name_of(cfg.namespace@, p),
        r.ack_policy_explicit,
        r.ack_wait_ms == cfg.ack_wait_ms,
        r.max_deliver == cfg.max_deliver,
        r.filter_subject@ == subject_of(cfg.namespace@, p),
        r.deliver_all,
        r.max_ack_pending == cfg.max_ack_pending,
        r.replay_instant,
        r.inactive_threshold_secs == INACTIVE_THRESHOLD_SECS,
{
    ConsumerPlan {
        name: consumer_name(&cfg.namespace, p),
        durable_name: consumer_name(&cfg.namespace, p),
        ack_policy_explicit: true,
        ack_wait_ms: cfg.ack_wait_ms,
        max_deliver: cfg.max_deliver,
        filter_subject: subject(&cfg.namespace, p),
        deliver_all: true,
        max_ack_pending: cfg.max_ack_pending,
        replay_instant: true,
        inactive_threshold_secs: INACTIVE_THRESHOLD_SECS,
    }
}

} // verus!
