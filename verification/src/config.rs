use vstd::prelude::*;

verus! {

/// Configuration for the storage adapter. Immutable after construction.
///
/// Durations are carried as milliseconds so that the contracts can reason
/// about them directly.
#[derive(Debug, Clone)]
pub struct Config {
    /// Prefix for all stream, subject and consumer names, as UTF-8 bytes.
    pub namespace: Vec<u8>,
    /// Delivery attempts before a transient failure is routed to the DLQ.
    pub max_deliver: u64,
    /// Broker-side visibility timeout per delivery, in milliseconds.
    pub ack_wait_ms: u64,
    /// Replication factor for the streams.
    pub num_replicas: usize,
    /// Whether the dead-letter stream is provisioned and routed to.
    pub enable_dlq: bool,
    /// Ceiling of unacknowledged messages per consumer.
    pub max_ack_pending: u64,
    /// Budget for one fetch on one priority before falling through, in milliseconds.
    pub fetch_expiry_ms: u64,
    /// Ordered retry delays for negative acknowledgements, in milliseconds;
    /// the last entry repeats once attempts exceed the list.
    pub nak_backoff_ms: Vec<u64>,
    /// Whether W3C trace context is injected into and extracted from headers.
    pub enable_tracing: bool,
}

impl Config {
    /// A configuration the adapter can run with: at least one delivery
    /// attempt, a positive visibility timeout, and a non-empty backoff list.
    pub open spec fn wf(self) -> bool {
        &&& self.max_deliver >= 1
        &&& self.ack_wait_ms >= 1
        &&& self.nak_backoff_ms@.len() >= 1
    }
}

impl Default for Config {
    /// The default configuration: namespace `apalis`, five delivery attempts,
    /// a 30 s visibility timeout, one replica, the DLQ enabled, at most 100
    /// pending acknowledgements, a 100 ms fetch budget, the standard backoff
    /// ladder, and tracing on.
    fn default() -> (r: Self)
        ensures
            r.namespace@ == seq![97u8, 112u8, 97u8, 108u8, 105u8, 115u8],
            r.max_deliver == 5u64,
            r.ack_wait_ms == 30_000u64,
            r.num_replicas == 1usize,
            r.enable_dlq == true,
            r.max_ack_pending == 100u64,
            r.fetch_expiry_ms == 100u64,
            r.nak_backoff_ms@ == seq![100u64, 200u64, 500u64, 1000u64, 2000u64, 5000u64],
            r.enable_tracing == true,
            r.wf(),
    {
        let mut backoff: Vec<u64> = Vec::new();
        backoff.push(100);
        backoff.push(200);
        backoff.push(500);
        backoff.push(1000);
        backoff.push(2000);
        backoff.push(5000);
        proof {
            assert(backoff@ =~= seq![100u64, 200u64, 500u64, 1000u64, 2000u64, 5000u64]);
        }
        let mut namespace: Vec<u8> = Vec::new();
        namespace.push(97);
        namespace.push(112);
        namespace.push(97);
        namespace.push(108);
        namespace.push(105);
        namespace.push(115);
        proof {
            assert(namespace@ =~= seq![97u8, 112u8, 97u8, 108u8, 105u8, 115u8]);
        }
        Config {
            namespace,
            max_deliver: 5,
            ack_wait_ms: 30_000,
            num_replicas: 1,
            enable_dlq: true,
            max_ack_pending: 100,
            fetch_expiry_ms: 100,
            nak_backoff_ms: backoff,
            enable_tracing: true,
        }
    }
}

} // verus!
