use vstd::prelude::*;
use crate::clock::{now_millis_clamped, MAX_RFC3339_MS};
use crate::codec::{JobEnvelope, EnvelopeModel, spec_encode};
use crate::config::Config;
use crate::names::{subject, subject_of};
use crate::priority::Priority;

verus! {

/// The W3C trace context a producer propagates in message headers.
#[derive(Debug, Clone)]
pub struct TraceContext {
    /// The `traceparent` header value.
    pub traceparent: String,
    /// The `tracestate` header value.
    pub tracestate: String,
}

/// Relies on apalis-core's `TaskId::new`: a fresh ULID, rendered as its
/// 26-character text.
#[verifier::external_body]
fn fresh_task_id() -> (r: Vec<u8>)
    ensures
        r@.len() == 26,
{
    apalis_core::task::task_id::TaskId::new().to_string().into_bytes()
}

/// What one publish sends to the broker.
#[derive(Debug, Clone)]
pub struct PushPlan {
    /// The generated task id, as ULID text.
    pub id: Vec<u8>,
    /// The subject the envelope goes to.
    pub subject: Vec<u8>,
    /// The serialized envelope.
    pub payload: Vec<u8>,
    /// Header rows: the W3C pair when tracing applies, nothing otherwise.
    pub headers: Vec<(String, String)>,
    /// The producer timestamp written into the envelope.
    pub created_at_ms: u64,
}

/// Assemble one publish: generate a fresh id, timestamp the envelope,
/// serialize it, pick the priority's subject, and inject the trace headers
/// when tracing is enabled and a context is at hand. The caller publishes
/// the payload and awaits the broker's acknowledgement.
pub fn prepare_push(cfg: &Config, data: &Vec<u8>, p: Priority, ctx: Option<&TraceContext>) -> (r:
    PushPlan)
    ensures
        r.subject@ == subject_of(cfg.namespace@, p),
        r.id@.len() == 26,
        r.created_at_ms <= MAX_RFC3339_MS,
        r.payload@ == spec_encode(
            EnvelopeModel {
                id: r.id@,
                data: data@,
                priority: p,
                attempts: 0,
                created_at_ms: r.created_at_ms,
                namespace: cfg.namespace@,
            },
        ),
        ctx matches Some(c) ==> cfg.enable_tracing ==> r.headers@.len() == 2
            && r.headers@[0].0@ == "traceparent"@ && r.headers@[0].1@ == c.traceparent@
            && r.headers@[1].0@ == "tracestate"@ && r.headers@[1].1@ == c.tracestate@,
        !(cfg.enable_tracing && ctx is Some) ==> r.headers@.len() == 0,
{
    let id = fresh_task_id();
    let created_at_ms = now_millis_clamped();
    let envelope = JobEnvelope {
        id: id.clone(),
        data: data.clone(),
        priority: p,
        attempts: 0,
        created_at_ms,
        namespace: cfg.namespace.clone(),
    };
    let payload = envelope.encode();
    let subj = subject(&cfg.namespace, p);
    let mut headers: Vec<(String, String)> = Vec::new();
    if cfg.enable_tracing {
        if let Some(c) = ctx {
            headers.push((String::from_str("traceparent"), c.traceparent.clone()));
            headers.push((String::from_str("tracestate"), c.tracestate.clone()));
        }
    }
    PushPlan { id, subject: subj, payload, headers, created_at_ms }
}

} // verus!
