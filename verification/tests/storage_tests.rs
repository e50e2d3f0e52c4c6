use apalis_nats::codec::JobEnvelope;
use apalis_nats::config::Config;
use apalis_nats::errors::NatsPollError;
use apalis_nats::heartbeat::{heartbeat_interval_valid, ProgressHeartbeatLayer};
use apalis_nats::names::{consumer_name, dlq_stream_name, dlq_subject, stream_name, subject};
use apalis_nats::plans::{consumer_plan, dlq_stream_plan, priority_stream_plan, RetentionKind};
use apalis_nats::priority::Priority;
use apalis_nats::producer::{prepare_push, TraceContext};
use apalis_nats::queries::{
    queue_is_empty, raw_push_unsupported, reschedule_unsupported, schedule_unsupported,
    stats_from_counts, total_len, update_unsupported, vacuum, worker_names,
};

#[test]
fn default_config_matches_documentation() {
    let cfg = Config::default();
    assert_eq!(cfg.namespace, b"apalis".to_vec());
    assert_eq!(cfg.max_deliver, 5);
    assert_eq!(cfg.ack_wait_ms, 30_000);
    assert_eq!(cfg.num_replicas, 1);
    assert!(cfg.enable_dlq);
    assert_eq!(cfg.max_ack_pending, 100);
    assert_eq!(cfg.fetch_expiry_ms, 100);
    assert_eq!(cfg.nak_backoff_ms, vec![100, 200, 500, 1000, 2000, 5000]);
    assert!(cfg.enable_tracing);
}

#[test]
fn default_priority_is_medium() {
    assert_eq!(Priority::default(), Priority::Medium);
}

#[test]
fn wire_identifiers() {
    let ns = b"apalis".to_vec();
    assert_eq!(stream_name(&ns, Priority::High), b"apalis_high".to_vec());
    assert_eq!(stream_name(&ns, Priority::Medium), b"apalis_medium".to_vec());
    assert_eq!(stream_name(&ns, Priority::Low), b"apalis_low".to_vec());
    assert_eq!(subject(&ns, Priority::High), b"apalis.high".to_vec());
    assert_eq!(subject(&ns, Priority::Medium), b"apalis.medium".to_vec());
    assert_eq!(subject(&ns, Priority::Low), b"apalis.low".to_vec());
    assert_eq!(consumer_name(&ns, Priority::High), b"apalis_high_consumer".to_vec());
    assert_eq!(consumer_name(&ns, Priority::Low), b"apalis_low_consumer".to_vec());
    assert_eq!(dlq_stream_name(&ns), b"apalis_dlq".to_vec());
    assert_eq!(dlq_subject(&ns), b"apalis.dlq".to_vec());
}

#[test]
fn priority_stream_plan_matches_provisioning_rules() {
    let cfg = Config {
        num_replicas: 3,
        ..Config::default()
    };
    let plan = priority_stream_plan(&cfg, Priority::High);
    assert_eq!(plan.name, b"apalis_high".to_vec());
    assert_eq!(plan.subject, b"apalis.high".to_vec());
    assert_eq!(plan.max_age_secs, 7 * 24 * 60 * 60);
    assert_eq!(plan.retention, RetentionKind::WorkQueue);
    assert!(plan.discard_old);
    assert_eq!(plan.duplicate_window_secs, 120);
    assert_eq!(plan.num_replicas, 3);
    assert!(plan.file_storage);
}

#[test]
fn dlq_stream_plan_matches_provisioning_rules() {
    let cfg = Config::default();
    let plan = dlq_stream_plan(&cfg);
    assert_eq!(plan.name, b"apalis_dlq".to_vec());
    assert_eq!(plan.subject, b"apalis.dlq".to_vec());
    assert_eq!(plan.max_age_secs, 30 * 24 * 60 * 60);
    assert_eq!(plan.retention, RetentionKind::Limits);
    assert!(plan.file_storage);
}

#[test]
fn consumer_plan_matches_factory_rules() {
    let cfg = Config {
        ack_wait_ms: 60_000,
        max_deliver: 7,
        max_ack_pending: 42,
        ..Config::default()
    };
    let plan = consumer_plan(&cfg, Priority::Medium);
    assert_eq!(plan.name, b"apalis_medium_consumer".to_vec());
    assert_eq!(plan.durable_name, plan.name);
    assert!(plan.ack_policy_explicit);
    assert_eq!(plan.ack_wait_ms, 60_000);
    assert_eq!(plan.max_deliver, 7);
    assert_eq!(plan.filter_subject, b"apalis.medium".to_vec());
    assert!(plan.deliver_all);
    assert_eq!(plan.max_ack_pending, 42);
    assert!(plan.replay_instant);
    assert_eq!(plan.inactive_threshold_secs, 300);
}

#[test]
fn prepare_push_builds_a_decodable_envelope() {
    let cfg = Config::default();
    let plan = prepare_push(&cfg, &b"urgent_task".to_vec(), Priority::High, None);
    assert_eq!(plan.subject, b"apalis.high".to_vec());
    assert_eq!(plan.id.len(), 26);
    assert!(plan.headers.is_empty());
    let e = JobEnvelope::decode(&plan.payload).expect("payload decodes");
    assert_eq!(e.id, plan.id);
    assert_eq!(e.data, b"urgent_task".to_vec());
    assert_eq!(e.priority, Priority::High);
    assert_eq!(e.attempts, 0);
    assert_eq!(e.created_at_ms, plan.created_at_ms);
    assert_eq!(e.namespace, b"apalis".to_vec());
}

#[test]
fn prepare_push_generates_fresh_ids() {
    let cfg = Config::default();
    let a = prepare_push(&cfg, &b"x".to_vec(), Priority::Medium, None);
    let b = prepare_push(&cfg, &b"x".to_vec(), Priority::Medium, None);
    assert_ne!(a.id, b.id, "each push gets its own id");
}

#[test]
fn prepare_push_injects_trace_headers() {
    let cfg = Config::default();
    let ctx = TraceContext {
        traceparent: "00-0af7651916cd43dd8448eb211c80319c-b7ad6b7169203331-01".to_string(),
        tracestate: "congo=t61rcWkgMzE".to_string(),
    };
    let plan = prepare_push(&cfg, &b"j".to_vec(), Priority::Low, Some(&ctx));
    assert_eq!(plan.headers.len(), 2);
    assert_eq!(plan.headers[0].0, "traceparent");
    assert_eq!(plan.headers[0].1, ctx.traceparent);
    assert_eq!(plan.headers[1].0, "tracestate");
    assert_eq!(plan.headers[1].1, ctx.tracestate);
}

#[test]
fn prepare_push_without_tracing_sends_no_headers() {
    let cfg = Config {
        enable_tracing: false,
        ..Config::default()
    };
    let ctx = TraceContext { traceparent: "00-x".to_string(), tracestate: String::new() };
    let plan = prepare_push(&cfg, &b"j".to_vec(), Priority::Low, Some(&ctx));
    assert!(plan.headers.is_empty());
}

#[test]
fn len_and_empty_reflect_counts() {
    assert_eq!(total_len(0, 0, 0), 0);
    assert_eq!(total_len(2, 3, 4), 9);
    assert_eq!(total_len(u64::MAX, 1, 0), u64::MAX);
    assert!(queue_is_empty(0, 0, 0));
    assert!(!queue_is_empty(0, 1, 0));
}

#[test]
fn stats_report_pending_and_failed_only() {
    let s = stats_from_counts(2, 3, 4, Some(5));
    assert_eq!(s.pending, 9);
    assert_eq!(s.failed, 5);
    assert_eq!(s.running, 0);
    assert_eq!(s.dead, 0);
    assert_eq!(s.success, 0);
    let s2 = stats_from_counts(1, 0, 0, None);
    assert_eq!(s2.pending, 1);
    assert_eq!(s2.failed, 0);
}

#[test]
fn vacuum_reclaims_nothing() {
    assert_eq!(vacuum(), 0);
}

#[test]
fn worker_names_list_existing_consumers() {
    let cfg = Config::default();
    let names = worker_names(&cfg, true, false, true);
    assert_eq!(names.len(), 2);
    assert_eq!(names[0], b"apalis_high_consumer".to_vec());
    assert_eq!(names[1], b"apalis_low_consumer".to_vec());
    assert!(worker_names(&cfg, false, false, false).is_empty());
}

#[test]
fn unsupported_operations_report_storage_errors() {
    for (e, text) in [
        (raw_push_unsupported(), "Storage error: Raw requests not supported"),
        (schedule_unsupported(), "Storage error: Scheduling not yet implemented"),
        (update_unsupported(), "Storage error: Updates not supported"),
        (reschedule_unsupported(), "Storage error: Rescheduling not yet implemented"),
    ] {
        assert!(matches!(e, NatsPollError::Storage(_)));
        assert_eq!(e.describe(), text);
    }
}

#[test]
fn error_messages_carry_their_kind() {
    assert_eq!(
        NatsPollError::Nats("connection lost".to_string()).describe(),
        "NATS error: connection lost"
    );
    assert_eq!(
        NatsPollError::Serialization("bad byte".to_string()).describe(),
        "Serialization error: bad byte"
    );
}

#[test]
fn heartbeat_interval_must_stay_below_ack_wait() {
    let cfg = Config::default();
    assert!(heartbeat_interval_valid(10_000, &cfg));
    assert!(!heartbeat_interval_valid(30_000, &cfg));
    assert!(!heartbeat_interval_valid(45_000, &cfg));
    assert!(!heartbeat_interval_valid(0, &cfg));
}

#[test]
fn heartbeat_layer_keeps_its_interval() {
    let layer = ProgressHeartbeatLayer::new(15_000);
    assert_eq!(layer.interval_ms, 15_000);
    let service = layer.layer("handler");
    assert_eq!(service.interval_ms, 15_000);
    assert_eq!(service.service, "handler");
}
