use apalis_nats::ack::{decide_ack, AckAction, Outcome};
use apalis_nats::config::Config;
use apalis_nats::dlq::{build_dlq_record, DlqEnvelope, DlqReason};

fn transient(msg: &str) -> Outcome {
    Outcome::Failure { abort: false, message: msg.as_bytes().to_vec() }
}

fn abort(msg: &str) -> Outcome {
    Outcome::Failure { abort: true, message: msg.as_bytes().to_vec() }
}

#[test]
fn success_is_acked() {
    let cfg = Config::default();
    assert_eq!(decide_ack(&Outcome::Success, 1, &cfg), AckAction::Ack);
    assert_eq!(decide_ack(&Outcome::Success, 99, &cfg), AckAction::Ack);
}

#[test]
fn abort_with_dlq_routes_to_dlq() {
    let cfg = Config::default();
    assert_eq!(
        decide_ack(&abort("Non-transient error - send to DLQ"), 1, &cfg),
        AckAction::DlqThenAck { reason: DlqReason::AbortError }
    );
}

#[test]
fn abort_without_dlq_terminates() {
    let mut cfg = Config::default();
    cfg.enable_dlq = false;
    assert_eq!(decide_ack(&abort("boom"), 1, &cfg), AckAction::Term);
}

#[test]
fn transient_backoff_follows_schedule() {
    let cfg = Config {
        max_deliver: 100,
        ..Config::default()
    };
    // nak_backoff = [100, 200, 500, 1000, 2000, 5000]; index = min(d - 1, 5)
    for (delivered, delay) in [(1, 100), (2, 200), (3, 500), (4, 1000), (5, 2000), (6, 5000)] {
        assert_eq!(
            decide_ack(&transient("t"), delivered, &cfg),
            AckAction::Nak { delay_ms: delay },
            "delivery {}",
            delivered
        );
    }
    // beyond the list, the last entry repeats
    assert_eq!(decide_ack(&transient("t"), 7, &cfg), AckAction::Nak { delay_ms: 5000 });
    assert_eq!(decide_ack(&transient("t"), 50, &cfg), AckAction::Nak { delay_ms: 5000 });
}

#[test]
fn transient_at_limit_routes_to_dlq() {
    let cfg = Config {
        max_deliver: 2,
        ..Config::default()
    };
    assert_eq!(
        decide_ack(&transient("Intentional failure on attempt 2"), 2, &cfg),
        AckAction::DlqThenAck { reason: DlqReason::MaxDeliverExceeded }
    );
}

#[test]
fn transient_at_limit_without_dlq_terminates() {
    let cfg = Config {
        max_deliver: 2,
        enable_dlq: false,
        ..Config::default()
    };
    assert_eq!(decide_ack(&transient("t"), 2, &cfg), AckAction::Term);
}

#[test]
fn retry_then_succeed_acks_without_dlq() {
    // max_deliver = 3; the handler fails transiently on attempts 1 and 2
    // and succeeds on attempt 3.
    let cfg = Config {
        max_deliver: 3,
        ..Config::default()
    };
    let mut dlq_records: Vec<DlqEnvelope> = Vec::new();
    let mut attempts = 0u64;
    let mut terminal: Option<AckAction> = None;
    let mut delivered = 1u64;
    while terminal.is_none() {
        attempts += 1;
        let outcome = if attempts < 3 {
            transient("Intentional failure")
        } else {
            Outcome::Success
        };
        match decide_ack(&outcome, delivered, &cfg) {
            AckAction::Nak { delay_ms: _ } => {
                delivered += 1;
            }
            AckAction::DlqThenAck { reason } => {
                dlq_records.push(build_dlq_record(
                    &b"T1".to_vec(),
                    &b"err".to_vec(),
                    delivered,
                    &b"p".to_vec(),
                    reason,
                ));
                terminal = Some(AckAction::DlqThenAck { reason });
            }
            a => {
                terminal = Some(a);
            }
        }
    }
    assert!(attempts >= 3, "attempted at least 3 times, got {}", attempts);
    assert_eq!(terminal, Some(AckAction::Ack));
    assert_eq!(dlq_records.len(), 0);
}

#[test]
fn always_failing_lands_in_dlq_with_count() {
    // max_deliver = 2, DLQ enabled, the handler always fails transiently.
    let cfg = Config {
        max_deliver: 2,
        ..Config::default()
    };
    let mut dlq_records: Vec<DlqEnvelope> = Vec::new();
    let mut delivered = 1u64;
    loop {
        match decide_ack(&transient("Intentional failure"), delivered, &cfg) {
            AckAction::Nak { delay_ms: _ } => {
                delivered += 1;
            }
            AckAction::DlqThenAck { reason } => {
                dlq_records.push(build_dlq_record(
                    &b"T2".to_vec(),
                    &b"Intentional failure".to_vec(),
                    delivered,
                    &b"payload".to_vec(),
                    reason,
                ));
                break;
            }
            a => panic!("unexpected action {:?}", a),
        }
    }
    assert_eq!(delivered, 2, "stopped at max_deliver");
    assert_eq!(dlq_records.len(), 1);
    let bytes = dlq_records[0].encode();
    let v: serde_json::Value = serde_json::from_slice(&bytes).expect("valid JSON");
    assert_eq!(v["delivered_count"], 2);
    assert_eq!(v["dlq_reason"], "max_deliver_exceeded");
    assert!(!v["original_task_id"].as_str().unwrap().is_empty());
}

#[test]
fn abort_on_first_attempt_gives_one_dlq_record() {
    // DLQ enabled, the handler aborts on its first attempt.
    let cfg = Config::default();
    let mut dlq_records: Vec<DlqEnvelope> = Vec::new();
    let action = decide_ack(&abort("Non-transient error - send to DLQ"), 1, &cfg);
    if let AckAction::DlqThenAck { reason } = action {
        dlq_records.push(build_dlq_record(
            &b"T3".to_vec(),
            &b"Non-transient error - send to DLQ".to_vec(),
            1,
            &b"payload".to_vec(),
            reason,
        ));
    }
    assert_eq!(dlq_records.len(), 1, "exactly one DLQ record");
    let bytes = dlq_records[0].encode();
    let v: serde_json::Value = serde_json::from_slice(&bytes).expect("valid JSON");
    assert_eq!(v["dlq_reason"], "abort_error");
}

#[test]
fn delivered_one_uses_first_backoff_entry() {
    let mut cfg = Config::default();
    cfg.nak_backoff_ms = vec![7, 9];
    cfg.max_deliver = 10;
    assert_eq!(decide_ack(&transient("t"), 1, &cfg), AckAction::Nak { delay_ms: 7 });
    assert_eq!(decide_ack(&transient("t"), 2, &cfg), AckAction::Nak { delay_ms: 9 });
    assert_eq!(decide_ack(&transient("t"), 3, &cfg), AckAction::Nak { delay_ms: 9 });
}
