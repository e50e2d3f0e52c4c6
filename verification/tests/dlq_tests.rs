use apalis_nats::dlq::{build_dlq_record, DlqEnvelope, DlqReason};
use apalis_nats::clock::format_rfc3339;

fn sample_record() -> DlqEnvelope {
    DlqEnvelope {
        attempts: b"2".to_vec(),
        delivered_count: 2,
        reason: DlqReason::MaxDeliverExceeded,
        error: b"Intentional failure on attempt 2".to_vec(),
        original_task_id: b"01ARZ3NDEKTSV4RRFFQ69G5FAV".to_vec(),
        payload: br#"{"id":"J1"}"#.to_vec(),
        timestamp: b"2024-01-01T00:00:00+00:00".to_vec(),
    }
}

#[test]
fn dlq_encode_is_exact_json() {
    let r = DlqEnvelope {
        attempts: b"2".to_vec(),
        delivered_count: 2,
        reason: DlqReason::AbortError,
        error: b"boom".to_vec(),
        original_task_id: b"T1".to_vec(),
        payload: b"p".to_vec(),
        timestamp: b"ts".to_vec(),
    };
    let bytes = r.encode();
    let expected = br#"{"attempts":"2","delivered_count":2,"dlq_reason":"abort_error","error":"boom","original_task_id":"T1","payload":"p","timestamp":"ts"}"#;
    assert_eq!(bytes, expected.to_vec());
}

#[test]
fn dlq_round_trip() {
    let r = sample_record();
    let bytes = r.encode();
    let d = DlqEnvelope::decode(&bytes).expect("decodes");
    assert_eq!(d.attempts, r.attempts);
    assert_eq!(d.delivered_count, r.delivered_count);
    assert_eq!(d.reason, r.reason);
    assert_eq!(d.error, r.error);
    assert_eq!(d.original_task_id, r.original_task_id);
    assert_eq!(d.payload, r.payload);
    assert_eq!(d.timestamp, r.timestamp);
}

#[test]
fn dlq_record_has_expected_json_fields() {
    let bytes = sample_record().encode();
    let v: serde_json::Value = serde_json::from_slice(&bytes).expect("valid JSON");
    assert!(v.get("original_task_id").is_some(), "record carries original_task_id");
    assert!(v.get("error").is_some(), "record carries error");
    assert_eq!(v["delivered_count"], 2);
    assert_eq!(v["dlq_reason"], "max_deliver_exceeded");
}

#[test]
fn dlq_payload_with_quotes_survives() {
    let mut r = sample_record();
    r.payload = br#"{"id":"J1","data":"a \"b\" c"}"#.to_vec();
    let bytes = r.encode();
    let d = DlqEnvelope::decode(&bytes).expect("decodes");
    assert_eq!(d.payload, r.payload);
}

#[test]
fn build_record_carries_delivery_facts() {
    let r = build_dlqr();
    assert_eq!(r.delivered_count, 2);
    assert_eq!(r.attempts, b"2".to_vec());
    assert_eq!(r.reason, DlqReason::MaxDeliverExceeded);
    assert_eq!(r.original_task_id, b"T9".to_vec());
    assert_eq!(r.error, b"still failing".to_vec());
    assert_eq!(r.payload, b"payload-bytes".to_vec());
    assert!(!r.original_task_id.is_empty());
    let ts = String::from_utf8(r.timestamp.clone()).expect("UTF-8 timestamp");
    assert!(ts.contains('T'), "RFC 3339 has a time designator: {}", ts);
    assert!(ts.starts_with('2'), "current year: {}", ts);
}

fn build_dlqr() -> DlqEnvelope {
    build_dlq_record(
        &b"T9".to_vec(),
        &b"still failing".to_vec(),
        2,
        &b"payload-bytes".to_vec(),
        DlqReason::MaxDeliverExceeded,
    )
}

#[test]
fn rfc3339_of_epoch_is_fixed() {
    assert_eq!(format_rfc3339(0), b"1970-01-01T00:00:00+00:00".to_vec());
    assert_eq!(format_rfc3339(1_000), b"1970-01-01T00:00:01+00:00".to_vec());
    assert_eq!(format_rfc3339(1_500), b"1970-01-01T00:00:01.500+00:00".to_vec());
}

#[test]
fn dlq_decode_rejects_unknown_reason() {
    let bytes = br#"{"attempts":"1","delivered_count":1,"dlq_reason":"other","error":"e","original_task_id":"t","payload":"p","timestamp":"s"}"#;
    assert!(DlqEnvelope::decode(&bytes.to_vec()).is_none());
}
