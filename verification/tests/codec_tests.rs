use apalis_nats::codec::JobEnvelope;
use apalis_nats::priority::Priority;

fn sample_envelope() -> JobEnvelope {
    JobEnvelope {
        id: b"01ARZ3NDEKTSV4RRFFQ69G5FAV".to_vec(),
        data: b"Job 1".to_vec(),
        priority: Priority::High,
        attempts: 0,
        created_at_ms: 1_700_000_000_000,
        namespace: b"apalis".to_vec(),
    }
}

#[test]
fn encode_is_exact_json() {
    let e = JobEnvelope {
        id: b"J1".to_vec(),
        data: b"Job 1".to_vec(),
        priority: Priority::High,
        attempts: 0,
        created_at_ms: 123,
        namespace: b"apalis".to_vec(),
    };
    let bytes = e.encode();
    let expected = br#"{"id":"J1","data":"Job 1","priority":"high","attempts":0,"created_at":123,"namespace":"apalis"}"#;
    assert_eq!(bytes, expected.to_vec());
}

#[test]
fn encode_parses_as_json() {
    let bytes = sample_envelope().encode();
    let v: serde_json::Value = serde_json::from_slice(&bytes).expect("valid JSON");
    assert_eq!(v["id"], "01ARZ3NDEKTSV4RRFFQ69G5FAV");
    assert_eq!(v["data"], "Job 1");
    assert_eq!(v["priority"], "high");
    assert_eq!(v["attempts"], 0);
    assert_eq!(v["created_at"], 1_700_000_000_000u64);
    assert_eq!(v["namespace"], "apalis");
}

#[test]
fn round_trip_simple() {
    let e = sample_envelope();
    let bytes = e.encode();
    let d = JobEnvelope::decode(&bytes).expect("decodes");
    assert_eq!(d.id, e.id);
    assert_eq!(d.data, e.data);
    assert_eq!(d.priority, e.priority);
    assert_eq!(d.attempts, e.attempts);
    assert_eq!(d.created_at_ms, e.created_at_ms);
    assert_eq!(d.namespace, e.namespace);
}

#[test]
fn round_trip_with_escapes() {
    let e = JobEnvelope {
        id: b"a\"b".to_vec(),
        data: b"line1\nline2\t\"quoted\" and \\slash\\ \x01\x1f".to_vec(),
        priority: Priority::Low,
        attempts: 7,
        created_at_ms: 0,
        namespace: b"ns".to_vec(),
    };
    let bytes = e.encode();
    let d = JobEnvelope::decode(&bytes).expect("decodes");
    assert_eq!(d.data, e.data);
    assert_eq!(d.id, e.id);
}

#[test]
fn escapes_agree_with_json() {
    let e = JobEnvelope {
        id: b"i".to_vec(),
        data: b"a\"b\\c\nd\x1f".to_vec(),
        priority: Priority::Medium,
        attempts: 1,
        created_at_ms: 5,
        namespace: b"n".to_vec(),
    };
    let bytes = e.encode();
    let v: serde_json::Value = serde_json::from_slice(&bytes).expect("valid JSON");
    assert_eq!(v["data"], "a\"b\\c\nd\u{1f}");
}

#[test]
fn round_trip_utf8_payload() {
    let e = JobEnvelope {
        id: b"id".to_vec(),
        data: "tâche ☀".as_bytes().to_vec(),
        priority: Priority::Medium,
        attempts: 2,
        created_at_ms: 42,
        namespace: "naïve".as_bytes().to_vec(),
    };
    let bytes = e.encode();
    let d = JobEnvelope::decode(&bytes).expect("decodes");
    assert_eq!(d.data, e.data);
    assert_eq!(d.namespace, e.namespace);
}

#[test]
fn round_trip_extreme_numbers() {
    let e = JobEnvelope {
        id: b"x".to_vec(),
        data: b"".to_vec(),
        priority: Priority::High,
        attempts: u64::MAX,
        created_at_ms: u64::MAX,
        namespace: b"".to_vec(),
    };
    let bytes = e.encode();
    let d = JobEnvelope::decode(&bytes).expect("decodes");
    assert_eq!(d.attempts, u64::MAX);
    assert_eq!(d.created_at_ms, u64::MAX);
}

#[test]
fn decode_rejects_garbage() {
    assert!(JobEnvelope::decode(&b"not json at all".to_vec()).is_none());
    assert!(JobEnvelope::decode(&b"".to_vec()).is_none());
    assert!(JobEnvelope::decode(&b"{}".to_vec()).is_none());
}

#[test]
fn decode_rejects_truncated() {
    let bytes = sample_envelope().encode();
    let cut = bytes[..bytes.len() - 1].to_vec();
    assert!(JobEnvelope::decode(&cut).is_none());
}

#[test]
fn decode_rejects_trailing_bytes() {
    let mut bytes = sample_envelope().encode();
    bytes.push(b' ');
    assert!(JobEnvelope::decode(&bytes).is_none());
}

#[test]
fn decode_accepts_only_the_canonical_layout() {
    // Same data, different key order or extra whitespace: refused.
    let reordered = br#"{"data":"Job 1","id":"J1","priority":"high","attempts":0,"created_at":123,"namespace":"apalis"}"#;
    assert!(JobEnvelope::decode(&reordered.to_vec()).is_none());
    let spaced = br#"{"id": "J1","data":"Job 1","priority":"high","attempts":0,"created_at":123,"namespace":"apalis"}"#;
    assert!(JobEnvelope::decode(&spaced.to_vec()).is_none());
}

#[test]
fn decode_rejects_bad_priority() {
    let bytes = br#"{"id":"J1","data":"d","priority":"urgent","attempts":0,"created_at":1,"namespace":"n"}"#;
    assert!(JobEnvelope::decode(&bytes.to_vec()).is_none());
}

#[test]
fn decode_rejects_leading_zero_number() {
    let bytes = br#"{"id":"J1","data":"d","priority":"high","attempts":01,"created_at":1,"namespace":"n"}"#;
    assert!(JobEnvelope::decode(&bytes.to_vec()).is_none());
}

#[test]
fn decode_accepts_all_priorities() {
    for (name, p) in [("high", Priority::High), ("medium", Priority::Medium), (
        "low",
        Priority::Low,
    )] {
        let text = format!(
            "{{\"id\":\"J1\",\"data\":\"d\",\"priority\":\"{}\",\"attempts\":0,\"created_at\":1,\"namespace\":\"n\"}}",
            name
        );
        let d = JobEnvelope::decode(&text.into_bytes()).expect("decodes");
        assert_eq!(d.priority, p);
    }
}
