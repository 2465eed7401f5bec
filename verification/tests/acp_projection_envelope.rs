use sem_os_policy::acp_projection::{
    projection_hash, AcpProjectionEnvelope, AcpProjectionEnvelopeInput, AcpProjectionKind,
    AcpProjectionRedaction, AcpProjectionSubject,
};
use sem_os_policy::domain_pack::ClassificationLimit;
use sem_os_policy::json::JsonValue;

/// The library's JSON value of a `serde_json` value.
fn lib_json(v: &serde_json::Value) -> JsonValue {
    match v {
        serde_json::Value::Null => JsonValue::Null,
        serde_json::Value::Bool(b) => JsonValue::Bool(*b),
        serde_json::Value::Number(n) => JsonValue::Number(n.to_string()),
        serde_json::Value::String(s) => JsonValue::String(s.clone()),
        serde_json::Value::Array(a) => JsonValue::Array(a.iter().map(lib_json).collect()),
        serde_json::Value::Object(o) => {
            JsonValue::Object(o.iter().map(|(k, x)| (k.clone(), lib_json(x))).collect())
        }
    }
}

fn input(payload: &str) -> AcpProjectionEnvelopeInput {
    AcpProjectionEnvelopeInput {
        projection_kind: AcpProjectionKind::PackManifest,
        session_id: 0,
        pack_id: "pack".into(),
        classification: ClassificationLimit::Internal,
        subject: None,
        snapshot_refs: vec!["snap-1".into()],
        payload: lib_json(&serde_json::from_str(payload).unwrap()),
        redactions: vec![],
    }
}

#[test]
fn projection_hash_is_stable_for_same_payload() {
    let first = AcpProjectionEnvelope::new(input(r#"{"a": 1}"#));
    let second = AcpProjectionEnvelope::new(input(r#"{"a": 1}"#));
    assert_eq!(first.projection_hash, second.projection_hash);
}

#[test]
fn projection_hash_covers_the_fields_and_payload() {
    let env = AcpProjectionEnvelope::new(input(r#"{"a": 1}"#));
    assert_eq!(
        env.projection_hash,
        "sha256:920abe19dc6d7f6abbf9ce5675343312e51c2c272f56503264803957c562246f"
    );
    assert_eq!(env.pack_id, "pack");
    assert_eq!(env.snapshot_refs, vec!["snap-1".to_string()]);
    let other = AcpProjectionEnvelope::new(input(r#"{"a": 2}"#));
    assert_ne!(env.projection_hash, other.projection_hash);
}

#[test]
fn projection_hash_of_explicit_bytes() {
    let i = AcpProjectionEnvelopeInput {
        projection_kind: AcpProjectionKind::Dag,
        session_id: 1,
        pack_id: "p".into(),
        classification: ClassificationLimit::Public,
        subject: Some(AcpProjectionSubject { subject_kind: "kind".into(), subject_id: "id".into() }),
        snapshot_refs: vec![],
        payload: JsonValue::Object(vec![]),
        redactions: vec![AcpProjectionRedaction { path: "x".into(), reason: "y \"q\"".into() }],
    };
    let redactions = br#"[{"path":"x","reason":"y \"q\""}]"#.to_vec();
    assert_eq!(
        projection_hash(&i, &b"{}".to_vec(), &redactions),
        "sha256:e997040b61675b8d829a2f2482f8be02d6057937756a0215c1b8a28fa303c23d"
    );
    let env = AcpProjectionEnvelope::new(i);
    assert_eq!(
        env.projection_hash,
        "sha256:e997040b61675b8d829a2f2482f8be02d6057937756a0215c1b8a28fa303c23d"
    );
}

#[test]
fn payload_key_order_does_not_change_the_hash() {
    let a = AcpProjectionEnvelope::new(input(r#"{"a": 1, "b": [1, null]}"#));
    let mut i = input("{}");
    i.payload = JsonValue::Object(vec![
        ("b".to_string(), JsonValue::Array(vec![JsonValue::Number("1".to_string()), JsonValue::Null])),
        ("a".to_string(), JsonValue::Number("1".to_string())),
    ]);
    let b = AcpProjectionEnvelope::new(i);
    assert_eq!(a.projection_hash, b.projection_hash);
}
