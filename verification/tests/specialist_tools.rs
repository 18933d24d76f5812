use security_alignment_os::collections::TextSet;
use security_alignment_os::json::JsonValue;
use security_alignment_os::specialist::{
    is_sensitive_key, ConsentGrant, RedactedTelemetry, SpecialistIdentity, SpecialistRegistry,
    TelemetryEvent, TelemetryOutcome, TenantRetrieval, ToolManifest, ToolRegistry,
};

fn manifest(schema: JsonValue) -> ToolManifest {
    ToolManifest {
        tool_id: "tool".into(),
        version: "1".into(),
        schema,
        implementation_digest: "a".repeat(64),
    }
}

#[test]
fn frozen_tool_list_refuses_registration_and_does_not_drift() {
    let mut tools = ToolRegistry::default();
    assert!(!tools.check_drift());
    tools.register(manifest(JsonValue::Null)).unwrap();
    tools.register(manifest(JsonValue::Null)).unwrap();
    assert!(tools.register(manifest(JsonValue::Bool(true))).is_err());
    let mut bad = manifest(JsonValue::Null);
    bad.implementation_digest = "x".into();
    assert!(tools.register(bad).is_err());
    let digest = tools.freeze().unwrap();
    assert_eq!(digest.len(), 64);
    assert!(tools.check_drift());
    let mut other = manifest(JsonValue::Null);
    other.tool_id = "other".into();
    assert!(tools.register(other).is_err());
    assert!(tools.check_drift());
}

#[test]
fn telemetry_redacts_sensitive_fields_at_any_depth() {
    assert!(is_sensitive_key("API_Token"));
    assert!(is_sensitive_key("user_password"));
    assert!(!is_sensitive_key("status"));
    let fields = JsonValue::Object(vec![
        ("Secret".to_string(), JsonValue::Text("x".into())),
        (
            "nested".to_string(),
            JsonValue::Array(vec![JsonValue::Object(vec![
                ("prompt_text".to_string(), JsonValue::Text("y".into())),
                ("status".to_string(), JsonValue::Text("ok".into())),
            ])]),
        ),
    ]);
    let t = RedactedTelemetry::new(
        TelemetryEvent::Execution,
        TelemetryOutcome::Completed,
        "b".repeat(64),
        fields,
    )
    .unwrap();
    let expected = JsonValue::Object(vec![(
        "nested".to_string(),
        JsonValue::Array(vec![JsonValue::Object(vec![(
            "status".to_string(),
            JsonValue::Text("ok".into()),
        )])]),
    )]);
    assert_eq!(t.fields, expected);
    assert!(RedactedTelemetry::new(
        TelemetryEvent::Execution,
        TelemetryOutcome::Completed,
        "short".into(),
        JsonValue::Null,
    )
    .is_err());
}

#[test]
fn tenant_retrieval_requires_registered_consent() {
    let mut registry = SpecialistRegistry::default();
    registry
        .register(SpecialistIdentity {
            specialist_id: "specialist".into(),
            version: "1".into(),
            code_digest: "c".repeat(64),
            policy_digest: "d".repeat(64),
            issued_at: 0,
        })
        .unwrap();
    let grant = ConsentGrant::new(
        "tenant".into(),
        "specialist".into(),
        TextSet::from_texts(&["doc".to_string()]),
        0,
        100,
    )
    .unwrap();
    let mut retrieval = TenantRetrieval::default();
    assert!(retrieval.put(String::new(), "doc".into(), JsonValue::Null).is_err());
    retrieval.put("tenant".into(), "doc".into(), JsonValue::PosInt(3)).unwrap();
    assert!(retrieval.retrieve(&registry, &grant, "doc", 1).is_err());
    retrieval.grant(grant.clone()).unwrap();
    assert_eq!(retrieval.retrieve(&registry, &grant, "doc", 1).unwrap(), JsonValue::PosInt(3));
    assert!(retrieval.retrieve(&registry, &grant, "other", 1).is_err());
    retrieval.revoke(&grant.grant_id);
    assert!(retrieval.retrieve(&registry, &grant, "doc", 1).is_err());
}
