use security_alignment_os::collections::TextSet;
use security_alignment_os::routing::{RoutingDecision, RoutingRequest};
use security_alignment_os::specialist::{ConsentGrant, SpecialistIdentity, SpecialistRegistry};

fn identity() -> SpecialistIdentity {
    SpecialistIdentity {
        specialist_id: "specialist".into(),
        version: "v1".into(),
        code_digest: "a".repeat(64),
        policy_digest: "b".repeat(64),
        issued_at: 0,
    }
}

fn setup() -> (SpecialistRegistry, ConsentGrant, RoutingRequest) {
    let mut registry = SpecialistRegistry::default();
    registry.register(identity()).expect("identity");
    let grant = ConsentGrant::new(
        "tenant".into(),
        "specialist".into(),
        TextSet::from_texts(&["thread".to_string()]),
        0,
        100,
    )
    .expect("grant");
    let request = RoutingRequest::new(
        "request".into(),
        "tenant".into(),
        "specialist".into(),
        grant.grant_id.clone(),
        "c".repeat(64),
        10,
        90,
    )
    .expect("request");
    (registry, grant, request)
}

#[test]
fn routing_binds_consent_identity_and_input_digest() {
    let (registry, grant, request) = setup();
    let decision = RoutingDecision::route(&registry, &grant, &request, 20).expect("route");
    decision
        .validate(&registry, &grant, &request, 20)
        .expect("validate");
    assert_eq!(decision.input_digest, request.input_digest);
    assert_eq!(decision.expires_at, 90);
}

#[test]
fn routing_rejects_tampered_request_and_decision() {
    let (registry, grant, request) = setup();
    let mut changed = request.clone();
    changed.input_digest = "d".repeat(64);
    let decision = RoutingDecision::route(&registry, &grant, &request, 20).expect("route");
    assert!(decision.validate(&registry, &grant, &changed, 20).is_err());
    assert!(RoutingDecision::route(&registry, &grant, &changed, 20).is_ok());
    let mut tampered = decision;
    tampered.specialist_digest = "e".repeat(64);
    assert!(tampered.validate(&registry, &grant, &request, 20).is_err());
}

#[test]
fn routing_rejects_expired_or_revoked_consent() {
    let (mut registry, grant, request) = setup();
    assert!(RoutingDecision::route(&registry, &grant, &request, 90).is_err());
    registry.revoke("specialist").expect("revoke");
    assert!(RoutingDecision::route(&registry, &grant, &request, 20).is_err());
}

#[test]
fn routing_rejects_decision_issued_before_request_or_consent() {
    let (registry, grant, request) = setup();
    let mut decision = RoutingDecision::route(&registry, &grant, &request, 20).expect("route");
    decision.issued_at = 0;
    assert!(decision.validate(&registry, &grant, &request, 20).is_err());

    let mut decision = RoutingDecision::route(&registry, &grant, &request, 20).expect("route");
    decision.issued_at = 5;
    assert!(decision.validate(&registry, &grant, &request, 20).is_err());
}

#[test]
fn routing_refuses_a_grant_for_another_tenant() {
    let (registry, _, request) = setup();
    let other = ConsentGrant::new(
        "other-tenant".into(),
        "specialist".into(),
        TextSet::from_texts(&["thread".to_string()]),
        0,
        100,
    )
    .expect("grant");
    assert!(RoutingDecision::route(&registry, &other, &request, 20).is_err());
}
