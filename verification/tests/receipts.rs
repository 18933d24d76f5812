use security_alignment_os::collections::TextMap;
use security_alignment_os::json::JsonValue;
use security_alignment_os::receipts::{ReceiptSigner, ReceiptVerifier, KEY_LEN};
use security_alignment_os::{Action, Claim, Decision, Kernel, Policy, Proposal};

fn fixture() -> (Proposal, Policy, Decision) {
    let policy = Policy::default();
    let mut payload = TextMap::new();
    payload.insert("key".into(), JsonValue::Text("public:k".into()));
    payload.insert("value".into(), JsonValue::Text("v".into()));
    let mut costs = TextMap::new();
    costs.insert("cpu_ms".into(), 1);
    costs.insert("bytes".into(), 1);
    costs.insert("spend".into(), 0);
    let proposal = Proposal {
        candidate_id: "candidate-1".into(),
        agent_id: "agent-1".into(),
        intent: "write a bounded local value".into(),
        action: Action::Write,
        scope: "public".into(),
        payload,
        resource_cost: costs,
        source_digest: "a".repeat(64),
        claims: vec![Claim {
            guarantees: vec!["PolicyCompliance".into()],
            assumptions: Vec::new(),
            excludes: Vec::new(),
            maturity: 1,
            trust_roots: vec!["local".into()],
            valid_until: 1_000,
            provenance_digest: "b".repeat(64),
        }],
        nonce: 1,
        expires_at: 1_000,
        requests_direct_authority: false,
    };
    let mut kernel = Kernel::new(Policy::default()).expect("policy");
    let decision = kernel.admit_proposal(&proposal, 100).expect("admission");
    (proposal, policy, decision)
}

fn signer() -> ReceiptSigner {
    ReceiptSigner::from_seed("issuer-1", [7; KEY_LEN]).expect("signer")
}

#[test]
fn signed_receipt_verifies_once_and_replay_is_rejected() {
    let (proposal, policy, decision) = fixture();
    let signer = signer();
    let mut verifier = ReceiptVerifier::with_key(signer.key_id(), signer.verifying_key_bytes())
        .expect("verifier");
    let receipt = signer
        .issue("tenant-1", &proposal, &decision, &policy)
        .expect("receipt");
    verifier
        .verify(&receipt, "tenant-1", &proposal, &decision, &policy, 100)
        .expect("verification");
    assert_eq!(verifier.verified_count(), 1);
    assert!(verifier.is_verified(&receipt.receipt_id));
    assert!(verifier
        .verify(&receipt, "tenant-1", &proposal, &decision, &policy, 100)
        .is_err());
}

#[test]
fn expired_receipt_is_rejected_after_valid_signature() {
    let (proposal, policy, decision) = fixture();
    let signer = signer();
    let mut verifier = ReceiptVerifier::with_key(signer.key_id(), signer.verifying_key_bytes())
        .expect("verifier");
    let receipt = signer
        .issue_at("tenant-1", &proposal, &decision, &policy, 120, 130)
        .expect("receipt");
    assert!(verifier
        .verify(&receipt, "tenant-1", &proposal, &decision, &policy, 130)
        .is_err());
    assert_eq!(verifier.verified_count(), 0);
}

#[test]
fn subject_and_capability_delegation_mismatches_fail_closed() {
    let (proposal, policy, decision) = fixture();
    let signer = signer();
    let mut verifier = ReceiptVerifier::with_key(signer.key_id(), signer.verifying_key_bytes())
        .expect("verifier");
    let receipt = signer
        .issue("tenant-1", &proposal, &decision, &policy)
        .expect("receipt");
    assert!(verifier
        .verify(&receipt, "tenant-2", &proposal, &decision, &policy, 100)
        .is_err());
    let mut delegated = decision.clone();
    let capability = delegated.capability.as_mut().expect("capability");
    capability.action = Action::Read;
    assert!(verifier
        .verify(&receipt, "tenant-1", &proposal, &delegated, &policy, 100)
        .is_err());
    let mut wrong_agent = decision.clone();
    wrong_agent
        .capability
        .as_mut()
        .expect("capability")
        .agent_id = "agent-2".into();
    assert!(verifier
        .verify(&receipt, "tenant-1", &proposal, &wrong_agent, &policy, 100)
        .is_err());
    let mut wrong_scope = decision.clone();
    wrong_scope.capability.as_mut().expect("capability").scope = "sandbox".into();
    assert!(verifier
        .verify(&receipt, "tenant-1", &proposal, &wrong_scope, &policy, 100)
        .is_err());
    let mut wrong_candidate = decision.clone();
    wrong_candidate.candidate_id = "candidate-2".into();
    assert!(signer
        .issue("tenant-1", &proposal, &wrong_candidate, &policy)
        .is_err());
    assert!(verifier
        .verify(&receipt, "tenant-1", &proposal, &wrong_candidate, &policy, 100)
        .is_err());
    assert_eq!(verifier.verified_count(), 0);
}

#[test]
fn malformed_signature_and_key_inputs_are_rejected() {
    let (proposal, policy, decision) = fixture();
    let signer = signer();
    let mut verifier = ReceiptVerifier::with_key(signer.key_id(), signer.verifying_key_bytes())
        .expect("verifier");
    let mut receipt = signer
        .issue("tenant-1", &proposal, &decision, &policy)
        .expect("receipt");
    receipt.signature.pop();
    assert!(verifier
        .verify(&receipt, "tenant-1", &proposal, &decision, &policy, 100)
        .is_err());
    assert!(ReceiptSigner::from_seed("", [7; KEY_LEN]).is_err());
    assert!(verifier
        .register_key(signer.key_id(), signer.verifying_key_bytes())
        .is_err());
}

#[test]
fn receipt_signed_by_an_untrusted_key_is_rejected() {
    let (proposal, policy, decision) = fixture();
    let trusted = signer();
    let other = ReceiptSigner::from_seed("issuer-1", [8; KEY_LEN]).expect("signer");
    assert_ne!(trusted.verifying_key_bytes(), other.verifying_key_bytes());
    let mut verifier =
        ReceiptVerifier::with_key(trusted.key_id(), trusted.verifying_key_bytes()).unwrap();
    let forged = other
        .issue("tenant-1", &proposal, &decision, &policy)
        .expect("receipt");
    assert!(forged.validate().is_ok());
    assert!(verifier
        .verify(&forged, "tenant-1", &proposal, &decision, &policy, 100)
        .is_err());
    let mut unknown = ReceiptVerifier::new();
    let receipt = trusted
        .issue("tenant-1", &proposal, &decision, &policy)
        .unwrap();
    assert!(unknown
        .verify(&receipt, "tenant-1", &proposal, &decision, &policy, 100)
        .is_err());
    assert_eq!(verifier.verified_count(), 0);
}

#[test]
fn tampered_receipt_fields_break_identity_or_signature() {
    let (proposal, policy, decision) = fixture();
    let signer = signer();
    let mut verifier = ReceiptVerifier::with_key(signer.key_id(), signer.verifying_key_bytes())
        .expect("verifier");
    let receipt = signer
        .issue("tenant-1", &proposal, &decision, &policy)
        .unwrap();
    let mut changed_window = receipt.clone();
    changed_window.expires_at -= 1;
    assert!(changed_window.validate().is_err());
    let mut flipped = receipt.clone();
    flipped.signature[0] ^= 1;
    assert!(flipped.validate().is_ok());
    assert!(verifier
        .verify(&flipped, "tenant-1", &proposal, &decision, &policy, 100)
        .is_err());
    assert!(receipt.is_valid_at(100));
    assert!(!receipt.is_valid_at(130));
    assert!(verifier
        .verify(&receipt, "tenant-1", &proposal, &decision, &policy, 100)
        .is_ok());
}

#[test]
fn issue_requires_an_accepted_decision_and_a_window_inside_the_capability() {
    let (proposal, policy, decision) = fixture();
    let signer = signer();
    assert!(signer
        .issue_at("tenant-1", &proposal, &decision, &policy, 99, 120)
        .is_err());
    assert!(signer
        .issue_at("tenant-1", &proposal, &decision, &policy, 110, 131)
        .is_err());
    assert!(signer.issue("", &proposal, &decision, &policy).is_err());
    let mut rejected = proposal.clone();
    rejected.candidate_id = "rejected".into();
    rejected.requests_direct_authority = true;
    let mut kernel = Kernel::new(Policy::default()).unwrap();
    let refused = kernel.admit_proposal(&rejected, 100).unwrap();
    assert!(signer.issue("tenant-1", &rejected, &refused, &policy).is_err());
}
