use security_alignment_os::artifacts::{ArtifactManifest, ArtifactRegistry};
use security_alignment_os::collections::TextMap;
use security_alignment_os::contract::{FailureBudget, FailureKind, LifecycleState};
use security_alignment_os::integration::{
    run, run_with_artifact, run_with_receipt, Disposition, EvidenceBinding, Observation,
    ReceiptBinding, WorkflowResult,
};
use security_alignment_os::receipts::{ReceiptSigner, ReceiptVerifier};
use security_alignment_os::json::JsonValue;
use security_alignment_os::{Action, Claim, Evidence, EvidenceRegistry, Kernel, Policy, Proposal, Runtime};

fn proposal(id: &str) -> Proposal {
    let mut payload = TextMap::new();
    payload.insert("key".into(), JsonValue::Text("sandbox:key".into()));
    payload.insert("value".into(), JsonValue::PosInt(1));
    let mut costs = TextMap::new();
    costs.insert("cpu_ms".into(), 1);
    costs.insert("bytes".into(), 1);
    costs.insert("spend".into(), 0);
    Proposal {
        candidate_id: id.into(),
        agent_id: "agent".into(),
        intent: "write".into(),
        action: Action::Write,
        scope: "sandbox".into(),
        payload,
        resource_cost: costs,
        source_digest: "b".repeat(64),
        claims: vec![Claim {
            guarantees: vec!["PolicyCompliance".into()],
            assumptions: vec![],
            excludes: vec!["alignment".into()],
            maturity: 1,
            trust_roots: vec!["local".into()],
            valid_until: 100,
            provenance_digest: "a".repeat(64),
        }],
        nonce: 1,
        expires_at: 50,
        requests_direct_authority: false,
    }
}

fn accepted_evidence(id: &str, p: &Proposal) -> EvidenceRegistry {
    let mut evidence = EvidenceRegistry::default();
    evidence
        .insert(Evidence {
            id: id.into(),
            source_digest: p.digest().unwrap(),
            operator_id: "operator".into(),
            validator_id: "validator".into(),
            reviewer_id: "".into(),
            valid_until: 100,
            accepted: false,
            revoked: false,
        })
        .unwrap();
    evidence.accept(id, "approver").unwrap();
    evidence
}

fn observation(healthy: bool, kill_requested: bool) -> Observation {
    Observation {
        at: 10,
        healthy,
        telemetry_present: true,
        kill_requested,
    }
}

#[test]
fn coordinator_rolls_back_and_freezes_on_unhealthy_observation() {
    let mut kernel = Kernel::new(Policy::default()).unwrap();
    let mut runtime = Runtime::default();
    runtime
        .state
        .insert("sandbox:prior".into(), JsonValue::PosInt(9));
    let p = proposal("unhealthy");
    let evidence = accepted_evidence("e", &p);
    let result = run(&mut kernel, &mut runtime, &evidence, "e", &p, observation(false, false)).unwrap();
    assert_eq!(result.disposition, Disposition::RolledBack);
    assert_eq!(runtime.state.get("sandbox:prior"), Some(&JsonValue::PosInt(9)));
    assert!(!runtime.state.contains_key("sandbox:key"));
    assert!(runtime.is_frozen());
    assert_eq!(
        kernel.lifecycle_state(&p.digest().unwrap()),
        Some(LifecycleState::Frozen)
    );
    assert!(!runtime.rollback("frozen"));
}

#[test]
fn coordinator_can_require_accepted_artifact_before_execution() {
    let mut kernel = Kernel::new(Policy::default()).unwrap();
    let mut runtime = Runtime::default();
    let p = proposal("artifact-bound");
    let evidence = accepted_evidence("artifact-evidence", &p);
    let mut artifacts = ArtifactRegistry::default();
    let manifest = ArtifactManifest {
        artifact_id: "source-artifact".into(),
        subject_digest: p.source_digest.clone(),
        source_digest: "c".repeat(64),
        license: "MIT".into(),
        provenance_digest: "d".repeat(64),
        custody_root: "/tmp/local-custody".into(),
        retention_start: 0,
        retention_until: 100,
    };
    artifacts.quarantine(manifest, "operator", "validator").unwrap();
    assert!(artifacts
        .accept("source-artifact", &p.source_digest, "approver", 10)
        .is_ok());
    let result = run_with_artifact(
        &mut kernel,
        &mut runtime,
        EvidenceBinding {
            evidence: &evidence,
            evidence_id: "artifact-evidence",
            artifacts: &artifacts,
            artifact_id: "source-artifact",
        },
        &p,
        observation(true, false),
    )
    .unwrap();
    assert_eq!(result.disposition, Disposition::Completed);
}

#[test]
fn missing_artifact_quarantines_without_admission() {
    let mut kernel = Kernel::new(Policy::default()).unwrap();
    let mut runtime = Runtime::default();
    let p = proposal("artifact-missing");
    let evidence = accepted_evidence("artifact-evidence", &p);
    let artifacts = ArtifactRegistry::default();
    let result = run_with_artifact(
        &mut kernel,
        &mut runtime,
        EvidenceBinding {
            evidence: &evidence,
            evidence_id: "artifact-evidence",
            artifacts: &artifacts,
            artifact_id: "source-artifact",
        },
        &p,
        observation(true, false),
    )
    .unwrap();
    assert_eq!(result.disposition, Disposition::Quarantined);
    assert!(result.decision_digest.is_none());
    assert_eq!(kernel.journal_len(), 0);
}

#[test]
fn failure_budget_freezes_coordinator_and_kernel() {
    let mut kernel = Kernel::new(Policy::default()).unwrap();
    kernel
        .configure_failure_budget(FailureBudget {
            max_rejections: 100,
            max_quarantines: 1,
            max_rollbacks: 100,
            max_consecutive_failures: 100,
            max_window_failures: 100,
            window_size: 100,
        })
        .unwrap();
    let mut runtime = Runtime::default();
    let result = run(
        &mut kernel,
        &mut runtime,
        &EvidenceRegistry::default(),
        "missing",
        &proposal("budget-quarantine"),
        observation(true, false),
    )
    .unwrap();
    assert_eq!(result.disposition, Disposition::Quarantined);
    assert!(runtime.is_frozen());
    assert!(kernel.is_frozen());
    assert_eq!(
        kernel.failure_tracker().map(|tracker| tracker.is_exhausted()),
        Some(true)
    );
    let snapshot = kernel.snapshot();
    assert!(snapshot
        .failure_tracker
        .as_ref()
        .is_some_and(|tracker| tracker.is_exhausted()));
    assert!(kernel
        .configure_failure_budget(FailureBudget {
            max_rejections: 1,
            max_quarantines: 1,
            max_rollbacks: 1,
            max_consecutive_failures: 1,
            max_window_failures: 1,
            window_size: 1,
        })
        .is_err());
    assert!(kernel.admit_proposal(&proposal("after-budget"), 10).is_err());
}

#[test]
fn exhausted_failure_budget_freezes_runtime_before_returning_error() {
    let mut kernel = Kernel::new(Policy::default()).expect("kernel");
    kernel
        .configure_failure_budget(FailureBudget {
            max_rejections: 10,
            max_quarantines: 1,
            max_rollbacks: 10,
            max_consecutive_failures: 10,
            max_window_failures: 10,
            window_size: 10,
        })
        .expect("budget");
    kernel
        .observe_failure(FailureKind::Quarantine)
        .expect("first failure");
    let mut runtime = Runtime::default();
    let error = run(
        &mut kernel,
        &mut runtime,
        &EvidenceRegistry::default(),
        "missing",
        &proposal("budget"),
        observation(true, false),
    );
    assert!(error.is_err());
    assert!(runtime.is_frozen());
    assert!(kernel.is_frozen());
}

#[test]
fn clean_observation_completes_and_binds_digests() {
    let mut kernel = Kernel::new(Policy::default()).unwrap();
    let mut runtime = Runtime::default();
    let p = proposal("clean");
    let evidence = accepted_evidence("e", &p);
    let obs = observation(true, false);
    let result = run(&mut kernel, &mut runtime, &evidence, "e", &p, obs).unwrap();
    assert_eq!(result.disposition, Disposition::Completed);
    assert_eq!(result.subject_digest, p.digest().unwrap());
    assert_eq!(result.observation_digest, obs.digest());
    assert_ne!(result.observation_digest, observation(false, false).digest());
    assert!(result.decision_digest.is_some());
    assert_eq!(runtime.state.get("sandbox:key"), Some(&JsonValue::PosInt(1)));
    assert_eq!(
        kernel.lifecycle_state(&p.digest().unwrap()),
        Some(LifecycleState::Completed)
    );
}

#[test]
fn kill_observation_kills_the_runtime() {
    let mut kernel = Kernel::new(Policy::default()).unwrap();
    let mut runtime = Runtime::default();
    let p = proposal("killed");
    let evidence = accepted_evidence("e", &p);
    let result = run(&mut kernel, &mut runtime, &evidence, "e", &p, observation(true, true)).unwrap();
    assert_eq!(result.disposition, Disposition::RolledBack);
    assert!(runtime.is_killed());
    assert!(runtime.state.is_empty());
    assert_eq!(
        kernel.lifecycle_state(&p.digest().unwrap()),
        Some(LifecycleState::Killed)
    );
}

#[test]
fn rejected_admission_is_reported_with_its_decision() {
    let mut kernel = Kernel::new(Policy::default()).unwrap();
    let mut runtime = Runtime::default();
    let mut p = proposal("authority");
    p.requests_direct_authority = true;
    let evidence = accepted_evidence("e", &p);
    let result = run(&mut kernel, &mut runtime, &evidence, "e", &p, observation(true, false)).unwrap();
    assert_eq!(result.disposition, Disposition::Rejected);
    assert!(result.decision_digest.is_some());
    assert!(runtime.state.is_empty());
}

fn receipt_proposal() -> Proposal {
    let mut payload = TextMap::new();
    payload.insert("key".into(), JsonValue::Text("public:receipt".into()));
    payload.insert("value".into(), JsonValue::Text("verified".into()));
    let mut costs = TextMap::new();
    costs.insert("cpu_ms".into(), 1);
    costs.insert("bytes".into(), 1);
    costs.insert("spend".into(), 0);
    Proposal {
        candidate_id: "integration-receipt-candidate".into(),
        agent_id: "integration-agent".into(),
        intent: "write a bounded local value".into(),
        action: Action::Write,
        scope: "public".into(),
        payload,
        resource_cost: costs,
        source_digest: "a".repeat(64),
        claims: vec![Claim {
            guarantees: vec!["PolicyCompliance".into()],
            assumptions: Vec::new(),
            excludes: Vec::new(),
            maturity: 1,
            trust_roots: vec!["local".into()],
            valid_until: 1_000,
            provenance_digest: "b".repeat(64),
        }],
        nonce: 1,
        expires_at: 1_000,
        requests_direct_authority: false,
    }
}

fn receipt_evidence(proposal: &Proposal) -> Evidence {
    Evidence {
        id: "integration-receipt-evidence".into(),
        source_digest: proposal.digest().expect("proposal digest"),
        operator_id: "operator".into(),
        validator_id: "validator".into(),
        reviewer_id: "approver".into(),
        valid_until: 1_000,
        accepted: true,
        revoked: false,
    }
}

fn run_receipt_case(subject: &str) -> (Kernel, Runtime, Proposal, WorkflowResult) {
    let proposal = receipt_proposal();
    let policy = Policy::default();
    let mut issuing_kernel = Kernel::new(Policy::default()).expect("issuing kernel");
    let decision = issuing_kernel.admit_proposal(&proposal, 10).expect("admit");
    let signer = ReceiptSigner::from_seed("integration-issuer", [9; 32]).expect("signer");
    let receipt = signer
        .issue("tenant-1", &proposal, &decision, &policy)
        .expect("receipt");
    let mut evidence = EvidenceRegistry::default();
    evidence.insert(receipt_evidence(&proposal)).expect("evidence");
    let mut verifier =
        ReceiptVerifier::with_key(signer.key_id(), signer.verifying_key_bytes()).expect("verifier");
    let mut kernel = Kernel::new(policy).expect("kernel");
    let mut runtime = Runtime::default();
    let result = run_with_receipt(
        &mut kernel,
        &mut runtime,
        &evidence,
        "integration-receipt-evidence",
        ReceiptBinding {
            verifier: &mut verifier,
            receipt: &receipt,
            subject,
        },
        &proposal,
        observation(true, false),
    )
    .expect("workflow");
    (kernel, runtime, proposal, result)
}

#[test]
fn receipt_is_verified_before_coordinator_execution() {
    let (kernel, runtime, proposal, result) = run_receipt_case("tenant-1");
    assert_eq!(result.disposition, Disposition::Completed);
    assert_eq!(
        runtime.state.get("public:receipt"),
        Some(&JsonValue::Text("verified".into()))
    );
    assert_eq!(
        kernel.lifecycle_state(&proposal.digest().expect("subject")),
        Some(LifecycleState::Completed)
    );
}

#[test]
fn invalid_receipt_quarantines_without_runtime_mutation() {
    let (kernel, runtime, proposal, result) = run_receipt_case("tenant-2");
    assert_eq!(result.disposition, Disposition::Quarantined);
    assert!(runtime.state.is_empty());
    assert!(runtime.audit.is_empty());
    assert_eq!(
        kernel.lifecycle_state(&proposal.digest().expect("subject")),
        Some(LifecycleState::Quarantined)
    );
}
