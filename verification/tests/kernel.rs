use security_alignment_os::checker::{validate_lifecycles, validate_replay};
use security_alignment_os::collections::TextMap;
use security_alignment_os::contract::{Authority, LifecycleState};
use security_alignment_os::json::JsonValue;
use security_alignment_os::{
    run_local_workflow, Action, Claim, DecisionKind, Error, Evidence, EvidenceRegistry, Kernel,
    Policy, Proposal, Runtime,
};

fn claim() -> Claim {
    Claim {
        guarantees: vec!["PolicyCompliance".into()],
        assumptions: vec![],
        excludes: vec!["alignment".into()],
        maturity: 1,
        trust_roots: vec!["local".into()],
        valid_until: 100,
        provenance_digest: "a".repeat(64),
    }
}

fn payload(key: Option<&str>, value: u64) -> TextMap<JsonValue> {
    let mut payload = TextMap::new();
    if let Some(key) = key {
        payload.insert("key".into(), JsonValue::Text(key.into()));
    }
    payload.insert("value".into(), JsonValue::PosInt(value));
    payload
}

fn costs() -> TextMap<u64> {
    let mut costs = TextMap::new();
    costs.insert("cpu_ms".into(), 1);
    costs.insert("bytes".into(), 1);
    costs.insert("spend".into(), 0);
    costs
}

fn proposal(id: &str) -> Proposal {
    Proposal {
        candidate_id: id.into(),
        agent_id: "agent".into(),
        intent: "write".into(),
        action: Action::Write,
        scope: "sandbox".into(),
        payload: payload(Some("sandbox:key"), 1),
        resource_cost: costs(),
        source_digest: "b".repeat(64),
        claims: vec![claim()],
        nonce: 1,
        expires_at: 50,
        requests_direct_authority: false,
    }
}

fn evidence_for(id: &str, source_digest: String) -> Evidence {
    Evidence {
        id: id.into(),
        source_digest,
        operator_id: "operator".into(),
        validator_id: "validator".into(),
        reviewer_id: "".into(),
        valid_until: 100,
        accepted: false,
        revoked: false,
    }
}

#[test]
fn end_to_end_completion_and_replay() {
    let mut kernel = Kernel::new(Policy::default()).unwrap();
    let mut runtime = Runtime::default();
    let p = proposal("one");
    let subject = p.digest().unwrap();
    let mut evidence = EvidenceRegistry::default();
    evidence.insert(evidence_for("e", subject)).unwrap();
    evidence.accept("e", "approver").unwrap();
    assert_eq!(
        run_local_workflow(&mut kernel, &mut runtime, &evidence, "e", &p, 10).unwrap(),
        "completed"
    );
    assert_eq!(runtime.state.get("sandbox:key"), Some(&JsonValue::PosInt(1)));
    validate_replay(&kernel.journal).unwrap();
    assert!(matches!(
        run_local_workflow(&mut kernel, &mut runtime, &evidence, "e", &p, 10),
        Err(Error::Journal(_))
    ));
}

#[test]
fn same_agent_nonce_cannot_admit_changed_candidate() {
    let mut kernel = Kernel::new(Policy::default()).unwrap();
    let first = proposal("nonce-first");
    kernel.admit_proposal(&first, 10).unwrap();
    let mut changed = proposal("nonce-second");
    changed.payload = payload(Some("sandbox:key"), 2);
    assert!(matches!(
        kernel.admit_proposal(&changed, 10),
        Err(Error::Journal(message)) if message == "replayed agent nonce"
    ));
    assert_eq!(kernel.journal.entries.len(), 1);
    validate_replay(&kernel.journal).unwrap();
}

#[test]
fn rollback_restores_latest_checkpoint_and_preserves_earlier_state() {
    let mut kernel = Kernel::new(Policy::default()).unwrap();
    let mut runtime = Runtime::default();
    for (nonce, (id, value)) in [(1, ("one", 1)), (2, ("two", 2))] {
        let mut p = proposal(id);
        p.nonce = nonce;
        p.payload = payload(Some("sandbox:key"), value);
        let decision = kernel.admit_proposal(&p, 10).unwrap();
        assert!(runtime.execute(&mut kernel, &p, &decision, 10).unwrap());
    }
    assert_eq!(runtime.state.get("sandbox:key"), Some(&JsonValue::PosInt(2)));
    assert!(runtime.rollback("latest failure"));
    assert_eq!(runtime.state.get("sandbox:key"), Some(&JsonValue::PosInt(1)));
    assert!(runtime.rollback("first failure"));
    assert!(runtime.state.is_empty());
    assert!(!runtime.rollback("nothing left"));
}

#[test]
fn malformed_write_is_rejected_before_capability_consumption() {
    let mut kernel = Kernel::new(Policy::default()).unwrap();
    let mut runtime = Runtime::default();
    let mut p = proposal("malformed");
    p.payload = payload(None, 1);
    let decision = kernel.admit_proposal(&p, 10).unwrap();
    assert!(runtime.execute(&mut kernel, &p, &decision, 10).is_err());
    assert!(matches!(
        runtime.execute(&mut kernel, &p, &decision, 10),
        Err(Error::Rejected(message)) if message == "write key missing"
    ));
}

#[test]
fn capability_payload_tampering_does_not_consume_original_issuance() {
    let mut kernel = Kernel::new(Policy::default()).unwrap();
    let mut runtime = Runtime::default();
    let p = proposal("capability-tamper");
    let decision = kernel.admit_proposal(&p, 10).unwrap();
    let mut tampered = decision.clone();
    tampered
        .capability
        .as_mut()
        .expect("accepted decision has capability")
        .token_id = "f".repeat(64);
    assert!(runtime.execute(&mut kernel, &p, &tampered, 10).is_err());
    assert!(runtime.execute(&mut kernel, &p, &decision, 10).unwrap());
}

#[test]
fn backward_clock_cannot_consume_capability_before_issuance() {
    let mut kernel = Kernel::new(Policy::default()).unwrap();
    let mut runtime = Runtime::default();
    let proposal = Proposal {
        claims: vec![Claim {
            valid_until: 200,
            ..claim()
        }],
        expires_at: 200,
        ..proposal("backward-clock")
    };
    let decision = kernel.admit_proposal(&proposal, 100).unwrap();
    let before_state = runtime.state_digest();
    let before_audit = runtime.audit_digest();
    assert!(runtime
        .execute(&mut kernel, &proposal, &decision, 50)
        .is_err());
    assert_eq!(runtime.state_digest(), before_state);
    assert_eq!(runtime.audit_digest(), before_audit);
    assert!(runtime
        .execute(&mut kernel, &proposal, &decision, 100)
        .unwrap());
}

#[test]
fn evidence_rejects_duplicate_and_colliding_roles() {
    let mut registry = EvidenceRegistry::default();
    let base = Evidence {
        id: "evidence".into(),
        source_digest: "a".repeat(64),
        operator_id: "operator".into(),
        validator_id: "validator".into(),
        reviewer_id: "".into(),
        valid_until: 100,
        accepted: false,
        revoked: false,
    };
    registry.insert(base.clone()).unwrap();
    assert!(registry.insert(base).is_err());
    let colliding = Evidence {
        id: "colliding".into(),
        validator_id: "operator".into(),
        ..Evidence {
            id: "colliding".into(),
            source_digest: "a".repeat(64),
            operator_id: "operator".into(),
            validator_id: "validator".into(),
            reviewer_id: "".into(),
            valid_until: 100,
            accepted: false,
            revoked: false,
        }
    };
    assert!(registry.insert(colliding).is_err());
    assert!(registry.accept("evidence", "").is_err());
    registry.accept("evidence", "approver").unwrap();
    assert!(registry.accept("evidence", "approver-2").is_err());
}

#[test]
fn default_policy_blocks_high_risk_capability_classes() {
    let mut kernel = Kernel::new(Policy::default()).unwrap();
    for (index, action) in [
        Action::Network,
        Action::Secrets,
        Action::Spend,
        Action::Replicate,
        Action::SelfModify,
        Action::Execute,
    ]
    .into_iter()
    .enumerate()
    {
        let mut candidate = proposal(&format!("blocked-{index}"));
        candidate.nonce = index as u64 + 1;
        candidate.action = action;
        let decision = kernel.admit_proposal(&candidate, 10).unwrap();
        assert_eq!(decision.kind, DecisionKind::Rejected);
        assert!(decision.capability.is_none());
    }
}

#[test]
fn admitted_unsupported_runtime_action_does_not_consume_capability() {
    let mut policy = Policy::default();
    policy.allowed_actions.push(Action::Execute);
    let mut kernel = Kernel::new(policy).unwrap();
    let mut candidate = proposal("unsupported-runtime");
    candidate.action = Action::Execute;
    let decision = kernel.admit_proposal(&candidate, 10).unwrap();
    assert_eq!(decision.kind, DecisionKind::Accepted);
    let mut runtime = Runtime::default();
    assert!(matches!(
        runtime.execute(&mut kernel, &candidate, &decision, 10),
        Err(Error::Rejected(message)) if message == "action is not executable by local runtime"
    ));
    let mut retry_runtime = Runtime::default();
    assert!(matches!(
        retry_runtime.execute(&mut kernel, &candidate, &decision, 10),
        Err(Error::Rejected(message)) if message == "action is not executable by local runtime"
    ));
    assert_eq!(
        kernel.lifecycle_state(&candidate.digest().unwrap()),
        Some(LifecycleState::Admitted)
    );
}

#[test]
fn malformed_or_mutated_policy_cannot_issue_authority() {
    let malformed = Policy {
        token_ttl: 0,
        ..Policy::default()
    };
    assert!(malformed.validate().is_err());
    assert!(Kernel::new(malformed).is_err());

    let mut kernel = Kernel::new(Policy::default()).unwrap();
    let proposal = proposal("mutated-policy");
    kernel.policy.token_ttl = 0;
    assert!(kernel.admit_proposal(&proposal, 10).is_err());
    assert!(kernel.journal.entries.is_empty());
}

#[test]
fn rejection_and_evidence_gates_are_fail_closed() {
    let mut kernel = Kernel::new(Policy::default()).unwrap();
    let mut runtime = Runtime::default();
    let mut p = proposal("authority");
    p.requests_direct_authority = true;
    let evidence = EvidenceRegistry::default();
    let rejected = kernel.admit_proposal(&p, 10).unwrap();
    assert_eq!(rejected.kind, DecisionKind::Rejected);
    assert_eq!(
        kernel.lifecycle_state(&p.digest().unwrap()),
        Some(LifecycleState::Rejected)
    );
    let p2 = proposal("evidence-gated");
    assert_eq!(
        run_local_workflow(&mut kernel, &mut runtime, &evidence, "missing", &p2, 10).unwrap(),
        "quarantined"
    );
    assert!(runtime.state.is_empty());
}

#[test]
fn kill_closes_rollback() {
    let mut runtime = Runtime::default();
    runtime.kill("operator");
    assert!(!runtime.rollback("late"));
}

#[test]
fn terminal_controls_do_not_append_duplicate_shutdown_events() {
    let mut runtime = Runtime::default();
    runtime.freeze("first freeze");
    let frozen_audit_len = runtime.audit.len();
    runtime.freeze("second freeze");
    assert_eq!(runtime.audit.len(), frozen_audit_len);
    runtime.kill("first kill");
    let killed_audit_len = runtime.audit.len();
    runtime.kill("second kill");
    assert_eq!(runtime.audit.len(), killed_audit_len);
}

#[test]
fn kernel_global_kill_closes_shared_runtime_consumption() {
    let mut kernel = Kernel::new(Policy::default()).unwrap();
    let mut runtime = Runtime::default();
    let p = proposal("global-kill");
    let digest = p.digest().unwrap();
    let decision = kernel.admit_proposal(&p, 10).unwrap();
    kernel.kill_all().unwrap();
    assert!(kernel.is_killed());
    assert!(kernel.is_frozen());
    assert_eq!(kernel.lifecycle_state(&digest), Some(LifecycleState::Killed));
    assert!(runtime.execute(&mut kernel, &p, &decision, 10).is_err());
    assert!(runtime.state.is_empty());
    assert!(runtime.audit.is_empty());
    assert!(kernel.admit_proposal(&proposal("after-global-kill"), 10).is_err());
}

#[test]
fn kernel_lifecycle_is_enforced_and_snapshot_restores() {
    let mut kernel = Kernel::new(Policy::default()).unwrap();
    let mut runtime = Runtime::default();
    let p = proposal("kernel-lifecycle");
    let candidate_digest = p.digest().unwrap();
    let decision = kernel.admit_proposal(&p, 10).unwrap();
    assert_eq!(
        kernel.lifecycle_state(&candidate_digest),
        Some(LifecycleState::Admitted)
    );
    assert!(kernel.complete(&p).is_err());
    assert!(runtime.execute(&mut kernel, &p, &decision, 10).unwrap());
    assert_eq!(
        kernel.lifecycle_state(&candidate_digest),
        Some(LifecycleState::Executing)
    );
    kernel.complete(&p).unwrap();
    assert_eq!(
        kernel.lifecycle_state(&candidate_digest),
        Some(LifecycleState::Completed)
    );
    validate_lifecycles(&kernel.journal, &kernel.lifecycle_records()).unwrap();

    let mut restored = Kernel::from_snapshot(kernel.snapshot()).unwrap();
    assert_eq!(restored.journal_digest(), kernel.journal_digest());
    assert!(restored.lifecycle_state(&candidate_digest).is_some());
    assert!(!restored.consume(&p, &decision, 10).unwrap());

    let mut invalid = kernel.snapshot();
    invalid.lifecycles = TextMap::new();
    assert!(Kernel::from_snapshot(invalid).is_err());
}

#[test]
fn capability_is_consumed_once() {
    let mut kernel = Kernel::new(Policy::default()).unwrap();
    let p = proposal("single-use");
    let decision = kernel.admit_proposal(&p, 10).unwrap();
    assert!(kernel.consume(&p, &decision, 10).unwrap());
    assert!(!kernel.consume(&p, &decision, 10).unwrap());
}

#[test]
fn expired_proposal_is_refused_without_journal_entry() {
    let mut kernel = Kernel::new(Policy::default()).unwrap();
    let p = proposal("expired");
    assert!(kernel.admit_proposal(&p, 50).is_err());
    assert_eq!(kernel.journal_len(), 0);
}

#[test]
fn over_budget_proposal_is_rejected_without_capability() {
    let mut kernel = Kernel::new(Policy::default()).unwrap();
    let mut p = proposal("over-budget");
    let mut expensive = costs();
    expensive.insert("cpu_ms".into(), 1001);
    p.resource_cost = expensive;
    let decision = kernel.admit_proposal(&p, 10).unwrap();
    assert_eq!(decision.kind, DecisionKind::Rejected);
    assert!(decision.capability.is_none());
    assert_eq!(kernel.journal_len(), 1);
}

#[test]
fn action_and_authority_convert_both_ways() {
    for action in Action::all() {
        let authority: Authority = action.into();
        assert_eq!(Action::from(authority), action);
    }
    assert_eq!(Authority::from(Action::SelfModify), Authority::SelfModify);
}

#[test]
fn kernel_lifecycle_is_enforced_and_snapshot_is_recoverable() {
    let mut kernel = Kernel::new(Policy::default()).unwrap();
    let mut runtime = Runtime::default();
    let p = proposal("kernel-lifecycle");
    let candidate_digest = p.digest().unwrap();
    let decision = kernel.admit_proposal(&p, 10).unwrap();
    assert_eq!(
        kernel.lifecycle_state(&candidate_digest),
        Some(LifecycleState::Admitted)
    );
    assert!(kernel.complete(&p).is_err());
    assert!(runtime.execute(&mut kernel, &p, &decision, 10).unwrap());
    assert_eq!(
        kernel.lifecycle_state(&candidate_digest),
        Some(LifecycleState::Executing)
    );
    kernel.complete(&p).unwrap();
    assert_eq!(
        kernel.lifecycle_state(&candidate_digest),
        Some(LifecycleState::Completed)
    );
    validate_lifecycles(&kernel.journal, &kernel.lifecycle_records()).unwrap();

    let mut loaded = Kernel::from_snapshot(kernel.snapshot()).unwrap();
    assert!(loaded.lifecycle_state(&candidate_digest).is_some());
    assert!(
        !loaded.consume(&p, &decision, 10).unwrap(),
        "restart must not recreate private capability issuance"
    );

    let mut invalid = kernel.snapshot();
    invalid.lifecycles = TextMap::new();
    assert!(Kernel::from_snapshot(invalid).is_err());

    let mut forged = kernel.snapshot();
    let index = forged.lifecycles.position(&candidate_digest).expect("lifecycle");
    let mut record = *forged.lifecycles.value_at(index);
    record.state = LifecycleState::Frozen;
    forged.lifecycles.set_value_at(index, record);
    assert!(Kernel::from_snapshot(forged).is_err());
}

#[test]
fn journal_refusals_name_the_replayed_candidate_or_nonce() {
    let mut kernel = Kernel::new(Policy::default()).unwrap();
    let first = proposal("refusal-first");
    kernel.admit_proposal(&first, 10).unwrap();
    assert!(matches!(
        kernel.admit_proposal(&first, 10),
        Err(Error::Journal(message)) if message == "replayed candidate"
    ));
    let mut other_agent = proposal("refusal-second");
    other_agent.agent_id = "other-agent".into();
    assert!(kernel.admit_proposal(&other_agent, 10).is_ok());
    assert_eq!(kernel.journal.entries.len(), 2);
}
