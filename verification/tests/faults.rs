use security_alignment_os::collections::TextMap;
use security_alignment_os::faults::{
    kill_freeze_observation, malformed_journal_bytes_outcome, outcome, partial_write, replay, stale_clock, stale_policy_digest,
    FaultDisposition, FaultScenario,
};
use security_alignment_os::integration::Observation;
use security_alignment_os::json::JsonValue;
use security_alignment_os::{
    Action, Claim, Evidence, EvidenceRegistry, Kernel, Policy, Proposal, Runtime,
};

fn claim() -> Claim {
    Claim {
        guarantees: vec!["PolicyCompliance".into()],
        assumptions: vec![],
        excludes: vec!["alignment".into()],
        maturity: 1,
        trust_roots: vec!["local".into()],
        valid_until: 1_000,
        provenance_digest: "a".repeat(64),
    }
}

fn proposal(id: &str) -> Proposal {
    let mut payload = TextMap::new();
    payload.insert("key".into(), JsonValue::Text("sandbox:fault".into()));
    payload.insert("value".into(), JsonValue::Text("local".into()));
    let mut costs = TextMap::new();
    costs.insert("cpu_ms".into(), 1);
    costs.insert("bytes".into(), 1);
    costs.insert("spend".into(), 0);
    Proposal {
        candidate_id: id.into(),
        agent_id: "fault-agent".into(),
        intent: "write-local-test-value".into(),
        action: Action::Write,
        scope: "sandbox".into(),
        payload,
        resource_cost: costs,
        source_digest: "b".repeat(64),
        claims: vec![claim()],
        nonce: 1,
        expires_at: 900,
        requests_direct_authority: false,
    }
}

fn accepted_evidence(proposal: &Proposal) -> (EvidenceRegistry, String) {
    let subject = proposal.digest().unwrap();
    let mut registry = EvidenceRegistry::default();
    registry
        .insert(Evidence {
            id: "fault-evidence".into(),
            source_digest: subject,
            operator_id: "operator".into(),
            validator_id: "validator".into(),
            reviewer_id: "".into(),
            valid_until: 900,
            accepted: false,
            revoked: false,
        })
        .unwrap();
    registry.accept("fault-evidence", "approver").unwrap();
    (registry, "fault-evidence".into())
}

fn assert_digest(value: &str) {
    assert_eq!(value.len(), 64);
    assert!(value.bytes().all(|byte| byte.is_ascii_hexdigit()));
    assert!(!value.bytes().any(|byte| byte.is_ascii_uppercase()));
}

#[test]
fn replay_is_rejected_without_a_second_entry() {
    let mut kernel = Kernel::new(Policy::default()).unwrap();
    let result = replay(&mut kernel, &proposal("replay"), 10).unwrap();
    assert_eq!(result.disposition, FaultDisposition::Rejected);
    assert_eq!(kernel.journal.entries.len(), 1);
    assert_digest(&result.input_digest);
    assert_digest(&result.detail_digest);
}

#[test]
fn stale_clock_rejects_before_runtime_mutation() {
    let mut kernel = Kernel::new(Policy::default()).unwrap();
    let mut runtime = Runtime::default();
    let result = stale_clock(&mut kernel, &mut runtime, &proposal("clock"), 10, 41).unwrap();
    assert_eq!(result.disposition, FaultDisposition::Rejected);
    assert!(runtime.state.is_empty());
    assert!(runtime.audit.is_empty());
}

#[test]
fn stale_policy_is_quarantined_before_execution() {
    let mut kernel = Kernel::new(Policy::default()).unwrap();
    let result = stale_policy_digest(&mut kernel, &proposal("policy"), 10).unwrap();
    assert_eq!(result.disposition, FaultDisposition::Quarantined);
    assert_eq!(kernel.policy.digest_text(), Policy::default().digest_text());
}

#[test]
fn partial_write_restores_the_latest_checkpoint() {
    let mut kernel = Kernel::new(Policy::default()).unwrap();
    let mut runtime = Runtime::default();
    let result = partial_write(&mut kernel, &mut runtime, &proposal("partial"), 10).unwrap();
    assert_eq!(result.disposition, FaultDisposition::RolledBack);
    assert!(runtime.state.is_empty());
}

#[test]
fn kill_observation_rolls_back_and_freezes() {
    let mut kernel = Kernel::new(Policy::default()).unwrap();
    let mut runtime = Runtime::default();
    let proposal = proposal("kill");
    let (evidence, evidence_id) = accepted_evidence(&proposal);
    let result = kill_freeze_observation(
        &mut kernel,
        &mut runtime,
        &evidence,
        &evidence_id,
        &proposal,
        Observation {
            at: 10,
            healthy: true,
            telemetry_present: true,
            kill_requested: true,
        },
    )
    .unwrap();
    assert_eq!(result.disposition, FaultDisposition::Frozen);
    assert!(runtime.is_killed());
    assert!(runtime.is_frozen());
    assert!(runtime.state.is_empty());
}

#[test]
fn outcomes_do_not_include_raw_fault_payloads() {
    let p = proposal("digest-only");
    let outcome = outcome(
        FaultScenario::Replay,
        FaultDisposition::Rejected,
        p.digest().unwrap(),
        "duplicate-candidate-rejected",
    );
    let encoded = format!("{outcome:?}");
    assert!(!encoded.contains("sandbox:fault"));
    assert!(!encoded.contains("write-local-test-value"));
    assert!(!encoded.contains("duplicate-candidate-rejected"));
    assert_digest(&outcome.detail_digest);
}

#[test]
fn clean_observation_is_not_reported_frozen() {
    let mut kernel = Kernel::new(Policy::default()).unwrap();
    let mut runtime = Runtime::default();
    let proposal = proposal("clean");
    let (evidence, evidence_id) = accepted_evidence(&proposal);
    let result = kill_freeze_observation(
        &mut kernel,
        &mut runtime,
        &evidence,
        &evidence_id,
        &proposal,
        Observation {
            at: 10,
            healthy: true,
            telemetry_present: true,
            kill_requested: false,
        },
    )
    .unwrap();
    assert_eq!(result.disposition, FaultDisposition::NotDetected);
    assert!(!runtime.is_frozen());
}

#[test]
fn malformed_journal_bytes_are_quarantined() {
    let quarantined = malformed_journal_bytes_outcome("a".repeat(64), false);
    assert_eq!(quarantined.scenario, FaultScenario::MalformedJournalBytes);
    assert_eq!(quarantined.disposition, FaultDisposition::Quarantined);
    assert_eq!(quarantined.input_digest, "a".repeat(64));
    let accepted = malformed_journal_bytes_outcome("a".repeat(64), true);
    assert_eq!(accepted.disposition, FaultDisposition::NotDetected);
    assert_ne!(accepted.detail_digest, quarantined.detail_digest);
}
