use security_alignment_os::broker::{
    broker_policy, expected_output_digest, Admission, Broker, BrokerJournal, BrokerResponse,
    FileTransformOperation, FileTransformRequest, Finish, StepFailure, TransactionStatus,
    MAX_BYTES, MAX_RUNTIME_MS,
};
use security_alignment_os::receipts::ReceiptSigner;
use security_alignment_os::{digest_bytes, Action, Evidence, EvidenceRegistry};

const NOW: u64 = 1_000;

fn digest_of(text: &str) -> String {
    digest_bytes(text.as_bytes())
}

fn supervisor() -> String {
    digest_of("supervisor executable")
}

fn request(input: &[u8], nonce: u64, telemetry_present: bool) -> FileTransformRequest {
    FileTransformRequest {
        request_id: format!("request-{nonce}"),
        agent_id: "agent-test".into(),
        subject: "tenant-test".into(),
        evidence_id: format!("evidence-{nonce}"),
        operation: FileTransformOperation::UppercaseAscii,
        source_relpath: "source.txt".into(),
        destination_relpath: format!("output-{nonce}.txt"),
        input_digest: digest_bytes(input),
        executable_digest: supervisor(),
        max_bytes: 1_000,
        max_runtime_ms: 2_000,
        requested_at: NOW - 1,
        expires_at: NOW + 20,
        nonce,
        telemetry_present,
    }
}

fn registry_for(requests: &[FileTransformRequest]) -> EvidenceRegistry {
    let mut registry = EvidenceRegistry::default();
    for request in requests {
        let proposal = request.to_proposal();
        registry
            .insert(Evidence {
                id: request.evidence_id.clone(),
                source_digest: proposal.digest().expect("proposal digest"),
                operator_id: "operator".into(),
                validator_id: "validator".into(),
                reviewer_id: "approver".into(),
                valid_until: request.expires_at + 100,
                accepted: true,
                revoked: false,
            })
            .expect("evidence");
    }
    registry
}

fn signer() -> ReceiptSigner {
    ReceiptSigner::from_seed("broker-key", [7u8; 32]).expect("signer")
}

fn broker_for(requests: &[FileTransformRequest]) -> Broker {
    let (broker, changed) = Broker::new(
        supervisor(),
        registry_for(requests),
        signer(),
        BrokerJournal::new(),
    )
    .expect("broker");
    assert!(!changed);
    broker
}

#[test]
fn request_validation_accepts_a_well_formed_request() {
    let r = request(b"hello", 11, true);
    assert!(r.validate(NOW).is_ok());
}

#[test]
fn request_validation_rejects_each_malformed_field() {
    let base = request(b"hello", 11, true);
    let mut same_paths = base.clone();
    same_paths.destination_relpath = same_paths.source_relpath.clone();
    let mut escaping = base.clone();
    escaping.source_relpath = "../secret.txt".into();
    let mut absolute = base.clone();
    absolute.destination_relpath = "/etc/passwd".into();
    let mut upper_digest = base.clone();
    upper_digest.input_digest = upper_digest.input_digest.to_uppercase();
    let mut too_large = base.clone();
    too_large.max_bytes = MAX_BYTES + 1;
    let mut too_slow = base.clone();
    too_slow.max_runtime_ms = MAX_RUNTIME_MS + 1;
    let mut expired = base.clone();
    expired.expires_at = NOW;
    let mut future = base.clone();
    future.requested_at = NOW + 1;
    let mut zero_nonce = base.clone();
    zero_nonce.nonce = 0;
    let mut empty_agent = base.clone();
    empty_agent.agent_id = String::new();
    let mut control = base.clone();
    control.subject = "tenant\u{7}".into();
    for bad in [
        same_paths,
        escaping,
        absolute,
        upper_digest,
        too_large,
        too_slow,
        expired,
        future,
        zero_nonce,
        empty_agent,
        control,
    ] {
        assert!(bad.validate(NOW).is_err());
    }
}

#[test]
fn request_proposal_binds_the_request() {
    let r = request(b"hello", 11, true);
    let p = r.to_proposal();
    assert_eq!(p.candidate_id, "request-11");
    assert_eq!(p.agent_id, "agent-test");
    assert_eq!(p.intent, "uppercase-ascii-file-transform-v1");
    assert_eq!(p.action, Action::Write);
    assert_eq!(p.scope, "broker-workspace");
    assert_eq!(p.source_digest, supervisor());
    assert_eq!(p.nonce, 11);
    assert_eq!(p.expires_at, NOW + 20);
    assert!(!p.requests_direct_authority);
    assert_eq!(p.claims.len(), 1);
    assert_eq!(p.claims[0].provenance_digest, digest_bytes(b"hello"));
    assert_eq!(p.resource_cost.get("bytes"), Some(&1_000));
    assert_eq!(p.resource_cost.get("cpu_ms"), Some(&2_000));
    assert_eq!(p.resource_cost.get("spend"), Some(&0));
    let again = r.to_proposal();
    assert_eq!(p.digest().unwrap(), again.digest().unwrap());
    let mut other = r.clone();
    other.destination_relpath = "elsewhere.txt".into();
    assert_ne!(p.digest().unwrap(), other.to_proposal().digest().unwrap());
}

#[test]
fn broker_policy_allows_only_workspace_writes() {
    let policy = broker_policy();
    assert_eq!(policy.allowed_actions, vec![Action::Write]);
    assert_eq!(policy.token_ttl, 6);
    assert_eq!(policy.max_cost.get("bytes"), Some(&MAX_BYTES));
    assert_eq!(policy.max_cost.get("cpu_ms"), Some(&MAX_RUNTIME_MS));
    assert_eq!(policy.max_cost.get("spend"), Some(&0));
}

#[test]
fn journal_records_a_committed_transaction() {
    let mut journal = BrokerJournal::new();
    let d = digest_of("request");
    let decision = Some(digest_of("decision"));
    let token = Some(digest_of("token"));
    journal
        .append(&d, "agent", 1, decision.clone(), token.clone(), TransactionStatus::Admitted, None)
        .unwrap();
    assert_eq!(journal.in_flight().len(), 1);
    journal
        .append(&d, "agent", 1, decision.clone(), token.clone(), TransactionStatus::Executing, None)
        .unwrap();
    assert_eq!(journal.in_flight().len(), 1);
    assert_eq!(journal.in_flight()[0].status, TransactionStatus::Executing);
    journal
        .append(
            &d,
            "agent",
            1,
            decision,
            token,
            TransactionStatus::Committed,
            Some(digest_of("output")),
        )
        .unwrap();
    assert!(journal.validate().is_ok());
    assert_eq!(journal.entries.len(), 3);
    assert_eq!(journal.entries[1].previous_digest, journal.entries[0].entry_digest);
    assert_eq!(journal.entries[0].previous_digest, "0".repeat(64));
    assert_eq!(journal.status(&d), Some(TransactionStatus::Committed));
    assert_eq!(journal.replay_status("agent", 1), Some(TransactionStatus::Committed));
    assert_eq!(journal.replay_status("agent", 2), None);
    assert!(journal.in_flight().is_empty());
}

#[test]
fn journal_refuses_unadmitted_execution_and_nonce_reuse() {
    let mut journal = BrokerJournal::new();
    let d = digest_of("request");
    assert!(journal
        .append(&d, "agent", 1, None, None, TransactionStatus::Executing, None)
        .is_err());
    assert!(journal.entries.is_empty());
    journal
        .append(&d, "agent", 1, None, None, TransactionStatus::Admitted, None)
        .unwrap();
    let other = digest_of("other request");
    assert!(journal
        .append(&other, "agent", 1, None, None, TransactionStatus::Admitted, None)
        .is_err());
    assert!(journal
        .append("not-a-digest", "agent", 2, None, None, TransactionStatus::Admitted, None)
        .is_err());
    assert!(journal
        .append(&other, "agent", 0, None, None, TransactionStatus::Admitted, None)
        .is_err());
    assert_eq!(journal.entries.len(), 1);
    // A committed transaction cannot move again.
    journal
        .append(&d, "agent", 1, None, None, TransactionStatus::Executing, None)
        .unwrap();
    journal
        .append(&d, "agent", 1, None, None, TransactionStatus::Committed, None)
        .unwrap();
    assert!(journal
        .append(&d, "agent", 1, None, None, TransactionStatus::Quarantined, None)
        .is_err());
}

#[test]
fn journal_validation_detects_tampering() {
    let mut journal = BrokerJournal::new();
    let d = digest_of("request");
    journal
        .append(&d, "agent", 1, None, None, TransactionStatus::Admitted, None)
        .unwrap();
    journal
        .append(&d, "agent", 1, None, None, TransactionStatus::Executing, None)
        .unwrap();
    let mut tampered = journal.clone();
    tampered.entries[1].status = TransactionStatus::Committed;
    assert!(tampered.validate().is_err());
    let mut reordered = journal.clone();
    reordered.entries.swap(0, 1);
    assert!(reordered.validate().is_err());
    let mut versioned = journal.clone();
    versioned.version = 2;
    assert!(versioned.validate().is_err());
    assert!(journal.validate().is_ok());
}

#[test]
fn recovery_quarantines_in_flight_transactions_and_freezes() {
    let mut journal = BrokerJournal::new();
    let a = digest_of("a");
    let b = digest_of("b");
    let c = digest_of("c");
    journal.append(&a, "agent", 1, None, None, TransactionStatus::Admitted, None).unwrap();
    journal.append(&a, "agent", 1, None, None, TransactionStatus::Executing, None).unwrap();
    journal.append(&b, "agent", 2, None, None, TransactionStatus::Admitted, None).unwrap();
    journal.append(&c, "agent", 3, None, None, TransactionStatus::Rejected, None).unwrap();
    let (mut broker, changed) =
        Broker::new(supervisor(), EvidenceRegistry::default(), signer(), journal).expect("broker");
    assert!(changed);
    assert!(broker.is_frozen());
    let recovered = broker.journal();
    assert!(recovered.frozen);
    assert!(recovered.validate().is_ok());
    assert_eq!(recovered.entries.len(), 6);
    assert_eq!(recovered.status(&a), Some(TransactionStatus::Quarantined));
    assert_eq!(recovered.status(&b), Some(TransactionStatus::Quarantined));
    assert_eq!(recovered.status(&c), Some(TransactionStatus::Rejected));
    assert!(recovered.in_flight().is_empty());
    let r = request(b"hello", 11, true);
    let (_, verdict) = broker.screen(&r, NOW);
    assert!(matches!(verdict, Some(BrokerResponse::Frozen { code }) if code == "broker_frozen"));
}

#[test]
fn recovery_leaves_a_settled_journal_unchanged() {
    let mut journal = BrokerJournal::new();
    let a = digest_of("a");
    journal.append(&a, "agent", 1, None, None, TransactionStatus::Admitted, None).unwrap();
    journal.append(&a, "agent", 1, None, None, TransactionStatus::Quarantined, None).unwrap();
    let expected = journal.clone();
    let (broker, changed) =
        Broker::new(supervisor(), EvidenceRegistry::default(), signer(), journal).expect("broker");
    assert!(!changed);
    assert!(!broker.is_frozen());
    assert_eq!(broker.journal(), &expected);
}

#[test]
fn hello_names_the_supervisor_and_issuer() {
    let broker = broker_for(&[]);
    let hello = broker.hello();
    assert_eq!(hello.protocol_version, 1);
    assert_eq!(hello.state_slice, "security-alignment-os-foundation-v1");
    assert_eq!(hello.supervisor_digest, supervisor());
    assert_eq!(hello.issuer_key_id, "broker-key");
    assert_eq!(hello.issuer_public_key, signer().verifying_key_bytes().to_vec());
}

#[test]
fn broker_commits_an_authorized_transform_and_rejects_its_replay() {
    let input = b"hello broker";
    let r = request(input, 11, true);
    let mut broker = broker_for(&[r.clone()]);
    let (pending, verdict) = broker.screen(&r, NOW);
    assert!(verdict.is_none());
    assert_eq!(pending.request_digest, r.to_proposal().digest().unwrap());
    let admitted = match broker.admit_transform(&r, &pending, input, NOW) {
        Admission::Admitted(a) => a,
        Admission::Respond(_) => panic!("admission refused"),
    };
    assert_eq!(broker.journal().status(&pending.request_digest), Some(TransactionStatus::Admitted));
    assert!(broker.begin_execution(&r, &pending, &admitted, NOW).is_none());
    assert_eq!(
        broker.journal().status(&pending.request_digest),
        Some(TransactionStatus::Executing)
    );
    let output = expected_output_digest(input);
    assert_eq!(output, digest_bytes(b"HELLO BROKER"));
    let response = match broker.finish(&r, &pending, &admitted, Ok(output.clone())) {
        Finish::Commit(response) => response,
        Finish::Respond(_) => panic!("commit refused"),
    };
    match response {
        BrokerResponse::Completed { request_digest, decision_digest, receipt, output_digest } => {
            assert_eq!(request_digest, pending.request_digest);
            assert_eq!(decision_digest, admitted.decision.decision_digest);
            assert_eq!(output_digest, output);
            assert_eq!(receipt.receipt_id, admitted.receipt.receipt_id);
            assert_eq!(receipt.subject, "tenant-test");
        }
        _ => panic!("expected completion"),
    }
    assert_eq!(
        broker.journal().status(&pending.request_digest),
        Some(TransactionStatus::Committed)
    );
    assert!(broker.journal().validate().is_ok());
    assert!(!broker.is_frozen());
    let (_, replay) = broker.screen(&r, NOW);
    assert!(matches!(replay, Some(BrokerResponse::Rejected { code, .. }) if code == "replay"));
    let mut invalid = request(input, 12, true);
    invalid.max_bytes = 0;
    let (_, refused) = broker.screen(&invalid, NOW);
    assert!(matches!(
        refused,
        Some(BrokerResponse::Rejected { request_digest: None, code }) if code == "invalid_request"
    ));
}

#[test]
fn missing_telemetry_quarantines_and_freezes_the_broker() {
    let r = request(b"hello", 13, false);
    let mut broker = broker_for(&[r.clone()]);
    let (_, verdict) = broker.screen(&r, NOW);
    assert!(matches!(
        verdict,
        Some(BrokerResponse::Quarantined { code, receipt: None, .. }) if code == "telemetry_missing"
    ));
    assert!(broker.is_frozen());
    assert!(broker.journal().frozen);
    let next = request(b"hello", 14, true);
    let (_, frozen) = broker.screen(&next, NOW);
    assert!(matches!(frozen, Some(BrokerResponse::Frozen { code }) if code == "broker_frozen"));
}

#[test]
fn screening_rejects_foreign_supervisors_and_missing_evidence() {
    let mut foreign = request(b"hello", 15, true);
    foreign.executable_digest = digest_of("another executable");
    let unbacked = request(b"hello", 16, true);
    let mut broker = broker_for(&[foreign.clone()]);
    let (_, verdict) = broker.screen(&foreign, NOW);
    assert!(matches!(
        verdict,
        Some(BrokerResponse::Rejected { code, .. }) if code == "executable_digest_mismatch"
    ));
    let (_, verdict) = broker.screen(&unbacked, NOW);
    assert!(matches!(
        verdict,
        Some(BrokerResponse::Quarantined { code, .. }) if code == "evidence_unavailable"
    ));
    assert!(!broker.is_frozen());
    assert!(broker.journal().entries.is_empty());
}

#[test]
fn admission_checks_the_source_bytes() {
    let r = request(b"hello", 17, true);
    let mut broker = broker_for(&[r.clone()]);
    let (pending, verdict) = broker.screen(&r, NOW);
    assert!(verdict.is_none());
    match broker.admit_transform(&r, &pending, b"tampered", NOW) {
        Admission::Respond(BrokerResponse::Quarantined { code, .. }) => {
            assert_eq!(code, "input_digest_mismatch")
        }
        _ => panic!("expected digest mismatch"),
    }
    let big = vec![b'a'; 1_001];
    match broker.admit_transform(&r, &pending, &big, NOW) {
        Admission::Respond(BrokerResponse::Quarantined { code, .. }) => {
            assert_eq!(code, "input_size_invalid")
        }
        _ => panic!("expected size refusal"),
    }
    assert!(broker.journal().entries.is_empty());
}

#[test]
fn supervisor_failure_rolls_back_and_freezes() {
    let input = b"abc";
    let r = request(input, 18, true);
    let mut broker = broker_for(&[r.clone()]);
    let (pending, _) = broker.screen(&r, NOW);
    let admitted = match broker.admit_transform(&r, &pending, input, NOW) {
        Admission::Admitted(a) => a,
        Admission::Respond(_) => panic!("admission refused"),
    };
    assert!(broker.begin_execution(&r, &pending, &admitted, NOW).is_none());
    match broker.finish(&r, &pending, &admitted, Err("supervisor_timeout".into())) {
        Finish::Respond(BrokerResponse::Quarantined { code, receipt, .. }) => {
            assert_eq!(code, "supervisor_timeout");
            assert!(receipt.is_some());
        }
        _ => panic!("expected quarantine"),
    }
    assert!(broker.is_frozen());
    assert_eq!(
        broker.journal().status(&pending.request_digest),
        Some(TransactionStatus::RolledBack)
    );
}

#[test]
fn an_unsaved_step_freezes_with_its_code() {
    let input = b"abc";
    let r = request(input, 19, true);
    let mut broker = broker_for(&[r.clone()]);
    let (pending, _) = broker.screen(&r, NOW);
    let admitted = match broker.admit_transform(&r, &pending, input, NOW) {
        Admission::Admitted(a) => a,
        Admission::Respond(_) => panic!("admission refused"),
    };
    match broker.abort(&pending, &admitted, StepFailure::AdmissionNotSaved) {
        BrokerResponse::Quarantined { code, receipt, .. } => {
            assert_eq!(code, "journal_admission_failed");
            assert!(receipt.is_some());
        }
        _ => panic!("expected quarantine"),
    }
    assert!(broker.is_frozen());
    // A second execution of the same capability is refused.
    match broker.begin_execution(&r, &pending, &admitted, NOW) {
        Some(BrokerResponse::Quarantined { code, .. }) => {
            assert_eq!(code, "capability_consume_failed")
        }
        _ => panic!("expected refusal"),
    }
}

#[test]
fn request_paths_accept_plain_components_and_refuse_escapes() {
    let mut colon = request(b"abc", 41, true);
    colon.destination_relpath = "a:b".into();
    assert!(colon.validate(NOW).is_ok());
    let mut backslash = request(b"abc", 42, true);
    backslash.destination_relpath = "dir\\name.txt".into();
    assert!(backslash.validate(NOW).is_ok());
    let mut nested = request(b"abc", 43, true);
    nested.destination_relpath = "dir/./out.txt".into();
    assert!(nested.validate(NOW).is_ok());
    for bad in ["../escape.txt", "/abs.txt", "./out.txt", "dir/../out.txt", ""] {
        let mut escaping = request(b"abc", 44, true);
        escaping.destination_relpath = bad.into();
        assert!(escaping.validate(NOW).is_err(), "{bad}");
    }
}
