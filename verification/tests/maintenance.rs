use security_alignment_os::digest_bytes;
use security_alignment_os::maintenance::{
    InMemoryMaintenanceExecutor, MaintenanceAcceptance, MaintenanceCoordinator,
    MaintenanceEvaluation, MaintenancePacket, MaintenancePatchProposal, MaintenanceReason,
    MaintenanceRequirements, MaintenanceStatus, MaintenanceTestResult,
    REQUIRED_ADVERSARIAL_TESTS, ApplyReplies, is_safe_relative_path,
};

fn requirements() -> MaintenanceRequirements {
    MaintenanceRequirements {
        evaluator_executable_digest: "a".repeat(64),
        evaluator_input_digest: "b".repeat(64),
        evaluator_tests_digest: "c".repeat(64),
        policy_digest: "d".repeat(64),
        required_test_ids: REQUIRED_ADVERSARIAL_TESTS
            .iter()
            .map(|value| (*value).into())
            .collect(),
    }
}

fn make_packet() -> MaintenancePacket {
    let before_bytes = b"before".to_vec();
    let after_bytes = b"after".to_vec();
    let proposal = MaintenancePatchProposal {
        patch_id: "patch".into(),
        proposer_role: "proposer".into(),
        relative_path: "src/example.rs".into(),
        before_digest: digest_bytes(&before_bytes),
        before_bytes,
        after_digest: digest_bytes(&after_bytes),
        after_bytes,
        requirements: requirements(),
        proposed_at: 10,
        expires_at: 100,
    };
    let evaluation = MaintenanceEvaluation {
        evaluation_id: "evaluation".into(),
        evaluator_role: "evaluator".into(),
        proposal_digest: proposal.digest(),
        requirements: requirements(),
        test_results: REQUIRED_ADVERSARIAL_TESTS
            .iter()
            .map(|test_id| MaintenanceTestResult {
                test_id: (*test_id).into(),
                passed: true,
            })
            .collect(),
        accepted: true,
        evaluated_at: 11,
        expires_at: 90,
    };
    MaintenancePacket {
        proposal,
        evaluation,
    }
}

fn make_acceptance(packet: &MaintenancePacket) -> MaintenanceAcceptance {
    MaintenanceAcceptance {
        reviewer_role: "acceptor".into(),
        complete_packet_digest: packet.digest(),
        accepted_at: 12,
        expires_at: 80,
    }
}

fn coordinator() -> MaintenanceCoordinator {
    MaintenanceCoordinator::new(requirements(), "evaluator", "acceptor").unwrap()
}

#[test]
fn applies_once_and_rejects_replay() {
    let packet = make_packet();
    let acceptance = make_acceptance(&packet);
    let mut runner = coordinator();
    let mut executor = InMemoryMaintenanceExecutor::with_file(
        &packet.proposal.relative_path,
        packet.proposal.before_bytes.clone(),
    );
    let first = runner
        .apply(&packet, Some(&acceptance), &mut executor, 20)
        .unwrap();
    assert_eq!(first.status, MaintenanceStatus::Applied);
    let second = runner
        .apply(&packet, Some(&acceptance), &mut executor, 20)
        .unwrap();
    assert_eq!(second.reason, Some(MaintenanceReason::ReplayedAcceptance));
}

#[test]
fn missing_and_expired_evidence_quarantine() {
    let packet = make_packet();
    let mut runner = coordinator();
    let mut executor = InMemoryMaintenanceExecutor::with_file(
        &packet.proposal.relative_path,
        packet.proposal.before_bytes.clone(),
    );
    assert_eq!(
        runner.apply(&packet, None, &mut executor, 20).unwrap().status,
        MaintenanceStatus::Quarantined
    );
    let mut expired = make_acceptance(&packet);
    expired.expires_at = 20;
    assert_eq!(
        runner
            .apply(&packet, Some(&expired), &mut executor, 20)
            .unwrap()
            .status,
        MaintenanceStatus::Quarantined
    );
    let mut early = make_acceptance(&packet);
    early.accepted_at = 10;
    assert_eq!(
        runner
            .apply(&packet, Some(&early), &mut executor, 20)
            .unwrap()
            .status,
        MaintenanceStatus::Quarantined
    );
}

#[test]
fn substitution_and_path_escape_are_quarantined() {
    let mut packet = make_packet();
    let mut runner = coordinator();
    let mut executor = InMemoryMaintenanceExecutor::with_file(
        &packet.proposal.relative_path,
        packet.proposal.before_bytes.clone(),
    );
    packet.proposal.requirements.policy_digest = "e".repeat(64);
    packet.evaluation.requirements.policy_digest = "e".repeat(64);
    packet.evaluation.proposal_digest = packet.proposal.digest();
    let acceptance = make_acceptance(&packet);
    assert_eq!(
        runner
            .apply(&packet, Some(&acceptance), &mut executor, 20)
            .unwrap()
            .status,
        MaintenanceStatus::Quarantined
    );
    for path in ["../escape.rs", "/tmp/escape.rs", "a/../../escape.rs"] {
        packet = make_packet();
        packet.proposal.relative_path = path.into();
        assert!(packet.proposal.validate(20).is_err());
    }
}

#[test]
fn failed_postcheck_rolls_back_and_failed_rollback_freezes() {
    let packet = make_packet();
    let acceptance = make_acceptance(&packet);
    let mut runner = coordinator();
    let mut executor = InMemoryMaintenanceExecutor::with_file(
        &packet.proposal.relative_path,
        packet.proposal.before_bytes.clone(),
    );
    executor.corrupt_next_write = true;
    let result = runner
        .apply(&packet, Some(&acceptance), &mut executor, 20)
        .unwrap();
    assert_eq!(result.status, MaintenanceStatus::RolledBack);
    assert_eq!(
        executor.file(&packet.proposal.relative_path),
        Some(b"before".as_slice())
    );

    let packet = make_packet();
    let acceptance = make_acceptance(&packet);
    let mut runner = coordinator();
    let mut executor = InMemoryMaintenanceExecutor::with_file(
        &packet.proposal.relative_path,
        packet.proposal.before_bytes.clone(),
    );
    executor.corrupt_next_write = true;
    executor.fail_rollback_writes = true;
    assert_eq!(
        runner
            .apply(&packet, Some(&acceptance), &mut executor, 20)
            .unwrap()
            .status,
        MaintenanceStatus::Frozen
    );
    let mut fresh = make_packet();
    fresh.proposal.patch_id = "fresh-patch".into();
    fresh.evaluation.proposal_digest = fresh.proposal.digest();
    let fresh_acceptance = make_acceptance(&fresh);
    assert_eq!(
        runner
            .apply(&fresh, Some(&fresh_acceptance), &mut executor, 20)
            .unwrap()
            .status,
        MaintenanceStatus::Frozen
    );
}

#[test]
fn changed_patch_cannot_reuse_evaluation_with_fresh_acceptance() {
    let mut packet = make_packet();
    packet.proposal.after_bytes = b"substituted".to_vec();
    packet.proposal.after_digest = digest_bytes(&packet.proposal.after_bytes);
    let acceptance = make_acceptance(&packet);
    let mut runner = coordinator();
    let mut executor = InMemoryMaintenanceExecutor::with_file(
        &packet.proposal.relative_path,
        packet.proposal.before_bytes.clone(),
    );
    let result = runner
        .apply(&packet, Some(&acceptance), &mut executor, 20)
        .unwrap();
    assert_eq!(result.status, MaintenanceStatus::Quarantined);
    assert_eq!(executor.writes(), 0);
    assert_eq!(
        executor.file(&packet.proposal.relative_path),
        Some(b"before".as_slice())
    );
}

#[test]
fn empty_test_roster_is_rejected_before_change() {
    let mut packet = make_packet();
    packet.evaluation.test_results.clear();
    let acceptance = make_acceptance(&packet);
    let mut runner = coordinator();
    let mut executor = InMemoryMaintenanceExecutor::with_file(
        &packet.proposal.relative_path,
        packet.proposal.before_bytes.clone(),
    );
    let result = runner
        .apply(&packet, Some(&acceptance), &mut executor, 20)
        .unwrap();
    assert_eq!(result.status, MaintenanceStatus::Quarantined);
    assert_eq!(
        executor.file(&packet.proposal.relative_path),
        Some(b"before".as_slice())
    );
}

#[test]
fn applied_change_writes_the_after_bytes_and_binds_digests() {
    let packet = make_packet();
    let acceptance = make_acceptance(&packet);
    let mut runner = coordinator();
    let mut executor = InMemoryMaintenanceExecutor::with_file(
        &packet.proposal.relative_path,
        packet.proposal.before_bytes.clone(),
    );
    let outcome = runner
        .apply(&packet, Some(&acceptance), &mut executor, 20)
        .unwrap();
    assert_eq!(outcome.status, MaintenanceStatus::Applied);
    assert_eq!(outcome.reason, None);
    assert_eq!(outcome.packet_digest, packet.digest());
    assert_eq!(outcome.before_digest, packet.proposal.before_digest);
    assert_eq!(executor.file("src/example.rs"), Some(b"after".as_slice()));
    assert_eq!(executor.writes(), 1);
}

#[test]
fn failed_write_rolls_back_and_missing_target_quarantines() {
    let packet = make_packet();
    let acceptance = make_acceptance(&packet);
    let mut runner = coordinator();
    let mut missing = InMemoryMaintenanceExecutor::default();
    let outcome = runner
        .apply(&packet, Some(&acceptance), &mut missing, 20)
        .unwrap();
    assert_eq!(outcome.reason, Some(MaintenanceReason::MissingTarget));
    let mut stale = InMemoryMaintenanceExecutor::with_file("src/example.rs", b"other".to_vec());
    let outcome = runner
        .apply(&packet, Some(&acceptance), &mut stale, 20)
        .unwrap();
    assert_eq!(outcome.reason, Some(MaintenanceReason::BeforeDigestMismatch));
    let mut failing = InMemoryMaintenanceExecutor::with_file("src/example.rs", b"before".to_vec());
    failing.fail_writes = true;
    let outcome = runner
        .apply(&packet, Some(&acceptance), &mut failing, 20)
        .unwrap();
    assert_eq!(outcome.status, MaintenanceStatus::Frozen);
    assert!(runner.is_frozen());
}

#[test]
fn safe_paths_are_plain_relative_names() {
    assert!(is_safe_relative_path("src/example.rs"));
    assert!(is_safe_relative_path("a/./b"));
    assert!(is_safe_relative_path("a/..b"));
    assert!(!is_safe_relative_path("./a"));
    assert!(!is_safe_relative_path("a/.."));
    assert!(!is_safe_relative_path("a\\b"));
    assert!(!is_safe_relative_path("c:/a"));
    assert!(!is_safe_relative_path(""));
}

#[test]
fn requirements_need_every_adversarial_test() {
    let mut missing = requirements();
    missing.required_test_ids.pop();
    assert!(missing.validate().is_err());
    let mut duplicated = requirements();
    duplicated.required_test_ids.push("path-escape".into());
    assert!(duplicated.validate().is_err());
    assert!(requirements().validate().is_ok());
    assert!(MaintenanceCoordinator::new(requirements(), "same", "same").is_err());
}

fn replies(target: Option<&[u8]>, write_ok: bool, check: Option<&[u8]>, rolled_back: bool) -> ApplyReplies {
    ApplyReplies {
        target: target.map(|t| t.to_vec()),
        write_ok,
        check: check.map(|c| c.to_vec()),
        rolled_back,
    }
}

#[test]
fn settle_decides_each_executor_reply() {
    let packet = make_packet();
    let acceptance = make_acceptance(&packet);
    let applied = coordinator().settle(
        &packet,
        Some(&acceptance),
        20,
        &replies(Some(b"before"), true, Some(b"after"), false),
    );
    assert_eq!(applied.status, MaintenanceStatus::Applied);
    assert_eq!(applied.reason, None);
    assert_eq!(applied.packet_digest, packet.digest());

    let missing = coordinator().settle(&packet, Some(&acceptance), 20, &replies(None, false, None, false));
    assert_eq!(missing.reason, Some(MaintenanceReason::MissingTarget));

    let mismatch = coordinator().settle(
        &packet,
        Some(&acceptance),
        20,
        &replies(Some(b"other"), true, Some(b"after"), true),
    );
    assert_eq!(mismatch.reason, Some(MaintenanceReason::BeforeDigestMismatch));

    let write_failed = coordinator().settle(
        &packet,
        Some(&acceptance),
        20,
        &replies(Some(b"before"), false, None, true),
    );
    assert_eq!(write_failed.status, MaintenanceStatus::RolledBack);
    assert_eq!(write_failed.reason, Some(MaintenanceReason::WriteFailed));

    let postcheck = coordinator().settle(
        &packet,
        Some(&acceptance),
        20,
        &replies(Some(b"before"), true, Some(b"afteR"), true),
    );
    assert_eq!(postcheck.status, MaintenanceStatus::RolledBack);
    assert_eq!(postcheck.reason, Some(MaintenanceReason::PostcheckFailed));

    let mut runner = coordinator();
    let frozen = runner.settle(
        &packet,
        Some(&acceptance),
        20,
        &replies(Some(b"before"), true, None, false),
    );
    assert_eq!(frozen.status, MaintenanceStatus::Frozen);
    assert_eq!(frozen.reason, Some(MaintenanceReason::RollbackFailed));
    assert!(runner.is_frozen());
    let after = runner.settle(
        &packet,
        Some(&acceptance),
        20,
        &replies(Some(b"before"), true, Some(b"after"), false),
    );
    assert_eq!(after.status, MaintenanceStatus::Frozen);
}

#[test]
fn spent_acceptance_is_replayed_even_after_a_rollback() {
    let packet = make_packet();
    let acceptance = make_acceptance(&packet);
    let mut runner = coordinator();
    let first = runner.settle(
        &packet,
        Some(&acceptance),
        20,
        &replies(Some(b"before"), false, None, true),
    );
    assert_eq!(first.status, MaintenanceStatus::RolledBack);
    let second = runner.settle(
        &packet,
        Some(&acceptance),
        20,
        &replies(Some(b"before"), true, Some(b"after"), false),
    );
    assert_eq!(second.status, MaintenanceStatus::Quarantined);
    assert_eq!(second.reason, Some(MaintenanceReason::ReplayedAcceptance));
}
