use ed25519_dalek::SigningKey;
use security_alignment_os::digest_bytes;
use security_alignment_os::maintenance_process::{
    fixed_input_digest, fixed_policy_digest, fixed_tests_digest,
};
use security_alignment_os::maintenance_replication::{
    distinct_seeds, HostReport, RecoveryDisposition, ReplicationPacket, ScenarioResult, ScenarioStatus,
    FIXED_OPERATION_IDENTITY, REPLICATION_CLAIM_CEILING, REPLICATION_VERSION, REQUIRED_SCENARIOS,
};

fn public_key_hex(seed: u8) -> String {
    SigningKey::from_bytes(&[seed; 32])
        .verifying_key()
        .as_bytes()
        .iter()
        .map(|byte| format!("{byte:02x}"))
        .collect()
}

fn scenarios(baseline: &str) -> Vec<ScenarioResult> {
    REQUIRED_SCENARIOS
        .iter()
        .enumerate()
        .map(|(index, scenario_id)| {
            let (status, recovery) = match *scenario_id {
                "authorized-completion" => (
                    ScenarioStatus::Applied,
                    RecoveryDisposition::AuthorizedChangeCommitted,
                ),
                "evaluation-expiry" => (ScenarioStatus::Quarantined, RecoveryDisposition::NoMutation),
                "pre-finalization-cancellation" | "pre-finalization-expiry" => (
                    ScenarioStatus::RolledBack,
                    RecoveryDisposition::BaselineRestored,
                ),
                "concurrent-target-change" | "neighbor-change-recovery" => (
                    ScenarioStatus::Frozen,
                    RecoveryDisposition::ExternalChangePreservedAndFrozen,
                ),
                _ => (ScenarioStatus::Blocked, RecoveryDisposition::NoMutation),
            };
            let final_checkout_digest = match recovery {
                RecoveryDisposition::AuthorizedChangeCommitted => "b".repeat(64),
                RecoveryDisposition::ExternalChangePreservedAndFrozen => "c".repeat(64),
                RecoveryDisposition::NoMutation | RecoveryDisposition::BaselineRestored => {
                    baseline.to_owned()
                }
            };
            ScenarioResult {
                scenario_id: (*scenario_id).into(),
                status,
                recovery,
                final_checkout_digest,
                evidence_digest: digest_bytes(format!("host-evidence-{index}").as_bytes()),
            }
        })
        .collect()
}

fn report(seed: u8, host_id: &str, operator_id: &str) -> HostReport {
    let mut report = HostReport {
        version: REPLICATION_VERSION,
        state_slice: "security-alignment-os-foundation-v1".into(),
        operation: FIXED_OPERATION_IDENTITY.into(),
        process_version: 1,
        implementation_revision: "3c19d80".to_owned() + &"0".repeat(33),
        request_digest: "d".repeat(64),
        checkout_baseline_digest: "a".repeat(64),
        evaluator_executable_digest: "b".repeat(64),
        evaluator_input_digest: fixed_input_digest(),
        evaluator_tests_digest: fixed_tests_digest(),
        policy_digest: fixed_policy_digest(),
        evaluator_public_key: public_key_hex(9),
        evaluator_timeout_ms: 10_000,
        claim_ceiling: REPLICATION_CLAIM_CEILING.into(),
        host_id: host_id.into(),
        operator_id: operator_id.into(),
        host_public_key: String::new(),
        operator_public_key: String::new(),
        scenarios: scenarios(&"a".repeat(64)),
        report_id: String::new(),
        host_signature: String::new(),
        operator_signature: String::new(),
    };
    report
        .sign_with_seeds([seed; 32], [seed + 10; 32])
        .expect("signed report");
    report
}

#[test]
fn signed_report_is_valid_and_binds_its_keys() {
    let r = report(1, "host-a", "operator-a");
    assert!(r.validate().is_ok());
    assert_eq!(r.host_public_key, public_key_hex(1));
    assert_eq!(r.operator_public_key, public_key_hex(11));
    assert_eq!(r.report_id.len(), 64);
    assert_eq!(r.host_signature.len(), 128);
    assert!(r.verify_signatures().is_ok());
}

#[test]
fn two_signed_reports_form_a_valid_packet_in_host_order() {
    let a = report(1, "host-a", "operator-a");
    let b = report(2, "host-b", "operator-b");
    let packet = ReplicationPacket::from_reports(vec![b.clone(), a.clone()]).expect("packet");
    assert!(packet.validate().is_ok());
    assert_eq!(packet.reports[0].host_id, "host-a");
    assert_eq!(packet.reports[1].host_id, "host-b");
    assert_eq!(packet.request_digest, "d".repeat(64));
    let bytes = packet.canonical_bytes().expect("canonical bytes");
    let text = String::from_utf8(bytes).expect("utf8");
    assert!(text.starts_with("{\"version\":1,\"state_slice\":"));
    assert!(text.ends_with(&format!(",\"packet_id\":\"{}\"}}", packet.packet_id)));
    let same = ReplicationPacket::from_reports(vec![a, b]).expect("packet");
    assert_eq!(same.packet_id, packet.packet_id);
}

#[test]
fn packet_requires_exactly_two_reports() {
    let a = report(1, "host-a", "operator-a");
    assert!(ReplicationPacket::from_reports(vec![a.clone()]).is_err());
    let b = report(2, "host-b", "operator-b");
    let c = report(3, "host-c", "operator-c");
    assert!(ReplicationPacket::from_reports(vec![a, b, c]).is_err());
}

#[test]
fn same_declared_host_is_not_independent() {
    let first = report(1, "host-a", "operator-a");
    let second = report(2, "host-a", "operator-b");
    assert!(ReplicationPacket::from_reports(vec![first, second]).is_err());
}

#[test]
fn same_declared_operator_or_key_is_not_independent() {
    let first = report(1, "host-a", "operator-a");
    let same_operator = report(2, "host-b", "operator-a");
    assert!(ReplicationPacket::from_reports(vec![first.clone(), same_operator]).is_err());

    let same_key = report(1, "host-b", "operator-b");
    assert!(ReplicationPacket::from_reports(vec![first, same_key]).is_err());
}

#[test]
fn evidence_substitution_after_signing_is_rejected() {
    let first = report(1, "host-a", "operator-a");
    let mut second = report(2, "host-b", "operator-b");
    second.scenarios[0].evidence_digest = "e".repeat(64);
    assert!(second.validate().is_err());
    assert!(ReplicationPacket::from_reports(vec![first, second]).is_err());
}

#[test]
fn inconsistent_recovery_result_is_rejected() {
    let mut first = report(1, "host-a", "operator-a");
    first.scenarios[2].final_checkout_digest = "b".repeat(64);
    assert!(first.validate().is_err());
}

#[test]
fn claim_ceiling_tampering_is_rejected() {
    let mut first = report(1, "host-a", "operator-a");
    first.claim_ceiling = "unbounded maintenance authority".into();
    assert!(first.validate().is_err());
}

#[test]
fn reports_must_bind_the_same_fixed_request_and_revision() {
    let first = report(1, "host-a", "operator-a");
    let mut second = report(2, "host-b", "operator-b");
    second.request_digest = "f".repeat(64);
    second
        .sign_with_seeds([2; 32], [12; 32])
        .expect("resigned report");
    assert!(ReplicationPacket::from_reports(vec![first.clone(), second]).is_err());

    let mut third = report(3, "host-c", "operator-c");
    third.implementation_revision = "1".repeat(40);
    third
        .sign_with_seeds([3; 32], [13; 32])
        .expect("resigned report");
    assert!(ReplicationPacket::from_reports(vec![first, third]).is_err());
}

#[test]
fn report_shape_errors_are_rejected() {
    let base = report(1, "host-a", "operator-a");
    let mut short_revision = base.clone();
    short_revision.implementation_revision = "abc".into();
    assert!(short_revision.validate().is_err());
    let mut same_labels = base.clone();
    same_labels.operator_id = same_labels.host_id.clone();
    assert!(same_labels.validate().is_err());
    let mut reordered = base.clone();
    reordered.scenarios.swap(0, 1);
    assert!(reordered.validate().is_err());
    let mut bad_timeout = base.clone();
    bad_timeout.evaluator_timeout_ms = 60_001;
    assert!(bad_timeout.validate().is_err());
    let mut bad_signature = base.clone();
    bad_signature.host_signature = "0".repeat(128);
    assert!(bad_signature.validate().is_err());
    let mut swapped_signatures = base.clone();
    swapped_signatures.host_signature = base.operator_signature.clone();
    assert!(swapped_signatures.validate().is_err());
    assert!(base.validate().is_ok());
}

#[test]
fn packet_tampering_is_rejected() {
    let a = report(1, "host-a", "operator-a");
    let b = report(2, "host-b", "operator-b");
    let packet = ReplicationPacket::from_reports(vec![a, b]).expect("packet");
    let mut renamed = packet.clone();
    renamed.operation = "other-maintenance-operation".into();
    assert!(renamed.validate().is_err());
    assert!(renamed.canonical_bytes().is_err());
    let mut swapped = packet.clone();
    swapped.reports.swap(0, 1);
    assert!(swapped.validate().is_err());
    let mut re_id = packet.clone();
    re_id.packet_id = "0".repeat(64);
    assert!(re_id.validate().is_err());
    assert!(packet.validate().is_ok());
}

#[test]
fn signing_seeds_must_be_pairwise_distinct() {
    assert!(distinct_seeds(&[1; 32], &[2; 32], &[3; 32]));
    assert!(!distinct_seeds(&[1; 32], &[1; 32], &[3; 32]));
    assert!(!distinct_seeds(&[1; 32], &[2; 32], &[1; 32]));
    assert!(!distinct_seeds(&[1; 32], &[2; 32], &[2; 32]));
}
