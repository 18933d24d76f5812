use security_alignment_os::digest_bytes;
use security_alignment_os::maintenance_process::{
    base_outcome, baseline_digest, evaluate_job_at, run_step, RunAction, RunEvent, RunStage, fixed_input_digest, fixed_policy_digest, fixed_tests_digest,
    is_backup_name, is_root_markdown_path, normalize_trailing_ascii_spaces, receipt_binds,
    recovery_step, validate_request, Config, EvaluatorJob, OutcomeStatus, RecoveryStep, Request,
    FIXED_INPUT_IDENTITY, FIXED_POLICY_IDENTITY, FIXED_TEST_IDS, FIXED_TEST_ROSTER,
};


fn request() -> Request {
    let before_bytes = b"before  \n".to_vec();
    let after_bytes = b"before\n".to_vec();
    Request {
        request_id: "fixed-maintenance-request".into(),
        relative_path: "README.md".into(),
        before_digest: digest_bytes(&before_bytes),
        after_digest: digest_bytes(&after_bytes),
        before_bytes,
        after_bytes,
        checkout_baseline_digest: "a".repeat(64),
        lease_expires_at: 1_000,
        nonce: 1,
    }
}

fn job(request: Request) -> EvaluatorJob {
    EvaluatorJob {
        request,
        evaluator_executable_digest: "b".repeat(64),
        evaluator_input_digest: fixed_input_digest(),
        evaluator_tests_digest: fixed_tests_digest(),
        policy_digest: fixed_policy_digest(),
        evaluated_at: 100,
    }
}

fn public_key_hex(seed: u8) -> String {
    ed25519_dalek::SigningKey::from_bytes(&[seed; 32])
        .verifying_key()
        .as_bytes()
        .iter()
        .map(|byte| format!("{byte:02x}"))
        .collect()
}

fn config() -> Config {
    Config {
        evaluator_path: "/opt/evaluator".into(),
        evaluator_seed_path: "/opt/seed".into(),
        evaluator_executable_digest: "b".repeat(64),
        evaluator_public_key: public_key_hex(5),
        evaluator_input_digest: fixed_input_digest(),
        evaluator_tests_digest: fixed_tests_digest(),
        policy_digest: fixed_policy_digest(),
        checkout_root: "/srv/checkout".into(),
        state_dir: "/srv/state".into(),
        cancellation_file: "/srv/cancel".into(),
        evaluator_timeout_ms: 10_000,
    }
}

#[test]
fn fixed_digests_name_the_fixed_identities() {
    assert_eq!(fixed_input_digest(), digest_bytes(FIXED_INPUT_IDENTITY.as_bytes()));
    assert_eq!(fixed_policy_digest(), digest_bytes(FIXED_POLICY_IDENTITY.as_bytes()));
    assert_eq!(FIXED_TEST_ROSTER, FIXED_TEST_IDS.join("\n"));
    assert_eq!(fixed_tests_digest(), digest_bytes(FIXED_TEST_IDS.join("\n").as_bytes()));
}

#[test]
fn normalization_strips_trailing_spaces_and_keeps_line_endings() {
    assert_eq!(normalize_trailing_ascii_spaces(b"before  \n"), b"before\n".to_vec());
    assert_eq!(normalize_trailing_ascii_spaces(b"a  \r\nb \n  "), b"a\r\nb\n".to_vec());
    assert_eq!(normalize_trailing_ascii_spaces(b"  inner  text\n"), b"  inner  text\n".to_vec());
    assert_eq!(normalize_trailing_ascii_spaces(b"a \r \n"), b"a \r\n".to_vec());
    assert_eq!(normalize_trailing_ascii_spaces(b"a \r"), b"a \r".to_vec());
    assert_eq!(normalize_trailing_ascii_spaces(b""), Vec::<u8>::new());
    assert_eq!(normalize_trailing_ascii_spaces(b"   "), Vec::<u8>::new());
    let once = normalize_trailing_ascii_spaces(b"x  \ny \r\n z ");
    assert_eq!(normalize_trailing_ascii_spaces(&once), once);
}

#[test]
fn request_validation_binds_bytes_lease_and_path() {
    let r = request();
    assert!(validate_request(&r, 10).is_ok());
    assert!(validate_request(&r, 1_000).is_err());
    let mut same = r.clone();
    same.after_bytes = same.before_bytes.clone();
    same.after_digest = same.before_digest.clone();
    assert!(validate_request(&same, 10).is_err());
    let mut wrong_digest = r.clone();
    wrong_digest.after_digest = "c".repeat(64);
    assert!(validate_request(&wrong_digest, 10).is_err());
    let mut nested = r.clone();
    nested.relative_path = "docs/README.md".into();
    assert!(validate_request(&nested, 10).is_err());
    let mut zero = r.clone();
    zero.nonce = 0;
    assert!(validate_request(&zero, 10).is_err());
    assert!(is_root_markdown_path("README.md"));
    assert!(!is_root_markdown_path("README.txt"));
    assert!(!is_root_markdown_path("a\\b.md"));
    assert!(!is_root_markdown_path("c:x.md"));
    assert!(!is_root_markdown_path("/README.md"));
}

#[test]
fn evaluation_recomputes_the_fixed_transformation() {
    let receipt = evaluate_job_at(&job(request()), 100).expect("accepted");
    assert!(receipt.accepted);
    assert_eq!(receipt.evaluated_at, 100);
    assert_eq!(receipt.request_digest, request().digest());
    assert_eq!(receipt.state_slice, "security-alignment-os-foundation-v1");
    assert!(receipt.signature.is_empty());

    let mut unauthorized = request();
    unauthorized.after_bytes = b"unauthorized\n".to_vec();
    unauthorized.after_digest = digest_bytes(&unauthorized.after_bytes);
    assert!(evaluate_job_at(&job(unauthorized), 100).is_err());

    let mut hidden = request();
    hidden.relative_path = ".hidden.md".into();
    assert!(evaluate_job_at(&job(hidden), 100).is_err());

    let mut late = job(request());
    late.evaluated_at = 1_000;
    assert!(evaluate_job_at(&late, 100).is_err());

    let mut substituted = job(request());
    substituted.policy_digest = "f".repeat(64);
    assert!(evaluate_job_at(&substituted, 100).is_err());
}

#[test]
fn signed_receipt_binds_request_and_configuration() {
    let r = request();
    let mut receipt = evaluate_job_at(&job(r.clone()), 100).expect("accepted");
    receipt.sign_with_seed([5; 32]).expect("signed");
    assert_eq!(receipt.signature.len(), 128);
    assert!(receipt.verify(&public_key_hex(5)).is_ok());
    assert!(receipt.verify(&public_key_hex(6)).is_err());
    let c = config();
    assert!(c.validate_bounds().is_ok());
    assert!(receipt_binds(&receipt, &r, &c, 50, 150));
    assert!(!receipt_binds(&receipt, &r, &c, 101, 150));
    let mut other = r.clone();
    other.nonce = 2;
    assert!(!receipt_binds(&receipt, &other, &c, 50, 150));
    let mut tampered = receipt.clone();
    tampered.evaluated_at = 101;
    assert!(!receipt_binds(&tampered, &r, &c, 50, 150));
}

#[test]
fn configuration_must_be_frozen_and_bounded() {
    assert!(config().validate_bounds().is_ok());
    let mut relative = config();
    relative.state_dir = "state".into();
    assert!(relative.validate_bounds().is_err());
    let mut slow = config();
    slow.evaluator_timeout_ms = 60_001;
    assert!(slow.validate_bounds().is_err());
    let mut other_policy = config();
    other_policy.policy_digest = "f".repeat(64);
    assert!(other_policy.validate_bounds().is_err());
    assert_eq!(config().digest(), config().digest());
    assert_ne!(config().digest(), relative.digest());
}

#[test]
fn recovery_restores_only_the_recorded_candidate() {
    let before = b"before  \n".to_vec();
    let after = b"before\n".to_vec();
    let bd = digest_bytes(&before);
    let ad = digest_bytes(&after);
    assert_eq!(recovery_step(&before, &bd, &ad, &before, &after), RecoveryStep::Restore);
    assert_eq!(recovery_step(&before, &bd, &ad, &before, &before), RecoveryStep::Settle);
    assert_eq!(recovery_step(&before, &bd, &ad, &before, b"neighbor\n"), RecoveryStep::Freeze);
    assert_eq!(recovery_step(&before, &bd, &ad, b"other", &after), RecoveryStep::Freeze);
    assert!(is_backup_name("maintenance-abc.backup"));
    assert!(is_backup_name("maintenance-abc/"));
    assert!(!is_backup_name("maintenance-abc/../x"));
    assert!(!is_backup_name("backup"));
}

#[test]
fn outcomes_carry_the_request_digest() {
    let r = request();
    let o = base_outcome(&r, OutcomeStatus::Quarantined, Some("reason".into()), false);
    assert_eq!(o.request_digest, r.digest());
    assert_eq!(o.before_digest, r.before_digest);
    assert!(o.receipt_digest.is_none());
}

fn opened(cancelled: bool, nonce_consumed: bool) -> RunEvent {
    RunEvent::Opened {
        files: Ok(()),
        recovery: Ok(false),
        intent_cleared: false,
        frozen: false,
        nonce_consumed,
        cancelled,
    }
}

fn reason_of(action: &RunAction) -> Option<String> {
    match action {
        RunAction::Finish(o) => o.reason.clone(),
        _ => None,
    }
}

#[test]
fn run_steps_from_opening_to_completion() {
    let r = request();
    let c = config();
    let (stage, action) = run_step(&c, &r, 100, RunStage::Opening, opened(false, false));
    assert!(matches!(stage, RunStage::AwaitingTarget));
    assert!(matches!(action, RunAction::ReadTarget));
    let (stage, action) = run_step(
        &c,
        &r,
        100,
        stage,
        RunEvent::TargetRead { current: r.before_bytes.clone(), baseline_digest: "a".repeat(64) },
    );
    assert!(matches!(action, RunAction::InvokeEvaluator));
    let mut receipt = evaluate_job_at(&job(r.clone()), 100).expect("accepted");
    receipt.sign_with_seed([5; 32]).expect("signed");
    let (stage, action) = run_step(
        &c,
        &r,
        100,
        stage,
        RunEvent::Evaluated { receipt: Ok(receipt.clone()), cancelled: false, now: 120 },
    );
    assert!(matches!(action, RunAction::RecheckBaseline));
    let (stage, action) = run_step(
        &c,
        &r,
        100,
        stage,
        RunEvent::Rechecked { cancelled: false, baseline_digest: "a".repeat(64), now: 121 },
    );
    assert!(matches!(action, RunAction::PersistIntent));
    let (stage, action) = run_step(&c, &r, 100, stage, RunEvent::IntentPersisted { cancelled: false, now: 122 });
    assert!(matches!(action, RunAction::Replace));
    let (stage, action) = run_step(
        &c,
        &r,
        100,
        stage,
        RunEvent::Replaced { cancelled: false, current: r.after_bytes.clone(), now: 123 },
    );
    assert!(matches!(stage, RunStage::Closed));
    match action {
        RunAction::Complete(o) => {
            assert_eq!(o.status, OutcomeStatus::Applied);
            assert_eq!(o.receipt_digest, Some(receipt.digest()));
            assert!(!o.rolled_back);
        }
        other => panic!("unexpected action {other:?}"),
    }
}

#[test]
fn run_steps_refuse_in_order() {
    let r = request();
    let c = config();
    let (_, action) = run_step(&c, &r, 100, RunStage::Opening, opened(false, true));
    assert_eq!(reason_of(&action), Some("request nonce was already consumed".into()));
    let (_, action) = run_step(&c, &r, 100, RunStage::Opening, opened(true, false));
    assert_eq!(reason_of(&action), Some("request was cancelled or expired".into()));
    let (_, action) = run_step(&c, &r, 2_000, RunStage::Opening, opened(false, false));
    assert_eq!(
        reason_of(&action),
        Some("rejected: maintenance request bytes or lease are invalid".into())
    );
    let frozen = RunEvent::Opened {
        files: Ok(()),
        recovery: Ok(false),
        intent_cleared: false,
        frozen: true,
        nonce_consumed: false,
        cancelled: false,
    };
    let (_, action) = run_step(&c, &r, 100, RunStage::Opening, frozen);
    match action {
        RunAction::Finish(o) => assert_eq!(o.status, OutcomeStatus::Frozen),
        other => panic!("unexpected action {other:?}"),
    }
    let (_, action) = run_step(
        &c,
        &r,
        100,
        RunStage::AwaitingTarget,
        RunEvent::TargetRead { current: r.before_bytes.clone(), baseline_digest: "b".repeat(64) },
    );
    assert_eq!(reason_of(&action), Some("trusted checkout baseline mismatch".into()));
    let (_, action) = run_step(&c, &r, 100, RunStage::Closed, opened(false, false));
    assert!(matches!(action, RunAction::Fail(_)));
}

#[test]
fn baseline_digest_orders_files_by_path() {
    let a = vec![("b.md".to_string(), b"2".to_vec()), ("a.md".to_string(), b"1".to_vec())];
    let b = vec![("a.md".to_string(), b"1".to_vec()), ("b.md".to_string(), b"2".to_vec())];
    assert_eq!(baseline_digest(&a), baseline_digest(&b));
    assert_eq!(baseline_digest(&b), digest_bytes(br#"[["a.md",[49]],["b.md",[50]]]"#));
    assert_ne!(baseline_digest(&b), baseline_digest(&vec![("a.md".to_string(), b"1".to_vec())]));
}
