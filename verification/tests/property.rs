use security_alignment_os::property::{
    check_authority_nonimplication, check_authority_powerset, check_expired_capability_cannot_execute,
    check_kill_closes_execution, check_lifecycle_transitions, check_rejection_cannot_mutate_state,
    run_all,
};

#[test]
fn lifecycle_check_is_exhaustive_and_passes() {
    let outcome = check_lifecycle_transitions().unwrap();
    assert!(outcome.passed);
    assert_eq!(outcome.property_id, "phase0.lifecycle_transition_table");
}

#[test]
fn authority_powerset_check_is_exhaustive_and_passes() {
    let outcome = check_authority_powerset().unwrap();
    assert!(outcome.passed);
    assert_eq!(outcome.property_id, "phase0.authority_powerset");
}

#[test]
fn authority_atoms_have_no_implicit_implication() {
    assert!(check_authority_nonimplication().unwrap().passed);
}

#[test]
fn rejection_cannot_mutate_runtime_state() {
    assert!(check_rejection_cannot_mutate_state().unwrap().passed);
}

#[test]
fn expired_capability_cannot_execute() {
    assert!(check_expired_capability_cannot_execute().unwrap().passed);
}

#[test]
fn kill_closes_execution() {
    assert!(check_kill_closes_execution().unwrap().passed);
}

#[test]
fn report_is_digest_bound_and_deterministic() {
    let first = run_all().unwrap();
    let second = run_all().unwrap();
    assert_eq!(first, second);
    assert_eq!(first.failed, 0);
    assert_eq!(first.passed, 6);
    first.validate().unwrap();
}

#[test]
fn report_rejects_counter_tampering() {
    let mut report = run_all().unwrap();
    report.passed = report.passed.saturating_add(1);
    assert!(report.validate().is_err());
}

#[test]
fn report_lists_every_property_in_order() {
    let report = run_all().unwrap();
    let ids: Vec<&str> = report.outcomes.iter().map(|o| o.property_id.as_str()).collect();
    assert_eq!(ids.len(), 6);
    assert_eq!(ids[0], "phase0.lifecycle_transition_table");
    assert_eq!(ids[1], "phase0.authority_powerset");
    let mut tampered = report.clone();
    tampered.outcomes[0].passed = false;
    assert!(tampered.validate().is_err());
}
