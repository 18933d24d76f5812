use security_alignment_os::contract::{
    transition, Authority, BudgetDecision, CapabilitySet, ContractError, FailureBudget,
    FailureKind, Lifecycle, LifecycleEvent, LifecycleState,
};

#[test]
fn capability_lattice_has_explicit_bottom_top_and_no_implicit_edges() {
    let bottom = CapabilitySet::empty();
    let read = CapabilitySet::from_slice(&[Authority::Read]);
    let write = CapabilitySet::from_slice(&[Authority::Write]);
    let top = CapabilitySet::all();

    assert!(bottom.leq(&read));
    assert!(read.leq(&top));
    assert!(top.covers(&read));
    assert!(!write.covers(&read));
    assert!(!read.covers(&write));
    assert_eq!(read.join(&write).len(), 2);
    assert!(read.meet(&write).is_empty());
}

#[test]
fn lifecycle_accepts_only_declared_order() {
    let mut lifecycle = Lifecycle::new();
    assert_eq!(
        lifecycle.apply(LifecycleEvent::Admit).unwrap(),
        LifecycleState::Admitted
    );
    assert_eq!(
        lifecycle.apply(LifecycleEvent::BeginExecution).unwrap(),
        LifecycleState::Executing
    );
    assert_eq!(
        lifecycle.apply(LifecycleEvent::Complete).unwrap(),
        LifecycleState::Completed
    );
    assert_eq!(
        lifecycle.apply(LifecycleEvent::Rollback).unwrap(),
        LifecycleState::RolledBack
    );
    assert_eq!(
        lifecycle.apply(LifecycleEvent::Admit).unwrap(),
        LifecycleState::Admitted
    );
    assert_eq!(lifecycle.revision, 5);

    let before = lifecycle.clone();
    assert_eq!(
        lifecycle.apply(LifecycleEvent::Complete),
        Err(ContractError::InvalidTransition {
            state: LifecycleState::Admitted,
            event: LifecycleEvent::Complete,
        })
    );
    assert_eq!(lifecycle, before);
}

#[test]
fn freeze_and_kill_are_one_way_controls() {
    let mut lifecycle = Lifecycle::new();
    assert_eq!(
        lifecycle.apply(LifecycleEvent::Freeze).unwrap(),
        LifecycleState::Frozen
    );
    assert_eq!(
        lifecycle.apply(LifecycleEvent::Admit),
        Err(ContractError::InvalidTransition {
            state: LifecycleState::Frozen,
            event: LifecycleEvent::Admit,
        })
    );
    assert_eq!(
        lifecycle.apply(LifecycleEvent::Kill).unwrap(),
        LifecycleState::Killed
    );
    assert_eq!(lifecycle.state, LifecycleState::Killed);
}

#[test]
fn failure_budget_validates_and_freezes_at_inclusive_limit() {
    let budget = FailureBudget {
        max_rejections: 2,
        max_quarantines: 3,
        max_rollbacks: 3,
        max_consecutive_failures: 2,
        max_window_failures: 3,
        window_size: 4,
    };
    let mut tracker = budget.tracker().unwrap();
    assert_eq!(
        tracker.record_failure(FailureKind::Rejection).unwrap(),
        BudgetDecision::Continue
    );
    assert_eq!(
        tracker.record_failure(FailureKind::Rollback).unwrap(),
        BudgetDecision::FreezeRequired
    );
    assert!(tracker.is_exhausted());
    assert_eq!(
        tracker.record_failure(FailureKind::Quarantine),
        Err(ContractError::BudgetExhausted)
    );
}

#[test]
fn failure_budget_rejects_invalid_window() {
    let budget = FailureBudget {
        max_rejections: 1,
        max_quarantines: 1,
        max_rollbacks: 1,
        max_consecutive_failures: 1,
        max_window_failures: 2,
        window_size: 1,
    };
    assert!(matches!(
        budget.validate(),
        Err(ContractError::InvalidBudget(_))
    ));
}

#[test]
fn zero_budget_freezes_on_first_observation() {
    let budget = FailureBudget {
        max_rejections: 0,
        max_quarantines: 1,
        max_rollbacks: 1,
        max_consecutive_failures: 1,
        max_window_failures: 1,
        window_size: 1,
    };
    let mut tracker = budget.tracker().unwrap();
    assert!(!tracker.is_exhausted());
    assert_eq!(
        tracker.record_failure(FailureKind::Rejection).unwrap(),
        BudgetDecision::FreezeRequired
    );
}

#[test]
fn failure_tracker_rejects_inconsistent_persisted_counters() {
    let budget = FailureBudget {
        max_rejections: 3,
        max_quarantines: 3,
        max_rollbacks: 3,
        max_consecutive_failures: 3,
        max_window_failures: 3,
        window_size: 4,
    };
    let mut tracker = budget.tracker().expect("tracker");
    tracker.consecutive_failures = 1;
    assert!(tracker.validate().is_err());
}

#[test]
fn success_resets_consecutive_failures_only() {
    let budget = FailureBudget {
        max_rejections: 3,
        max_quarantines: 3,
        max_rollbacks: 3,
        max_consecutive_failures: 3,
        max_window_failures: 3,
        window_size: 4,
    };
    let mut tracker = budget.tracker().unwrap();
    tracker.record_failure(FailureKind::Quarantine).unwrap();
    assert_eq!(tracker.consecutive_failures, 1);
    tracker.record_success();
    assert_eq!(tracker.consecutive_failures, 0);
    assert_eq!(tracker.quarantines, 1);
    assert!(tracker.validate().is_ok());
}

#[test]
fn transition_table_refuses_completed_to_executing() {
    assert_eq!(
        transition(LifecycleState::Completed, LifecycleEvent::Rollback).unwrap(),
        LifecycleState::RolledBack
    );
    assert!(transition(LifecycleState::Completed, LifecycleEvent::BeginExecution).is_err());
    assert!(transition(LifecycleState::Killed, LifecycleEvent::Freeze).is_err());
    assert!(LifecycleState::Killed.is_terminal());
}

#[test]
fn capability_set_ignores_repeats_and_keeps_lattice_order() {
    let set = CapabilitySet::from_slice(&[Authority::Write, Authority::Read, Authority::Write]);
    assert_eq!(set.len(), 2);
    assert_eq!(set.iter(), vec![Authority::Read, Authority::Write]);
    assert!(set.contains(Authority::Read));
    assert!(!set.contains(Authority::Secrets));
}
