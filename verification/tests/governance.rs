use security_alignment_os::checker::validate_audit;
use security_alignment_os::governance::{CandidateUpdate, ReleaseRegistry, ReleaseState};
use security_alignment_os::{Error, Runtime};

#[test]
fn rust_audit_round_trip_and_governance_freeze() {
    let mut runtime = Runtime::default();
    runtime.kill("test");
    let journal = runtime.audit_journal().unwrap();
    assert_eq!(journal.entries.len(), 1);
    validate_audit(&journal).unwrap();
    let mut release = ReleaseRegistry::default();
    let candidate = CandidateUpdate {
        candidate_id: "c".into(),
        base_digest: "a".repeat(64),
        candidate_digest: "b".repeat(64),
        rollback_digest: "a".repeat(64),
        evidence_digest: "d".repeat(64),
    };
    release.propose(candidate).unwrap();
    release.advance("c", &"d".repeat(64)).unwrap();
    assert_eq!(release.state("c"), Some(ReleaseState::Canary));
    release.advance("c", &"e".repeat(64)).unwrap();
    assert_eq!(release.state("c"), Some(ReleaseState::ReleasedLocal));
    release.freeze("c").unwrap();
    assert_eq!(release.state("c"), Some(ReleaseState::Frozen));
    assert!(release.freeze("c").is_err());
}

#[test]
fn second_freeze_is_rejected_and_unknown_freeze_is_invalid() {
    let mut release = ReleaseRegistry::default();
    release
        .propose(CandidateUpdate {
            candidate_id: "c".into(),
            base_digest: "a".repeat(64),
            candidate_digest: "b".repeat(64),
            rollback_digest: "a".repeat(64),
            evidence_digest: "d".repeat(64),
        })
        .unwrap();
    release.freeze("c").unwrap();
    assert!(matches!(release.freeze("c"), Err(Error::Rejected(_))));
    assert_eq!(release.state("c"), Some(ReleaseState::Frozen));
    assert!(matches!(release.freeze("missing"), Err(Error::Invalid(_))));
}
