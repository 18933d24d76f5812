use security_alignment_os::custody::{CustodyRegistry, CustodyRoot};

fn root() -> CustodyRoot {
    CustodyRoot {
        root_id: "root-1".into(),
        owner_id: "owner".into(),
        root_digest: "a".repeat(64),
        mode: 0o700,
        external_to_repository: true,
        created_at: 10,
        expires_at: 100,
        raw_retention_until: 90,
    }
}

#[test]
fn owner_declared_custody_is_bound_and_deletion_is_terminal() {
    let artifact_digest = "b".repeat(64);
    let mut registry = CustodyRegistry::default();
    registry
        .declare("custody-1", root(), &artifact_digest, "owner", "validator")
        .expect("declare");
    assert!(registry
        .require_active("custody-1", &artifact_digest, 20)
        .is_ok());
    assert!(registry
        .require_active("custody-1", &"c".repeat(64), 20)
        .is_err());
    assert!(registry.mark_deleted("custody-1", "other", 30).is_err());
    registry
        .mark_deleted("custody-1", "owner", 30)
        .expect("delete");
    assert!(registry
        .require_active("custody-1", &artifact_digest, 30)
        .is_err());
    assert!(registry.mark_deleted("custody-1", "owner", 31).is_err());
}

#[test]
fn malformed_roots_and_duplicate_records_fail_closed() {
    let artifact_digest = "b".repeat(64);
    let mut registry = CustodyRegistry::default();
    let mut invalid = root();
    invalid.mode = 0o755;
    assert!(registry
        .declare("custody-1", invalid, &artifact_digest, "owner", "validator")
        .is_err());
    registry
        .declare("custody-1", root(), &artifact_digest, "owner", "validator")
        .expect("declare");
    assert!(registry
        .declare("custody-1", root(), &"b".repeat(64), "owner", "validator-2")
        .is_err());
}

#[test]
fn custody_must_be_declared_by_its_owner_and_expires() {
    let artifact_digest = "b".repeat(64);
    let mut registry = CustodyRegistry::new();
    assert!(registry
        .declare("custody-1", root(), &artifact_digest, "someone", "validator")
        .is_err());
    assert!(registry
        .declare("custody-1", root(), &artifact_digest, "owner", "owner")
        .is_err());
    registry
        .declare("custody-1", root(), &artifact_digest, "owner", "validator")
        .unwrap();
    assert_eq!(registry.len(), 1);
    assert!(registry.require_active("custody-1", &artifact_digest, 100).is_err());
    assert!(registry.require_active("custody-2", &artifact_digest, 20).is_err());
}
