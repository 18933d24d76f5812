use security_alignment_os::artifacts::{
    ArtifactManifest, ArtifactRecord, ArtifactRegistry, ArtifactStatus,
};

fn digest_with(byte: char) -> String {
    std::iter::repeat(byte).take(64).collect()
}

fn manifest() -> ArtifactManifest {
    ArtifactManifest {
        artifact_id: "artifact-1".into(),
        subject_digest: digest_with('a'),
        source_digest: digest_with('b'),
        license: "MIT".into(),
        provenance_digest: digest_with('c'),
        custody_root: "/tmp/local-custody".into(),
        retention_start: 10,
        retention_until: 20,
    }
}

#[test]
fn manifest_validation_is_fail_closed() {
    let mut invalid = manifest();
    invalid.subject_digest = "not-a-digest".into();
    assert!(invalid.validate().is_err());

    let mut invalid = manifest();
    invalid.retention_until = invalid.retention_start;
    assert!(invalid.validate().is_err());

    let mut invalid = manifest();
    invalid.custody_root = "\n".into();
    assert!(invalid.validate().is_err());
    assert!(!invalid.active(12));
}

#[test]
fn lifecycle_requires_exact_subject_and_distinct_roles() {
    let item = manifest();
    let subject = item.subject_digest.clone();
    let mut registry = ArtifactRegistry::default();
    assert!(registry
        .quarantine(item.clone(), "operator", "validator")
        .is_ok());
    assert!(!registry.is_valid("artifact-1", &subject, 12));
    assert!(registry
        .accept("artifact-1", &digest_with('d'), "approver", 12)
        .is_err());
    assert!(registry
        .accept("artifact-1", &subject, "validator", 12)
        .is_err());
    assert!(registry
        .accept("artifact-1", &subject, "approver", 12)
        .is_ok());
    assert!(registry.is_valid("artifact-1", &subject, 12));
    assert!(!registry.is_valid("artifact-1", &digest_with('d'), 12));
    assert!(registry.revoke("artifact-1", &subject, 13).is_ok());
    assert!(!registry.is_valid("artifact-1", &subject, 13));
    assert!(registry.revoke("artifact-1", &subject, 14).is_err());
}

#[test]
fn acceptance_requires_live_retention_and_unique_manifest_id() {
    let item = manifest();
    let subject = item.subject_digest.clone();
    let mut registry = ArtifactRegistry::default();
    assert!(registry
        .quarantine(item.clone(), "operator", "validator")
        .is_ok());
    assert!(registry
        .quarantine(item, "operator-2", "validator-2")
        .is_err());
    assert!(registry
        .accept("artifact-1", &subject, "approver", 20)
        .is_err());
    assert!(registry.require_valid("artifact-1", &subject, 12).is_err());
}

#[test]
fn manifest_digest_is_canonical_and_changes_with_subject() {
    let item = manifest();
    let first = item.digest().expect("valid manifest");
    let second = item.digest().expect("valid manifest");
    assert_eq!(first, second);
    let mut changed = item;
    changed.subject_digest = digest_with('d');
    assert_ne!(first, changed.digest().expect("valid manifest"));
}

#[test]
fn persisted_lifecycle_inconsistency_is_rejected() {
    let item = manifest();
    let mut registry = ArtifactRegistry::default();
    registry
        .quarantine(item.clone(), "operator", "validator")
        .expect("quarantine");
    assert!(registry.validate().is_ok());
    let record = registry.get("artifact-1").expect("record");
    let tampered = ArtifactRecord {
        manifest: item,
        operator_id: record.operator_id.clone(),
        validator_id: record.validator_id.clone(),
        reviewer_id: record.reviewer_id.clone(),
        status: ArtifactStatus::Accepted,
        accepted_at: record.accepted_at,
        revoked_at: record.revoked_at,
    };
    let registry = ArtifactRegistry::from_entries(vec![("artifact-1".into(), tampered)]);
    assert!(registry.validate().is_err());
}

#[test]
fn revoked_artifact_stays_invalid() {
    let item = manifest();
    let subject = item.subject_digest.clone();
    let mut registry = ArtifactRegistry::new();
    registry.quarantine(item, "operator", "validator").unwrap();
    registry.accept("artifact-1", &subject, "approver", 12).unwrap();
    registry.revoke("artifact-1", &subject, 13).unwrap();
    assert!(registry.accept("artifact-1", &subject, "approver", 14).is_err());
    assert!(!registry.is_valid("artifact-1", &subject, 14));
    assert_eq!(registry.len(), 1);
    assert!(registry.validate().is_ok());
}
