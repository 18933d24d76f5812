use security_alignment_os::alignment::PredictionLock;

#[test]
fn prediction_lock_detects_field_tampering() {
    let mut lock = PredictionLock::new("protocol", "predictions", "configuration").expect("lock");
    lock.lock_fit();
    lock.accept_independently();
    lock.validate().expect("valid lock");
    lock.prediction_digest = "a".repeat(64);
    assert!(lock.validate().is_err());
}

#[test]
fn prediction_lock_requires_fit_and_acceptance() {
    let mut lock = PredictionLock::new("protocol", "predictions", "configuration").expect("lock");
    assert!(!lock.assessment_eligible());
    lock.accept_independently();
    assert!(lock.validate().is_err());
    lock.lock_fit();
    assert!(lock.assessment_eligible());
    assert!(lock.validate().is_ok());
}

#[test]
fn prediction_lock_digests_its_inputs() {
    let lock = PredictionLock::new("protocol", "predictions", "configuration").expect("lock");
    let other = PredictionLock::new("protocol", "predictions", "other").expect("lock");
    assert_eq!(lock.protocol_digest, other.protocol_digest);
    assert_ne!(lock.configuration_digest, other.configuration_digest);
    assert_ne!(lock.protocol_digest, "protocol");
    assert_eq!(lock.protocol_digest.len(), 64);
}
