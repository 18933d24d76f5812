use security_alignment_os::execution_gate::{
    ExecutionGate, ExternalExecutionRequest, GateDisposition, SandboxAttestation,
};

fn attestation() -> SandboxAttestation {
    SandboxAttestation {
        attestation_id: "attestation".into(),
        executor_digest: "a".repeat(64),
        egress_denied: true,
        secret_broker: true,
        independent_kill_path: true,
        memory_bytes: 1,
        cpu_ms: 1,
        issued_at: 0,
        expires_at: 100,
    }
}

fn request() -> ExternalExecutionRequest {
    ExternalExecutionRequest {
        request_id: "request".into(),
        program_digest: "b".repeat(64),
        input_digest: "c".repeat(64),
        output_schema_digest: "d".repeat(64),
        proof_system: "fixed-local-receipt".into(),
        privacy_requirement: "none".into(),
        requested_at: 0,
        deadline: 100,
        max_price: 0,
    }
}

#[test]
fn valid_external_request_is_still_blocked() {
    let decision = ExecutionGate::new()
        .authorize(&attestation(), &request(), 10)
        .unwrap();
    assert_eq!(decision.disposition, GateDisposition::Blocked);
}

#[test]
fn every_missing_sandbox_control_fails_closed() {
    for mutate in [
        |value: &mut SandboxAttestation| value.egress_denied = false,
        |value: &mut SandboxAttestation| value.secret_broker = false,
        |value: &mut SandboxAttestation| value.independent_kill_path = false,
    ] {
        let mut value = attestation();
        mutate(&mut value);
        assert!(value.validate(10).is_err());
    }
}

#[test]
fn expired_attestation_and_request_are_rejected() {
    let mut value = attestation();
    value.expires_at = 10;
    assert!(ExecutionGate::new()
        .authorize(&value, &request(), 10)
        .is_err());
    let mut value = request();
    value.deadline = 10;
    assert!(ExecutionGate::new()
        .authorize(&attestation(), &value, 10)
        .is_err());
}
