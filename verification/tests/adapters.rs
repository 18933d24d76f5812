use security_alignment_os::adapters::{AdapterPlan, SandboxProfile, ToolInvocation};

fn plan() -> AdapterPlan {
    AdapterPlan {
        sandbox: SandboxProfile {
            profile_id: "local-profile".into(),
            executor_digest: "a".repeat(64),
            egress_denied: true,
            secret_broker_required: true,
            independent_kill_path: true,
            memory_bytes: 1,
            cpu_ms: 1,
        },
        invocation: ToolInvocation {
            invocation_id: "invocation".into(),
            tool_id: "local-tool".into(),
            manifest_digest: "b".repeat(64),
            capability_token_id: "token".into(),
            input_digest: "c".repeat(64),
            consent_grant_id: "grant".into(),
            created_at: 1,
        },
        external_execution_authorized: false,
    }
}

#[test]
fn external_adapter_plan_is_typed_but_cannot_authorize_execution() {
    let plan = plan();
    assert!(plan.validate().is_ok());
    let mut unauthorized = plan;
    unauthorized.external_execution_authorized = true;
    assert!(unauthorized.validate().is_err());
}

#[test]
fn adapter_plan_requires_every_sandbox_control() {
    let mut open_egress = plan();
    open_egress.sandbox.egress_denied = false;
    assert!(open_egress.validate().is_err());
    let mut no_memory = plan();
    no_memory.sandbox.memory_bytes = 0;
    assert!(no_memory.validate().is_err());
    let mut bad_digest = plan();
    bad_digest.invocation.input_digest = "C".repeat(64);
    assert!(bad_digest.validate().is_err());
}
