//! The barrier in front of external execution, closed in this library.
use crate::error::{rejected, Error};
use crate::text::{all_whitespace, is_blank, is_digest, valid_digest};
use vstd::prelude::*;

verus! {

/// An attestation of the sandbox an external executor would run in.
#[derive(Clone, Debug)]
pub struct SandboxAttestation {
    pub attestation_id: String,
    pub executor_digest: String,
    pub egress_denied: bool,
    pub secret_broker: bool,
    pub independent_kill_path: bool,
    pub memory_bytes: u64,
    pub cpu_ms: u64,
    pub issued_at: u64,
    pub expires_at: u64,
}

impl SandboxAttestation {
    /// Every control is on, the limits are positive and `now` is inside the
    /// attestation's validity.
    pub open spec fn spec_valid(&self, now: u64) -> bool {
        &&& !all_whitespace(self.attestation_id@)
        &&& is_digest(self.executor_digest@)
        &&& self.egress_denied
        &&& self.secret_broker
        &&& self.independent_kill_path
        &&& self.memory_bytes != 0
        &&& self.cpu_ms != 0
        &&& self.issued_at < self.expires_at
        &&& self.issued_at <= now
        &&& now < self.expires_at
    }

    pub fn validate(&self, now: u64) -> (r: Result<(), Error>)
        ensures
            r is Ok <==> self.spec_valid(now),
            r matches Err(e) ==> e is Rejected,
    {
        if is_blank(self.attestation_id.as_str()) || !valid_digest(self.executor_digest.as_str())
            || !self.egress_denied || !self.secret_broker || !self.independent_kill_path
            || self.memory_bytes == 0 || self.cpu_ms == 0 || self.expires_at <= self.issued_at
            || now < self.issued_at || now >= self.expires_at {
            return Err(rejected("sandbox attestation is incomplete or expired"));
        }
        Ok(())
    }
}

/// A request to run a program on an external executor.
#[derive(Clone, Debug)]
pub struct ExternalExecutionRequest {
    pub request_id: String,
    pub program_digest: String,
    pub input_digest: String,
    pub output_schema_digest: String,
    pub proof_system: String,
    pub privacy_requirement: String,
    pub requested_at: u64,
    pub deadline: u64,
    pub max_price: u64,
}

impl ExternalExecutionRequest {
    pub open spec fn spec_valid(&self, now: u64) -> bool {
        &&& !all_whitespace(self.request_id@)
        &&& is_digest(self.program_digest@)
        &&& is_digest(self.input_digest@)
        &&& is_digest(self.output_schema_digest@)
        &&& !all_whitespace(self.proof_system@)
        &&& !all_whitespace(self.privacy_requirement@)
        &&& self.requested_at < self.deadline
        &&& self.requested_at <= now
        &&& now < self.deadline
    }

    pub fn validate(&self, now: u64) -> (r: Result<(), Error>)
        ensures
            r is Ok <==> self.spec_valid(now),
            r matches Err(e) ==> e is Rejected,
    {
        if is_blank(self.request_id.as_str()) || !valid_digest(self.program_digest.as_str())
            || !valid_digest(self.input_digest.as_str()) || !valid_digest(
            self.output_schema_digest.as_str(),
        ) || is_blank(self.proof_system.as_str()) || is_blank(self.privacy_requirement.as_str())
            || self.deadline <= self.requested_at || now < self.requested_at || now
            >= self.deadline {
            return Err(rejected("external execution request is incomplete or expired"));
        }
        Ok(())
    }
}

#[derive(Clone, Copy, Debug, PartialEq, Eq, Structural)]
pub enum GateDisposition {
    Blocked,
    Authorized,
}

/// The barrier's answer and why.
#[derive(Clone, Debug)]
pub struct GateDecision {
    pub disposition: GateDisposition,
    pub reason: String,
}

/// The barrier; external authorization is never enabled here.
#[derive(Clone, Copy, Debug)]
pub struct ExecutionGate {
    external_authorization_enabled: bool,
}

impl ExecutionGate {
    pub closed spec fn spec_enabled(&self) -> bool {
        self.external_authorization_enabled
    }

    pub fn new() -> (r: ExecutionGate)
        ensures
            !r.spec_enabled(),
    {
        ExecutionGate { external_authorization_enabled: false }
    }

    /// Checks the attestation and the request; a valid pair is still blocked.
    pub fn authorize(
        &self,
        attestation: &SandboxAttestation,
        request: &ExternalExecutionRequest,
        now: u64,
    ) -> (r: Result<GateDecision, Error>)
        ensures
            r is Ok <==> attestation.spec_valid(now) && request.spec_valid(now)
                && !self.spec_enabled(),
            r matches Err(e) ==> e is Rejected,
            r matches Ok(d) ==> d.disposition == GateDisposition::Blocked,
    {
        attestation.validate(now)?;
        request.validate(now)?;
        if self.external_authorization_enabled {
            return Err(rejected("external authorization is not available in foundation slice"));
        }
        Ok(
            GateDecision {
                disposition: GateDisposition::Blocked,
                reason: "external execution is closed in foundation slice".to_owned(),
            },
        )
    }
}

impl Default for ExecutionGate {
    fn default() -> (r: ExecutionGate)
        ensures
            !r.spec_enabled(),
    {
        ExecutionGate::new()
    }
}

} // verus!
