//! Typed contracts for an external adapter, which this library never runs.
use crate::error::{invalid, rejected, Error};
use crate::text::{is_digest, valid_digest};
use vstd::prelude::*;

verus! {

/// The isolation an external executor would have to provide.
#[derive(Clone, Debug)]
pub struct SandboxProfile {
    pub profile_id: String,
    pub executor_digest: String,
    pub egress_denied: bool,
    pub secret_broker_required: bool,
    pub independent_kill_path: bool,
    pub memory_bytes: u64,
    pub cpu_ms: u64,
}

impl SandboxProfile {
    /// Every fail-closed control is on and the limits are positive.
    pub open spec fn spec_valid(&self) -> bool {
        &&& self.profile_id@.len() != 0
        &&& is_digest(self.executor_digest@)
        &&& self.egress_denied
        &&& self.secret_broker_required
        &&& self.independent_kill_path
        &&& self.memory_bytes != 0
        &&& self.cpu_ms != 0
    }

    pub fn validate(&self) -> (r: Result<(), Error>)
        ensures
            r is Ok <==> self.spec_valid(),
            r matches Err(e) ==> e is Invalid,
    {
        if self.profile_id.as_str().is_empty() || !valid_digest(self.executor_digest.as_str())
            || !self.egress_denied || !self.secret_broker_required || !self.independent_kill_path
            || self.memory_bytes == 0 || self.cpu_ms == 0 {
            return Err(invalid("sandbox profile does not satisfy the fail-closed boundary"));
        }
        Ok(())
    }
}

/// One tool call, bound to a manifest, a capability, an input and a consent.
#[derive(Clone, Debug)]
pub struct ToolInvocation {
    pub invocation_id: String,
    pub tool_id: String,
    pub manifest_digest: String,
    pub capability_token_id: String,
    pub input_digest: String,
    pub consent_grant_id: String,
    pub created_at: u64,
}

impl ToolInvocation {
    pub open spec fn spec_valid(&self) -> bool {
        &&& self.invocation_id@.len() != 0
        &&& self.tool_id@.len() != 0
        &&& self.capability_token_id@.len() != 0
        &&& self.consent_grant_id@.len() != 0
        &&& is_digest(self.manifest_digest@)
        &&& is_digest(self.input_digest@)
    }

    pub fn validate(&self) -> (r: Result<(), Error>)
        ensures
            r is Ok <==> self.spec_valid(),
            r matches Err(e) ==> e is Invalid,
    {
        if self.invocation_id.as_str().is_empty() || self.tool_id.as_str().is_empty()
            || self.capability_token_id.as_str().is_empty()
            || self.consent_grant_id.as_str().is_empty() || !valid_digest(
            self.manifest_digest.as_str(),
        ) || !valid_digest(self.input_digest.as_str()) {
            return Err(invalid("tool invocation binding is incomplete"));
        }
        Ok(())
    }
}

/// A sandbox and an invocation; this library never authorizes running it.
#[derive(Clone, Debug)]
pub struct AdapterPlan {
    pub sandbox: SandboxProfile,
    pub invocation: ToolInvocation,
    pub external_execution_authorized: bool,
}

impl AdapterPlan {
    /// A well-formed plan that does not claim external execution authority.
    pub fn validate(&self) -> (r: Result<(), Error>)
        ensures
            r is Ok <==> self.sandbox.spec_valid() && self.invocation.spec_valid()
                && !self.external_execution_authorized,
            !self.sandbox.spec_valid() ==> (r matches Err(e) && e is Invalid),
            self.sandbox.spec_valid() && !self.invocation.spec_valid() ==> (r matches Err(e)
                && e is Invalid),
            self.sandbox.spec_valid() && self.invocation.spec_valid()
                && self.external_execution_authorized ==> (r matches Err(e) && e is Rejected),
    {
        self.sandbox.validate()?;
        self.invocation.validate()?;
        if self.external_execution_authorized {
            return Err(rejected("foundation slice cannot authorize external execution"));
        }
        Ok(())
    }
}

} // verus!
