//! Digest-only routing of a request to a specialist, bound to consent.
use crate::canon::{json_nat, json_text, lit, push_lit, push_nat, push_text};
use crate::digest::{digest_bytes, sha256_hex};
use crate::error::{invalid, quarantined, rejected, Error};
use crate::order::text_eq;
use crate::specialist::{ConsentGrant, SpecialistRegistry};
use crate::text::{is_digest, text_ok, valid_digest, valid_text};
use vstd::prelude::*;

verus! {

/// A request to route an input, known only by its digest, to a specialist.
#[derive(Debug)]
pub struct RoutingRequest {
    pub request_id: String,
    pub tenant_id: String,
    pub specialist_id: String,
    pub grant_id: String,
    pub input_digest: String,
    pub created_at: u64,
    pub expires_at: u64,
}

impl Clone for RoutingRequest {
    fn clone(&self) -> (r: Self)
        ensures
            r.same(self),
    {
        RoutingRequest {
            request_id: self.request_id.clone(),
            tenant_id: self.tenant_id.clone(),
            specialist_id: self.specialist_id.clone(),
            grant_id: self.grant_id.clone(),
            input_digest: self.input_digest.clone(),
            created_at: self.created_at,
            expires_at: self.expires_at,
        }
    }
}

impl RoutingRequest {
    /// Field-by-field equality.
    pub open spec fn same(&self, other: &RoutingRequest) -> bool {
        &&& self.request_id@ == other.request_id@
        &&& self.tenant_id@ == other.tenant_id@
        &&& self.specialist_id@ == other.specialist_id@
        &&& self.grant_id@ == other.grant_id@
        &&& self.input_digest@ == other.input_digest@
        &&& self.created_at == other.created_at
        &&& self.expires_at == other.expires_at
    }

    pub open spec fn spec_valid(&self) -> bool {
        &&& text_ok(self.request_id@, 256)
        &&& text_ok(self.tenant_id@, 256)
        &&& text_ok(self.specialist_id@, 256)
        &&& is_digest(self.grant_id@)
        &&& is_digest(self.input_digest@)
        &&& self.created_at < self.expires_at
    }

    pub open spec fn spec_active(&self, now: u64) -> bool {
        self.spec_valid() && self.created_at <= now && now < self.expires_at
    }

    /// The canonical encoding of the request.
    pub open spec fn bytes(&self) -> Seq<u8> {
        lit("{\"request_id\":") + json_text(self.request_id@) + lit(",\"tenant_id\":") + json_text(
            self.tenant_id@,
        ) + lit(",\"specialist_id\":") + json_text(self.specialist_id@) + lit(",\"grant_id\":")
            + json_text(self.grant_id@) + lit(",\"input_digest\":") + json_text(self.input_digest@)
            + lit(",\"created_at\":") + json_nat(self.created_at as nat) + lit(",\"expires_at\":")
            + json_nat(self.expires_at as nat) + lit("}")
    }

    pub open spec fn spec_digest(&self) -> Seq<char> {
        sha256_hex(self.bytes())
    }

    /// A validated request.
    pub fn new(
        request_id: String,
        tenant_id: String,
        specialist_id: String,
        grant_id: String,
        input_digest: String,
        created_at: u64,
        expires_at: u64,
    ) -> (r: Result<RoutingRequest, Error>)
        ensures
            r matches Err(e) ==> e is Invalid,
            r matches Ok(q) ==> q.request_id@ == request_id@ && q.tenant_id@ == tenant_id@
                && q.specialist_id@ == specialist_id@ && q.grant_id@ == grant_id@
                && q.input_digest@ == input_digest@ && q.created_at == created_at && q.expires_at
                == expires_at,
            r is Ok <==> (RoutingRequest {
                request_id,
                tenant_id,
                specialist_id,
                grant_id,
                input_digest,
                created_at,
                expires_at,
            }).spec_valid(),
    {
        let request = RoutingRequest {
            request_id,
            tenant_id,
            specialist_id,
            grant_id,
            input_digest,
            created_at,
            expires_at,
        };
        request.validate()?;
        Ok(request)
    }

    pub fn validate(&self) -> (r: Result<(), Error>)
        ensures
            r is Ok <==> self.spec_valid(),
            r matches Err(e) ==> e is Invalid,
    {
        if !valid_text(self.request_id.as_str(), 256) || !valid_text(self.tenant_id.as_str(), 256)
            || !valid_text(self.specialist_id.as_str(), 256) || !valid_digest(
            self.grant_id.as_str(),
        ) || !valid_digest(self.input_digest.as_str()) || self.expires_at <= self.created_at {
            return Err(invalid("invalid routing request"));
        }
        Ok(())
    }

    /// The digest of a valid request.
    pub fn digest(&self) -> (r: Result<String, Error>)
        ensures
            r is Ok <==> self.spec_valid(),
            r matches Err(e) ==> e is Invalid,
            r matches Ok(d) ==> d@ == self.spec_digest() && is_digest(d@),
    {
        self.validate()?;
        let mut out: Vec<u8> = Vec::new();
        push_lit(&mut out, "{\"request_id\":");
        push_text(&mut out, self.request_id.as_str());
        push_lit(&mut out, ",\"tenant_id\":");
        push_text(&mut out, self.tenant_id.as_str());
        push_lit(&mut out, ",\"specialist_id\":");
        push_text(&mut out, self.specialist_id.as_str());
        push_lit(&mut out, ",\"grant_id\":");
        push_text(&mut out, self.grant_id.as_str());
        push_lit(&mut out, ",\"input_digest\":");
        push_text(&mut out, self.input_digest.as_str());
        push_lit(&mut out, ",\"created_at\":");
        push_nat(&mut out, self.created_at);
        push_lit(&mut out, ",\"expires_at\":");
        push_nat(&mut out, self.expires_at);
        push_lit(&mut out, "}");
        assert(out@ =~= self.bytes());
        Ok(digest_bytes(out.as_slice()))
    }

    fn active(&self, now: u64) -> (r: bool)
        ensures
            r == self.spec_active(now),
    {
        self.validate().is_ok() && self.created_at <= now && now < self.expires_at
    }
}

/// A routing decision bound to the request, the grant and the specialist.
#[derive(Debug)]
pub struct RoutingDecision {
    pub request_digest: String,
    pub input_digest: String,
    pub tenant_id: String,
    pub specialist_id: String,
    pub specialist_digest: String,
    pub grant_id: String,
    pub issued_at: u64,
    pub expires_at: u64,
}

/// Request and grant name the same tenant, specialist and grant, and both are
/// active at `now`.
pub open spec fn consent_binds(grant: ConsentGrant, request: RoutingRequest, now: u64) -> bool {
    &&& request.spec_active(now)
    &&& grant.spec_active(now)
    &&& request.tenant_id@ == grant.tenant_id@
    &&& request.specialist_id@ == grant.specialist_id@
    &&& request.grant_id@ == grant.grant_id@
}

/// A decision binds the request, the grant and the resolved specialist at `now`.
pub open spec fn decision_binds(
    d: RoutingDecision,
    registry: SpecialistRegistry,
    grant: ConsentGrant,
    request: RoutingRequest,
    now: u64,
) -> bool {
    &&& request.spec_valid()
    &&& grant.spec_valid()
    &&& registry.spec_resolve(d.specialist_id@, now) is Some
    &&& consent_binds(grant, request, now)
    &&& d.issued_at <= now
    &&& request.created_at <= d.issued_at
    &&& grant.issued_at <= d.issued_at
    &&& now < d.expires_at
    &&& d.expires_at <= request.expires_at
    &&& d.expires_at <= grant.expires_at
    &&& d.request_digest@ == request.spec_digest()
    &&& d.input_digest@ == request.input_digest@
    &&& d.tenant_id@ == request.tenant_id@
    &&& d.specialist_id@ == request.specialist_id@
    &&& d.specialist_digest@ == registry.spec_resolve(d.specialist_id@, now)->0.spec_digest()
    &&& d.grant_id@ == grant.grant_id@
}

/// Whether a grant is malformed rather than merely mismatched.
pub open spec fn grant_error_is_invalid(grant: ConsentGrant) -> bool {
    !grant.spec_shape_ok()
}

impl RoutingDecision {
    /// Routes an active request under an active, matching consent grant to
    /// the resolved specialist.
    pub fn route(
        registry: &SpecialistRegistry,
        grant: &ConsentGrant,
        request: &RoutingRequest,
        now: u64,
    ) -> (r: Result<RoutingDecision, Error>)
        ensures
            !request.spec_valid() ==> (r matches Err(e) && e is Invalid),
            request.spec_valid() && !grant.spec_shape_ok() ==> (r matches Err(e) && e is Invalid),
            request.spec_valid() && grant.spec_shape_ok() && !grant.spec_valid() ==> (r matches Err(
                e,
            ) && e is Rejected),
            request.spec_valid() && grant.spec_valid() && !consent_binds(*grant, *request, now) ==> (
            r matches Err(e) && e is Rejected),
            request.spec_valid() && grant.spec_valid() && consent_binds(*grant, *request, now)
                && registry.spec_resolve(request.specialist_id@, now) is None ==> (r matches Err(e)
                && e is Quarantined),
            r is Ok <==> request.spec_valid() && grant.spec_valid() && consent_binds(
                *grant,
                *request,
                now,
            ) && registry.spec_resolve(request.specialist_id@, now) is Some,
            r matches Ok(d) ==> {
                &&& decision_binds(d, *registry, *grant, *request, now)
                &&& d.issued_at == now
                &&& d.expires_at == if request.expires_at <= grant.expires_at {
                    request.expires_at
                } else {
                    grant.expires_at
                }
            },
    {
        request.validate()?;
        grant.validate()?;
        if !request.active(now) || !grant.active(now) || !text_eq(
            request.tenant_id.as_str(),
            grant.tenant_id.as_str(),
        ) || !text_eq(request.specialist_id.as_str(), grant.specialist_id.as_str()) || !text_eq(
            request.grant_id.as_str(),
            grant.grant_id.as_str(),
        ) {
            return Err(rejected("routing consent binding is invalid"));
        }
        let identity = match registry.resolve(request.specialist_id.as_str(), now) {
            Some(i) => i,
            None => {
                return Err(quarantined("specialist identity is unavailable"));
            },
        };
        let request_digest = request.digest()?;
        let specialist_digest = identity.identity_digest()?;
        let decision = RoutingDecision {
            request_digest,
            input_digest: request.input_digest.clone(),
            tenant_id: request.tenant_id.clone(),
            specialist_id: request.specialist_id.clone(),
            specialist_digest,
            grant_id: grant.grant_id.clone(),
            issued_at: now,
            expires_at: if request.expires_at <= grant.expires_at {
                request.expires_at
            } else {
                grant.expires_at
            },
        };
        decision.validate(registry, grant, request, now)?;
        Ok(decision)
    }

    fn fields_bind(
        &self,
        grant: &ConsentGrant,
        request: &RoutingRequest,
        request_digest: &str,
        specialist_digest: &str,
        now: u64,
    ) -> (r: bool)
        ensures
            r == {
                &&& self.issued_at <= now
                &&& request.created_at <= self.issued_at
                &&& grant.issued_at <= self.issued_at
                &&& now < self.expires_at
                &&& self.expires_at <= request.expires_at
                &&& self.expires_at <= grant.expires_at
                &&& self.request_digest@ == request_digest@
                &&& self.input_digest@ == request.input_digest@
                &&& self.tenant_id@ == request.tenant_id@
                &&& self.specialist_id@ == request.specialist_id@
                &&& self.specialist_digest@ == specialist_digest@
                &&& self.grant_id@ == grant.grant_id@
                &&& request.tenant_id@ == grant.tenant_id@
                &&& request.specialist_id@ == grant.specialist_id@
                &&& request.grant_id@ == grant.grant_id@
            },
    {
        let times = self.issued_at <= now && request.created_at <= self.issued_at
            && grant.issued_at <= self.issued_at && now < self.expires_at && self.expires_at
            <= request.expires_at && self.expires_at <= grant.expires_at;
        let own = text_eq(self.request_digest.as_str(), request_digest) && text_eq(
            self.input_digest.as_str(),
            request.input_digest.as_str(),
        ) && text_eq(self.tenant_id.as_str(), request.tenant_id.as_str()) && text_eq(
            self.specialist_id.as_str(),
            request.specialist_id.as_str(),
        ) && text_eq(self.specialist_digest.as_str(), specialist_digest) && text_eq(
            self.grant_id.as_str(),
            grant.grant_id.as_str(),
        );
        let pair = text_eq(request.tenant_id.as_str(), grant.tenant_id.as_str()) && text_eq(
            request.specialist_id.as_str(),
            grant.specialist_id.as_str(),
        ) && text_eq(request.grant_id.as_str(), grant.grant_id.as_str());
        times && own && pair
    }

    /// Checks that the decision still binds the request, the grant and the
    /// specialist at `now`.
    pub fn validate(
        &self,
        registry: &SpecialistRegistry,
        grant: &ConsentGrant,
        request: &RoutingRequest,
        now: u64,
    ) -> (r: Result<(), Error>)
        ensures
            r is Ok <==> decision_binds(*self, *registry, *grant, *request, now),
            !request.spec_valid() ==> (r matches Err(e) && e is Invalid),
            request.spec_valid() && !grant.spec_shape_ok() ==> (r matches Err(e) && e is Invalid),
            request.spec_valid() && grant.spec_shape_ok() && r is Err ==> (r matches Err(e)
                && e is Rejected),
    {
        request.validate()?;
        grant.validate()?;
        let identity = match registry.resolve(self.specialist_id.as_str(), now) {
            Some(i) => i,
            None => {
                return Err(rejected("specialist identity is unavailable"));
            },
        };
        let request_digest = request.digest()?;
        let specialist_digest = match identity.identity_digest() {
            Ok(d) => d,
            Err(_) => {
                return Err(rejected("routing decision binding mismatch"));
            },
        };
        if !request.active(now) || !grant.active(now) || !self.fields_bind(
            grant,
            request,
            request_digest.as_str(),
            specialist_digest.as_str(),
            now,
        ) {
            return Err(rejected("routing decision binding mismatch"));
        }
        Ok(())
    }
}

} // verus!
