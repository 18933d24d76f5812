//! Signed capability receipts for the local control-plane boundary.
//!
//! A receipt authenticates a previously accepted local decision. It does not
//! authenticate a host, prove that execution happened, or authorize a
//! provider. Verification is caller-owned and in memory.
use crate::canon::{json_nat, json_text, lit, push_lit, push_nat, push_text};
use crate::collections::{entries_map, TextMap, TextSet};
use crate::digest::{digest_bytes, sha256_hex};
use crate::error::{invalid, rejected, Error};
use crate::kernel::{
    decision_digest, decision_material, intent_digest, intent_digest_of, token_digest,
    token_material, Decision, DecisionKind,
};
use crate::order::text_eq;
use crate::records::{action_bytes, push_action, Action, Capability, Policy, Proposal, STATE_SLICE};
use crate::text::{is_digest, text_ok, valid_digest, valid_text};
use ed25519_dalek::{Signature, Signer, SigningKey, Verifier, VerifyingKey};
use vstd::prelude::*;

verus! {

pub const RECEIPT_VERSION: u8 = 1;

pub const SIGNATURE_LEN: usize = 64;

pub const KEY_LEN: usize = 32;

pub const MAX_TEXT_LEN: usize = 256;

pub const VERIFIER_FORMAT_VERSION: u8 = 1;

// ------------------------------------------------------------ Ed25519

/// The Ed25519 public key of a 32-byte secret seed.
pub uninterp spec fn ed25519_public_of(seed: Seq<u8>) -> Seq<u8>;

/// The Ed25519 signature of `message` under the secret seed `seed`.
pub uninterp spec fn ed25519_signature(seed: Seq<u8>, message: Seq<u8>) -> Seq<u8>;

/// Whether the 32 bytes decode to an Ed25519 public key (a curve point).
pub uninterp spec fn ed25519_key_parses(public_key: Seq<u8>) -> bool;

/// Whether the key decodes and the signature verifies over `message`.
pub uninterp spec fn ed25519_accepts(
    public_key: Seq<u8>,
    message: Seq<u8>,
    signature: Seq<u8>,
) -> bool;

/// Calls `SigningKey::from_bytes(seed).verifying_key().to_bytes()` of
/// ed25519-dalek. Claimed: the result is `ed25519_public_of(seed)`, a
/// function of the seed alone, and the key it encodes decodes again
/// (`VerifyingKey::from_bytes` succeeds on the encoding of a point).
#[verifier::external_body]
pub(crate) fn ed25519_public_key(seed: &[u8; 32]) -> (r: [u8; 32])
    ensures
        r@ == ed25519_public_of(seed@),
        ed25519_key_parses(r@),
{
    SigningKey::from_bytes(seed).verifying_key().to_bytes()
}

/// Calls `Signer::sign` on `SigningKey::from_bytes(seed)` and returns the
/// 64 signature bytes. Claimed: the signature is `ed25519_signature(seed,
/// message)` (Ed25519 signing is deterministic, RFC 8032), has 64 bytes, and
/// verifies over `message` under the seed's public key.
#[verifier::external_body]
pub(crate) fn ed25519_sign(seed: &[u8; 32], message: &[u8]) -> (r: Vec<u8>)
    ensures
        r@ == ed25519_signature(seed@, message@),
        r@.len() == 64,
        ed25519_accepts(ed25519_public_of(seed@), message@, r@),
{
    SigningKey::from_bytes(seed).sign(message).to_bytes().to_vec()
}

/// Calls `VerifyingKey::from_bytes`. Claimed: it succeeds exactly when
/// `ed25519_key_parses` holds of the bytes.
#[verifier::external_body]
pub(crate) fn ed25519_key_is_valid(public_key: &[u8; 32]) -> (r: bool)
    ensures
        r == ed25519_key_parses(public_key@),
{
    VerifyingKey::from_bytes(public_key).is_ok()
}

/// Decodes the key with `VerifyingKey::from_bytes`, the signature with
/// `Signature::from_bytes`, and calls `Verifier::verify`. Claimed: the
/// answer is `ed25519_accepts(public_key, message, signature)`.
#[verifier::external_body]
pub(crate) fn ed25519_verify(public_key: &[u8; 32], message: &[u8], signature: &[u8]) -> (r: bool)
    requires
        signature@.len() == 64,
    ensures
        r == ed25519_accepts(public_key@, message@, signature@),
{
    let bytes: [u8; 64] = signature.try_into().unwrap();
    match VerifyingKey::from_bytes(public_key) {
        Ok(key) => key.verify(message, &Signature::from_bytes(&bytes)).is_ok(),
        Err(_) => false,
    }
}

// ------------------------------------------------------------ receipts

/// Non-empty, at most 256 bytes, no control characters.
pub open spec fn receipt_text(s: Seq<char>) -> bool {
    text_ok(s, 256)
}

/// A receipt delegating an accepted capability to a subject.
#[derive(Clone, PartialEq, Eq)]
pub struct CapabilityReceipt {
    /// Digest of the complete proposal bytes.
    pub proposal_digest: String,
    /// Candidate digest from the accepted kernel decision.
    pub candidate_digest: String,
    /// Digest of the exact policy used for admission.
    pub policy_digest: String,
    /// Digest of the complete capability issued by the kernel.
    pub capability_digest: String,
    /// Caller or tenant subject to which this receipt is delegated.
    pub subject: String,
    /// Agent identity bound by the accepted proposal and capability.
    pub agent_id: String,
    pub action: Action,
    pub scope: String,
    pub issuer_key_id: String,
    pub issued_at: u64,
    pub expires_at: u64,
    /// Ed25519 signature over the canonical receipt payload, excluding this field.
    pub signature: Vec<u8>,
    /// Digest of the signed, non-signature receipt identity.
    pub receipt_id: String,
}

/// The two receipts carry the same values.
pub open spec fn same_receipt(a: CapabilityReceipt, b: CapabilityReceipt) -> bool {
    &&& a.proposal_digest@ == b.proposal_digest@
    &&& a.candidate_digest@ == b.candidate_digest@
    &&& a.policy_digest@ == b.policy_digest@
    &&& a.capability_digest@ == b.capability_digest@
    &&& a.subject@ == b.subject@
    &&& a.agent_id@ == b.agent_id@
    &&& a.action == b.action
    &&& a.scope@ == b.scope@
    &&& a.issuer_key_id@ == b.issuer_key_id@
    &&& a.issued_at == b.issued_at
    &&& a.expires_at == b.expires_at
    &&& a.signature@ == b.signature@
    &&& a.receipt_id@ == b.receipt_id@
}

impl CapabilityReceipt {
    pub fn copy_receipt(&self) -> (r: CapabilityReceipt)
        ensures
            same_receipt(r, *self),
    {
        CapabilityReceipt {
            proposal_digest: self.proposal_digest.clone(),
            candidate_digest: self.candidate_digest.clone(),
            policy_digest: self.policy_digest.clone(),
            capability_digest: self.capability_digest.clone(),
            subject: self.subject.clone(),
            agent_id: self.agent_id.clone(),
            action: self.action,
            scope: self.scope.clone(),
            issuer_key_id: self.issuer_key_id.clone(),
            issued_at: self.issued_at,
            expires_at: self.expires_at,
            signature: self.signature.clone(),
            receipt_id: self.receipt_id.clone(),
        }
    }

    pub open spec fn body_part0(&self) -> Seq<u8> {
        lit("{\"version\":") + json_nat(1) + lit(",\"state_slice\":") + json_text(STATE_SLICE@)
            + lit(",\"proposal_digest\":") + json_text(self.proposal_digest@) + lit(
            ",\"candidate_digest\":",
        ) + json_text(self.candidate_digest@) + lit(",\"policy_digest\":") + json_text(
            self.policy_digest@,
        )
    }

    pub open spec fn body_part1(&self) -> Seq<u8> {
        lit(",\"capability_digest\":") + json_text(self.capability_digest@) + lit(",\"subject\":")
            + json_text(self.subject@) + lit(",\"agent_id\":") + json_text(self.agent_id@) + lit(
            ",\"action\":",
        ) + action_bytes(self.action) + lit(",\"scope\":") + json_text(self.scope@)
    }

    pub open spec fn body_part2(&self) -> Seq<u8> {
        lit(",\"issuer_key_id\":") + json_text(self.issuer_key_id@) + lit(",\"issued_at\":")
            + json_nat(self.issued_at as nat) + lit(",\"expires_at\":") + json_nat(
            self.expires_at as nat,
        )
    }

    /// The identity fields, as the canonical encoding writes them, without
    /// the closing brace.
    pub open spec fn body(&self) -> Seq<u8> {
        self.body_part0() + self.body_part1() + self.body_part2()
    }

    /// The bytes the receipt id is the digest of.
    pub open spec fn identity_bytes(&self) -> Seq<u8> {
        self.body() + lit("}")
    }

    /// The bytes the signature is over: the identity and the receipt id.
    pub open spec fn signing_bytes(&self) -> Seq<u8> {
        self.body() + lit(",\"receipt_id\":") + json_text(self.receipt_id@) + lit("}")
    }

    pub open spec fn expected_id(&self) -> Seq<char> {
        sha256_hex(self.identity_bytes())
    }

    /// Well-formed digests, identity fields and window, a 64-byte signature,
    /// and a receipt id that recomputes.
    pub open spec fn shape_ok(&self) -> bool {
        &&& is_digest(self.proposal_digest@)
        &&& is_digest(self.candidate_digest@)
        &&& is_digest(self.policy_digest@)
        &&& is_digest(self.capability_digest@)
        &&& is_digest(self.receipt_id@)
        &&& receipt_text(self.subject@)
        &&& receipt_text(self.agent_id@)
        &&& receipt_text(self.scope@)
        &&& receipt_text(self.issuer_key_id@)
        &&& self.issued_at < self.expires_at
        &&& self.signature@.len() == SIGNATURE_LEN
        &&& self.receipt_id@ == self.expected_id()
    }

    pub open spec fn spec_valid_at(&self, now: u64) -> bool {
        self.shape_ok() && self.issued_at <= now && now < self.expires_at
    }

    fn push_body(&self, out: &mut Vec<u8>)
        ensures
            final(out)@ == old(out)@ + self.body(),
    {
        let ghost start = out@;
        push_lit(out, "{\"version\":");
        push_nat(out, 1);
        push_lit(out, ",\"state_slice\":");
        push_text(out, STATE_SLICE);
        push_lit(out, ",\"proposal_digest\":");
        push_text(out, self.proposal_digest.as_str());
        push_lit(out, ",\"candidate_digest\":");
        push_text(out, self.candidate_digest.as_str());
        push_lit(out, ",\"policy_digest\":");
        push_text(out, self.policy_digest.as_str());
        assert(out@ =~= start + self.body_part0());
        let ghost mid = out@;
        push_lit(out, ",\"capability_digest\":");
        push_text(out, self.capability_digest.as_str());
        push_lit(out, ",\"subject\":");
        push_text(out, self.subject.as_str());
        push_lit(out, ",\"agent_id\":");
        push_text(out, self.agent_id.as_str());
        push_lit(out, ",\"action\":");
        push_action(out, self.action);
        push_lit(out, ",\"scope\":");
        push_text(out, self.scope.as_str());
        assert(out@ =~= mid + self.body_part1());
        let ghost late = out@;
        push_lit(out, ",\"issuer_key_id\":");
        push_text(out, self.issuer_key_id.as_str());
        push_lit(out, ",\"issued_at\":");
        push_nat(out, self.issued_at);
        push_lit(out, ",\"expires_at\":");
        push_nat(out, self.expires_at);
        assert(out@ =~= late + self.body_part2());
        assert(out@ =~= start + self.body());
    }

    fn identity_digest(&self) -> (r: String)
        ensures
            r@ == self.expected_id(),
            is_digest(r@),
    {
        let mut out: Vec<u8> = Vec::new();
        self.push_body(&mut out);
        push_lit(&mut out, "}");
        assert(out@ =~= self.identity_bytes());
        digest_bytes(out.as_slice())
    }

    fn signing_payload(&self) -> (r: Vec<u8>)
        ensures
            r@ == self.signing_bytes(),
    {
        let mut out: Vec<u8> = Vec::new();
        self.push_body(&mut out);
        push_lit(&mut out, ",\"receipt_id\":");
        push_text(&mut out, self.receipt_id.as_str());
        push_lit(&mut out, "}");
        assert(out@ =~= self.signing_bytes());
        out
    }

    /// Checks the fields and the identity binding; the signature itself is
    /// checked by `ReceiptVerifier::verify`.
    pub fn validate(&self) -> (r: Result<(), Error>)
        ensures
            r is Ok <==> self.shape_ok(),
            r matches Err(e) ==> e is Invalid,
    {
        if !valid_digest(self.proposal_digest.as_str()) || !valid_digest(
            self.candidate_digest.as_str(),
        ) || !valid_digest(self.policy_digest.as_str()) || !valid_digest(
            self.capability_digest.as_str(),
        ) || !valid_digest(self.receipt_id.as_str()) {
            return Err(invalid("receipt digest fields must be lowercase SHA-256 digests"));
        }
        if !valid_text(self.subject.as_str(), MAX_TEXT_LEN) || !valid_text(
            self.agent_id.as_str(),
            MAX_TEXT_LEN,
        ) || !valid_text(self.scope.as_str(), MAX_TEXT_LEN) || !valid_text(
            self.issuer_key_id.as_str(),
            MAX_TEXT_LEN,
        ) {
            return Err(invalid("receipt identity fields are malformed"));
        }
        if self.issued_at >= self.expires_at {
            return Err(invalid("receipt issuance window is invalid"));
        }
        if self.signature.len() != SIGNATURE_LEN {
            return Err(invalid("receipt signature length is invalid"));
        }
        let expected = self.identity_digest();
        if !text_eq(self.receipt_id.as_str(), expected.as_str()) {
            return Err(invalid("receipt identity digest mismatch"));
        }
        Ok(())
    }

    /// Well formed and inside `[issued_at, expires_at)` at `now`.
    pub fn is_valid_at(&self, now: u64) -> (r: bool)
        ensures
            r == self.spec_valid_at(now),
    {
        self.validate().is_ok() && self.issued_at <= now && now < self.expires_at
    }
}

/// Well-formed capability fields and window.
pub open spec fn capability_shape_ok(c: Capability) -> bool {
    &&& is_digest(c.token_id@)
    &&& is_digest(c.intent_digest@)
    &&& receipt_text(c.agent_id@)
    &&& receipt_text(c.scope@)
    &&& c.issued_at < c.expires_at
}

fn validate_capability(capability: &Capability) -> (r: Result<(), Error>)
    ensures
        r is Ok <==> capability_shape_ok(*capability),
        r matches Err(e) ==> e is Invalid,
{
    if !valid_digest(capability.token_id.as_str()) || !valid_digest(
        capability.intent_digest.as_str(),
    ) || !valid_text(capability.agent_id.as_str(), MAX_TEXT_LEN) || !valid_text(
        capability.scope.as_str(),
        MAX_TEXT_LEN,
    ) || capability.issued_at >= capability.expires_at {
        return Err(invalid("capability fields are malformed"));
    }
    Ok(())
}

fn capability_digest(capability: &Capability) -> (r: String)
    ensures
        r@ == sha256_hex(capability.bytes()),
        is_digest(r@),
{
    let mut out: Vec<u8> = Vec::new();
    capability.push_canonical(&mut out);
    assert(out@ =~= capability.bytes());
    digest_bytes(out.as_slice())
}

/// The decision was made for this proposal under this policy and carries a
/// capability issued for exactly this proposal.
pub open spec fn decision_binds(p: Proposal, d: Decision, policy: Policy, c: Capability) -> bool {
    &&& d.candidate_digest@ == p.spec_digest()
    &&& d.candidate_id@ == p.candidate_id@
    &&& d.policy_digest@ == policy.spec_digest()
    &&& d.decision_digest@ == sha256_hex(
        decision_material(
            p.candidate_id@,
            d.kind,
            d.reason@,
            p.spec_digest(),
            policy.spec_digest(),
            Some(c),
        ),
    )
    &&& c.agent_id@ == p.agent_id@
    &&& c.action == p.action
    &&& c.scope@ == p.scope@
    &&& c.intent_digest@ == intent_digest_of(p)
    &&& c.token_id@ == sha256_hex(token_material(p.spec_digest(), c.issued_at, policy.spec_digest()))
    &&& c.budget@ == p.resource_cost@
}

fn check_decision_binding(
    proposal: &Proposal,
    decision: &Decision,
    policy: &Policy,
    capability: &Capability,
    proposal_digest: &str,
    policy_digest: &str,
) -> (r: bool)
    requires
        proposal_digest@ == proposal.spec_digest(),
        policy_digest@ == policy.spec_digest(),
        decision.capability matches Some(c) && c == *capability,
    ensures
        r == decision_binds(*proposal, *decision, *policy, *capability),
{
    let expected_intent = intent_digest(proposal);
    let expected_token = token_digest(proposal_digest, capability.issued_at, policy_digest);
    let expected_decision = decision_digest(
        proposal.candidate_id.as_str(),
        decision.kind,
        decision.reason.as_str(),
        proposal_digest,
        policy_digest,
        &decision.capability,
    );
    text_eq(decision.candidate_digest.as_str(), proposal_digest) && text_eq(
        decision.candidate_id.as_str(),
        proposal.candidate_id.as_str(),
    ) && text_eq(decision.policy_digest.as_str(), policy_digest) && text_eq(
        decision.decision_digest.as_str(),
        expected_decision.as_str(),
    ) && text_eq(capability.agent_id.as_str(), proposal.agent_id.as_str()) && capability.action
        == proposal.action && text_eq(capability.scope.as_str(), proposal.scope.as_str())
        && text_eq(capability.intent_digest.as_str(), expected_intent.as_str()) && text_eq(
        capability.token_id.as_str(),
        expected_token.as_str(),
    ) && capability.budget.same_as(&proposal.resource_cost)
}

// ------------------------------------------------------------ issuer

/// An Ed25519 receipt issuer. The secret seed is never exposed or copied
/// into a receipt.
pub struct ReceiptSigner {
    key_id: String,
    seed: [u8; 32],
}

/// What `issue_at` asks before it signs.
pub open spec fn issuable(
    subject: Seq<char>,
    p: Proposal,
    d: Decision,
    policy: Policy,
    issued_at: u64,
    expires_at: u64,
) -> bool {
    &&& receipt_text(subject)
    &&& d.kind == DecisionKind::Accepted
    &&& d.capability is Some
    &&& capability_shape_ok(d.capability->0)
    &&& decision_binds(p, d, policy, d.capability->0)
    &&& d.capability->0.issued_at <= issued_at
    &&& expires_at <= d.capability->0.expires_at
    &&& issued_at < expires_at
}

impl ReceiptSigner {
    #[verifier::type_invariant]
    spec fn inv(self) -> bool {
        receipt_text(self.key_id@)
    }

    pub closed spec fn spec_key_id(&self) -> Seq<char> {
        self.key_id@
    }

    /// The public key of the issuer.
    pub closed spec fn spec_public_key(&self) -> Seq<u8> {
        ed25519_public_of(self.seed@)
    }

    /// The signature the issuer makes over `message`.
    pub closed spec fn spec_signature(&self, message: Seq<u8>) -> Seq<u8> {
        ed25519_signature(self.seed@, message)
    }

    /// An issuer for a well-formed key id and a caller-owned seed.
    pub fn from_seed(key_id: &str, seed: [u8; 32]) -> (r: Result<ReceiptSigner, Error>)
        ensures
            r is Ok <==> receipt_text(key_id@),
            r matches Err(e) ==> e is Invalid,
            r matches Ok(s) ==> s.spec_key_id() == key_id@ && s.spec_public_key()
                == ed25519_public_of(seed@),
    {
        if !valid_text(key_id, MAX_TEXT_LEN) {
            return Err(invalid("issuer key ID is malformed"));
        }
        Ok(ReceiptSigner { key_id: key_id.to_owned(), seed })
    }

    pub fn key_id(&self) -> (r: &str)
        ensures
            r@ == self.spec_key_id(),
    {
        self.key_id.as_str()
    }

    pub fn verifying_key_bytes(&self) -> (r: [u8; 32])
        ensures
            r@ == self.spec_public_key(),
            ed25519_key_parses(r@),
    {
        ed25519_public_key(&self.seed)
    }

    /// Issues a receipt for the capability's whole window.
    pub fn issue(&self, subject: &str, proposal: &Proposal, decision: &Decision, policy: &Policy) -> (r:
        Result<CapabilityReceipt, Error>)
        ensures
            decision.capability is None ==> (r matches Err(e) && e is Rejected),
            decision.capability matches Some(c) ==> self.issues(
                subject@,
                *proposal,
                *decision,
                *policy,
                c.issued_at,
                c.expires_at,
                r,
            ),
    {
        let (issued_at, expires_at) = match &decision.capability {
            Some(c) => (c.issued_at, c.expires_at),
            None => {
                return Err(rejected("accepted decision lacks capability"));
            },
        };
        self.issue_at(subject, proposal, decision, policy, issued_at, expires_at)
    }

    /// What `issue_at` answers: a receipt exactly when the request is
    /// issuable, with every field bound, an id over its identity and this
    /// issuer's signature over its signing bytes.
    pub open spec fn issues(
        &self,
        subject: Seq<char>,
        p: Proposal,
        d: Decision,
        policy: Policy,
        issued_at: u64,
        expires_at: u64,
        r: Result<CapabilityReceipt, Error>,
    ) -> bool {
        &&& r is Ok <==> issuable(subject, p, d, policy, issued_at, expires_at)
        &&& r matches Err(e) ==> e is Invalid || e is Rejected
        &&& r matches Ok(rc) ==> {
            let c = d.capability->0;
            &&& rc.proposal_digest@ == p.spec_digest()
            &&& rc.candidate_digest@ == d.candidate_digest@
            &&& rc.policy_digest@ == policy.spec_digest()
            &&& rc.capability_digest@ == sha256_hex(c.bytes())
            &&& rc.subject@ == subject
            &&& rc.agent_id@ == c.agent_id@
            &&& rc.action == c.action
            &&& rc.scope@ == c.scope@
            &&& rc.issuer_key_id@ == self.spec_key_id()
            &&& rc.issued_at == issued_at
            &&& rc.expires_at == expires_at
            &&& rc.receipt_id@ == rc.expected_id()
            &&& rc.signature@ == self.spec_signature(rc.signing_bytes())
            &&& ed25519_accepts(self.spec_public_key(), rc.signing_bytes(), rc.signature@)
            &&& rc.shape_ok()
        }
    }

    /// Issues a receipt for a window inside the capability's.
    pub fn issue_at(
        &self,
        subject: &str,
        proposal: &Proposal,
        decision: &Decision,
        policy: &Policy,
        issued_at: u64,
        expires_at: u64,
    ) -> (r: Result<CapabilityReceipt, Error>)
        ensures
            self.issues(subject@, *proposal, *decision, *policy, issued_at, expires_at, r),
    {
        proof {
            use_type_invariant(self);
        }
        if !valid_text(subject, MAX_TEXT_LEN) {
            return Err(invalid("receipt subject is malformed"));
        }
        if decision.kind != DecisionKind::Accepted {
            return Err(rejected("only accepted decisions can receive a receipt"));
        }
        let capability = match &decision.capability {
            Some(c) => c,
            None => {
                return Err(rejected("accepted decision lacks capability"));
            },
        };
        validate_capability(capability)?;
        let proposal_digest = proposal.digest_text();
        let policy_digest = policy.digest_text();
        let capability_digest = capability_digest(capability);
        if !check_decision_binding(
            proposal,
            decision,
            policy,
            capability,
            proposal_digest.as_str(),
            policy_digest.as_str(),
        ) {
            return Err(rejected("decision, proposal, policy, or capability binding failed"));
        }
        if issued_at < capability.issued_at || expires_at > capability.expires_at || issued_at
            >= expires_at {
            return Err(rejected("receipt window exceeds capability validity"));
        }
        let mut receipt = CapabilityReceipt {
            proposal_digest,
            candidate_digest: decision.candidate_digest.clone(),
            policy_digest,
            capability_digest,
            subject: subject.to_owned(),
            agent_id: capability.agent_id.clone(),
            action: capability.action,
            scope: capability.scope.clone(),
            issuer_key_id: self.key_id.clone(),
            issued_at,
            expires_at,
            signature: Vec::new(),
            receipt_id: String::new(),
        };
        receipt.receipt_id = receipt.identity_digest();
        let payload = receipt.signing_payload();
        receipt.signature = ed25519_sign(&self.seed, payload.as_slice());
        receipt.validate()?;
        Ok(receipt)
    }
}

// ------------------------------------------------------------ verifier

/// A local verifier: trusted issuer keys by id, and the ids of the receipts
/// it has verified (the replay set).
pub struct ReceiptVerifier {
    trusted_keys: TextMap<[u8; 32]>,
    verified: TextSet,
}

/// What `verify` accepts: a well-formed receipt delegated to `subject`,
/// valid at `now`, not yet verified, signed by a trusted key, and bound to
/// an accepted decision for this proposal under this policy, inside the
/// capability's window.
pub open spec fn verifies(
    keys: Map<Seq<char>, [u8; 32]>,
    verified: Set<Seq<char>>,
    rc: CapabilityReceipt,
    subject: Seq<char>,
    p: Proposal,
    d: Decision,
    policy: Policy,
    now: u64,
) -> bool {
    &&& rc.shape_ok()
    &&& receipt_text(subject)
    &&& rc.subject@ == subject
    &&& rc.spec_valid_at(now)
    &&& !verified.contains(rc.receipt_id@)
    &&& keys.contains_key(rc.issuer_key_id@)
    &&& ed25519_accepts(keys[rc.issuer_key_id@]@, rc.signing_bytes(), rc.signature@)
    &&& d.capability is Some
    &&& capability_shape_ok(d.capability->0)
    &&& d.kind == DecisionKind::Accepted
    &&& decision_binds(p, d, policy, d.capability->0)
    &&& rc.proposal_digest@ == p.spec_digest()
    &&& rc.candidate_digest@ == d.candidate_digest@
    &&& rc.policy_digest@ == policy.spec_digest()
    &&& rc.capability_digest@ == sha256_hex(d.capability->0.bytes())
    &&& rc.agent_id@ == p.agent_id@
    &&& rc.action == p.action
    &&& rc.scope@ == p.scope@
    &&& d.capability->0.issued_at <= rc.issued_at
    &&& rc.expires_at <= d.capability->0.expires_at
}

impl ReceiptVerifier {
    /// Trusted public keys by issuer key id.
    pub closed spec fn key_map(&self) -> Map<Seq<char>, [u8; 32]> {
        entries_map(self.trusted_keys@)
    }

    /// The ids of the receipts verified so far.
    pub closed spec fn verified_set(&self) -> Set<Seq<char>> {
        self.verified@.to_set()
    }

    /// Every trusted key has a well-formed id and decodes, and every
    /// replay-set entry is a digest.
    pub open spec fn spec_valid(&self) -> bool {
        &&& forall|k: Seq<char>|
            #[trigger] self.key_map().contains_key(k) ==> receipt_text(k) && ed25519_key_parses(
                self.key_map()[k]@,
            )
        &&& forall|x: Seq<char>| #[trigger] self.verified_set().contains(x) ==> is_digest(x)
    }

    /// A verifier that trusts no key and has verified nothing.
    pub fn new() -> (r: ReceiptVerifier)
        ensures
            r.key_map() == Map::<Seq<char>, [u8; 32]>::empty(),
            r.verified_set() == Set::<Seq<char>>::empty(),
    {
        let r = ReceiptVerifier { trusted_keys: TextMap::new(), verified: TextSet::new() };
        proof {
            assert(entries_map(r.trusted_keys@) =~= Map::<Seq<char>, [u8; 32]>::empty());
            assert(r.verified@.to_set() =~= Set::<Seq<char>>::empty());
        }
        r
    }

    /// A verifier that trusts one key.
    pub fn with_key(key_id: &str, public_key: [u8; 32]) -> (r: Result<ReceiptVerifier, Error>)
        ensures
            r is Ok <==> receipt_text(key_id@) && ed25519_key_parses(public_key@),
            r matches Err(e) ==> e is Invalid,
            r matches Ok(v) ==> v.key_map() == map![key_id@ => public_key] && v.verified_set()
                == Set::<Seq<char>>::empty(),
    {
        let mut verifier = ReceiptVerifier::new();
        match verifier.register_key(key_id, public_key) {
            Ok(()) => {},
            Err(e) => {
                return Err(e);
            },
        }
        proof {
            assert(verifier.key_map() =~= map![key_id@ => public_key]);
        }
        Ok(verifier)
    }

    /// Trusts `public_key` under a new, well-formed key id.
    pub fn register_key(&mut self, key_id: &str, public_key: [u8; 32]) -> (r: Result<(), Error>)
        ensures
            r is Ok <==> receipt_text(key_id@) && ed25519_key_parses(public_key@)
                && !old(self).key_map().contains_key(key_id@) && old(self).spec_valid(),
            !receipt_text(key_id@) || !ed25519_key_parses(public_key@) ==> (r matches Err(e)
                && e is Invalid),
            r is Ok ==> final(self).key_map() == old(self).key_map().insert(key_id@, public_key),
            r is Err ==> final(self).key_map() == old(self).key_map() || !old(self).spec_valid(),
            final(self).verified_set() == old(self).verified_set(),
    {
        if !valid_text(key_id, MAX_TEXT_LEN) {
            return Err(invalid("issuer key ID is malformed"));
        }
        if !ed25519_key_is_valid(&public_key) {
            return Err(invalid("issuer public key is malformed"));
        }
        if self.trusted_keys.contains_key(key_id) {
            return Err(rejected("issuer key ID already registered"));
        }
        let mut keys: TextMap<[u8; 32]> = TextMap::new();
        std::mem::swap(&mut keys, &mut self.trusted_keys);
        keys.insert(key_id.to_owned(), public_key);
        self.trusted_keys = keys;
        proof {
            let before = old(self).key_map();
            let after = self.key_map();
            assert(after == before.insert(key_id@, public_key));
            if old(self).spec_valid() {
                assert forall|k: Seq<char>| #[trigger] after.contains_key(k) implies receipt_text(k)
                    && ed25519_key_parses(after[k]@) by {
                    if k != key_id@ {
                        assert(before.contains_key(k));
                    }
                }
            }
            if self.spec_valid() {
                assert forall|k: Seq<char>| #[trigger] before.contains_key(k) implies receipt_text(k)
                    && ed25519_key_parses(before[k]@) by {
                    assert(after.contains_key(k));
                    assert(k != key_id@);
                }
            }
        }
        self.validate()?;
        Ok(())
    }

    /// Checks every trusted key again and the replay set's digests.
    pub fn validate(&self) -> (r: Result<(), Error>)
        ensures
            r is Ok <==> self.spec_valid(),
            r matches Err(e) ==> e is Invalid,
    {
        let n = self.trusted_keys.len();
        for i in 0..n
            invariant
                n == self.trusted_keys@.len(),
                forall|k: int|
                    0 <= k < i ==> receipt_text((#[trigger] self.trusted_keys@[k]).0)
                        && ed25519_key_parses(self.trusted_keys@[k].1@),
        {
            let key_id = self.trusted_keys.key_at(i);
            let key = self.trusted_keys.value_at(i);
            if !valid_text(key_id.as_str(), MAX_TEXT_LEN) || !ed25519_key_is_valid(key) {
                proof {
                    assert(self.key_map().contains_key(key_id@));
                }
                return Err(invalid("receipt verifier key registry is malformed"));
            }
        }
        proof {
            assert forall|k: Seq<char>| #[trigger] self.key_map().contains_key(k) implies receipt_text(
                k,
            ) && ed25519_key_parses(self.key_map()[k]@) by {
                let e = self.trusted_keys@;
                let idx = crate::collections::entry_keys(e).index_of(k);
                assert(crate::collections::entry_keys(e)[idx] == k);
                assert(e[idx].0 == k);
            }
        }
        let m = self.verified.len();
        for j in 0..m
            invariant
                m == self.verified@.len(),
                forall|k: int| 0 <= k < j ==> is_digest(#[trigger] self.verified@[k]),
        {
            if !valid_digest(self.verified.get(j).as_str()) {
                proof {
                    assert(self.verified@.contains(self.verified@[j as int]));
                    assert(self.verified_set().contains(self.verified@[j as int]));
                }
                return Err(invalid("receipt verifier replay set is malformed"));
            }
        }
        proof {
            assert forall|x: Seq<char>| #[trigger] self.verified_set().contains(x) implies is_digest(
                x,
            ) by {
                let k = self.verified@.index_of(x);
                assert(self.verified@[k] == x);
            }
        }
        Ok(())
    }

    /// The number of verified receipts.
    pub fn verified_count(&self) -> (r: usize)
        ensures
            r == self.verified_set().len(),
    {
        self.verified.len()
    }

    /// Whether receipt `receipt_id` was verified.
    pub fn is_verified(&self, receipt_id: &str) -> (r: bool)
        ensures
            r == self.verified_set().contains(receipt_id@),
    {
        self.verified.contains(receipt_id)
    }

    /// Verifies signature, freshness, the exact decision binding and the
    /// delegation; the receipt enters the replay set only when every check
    /// passes.
    pub fn verify(
        &mut self,
        receipt: &CapabilityReceipt,
        subject: &str,
        proposal: &Proposal,
        decision: &Decision,
        policy: &Policy,
        now: u64,
    ) -> (r: Result<(), Error>)
        ensures
            r is Ok <==> verifies(
                old(self).key_map(),
                old(self).verified_set(),
                *receipt,
                subject@,
                *proposal,
                *decision,
                *policy,
                now,
            ),
            !receipt.shape_ok() ==> (r matches Err(e) && e is Invalid),
            r matches Err(e) ==> e is Invalid || e is Rejected,
            final(self).key_map() == old(self).key_map(),
            r is Ok ==> final(self).verified_set() == old(self).verified_set().insert(
                receipt.receipt_id@,
            ),
            r is Err ==> final(self).verified_set() == old(self).verified_set(),
    {
        receipt.validate()?;
        if !valid_text(subject, MAX_TEXT_LEN) || !text_eq(receipt.subject.as_str(), subject) {
            return Err(rejected("receipt subject delegation mismatch"));
        }
        if !receipt.is_valid_at(now) {
            return Err(rejected("receipt is outside its validity window"));
        }
        if self.verified.contains(receipt.receipt_id.as_str()) {
            return Err(rejected("receipt replayed"));
        }
        let key = match self.trusted_keys.get(receipt.issuer_key_id.as_str()) {
            Some(k) => *k,
            None => {
                return Err(rejected("issuer key is not trusted"));
            },
        };
        let payload = receipt.signing_payload();
        if !ed25519_verify(&key, payload.as_slice(), receipt.signature.as_slice()) {
            return Err(rejected("receipt signature verification failed"));
        }
        let capability = match &decision.capability {
            Some(c) => c,
            None => {
                return Err(rejected("accepted decision lacks capability"));
            },
        };
        validate_capability(capability)?;
        let proposal_digest = proposal.digest_text();
        let policy_digest = policy.digest_text();
        let capability_digest = capability_digest(capability);
        if decision.kind != DecisionKind::Accepted || !check_decision_binding(
            proposal,
            decision,
            policy,
            capability,
            proposal_digest.as_str(),
            policy_digest.as_str(),
        ) || !text_eq(receipt.proposal_digest.as_str(), proposal_digest.as_str()) || !text_eq(
            receipt.candidate_digest.as_str(),
            decision.candidate_digest.as_str(),
        ) || !text_eq(receipt.policy_digest.as_str(), policy_digest.as_str()) || !text_eq(
            receipt.capability_digest.as_str(),
            capability_digest.as_str(),
        ) || !text_eq(receipt.agent_id.as_str(), proposal.agent_id.as_str()) || receipt.action
            != proposal.action || !text_eq(receipt.scope.as_str(), proposal.scope.as_str())
            || receipt.issued_at < capability.issued_at || receipt.expires_at
            > capability.expires_at {
            return Err(
                rejected("receipt proposal, decision, policy, or capability delegation mismatch"),
            );
        }
        let mut verified = TextSet::new();
        std::mem::swap(&mut verified, &mut self.verified);
        verified.insert(receipt.receipt_id.clone());
        self.verified = verified;
        Ok(())
    }
}

impl Default for ReceiptVerifier {
    fn default() -> (r: ReceiptVerifier)
        ensures
            r.key_map() == Map::<Seq<char>, [u8; 32]>::empty(),
            r.verified_set() == Set::<Seq<char>>::empty(),
    {
        ReceiptVerifier::new()
    }
}

/// A receipt an issuer made verifies, once, with a verifier that trusts the
/// issuer's key under its key id, for the same subject, proposal, decision
/// and policy, at any time inside the receipt's window.
pub proof fn lemma_issued_receipt_verifies(
    signer: ReceiptSigner,
    keys: Map<Seq<char>, [u8; 32]>,
    verified: Set<Seq<char>>,
    subject: Seq<char>,
    p: Proposal,
    d: Decision,
    policy: Policy,
    issued_at: u64,
    expires_at: u64,
    rc: CapabilityReceipt,
    now: u64,
)
    requires
        signer.issues(subject, p, d, policy, issued_at, expires_at, Ok(rc)),
        keys.contains_key(signer.spec_key_id()),
        keys[signer.spec_key_id()]@ == signer.spec_public_key(),
        !verified.contains(rc.receipt_id@),
        issued_at <= now < expires_at,
    ensures
        verifies(keys, verified, rc, subject, p, d, policy, now),
        !verifies(keys, verified.insert(rc.receipt_id@), rc, subject, p, d, policy, now),
{
}

} // verus!
