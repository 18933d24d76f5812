//! The admission kernel: deterministic admission, single-use capabilities,
//! per-candidate lifecycles, failure budgets and freeze/kill controls.
use crate::canon::{json_nat, json_null, json_text, lit, push_lit, push_nat, push_null, push_text};
use crate::collections::{entries_map, entry_keys, TextMap, TextSet};
use crate::contract::{
    bump, failure_recorded, next_state, BudgetDecision, FailureBudget, FailureKind, FailureTracker, Lifecycle,
    LifecycleEvent, LifecycleState,
};
use crate::digest::{digest_bytes, sha256_hex};
use crate::error::{invalid, rejected, Error};
use crate::journal::{
    append_allowed, appended, chain_valid, has_candidate, has_replay, same_entries, JournalEntry,
    ReplayJournal,
};
use crate::records::{action_bytes, push_action, vec_contains_action, Action, Capability, Claim, Policy, Proposal};
use crate::order::text_eq;
use crate::text::{is_digest, valid_digest};
use vstd::prelude::*;

verus! {

/// The kind of an admission decision.
#[derive(Clone, Copy, Debug, PartialEq, Eq, Structural)]
pub enum DecisionKind {
    Accepted,
    Rejected,
    Quarantined,
}

pub open spec fn kind_name(k: DecisionKind) -> Seq<char> {
    match k {
        DecisionKind::Accepted => "Accepted"@,
        DecisionKind::Rejected => "Rejected"@,
        DecisionKind::Quarantined => "Quarantined"@,
    }
}

impl DecisionKind {
    pub fn name(&self) -> (r: &'static str)
        ensures
            r@ == kind_name(*self),
    {
        match self {
            DecisionKind::Accepted => "Accepted",
            DecisionKind::Rejected => "Rejected",
            DecisionKind::Quarantined => "Quarantined",
        }
    }
}

/// An admission decision bound to the candidate and the policy.
#[derive(Clone, Debug)]
pub struct Decision {
    pub candidate_id: String,
    pub kind: DecisionKind,
    pub reason: String,
    pub candidate_digest: String,
    pub policy_digest: String,
    pub capability: Option<Capability>,
    pub decision_digest: String,
}

// ------------------------------------------------------------ digest material

/// `["candidate",now,"policy"]`, the material of a capability's token id.
pub open spec fn token_material(candidate: Seq<char>, now: u64, policy: Seq<char>) -> Seq<u8> {
    lit("[") + json_text(candidate) + lit(",") + json_nat(now as nat) + lit(",") + json_text(
        policy,
    ) + lit("]")
}

/// `["agent","intent","Action","scope",nonce]`, the material of an intent digest.
pub open spec fn intent_material(p: Proposal) -> Seq<u8> {
    lit("[") + json_text(p.agent_id@) + lit(",") + json_text(p.intent@) + lit(",") + action_bytes(
        p.action,
    ) + lit(",") + json_text(p.scope@) + lit(",") + json_nat(p.nonce as nat) + lit("]")
}

/// `["agent",nonce]`, the material of a replay digest.
pub open spec fn replay_material(p: Proposal) -> Seq<u8> {
    lit("[") + json_text(p.agent_id@) + lit(",") + json_nat(p.nonce as nat) + lit("]")
}

pub open spec fn option_capability_bytes(c: Option<Capability>) -> Seq<u8> {
    match c {
        Some(c) => c.bytes(),
        None => json_null(),
    }
}

/// `["candidate_id","Kind","reason","candidate","policy",capability|null]`.
pub open spec fn decision_material(
    candidate_id: Seq<char>,
    kind: DecisionKind,
    reason: Seq<char>,
    candidate: Seq<char>,
    policy: Seq<char>,
    capability: Option<Capability>,
) -> Seq<u8> {
    lit("[") + json_text(candidate_id) + lit(",") + json_text(kind_name(kind)) + lit(",")
        + json_text(reason) + lit(",") + json_text(candidate) + lit(",") + json_text(policy) + lit(
        ",",
    ) + option_capability_bytes(capability) + lit("]")
}

pub open spec fn intent_digest_of(p: Proposal) -> Seq<char> {
    sha256_hex(intent_material(p))
}

pub open spec fn replay_digest_of(p: Proposal) -> Seq<char> {
    sha256_hex(replay_material(p))
}

pub(crate) fn token_digest(candidate: &str, now: u64, policy: &str) -> (r: String)
    ensures
        r@ == sha256_hex(token_material(candidate@, now, policy@)),
        is_digest(r@),
{
    let mut out: Vec<u8> = Vec::new();
    push_lit(&mut out, "[");
    push_text(&mut out, candidate);
    push_lit(&mut out, ",");
    push_nat(&mut out, now);
    push_lit(&mut out, ",");
    push_text(&mut out, policy);
    push_lit(&mut out, "]");
    assert(out@ =~= token_material(candidate@, now, policy@));
    digest_bytes(out.as_slice())
}

/// The digest that binds a capability to the proposal's intent.
pub fn intent_digest(p: &Proposal) -> (r: String)
    ensures
        r@ == intent_digest_of(*p),
        is_digest(r@),
{
    let mut out: Vec<u8> = Vec::new();
    push_lit(&mut out, "[");
    push_text(&mut out, p.agent_id.as_str());
    push_lit(&mut out, ",");
    push_text(&mut out, p.intent.as_str());
    push_lit(&mut out, ",");
    push_action(&mut out, p.action);
    push_lit(&mut out, ",");
    push_text(&mut out, p.scope.as_str());
    push_lit(&mut out, ",");
    push_nat(&mut out, p.nonce);
    push_lit(&mut out, "]");
    assert(out@ =~= intent_material(*p));
    digest_bytes(out.as_slice())
}

fn replay_digest(p: &Proposal) -> (r: String)
    ensures
        r@ == replay_digest_of(*p),
        is_digest(r@),
{
    let mut out: Vec<u8> = Vec::new();
    push_lit(&mut out, "[");
    push_text(&mut out, p.agent_id.as_str());
    push_lit(&mut out, ",");
    push_nat(&mut out, p.nonce);
    push_lit(&mut out, "]");
    assert(out@ =~= replay_material(*p));
    digest_bytes(out.as_slice())
}

pub(crate) fn decision_digest(
    candidate_id: &str,
    kind: DecisionKind,
    reason: &str,
    candidate: &str,
    policy: &str,
    capability: &Option<Capability>,
) -> (r: String)
    ensures
        r@ == sha256_hex(
            decision_material(candidate_id@, kind, reason@, candidate@, policy@, *capability),
        ),
        is_digest(r@),
{
    let mut out: Vec<u8> = Vec::new();
    push_lit(&mut out, "[");
    push_text(&mut out, candidate_id);
    push_lit(&mut out, ",");
    push_text(&mut out, kind.name());
    push_lit(&mut out, ",");
    push_text(&mut out, reason);
    push_lit(&mut out, ",");
    push_text(&mut out, candidate);
    push_lit(&mut out, ",");
    push_text(&mut out, policy);
    push_lit(&mut out, ",");
    match capability {
        Some(c) => c.push_canonical(&mut out),
        None => push_null(&mut out),
    }
    push_lit(&mut out, "]");
    assert(out@ =~= decision_material(candidate_id@, kind, reason@, candidate@, policy@, *capability));
    digest_bytes(out.as_slice())
}

// ------------------------------------------------------------ admission rules

/// Every cost axis is capped by the policy and within its cap.
pub open spec fn costs_within(policy: Policy, cost: Seq<(Seq<char>, u64)>) -> bool {
    forall|i: int|
        0 <= i < cost.len() ==> entries_map(policy.max_cost@).contains_key(#[trigger] cost[i].0)
            && cost[i].1 <= entries_map(policy.max_cost@)[cost[i].0]
}

pub open spec fn some_claim_qualifies(claims: Seq<Claim>, now: u64) -> bool {
    exists|i: int| 0 <= i < claims.len() && (#[trigger] claims[i]).spec_qualifies(now)
}

pub open spec fn min_u64(a: u64, b: u64) -> u64 {
    if a <= b {
        a
    } else {
        b
    }
}

pub open spec fn saturating_add(a: u64, b: u64) -> u64 {
    if a + b > u64::MAX {
        u64::MAX
    } else {
        (a + b) as u64
    }
}

/// The earliest expiry among the qualifying claims of the first `n` claims.
pub open spec fn qualifying_expiry(claims: Seq<Claim>, now: u64, n: int) -> Option<u64>
    decreases n,
{
    if n <= 0 {
        None
    } else {
        let prev = qualifying_expiry(claims, now, n - 1);
        let c = claims[n - 1];
        if c.spec_qualifies(now) {
            match prev {
                Some(m) => Some(min_u64(m, c.valid_until)),
                None => Some(c.valid_until),
            }
        } else {
            prev
        }
    }
}

/// The expiry of the capability an accepted proposal would receive.
pub open spec fn capability_expiry(policy: Policy, p: Proposal, now: u64) -> u64 {
    let claim_expiry = match qualifying_expiry(p.claims@, now, p.claims@.len() as int) {
        Some(m) => m,
        None => p.expires_at,
    };
    min_u64(min_u64(p.expires_at, saturating_add(now, policy.token_ttl)), claim_expiry)
}

/// The decision kind the policy gives a well-formed proposal at `now`.
pub open spec fn admission_kind(policy: Policy, p: Proposal, now: u64) -> DecisionKind {
    if p.requests_direct_authority {
        DecisionKind::Rejected
    } else if !p.allowed_by(policy) {
        DecisionKind::Rejected
    } else if !costs_within(policy, p.resource_cost@) {
        DecisionKind::Rejected
    } else if !some_claim_qualifies(p.claims@, now) {
        DecisionKind::Quarantined
    } else if capability_expiry(policy, p, now) <= now {
        DecisionKind::Quarantined
    } else {
        DecisionKind::Accepted
    }
}

/// The reason recorded with that decision.
pub open spec fn admission_reason(policy: Policy, p: Proposal, now: u64) -> Seq<char> {
    if p.requests_direct_authority {
        "model requested direct authority"@
    } else if !p.allowed_by(policy) {
        "action or scope is not allowlisted"@
    } else if !costs_within(policy, p.resource_cost@) {
        "resource budget exceeded"@
    } else if !some_claim_qualifies(p.claims@, now) {
        "required claim is absent, stale, or malformed"@
    } else if capability_expiry(policy, p, now) <= now {
        "claim expires before capability"@
    } else {
        "policy satisfied"@
    }
}

impl Proposal {
    /// The action and the scope are allow-listed.
    pub open spec fn allowed_by(&self, policy: Policy) -> bool {
        policy.allowed_actions@.contains(self.action) && policy.allowed_scopes@.contains(self.scope@)
    }
}

/// The lifecycle state a fresh record enters for a decision kind.
pub open spec fn entered_state(k: DecisionKind) -> LifecycleState {
    match k {
        DecisionKind::Accepted => LifecycleState::Admitted,
        DecisionKind::Rejected => LifecycleState::Rejected,
        DecisionKind::Quarantined => LifecycleState::Quarantined,
    }
}

/// The capability a decision carries, field by field.
pub open spec fn capability_matches(
    c: Capability,
    policy: Policy,
    p: Proposal,
    now: u64,
) -> bool {
    &&& c.token_id@ == sha256_hex(token_material(p.spec_digest(), now, policy.spec_digest()))
    &&& c.agent_id@ == p.agent_id@
    &&& c.action == p.action
    &&& c.scope@ == p.scope@
    &&& c.intent_digest@ == intent_digest_of(p)
    &&& c.issued_at == now
    &&& c.expires_at == capability_expiry(policy, p, now)
    &&& c.budget@ == p.resource_cost@
}

/// A record of an issued capability.
pub struct Issuance {
    pub candidate_digest: String,
    pub decision_digest: String,
    pub policy_digest: String,
    pub capability: Capability,
    pub consumed: bool,
}

/// The persistent part of a kernel.
pub struct KernelSnapshot {
    pub policy: Policy,
    pub journal: ReplayJournal,
    pub lifecycles: TextMap<Lifecycle>,
    pub failure_tracker: Option<FailureTracker>,
    pub frozen: bool,
    pub killed: bool,
}

/// The admission kernel. Issuance records live in this process only.
pub struct Kernel {
    pub policy: Policy,
    pub journal: ReplayJournal,
    issuances: TextMap<Issuance>,
    lifecycles: TextMap<Lifecycle>,
    failure_tracker: Option<FailureTracker>,
    frozen: bool,
    killed: bool,
}

impl Kernel {
    /// The policy the kernel admits under.
    pub closed spec fn spec_policy(&self) -> Policy {
        self.policy
    }

    /// The decision journal's entries.
    pub closed spec fn journal_entries(&self) -> Seq<JournalEntry> {
        self.journal.entries@
    }

    pub closed spec fn lifecycle_entries(&self) -> Seq<(Seq<char>, Lifecycle)> {
        self.lifecycles@
    }

    /// Lifecycle records by candidate digest.
    pub open spec fn lifecycle_map(&self) -> Map<Seq<char>, Lifecycle> {
        entries_map(self.lifecycle_entries())
    }

    pub closed spec fn issuance_entries(&self) -> Seq<(Seq<char>, Issuance)> {
        self.issuances@
    }

    /// Issued capabilities by candidate digest.
    pub open spec fn issuance_map(&self) -> Map<Seq<char>, Issuance> {
        entries_map(self.issuance_entries())
    }

    pub closed spec fn spec_frozen(&self) -> bool {
        self.frozen
    }

    pub closed spec fn spec_killed(&self) -> bool {
        self.killed
    }

    pub closed spec fn spec_tracker(&self) -> Option<FailureTracker> {
        self.failure_tracker
    }

    pub fn new(policy: Policy) -> (r: Result<Self, Error>)
        ensures
            policy.spec_valid() <==> r is Ok,
            r matches Err(e) ==> e is Invalid,
            r matches Ok(k) ==> {
                &&& k.spec_policy() == policy
                &&& k.journal_entries().len() == 0
                &&& k.lifecycle_entries().len() == 0
                &&& k.issuance_entries().len() == 0
                &&& k.spec_tracker() is None
                &&& !k.spec_frozen()
                &&& !k.spec_killed()
            },
    {
        policy.validate()?;
        Ok(
            Kernel {
                policy,
                journal: ReplayJournal::new(),
                issuances: TextMap::new(),
                lifecycles: TextMap::new(),
                failure_tracker: None,
                frozen: false,
                killed: false,
            },
        )
    }

    pub fn is_frozen(&self) -> (r: bool)
        ensures
            r == self.spec_frozen(),
    {
        self.frozen
    }

    pub fn is_killed(&self) -> (r: bool)
        ensures
            r == self.spec_killed(),
    {
        self.killed
    }

    pub fn lifecycle_state(&self, candidate_digest: &str) -> (r: Option<LifecycleState>)
        ensures
            r is Some <==> self.lifecycle_map().contains_key(candidate_digest@),
            r matches Some(s) ==> s == self.lifecycle_map()[candidate_digest@].state,
    {
        match self.lifecycles.get(candidate_digest) {
            Some(l) => Some(l.state),
            None => None,
        }
    }

    /// A copy of every lifecycle record.
    pub fn lifecycle_records(&self) -> (r: TextMap<Lifecycle>)
        ensures
            r@ == self.lifecycle_entries(),
    {
        let r = self.lifecycles.clone();
        proof {
            assert forall|i: int| 0 <= i < r@.len() implies r@[i] == self.lifecycles@[i] by {
                assert(entry_keys(r@)[i] == entry_keys(self.lifecycles@)[i]);
            }
            assert(r@ =~= self.lifecycles@);
        }
        r
    }

    pub fn failure_tracker(&self) -> (r: Option<&FailureTracker>)
        ensures
            match self.spec_tracker() {
                Some(t) => r matches Some(x) && *x == t,
                None => r is None,
            },
    {
        match &self.failure_tracker {
            Some(t) => Some(t),
            None => None,
        }
    }
}


/// An issuance record made for a capability.
pub open spec fn issuance_records(
    i: Issuance,
    candidate: Seq<char>,
    decision: Seq<char>,
    policy: Seq<char>,
    c: Capability,
) -> bool {
    &&& i.candidate_digest@ == candidate
    &&& i.decision_digest@ == decision
    &&& i.policy_digest@ == policy
    &&& i.capability.same(&c)
    &&& !i.consumed
}

/// The digest a decision carries: over its own fields.
pub open spec fn decision_digest_of(d: Decision) -> Seq<char> {
    sha256_hex(
        decision_material(
            d.candidate_id@,
            d.kind,
            d.reason@,
            d.candidate_digest@,
            d.policy_digest@,
            d.capability,
        ),
    )
}

impl Kernel {
    /// Everything a kernel holds is as in `before`.
    pub open spec fn unchanged_from(&self, before: &Kernel) -> bool {
        &&& self.spec_policy() == before.spec_policy()
        &&& self.journal_entries() == before.journal_entries()
        &&& self.lifecycle_entries() == before.lifecycle_entries()
        &&& self.issuance_entries() == before.issuance_entries()
        &&& self.spec_tracker() == before.spec_tracker()
        &&& self.spec_frozen() == before.spec_frozen()
        &&& self.spec_killed() == before.spec_killed()
    }

    /// `self` is `before` after recording decision `d` for proposal `p`: one
    /// journal entry, a fresh lifecycle record in the state the decision
    /// enters, and an unconsumed issuance when a capability was issued.
    pub open spec fn records_decision(&self, before: &Kernel, p: Proposal, d: Decision) -> bool {
        let cd = p.spec_digest();
        &&& d.candidate_id@ == p.candidate_id@
        &&& d.candidate_digest@ == cd
        &&& d.policy_digest@ == before.spec_policy().spec_digest()
        &&& d.decision_digest@ == decision_digest_of(d)
        &&& self.spec_policy() == before.spec_policy()
        &&& self.journal_entries().len() == before.journal_entries().len() + 1
        &&& self.journal_entries().drop_last() == before.journal_entries()
        &&& appended(
            before.journal_entries(),
            cd,
            replay_digest_of(p),
            d.decision_digest@,
            self.journal_entries().last(),
        )
        &&& self.lifecycle_map() == before.lifecycle_map().insert(
            cd,
            Lifecycle { state: entered_state(d.kind), revision: 1 },
        )
        &&& match d.capability {
            Some(c) => {
                &&& self.issuance_map() == before.issuance_map().insert(cd, self.issuance_map()[cd])
                &&& issuance_records(self.issuance_map()[cd], cd, d.decision_digest@, d.policy_digest@, c)
            },
            None => self.issuance_map() == before.issuance_map(),
        }
        &&& self.spec_tracker() == before.spec_tracker()
        &&& self.spec_frozen() == before.spec_frozen()
        &&& self.spec_killed() == before.spec_killed()
    }

    /// Journals a decision and opens its lifecycle record.
    fn record(
        &mut self,
        proposal: &Proposal,
        kind: DecisionKind,
        reason: &str,
        capability: Option<Capability>,
    ) -> (r: Result<Decision, Error>)
        ensures
            r is Ok <==> !has_candidate(old(self).journal_entries(), proposal.spec_digest())
                && !has_replay(old(self).journal_entries(), replay_digest_of(*proposal)),
            r matches Ok(d) ==> {
                &&& final(self).records_decision(old(self), *proposal, d)
                &&& d.kind == kind
                &&& d.reason@ == reason@
                &&& match capability {
                    Some(c) => d.capability matches Some(x) && x.same(&c),
                    None => d.capability is None,
                }
            },
            r matches Err(e) ==> e is Journal && final(self).unchanged_from(old(self)),
            r matches Err(e) ==> e matches Error::Journal(m) && m@ == journal_refusal(
                old(self).journal_entries(),
                *proposal,
            ),
    {
        let candidate_digest = proposal.digest_text();
        let event = match kind {
            DecisionKind::Accepted => LifecycleEvent::Admit,
            DecisionKind::Rejected => LifecycleEvent::Reject,
            DecisionKind::Quarantined => LifecycleEvent::Quarantine,
        };
        let mut lifecycle = Lifecycle::new();
        let applied = lifecycle.apply(event);
        if applied.is_err() {
            return Err(rejected("invalid lifecycle transition"));
        }
        let policy_digest = self.policy.digest_text();
        let decision = decision_digest(
            proposal.candidate_id.as_str(),
            kind,
            reason,
            candidate_digest.as_str(),
            policy_digest.as_str(),
            &capability,
        );
        let replay = replay_digest(proposal);
        let appended = self.journal.append(candidate_digest.as_str(), replay.as_str(), decision.as_str());
        if let Err(e) = appended {
            return Err(e);
        }
        self.lifecycles.insert(candidate_digest.clone(), lifecycle);
        let decision_capability = match &capability {
            Some(c) => Some(c.copy_capability()),
            None => None,
        };
        let made = Decision {
            candidate_id: proposal.candidate_id.clone(),
            kind,
            reason: reason.to_owned(),
            candidate_digest: candidate_digest.clone(),
            policy_digest: policy_digest.clone(),
            capability: decision_capability,
            decision_digest: decision.clone(),
        };
        proof {
            if capability is Some {
                assert(made.capability->0.bytes() == capability->0.bytes());
            }
        }
        match capability {
            Some(c) => {
                self.issuances.insert(
                    candidate_digest.clone(),
                    Issuance {
                        candidate_digest,
                        decision_digest: decision,
                        policy_digest,
                        capability: c,
                        consumed: false,
                    },
                );
            },
            None => {},
        }
        Ok(made)
    }
}


/// Admitting `p` at `now` on `k` answers `Ok`: the kernel is open, its
/// policy valid, the proposal well formed, and neither its candidate nor its
/// agent's nonce journaled.
pub open spec fn admission_succeeds(k: Kernel, p: Proposal, now: u64) -> bool {
    &&& !k.spec_frozen()
    &&& !k.spec_killed()
    &&& k.spec_policy().spec_valid()
    &&& p.spec_shape_valid(now)
    &&& !has_candidate(k.journal_entries(), p.spec_digest())
    &&& !has_replay(k.journal_entries(), replay_digest_of(p))
}

/// Why the journal refuses `p`: its candidate, or else its agent's nonce,
/// was already journaled.
pub open spec fn journal_refusal(entries: Seq<JournalEntry>, p: Proposal) -> Seq<char> {
    if has_candidate(entries, p.spec_digest()) {
        "replayed candidate"@
    } else {
        "replayed agent nonce"@
    }
}

/// The outcome of admitting `p` at `now` on kernel `before`, leaving `after`.
///
/// A frozen or killed kernel, an invalid policy and a malformed proposal are
/// refused without any change; otherwise the decision that `admission_kind`
/// and `admission_reason` describe is recorded, unless the candidate or the
/// agent's nonce was already journaled.
pub open spec fn admits(before: Kernel, after: Kernel, p: Proposal, now: u64, r: Result<Decision, Error>) -> bool {
    let open_kernel = !before.spec_frozen() && !before.spec_killed();
    &&& !open_kernel ==> (r matches Err(e) && e is Rejected)
    &&& open_kernel && !before.spec_policy().spec_valid() ==> (r matches Err(e) && e is Invalid)
    &&& open_kernel && before.spec_policy().spec_valid() && !p.spec_shape_valid(now) ==> (
    r matches Err(e) && e is Invalid)
    &&& open_kernel && before.spec_policy().spec_valid() && p.spec_shape_valid(now) ==> {
        &&& r is Ok <==> !has_candidate(before.journal_entries(), p.spec_digest()) && !has_replay(
            before.journal_entries(),
            replay_digest_of(p),
        )
        &&& r matches Err(e) ==> e matches Error::Journal(m) && m@ == journal_refusal(
            before.journal_entries(),
            p,
        )
    }
    &&& r is Err ==> after.unchanged_from(&before)
    &&& r matches Ok(d) ==> {
        &&& after.records_decision(&before, p, d)
        &&& d.kind == admission_kind(before.spec_policy(), p, now)
        &&& d.reason@ == admission_reason(before.spec_policy(), p, now)
        &&& d.capability is Some <==> d.kind == DecisionKind::Accepted
        &&& d.capability matches Some(c) ==> capability_matches(c, before.spec_policy(), p, now)
    }
}

/// Whether every cost axis of `cost` is capped by `policy` and within its cap.
fn costs_ok(policy: &Policy, cost: &TextMap<u64>) -> (r: bool)
    ensures
        r == costs_within(*policy, cost@),
{
    let n = cost.len();
    for i in 0..n
        invariant
            n == cost@.len(),
            forall|k: int|
                0 <= k < i ==> entries_map(policy.max_cost@).contains_key(#[trigger] cost@[k].0)
                    && cost@[k].1 <= entries_map(policy.max_cost@)[cost@[k].0],
    {
        let axis = cost.key_at(i);
        let amount = *cost.value_at(i);
        match policy.max_cost.get(axis.as_str()) {
            Some(limit) => {
                if amount > *limit {
                    return false;
                }
            },
            None => {
                return false;
            },
        }
    }
    true
}

fn any_claim_qualifies(claims: &Vec<Claim>, now: u64) -> (r: bool)
    ensures
        r == some_claim_qualifies(claims@, now),
{
    let n = claims.len();
    for i in 0..n
        invariant
            n == claims@.len(),
            forall|k: int| 0 <= k < i ==> !(#[trigger] claims@[k]).spec_qualifies(now),
    {
        if claims[i].qualifies(now) {
            return true;
        }
    }
    false
}

fn earliest_qualifying_expiry(claims: &Vec<Claim>, now: u64) -> (r: Option<u64>)
    ensures
        r == qualifying_expiry(claims@, now, claims@.len() as int),
{
    let mut best: Option<u64> = None;
    let n = claims.len();
    for i in 0..n
        invariant
            n == claims@.len(),
            best == qualifying_expiry(claims@, now, i as int),
    {
        if claims[i].qualifies(now) {
            let v = claims[i].valid_until;
            best = match best {
                Some(m) => Some(if m <= v { m } else { v }),
                None => Some(v),
            };
        }
    }
    best
}

impl Kernel {
    /// Admits, rejects or quarantines a proposal and journals the decision.
    ///
    /// A frozen or killed kernel, an invalid policy and a malformed proposal
    /// are refused without any change; otherwise the decision that
    /// `admission_kind` and `admission_reason` describe is recorded, unless
    /// the candidate or the agent's nonce was already journaled.
    pub fn admit_proposal(&mut self, proposal: &Proposal, now: u64) -> (r: Result<Decision, Error>)
        ensures
            admits(*old(self), *final(self), *proposal, now, r),
    {
        if self.frozen || self.killed {
            return Err(rejected("kernel is frozen or killed"));
        }
        self.policy.validate()?;
        proposal.validate_shape(now)?;
        if proposal.requests_direct_authority {
            return self.record(proposal, DecisionKind::Rejected, "model requested direct authority", None);
        }
        if !vec_contains_action(&self.policy.allowed_actions, proposal.action)
            || !self.policy.allowed_scopes.contains(proposal.scope.as_str()) {
            return self.record(proposal, DecisionKind::Rejected, "action or scope is not allowlisted", None);
        }
        if !costs_ok(&self.policy, &proposal.resource_cost) {
            return self.record(proposal, DecisionKind::Rejected, "resource budget exceeded", None);
        }
        if !any_claim_qualifies(&proposal.claims, now) {
            return self.record(
                proposal,
                DecisionKind::Quarantined,
                "required claim is absent, stale, or malformed",
                None,
            );
        }
        let candidate_digest = proposal.digest_text();
        let policy_digest = self.policy.digest_text();
        let claim_expiry = match earliest_qualifying_expiry(&proposal.claims, now) {
            Some(m) => m,
            None => proposal.expires_at,
        };
        let ttl_end = now.saturating_add(self.policy.token_ttl);
        let first = if proposal.expires_at <= ttl_end {
            proposal.expires_at
        } else {
            ttl_end
        };
        let expires_at = if first <= claim_expiry {
            first
        } else {
            claim_expiry
        };
        if expires_at <= now {
            return self.record(
                proposal,
                DecisionKind::Quarantined,
                "claim expires before capability",
                None,
            );
        }
        let capability = Capability {
            token_id: token_digest(candidate_digest.as_str(), now, policy_digest.as_str()),
            agent_id: proposal.agent_id.clone(),
            action: proposal.action,
            scope: proposal.scope.clone(),
            intent_digest: intent_digest(proposal),
            issued_at: now,
            expires_at,
            budget: proposal.resource_cost.copy_map(),
        };
        self.record(proposal, DecisionKind::Accepted, "policy satisfied", Some(capability))
    }
}


/// The issuance still honours decision `d` at `now`: unconsumed, accepted,
/// bound to the same candidate, decision, policy and capability, and inside
/// the capability's validity window.
pub open spec fn honours(i: Issuance, d: Decision, now: u64) -> bool {
    &&& !i.consumed
    &&& d.kind == DecisionKind::Accepted
    &&& d.candidate_digest@ == i.candidate_digest@
    &&& d.decision_digest@ == i.decision_digest@
    &&& d.policy_digest@ == i.policy_digest@
    &&& d.capability matches Some(c) && c.same(&i.capability)
    &&& i.capability.issued_at <= now
    &&& now < i.capability.expires_at
}

/// `after` is issuance `before` marked consumed.
pub open spec fn consumed_version(after: Issuance, before: Issuance) -> bool {
    &&& after.candidate_digest@ == before.candidate_digest@
    &&& after.decision_digest@ == before.decision_digest@
    &&& after.policy_digest@ == before.policy_digest@
    &&& after.capability.same(&before.capability)
    &&& after.consumed
}

/// Which step of `consume` decides its answer.
pub enum ConsumeStep {
    Closed,
    BadPolicy,
    NoRecord,
    NotAdmitted,
    NoIssuance,
    StalePolicy,
    Mismatch,
    Spend,
}

/// The step of `consume` that decides, for a kernel state and its inputs.
pub open spec fn consume_step(before: Kernel, p: Proposal, d: Decision, now: u64) -> ConsumeStep {
    let key = p.spec_digest();
    let lm = before.lifecycle_map();
    let im = before.issuance_map();
    if before.spec_frozen() || before.spec_killed() {
        ConsumeStep::Closed
    } else if !before.spec_policy().spec_valid() {
        ConsumeStep::BadPolicy
    } else if !lm.contains_key(key) {
        ConsumeStep::NoRecord
    } else if lm[key].state != LifecycleState::Admitted {
        ConsumeStep::NotAdmitted
    } else if !im.contains_key(key) {
        ConsumeStep::NoIssuance
    } else if d.policy_digest@ != im[key].policy_digest@ || d.policy_digest@
        != before.spec_policy().spec_digest() {
        ConsumeStep::StalePolicy
    } else if !honours(im[key], d, now) {
        ConsumeStep::Mismatch
    } else {
        ConsumeStep::Spend
    }
}

/// The answer `consume` gives at a step.
pub open spec fn consume_answer(step: ConsumeStep, r: Result<bool, Error>) -> bool {
    match step {
        ConsumeStep::Closed | ConsumeStep::NotAdmitted | ConsumeStep::StalePolicy
        | ConsumeStep::Mismatch => r == Ok::<bool, Error>(false),
        ConsumeStep::BadPolicy => r matches Err(e) && e is Invalid,
        ConsumeStep::NoRecord | ConsumeStep::NoIssuance => r matches Err(e) && e is Rejected,
        ConsumeStep::Spend => r == Ok::<bool, Error>(true),
    }
}

/// What `consume` does to a kernel: a stale policy quarantines the record, a
/// spend moves it to `Executing` and marks the issuance consumed, and every
/// other step changes nothing.
pub open spec fn consume_effect(before: Kernel, after: Kernel, p: Proposal, d: Decision, now: u64) -> bool {
    let key = p.spec_digest();
    let lm = before.lifecycle_map();
    let im = before.issuance_map();
    match consume_step(before, p, d, now) {
        ConsumeStep::StalePolicy => {
            &&& after.keeps_controls(&before)
            &&& after.issuance_entries() == before.issuance_entries()
            &&& after.lifecycle_map() == lm.insert(
                key,
                Lifecycle { state: LifecycleState::Quarantined, revision: bump(lm[key].revision) },
            )
        },
        ConsumeStep::Spend => {
            &&& after.keeps_controls(&before)
            &&& after.lifecycle_map() == lm.insert(
                key,
                Lifecycle { state: LifecycleState::Executing, revision: bump(lm[key].revision) },
            )
            &&& after.issuance_map() == im.insert(key, after.issuance_map()[key])
            &&& consumed_version(after.issuance_map()[key], im[key])
        },
        _ => after.unchanged_from(&before),
    }
}

/// What `consume` does to a kernel, and what it answers.
pub open spec fn consumes(
    before: Kernel,
    after: Kernel,
    p: Proposal,
    d: Decision,
    now: u64,
    r: Result<bool, Error>,
) -> bool {
    &&& consume_answer(consume_step(before, p, d, now), r)
    &&& consume_effect(before, after, p, d, now)
}

fn same_capability(a: &Option<Capability>, b: &Capability) -> (r: bool)
    ensures
        r == (a matches Some(c) && c.same(b)),
{
    match a {
        Some(c) => c.same_as(b),
        None => false,
    }
}

impl Kernel {
    /// Policy, journal, failure tracker and controls are as in `before`.
    pub open spec fn keeps_controls(&self, before: &Kernel) -> bool {
        &&& self.spec_policy() == before.spec_policy()
        &&& self.journal_entries() == before.journal_entries()
        &&& self.spec_tracker() == before.spec_tracker()
        &&& self.spec_frozen() == before.spec_frozen()
        &&& self.spec_killed() == before.spec_killed()
    }


    fn still_honours(issuance: &Issuance, decision: &Decision, now: u64) -> (r: bool)
        ensures
            r == honours(*issuance, *decision, now),
    {
        !issuance.consumed && decision.kind == DecisionKind::Accepted && text_eq(
            decision.candidate_digest.as_str(),
            issuance.candidate_digest.as_str(),
        ) && text_eq(decision.decision_digest.as_str(), issuance.decision_digest.as_str())
            && text_eq(decision.policy_digest.as_str(), issuance.policy_digest.as_str())
            && same_capability(&decision.capability, &issuance.capability)
            && issuance.capability.issued_at <= now && now < issuance.capability.expires_at
    }

    fn set_lifecycle_at(&mut self, li: usize, next: Lifecycle)
        requires
            li < old(self).lifecycle_entries().len(),
        ensures
            final(self).keeps_controls(old(self)),
            final(self).issuance_entries() == old(self).issuance_entries(),
            final(self).lifecycle_map() == old(self).lifecycle_map().insert(
                old(self).lifecycle_entries()[li as int].0,
                next,
            ),
    {
        self.lifecycles.set_value_at(li, next);
    }

    fn spend_at(&mut self, ii: usize, li: usize, next: Lifecycle)
        requires
            ii < old(self).issuance_entries().len(),
            li < old(self).lifecycle_entries().len(),
        ensures
            final(self).keeps_controls(old(self)),
            final(self).lifecycle_map() == old(self).lifecycle_map().insert(
                old(self).lifecycle_entries()[li as int].0,
                next,
            ),
            final(self).issuance_map() == old(self).issuance_map().insert(
                old(self).issuance_entries()[ii as int].0,
                final(self).issuance_map()[old(self).issuance_entries()[ii as int].0],
            ),
            consumed_version(
                final(self).issuance_map()[old(self).issuance_entries()[ii as int].0],
                old(self).issuance_entries()[ii as int].1,
            ),
    {
        let issuance = self.issuances.value_at(ii);
        let spent = Issuance {
            candidate_digest: issuance.candidate_digest.clone(),
            decision_digest: issuance.decision_digest.clone(),
            policy_digest: issuance.policy_digest.clone(),
            capability: issuance.capability.copy_capability(),
            consumed: true,
        };
        self.issuances.set_value_at(ii, spent);
        self.lifecycles.set_value_at(li, next);
    }

    /// Consumes the capability issued for `proposal`, once: answers `true`
    /// and moves the record to `Executing` only for an admitted record whose
    /// unconsumed issuance matches `decision` and is valid at `now`. A decision
    /// under a stale policy quarantines the record.
    pub fn consume(&mut self, proposal: &Proposal, decision: &Decision, now: u64) -> (r: Result<
        bool,
        Error,
    >)
        ensures
            consumes(*old(self), *final(self), *proposal, *decision, now, r),
    {
        if self.frozen || self.killed {
            return Ok(false);
        }
        let key = proposal.digest_text();
        self.policy.validate()?;
        let current = self.policy.digest_text();
        let mut next = match self.lifecycles.get(key.as_str()) {
            Some(l) => *l,
            None => {
                return Err(rejected("unknown lifecycle record"));
            },
        };
        if next.state != LifecycleState::Admitted {
            return Ok(false);
        }
        let issuance = match self.issuances.get(key.as_str()) {
            Some(i) => i,
            None => {
                return Err(rejected("unknown issuance"));
            },
        };
        let li = match self.lifecycles.position(key.as_str()) {
            Some(i) => i,
            None => {
                return Err(rejected("unknown lifecycle record"));
            },
        };
        let ii = match self.issuances.position(key.as_str()) {
            Some(i) => i,
            None => {
                return Err(rejected("unknown issuance"));
            },
        };
        let stale = !text_eq(decision.policy_digest.as_str(), issuance.policy_digest.as_str())
            || !text_eq(decision.policy_digest.as_str(), current.as_str());
        if stale {
            if next.apply(LifecycleEvent::Quarantine).is_err() {
                return Err(rejected("invalid lifecycle transition"));
            }
            self.set_lifecycle_at(li, next);
            return Ok(false);
        }
        if !Self::still_honours(issuance, decision, now) {
            return Ok(false);
        }
        if next.apply(LifecycleEvent::BeginExecution).is_err() {
            return Err(rejected("invalid lifecycle transition"));
        }
        self.spend_at(ii, li, next);
        Ok(true)
    }
}

/// A capability executes at most once: once `consume` has answered `true`
/// for a proposal, consuming it again answers `false` and changes nothing,
/// whatever the decision presented and the time.
pub proof fn lemma_capability_is_single_use(
    k0: Kernel,
    k1: Kernel,
    k2: Kernel,
    p: Proposal,
    d1: Decision,
    d2: Decision,
    now1: u64,
    now2: u64,
    r2: Result<bool, Error>,
)
    requires
        consumes(k0, k1, p, d1, now1, Ok(true)),
        consumes(k1, k2, p, d2, now2, r2),
    ensures
        r2 == Ok::<bool, Error>(false),
        k2.unchanged_from(&k1),
{
    let key = p.spec_digest();
    assert(k1.lifecycle_map()[key].state == LifecycleState::Executing);
}


/// What applying `event` to the lifecycle record of `p` does.
pub open spec fn applies_event(
    before: Kernel,
    after: Kernel,
    p: Proposal,
    event: LifecycleEvent,
    r: Result<bool, Error>,
) -> bool {
    let key = p.spec_digest();
    let lm = before.lifecycle_map();
    if !lm.contains_key(key) {
        (r matches Err(e) && e is Rejected) && after.unchanged_from(&before)
    } else {
        match next_state(lm[key].state, event) {
            Some(s) => {
                &&& r == Ok::<bool, Error>(true)
                &&& after.keeps_controls(&before)
                &&& after.issuance_entries() == before.issuance_entries()
                &&& after.lifecycle_map() == lm.insert(
                    key,
                    Lifecycle { state: s, revision: bump(lm[key].revision) },
                )
            },
            None => (r matches Err(e) && e is Rejected) && after.unchanged_from(&before),
        }
    }
}

/// A record after a kernel-wide freeze.
pub open spec fn frozen_record(l: Lifecycle) -> Lifecycle {
    if l.state.spec_is_shutdown() {
        l
    } else {
        Lifecycle { state: LifecycleState::Frozen, revision: bump(l.revision) }
    }
}

/// A record after a kernel-wide kill.
pub open spec fn killed_record(l: Lifecycle) -> Lifecycle {
    if l.state == LifecycleState::Killed {
        l
    } else {
        Lifecycle { state: LifecycleState::Killed, revision: bump(l.revision) }
    }
}

/// A tracker as a failure budget hands it out.
pub open spec fn fresh_tracker(t: FailureTracker, budget: FailureBudget) -> bool {
    &&& t.budget == budget
    &&& t.rejections == 0
    &&& t.quarantines == 0
    &&& t.rollbacks == 0
    &&& t.consecutive_failures == 0
    &&& t.recent@.len() == 0
}

impl Kernel {
    /// Lifecycle records, policy, journal, tracker and issuances are as in
    /// `before`.
    pub open spec fn keeps_all_but_controls(&self, before: &Kernel) -> bool {
        &&& self.spec_policy() == before.spec_policy()
        &&& self.journal_entries() == before.journal_entries()
        &&& self.spec_tracker() == before.spec_tracker()
        &&& self.lifecycle_entries() == before.lifecycle_entries()
        &&& self.issuance_entries() == before.issuance_entries()
    }

    /// The records of `self` are those of `before`, each passed through `f`.
    pub open spec fn records_mapped(&self, before: &Kernel, f: spec_fn(Lifecycle) -> Lifecycle) -> bool {
        &&& self.lifecycle_entries().len() == before.lifecycle_entries().len()
        &&& forall|i: int|
            0 <= i < before.lifecycle_entries().len() ==> #[trigger] self.lifecycle_entries()[i] == (
                before.lifecycle_entries()[i].0,
                f(before.lifecycle_entries()[i].1),
            )
    }

    fn apply_lifecycle_event(&mut self, proposal: &Proposal, event: LifecycleEvent) -> (r: Result<
        bool,
        Error,
    >)
        ensures
            applies_event(*old(self), *final(self), *proposal, event, r),
    {
        let key = proposal.digest_text();
        let mut next = match self.lifecycles.get(key.as_str()) {
            Some(l) => *l,
            None => {
                return Err(rejected("unknown lifecycle record"));
            },
        };
        let li = match self.lifecycles.position(key.as_str()) {
            Some(i) => i,
            None => {
                return Err(rejected("unknown lifecycle record"));
            },
        };
        match next.apply(event) {
            Ok(_) => {},
            Err(e) => {
                return Err(Error::Rejected(e.message()));
            },
        }
        self.set_lifecycle_at(li, next);
        Ok(true)
    }

    /// Moves the record of `proposal` from `Executing` to `Completed`.
    pub fn complete(&mut self, proposal: &Proposal) -> (r: Result<bool, Error>)
        ensures
            applies_event(*old(self), *final(self), *proposal, LifecycleEvent::Complete, r),
    {
        self.apply_lifecycle_event(proposal, LifecycleEvent::Complete)
    }

    /// Rolls back the record of `proposal`.
    pub fn rollback(&mut self, proposal: &Proposal) -> (r: Result<bool, Error>)
        ensures
            applies_event(*old(self), *final(self), *proposal, LifecycleEvent::Rollback, r),
    {
        self.apply_lifecycle_event(proposal, LifecycleEvent::Rollback)
    }

    /// Quarantines the record of `proposal`.
    pub fn quarantine(&mut self, proposal: &Proposal) -> (r: Result<bool, Error>)
        ensures
            applies_event(*old(self), *final(self), *proposal, LifecycleEvent::Quarantine, r),
    {
        self.apply_lifecycle_event(proposal, LifecycleEvent::Quarantine)
    }

    /// Freezes the record of `proposal`.
    pub fn freeze(&mut self, proposal: &Proposal) -> (r: Result<bool, Error>)
        ensures
            applies_event(*old(self), *final(self), *proposal, LifecycleEvent::Freeze, r),
    {
        self.apply_lifecycle_event(proposal, LifecycleEvent::Freeze)
    }

    /// Kills the record of `proposal`.
    pub fn kill(&mut self, proposal: &Proposal) -> (r: Result<bool, Error>)
        ensures
            applies_event(*old(self), *final(self), *proposal, LifecycleEvent::Kill, r),
    {
        self.apply_lifecycle_event(proposal, LifecycleEvent::Kill)
    }

    /// Freezes every record that is not already shut down, then the kernel.
    pub fn freeze_all(&mut self) -> (r: Result<(), Error>)
        ensures
            r is Ok,
            final(self).spec_frozen(),
            final(self).spec_killed() == old(self).spec_killed(),
            final(self).spec_policy() == old(self).spec_policy(),
            final(self).journal_entries() == old(self).journal_entries(),
            final(self).spec_tracker() == old(self).spec_tracker(),
            final(self).issuance_entries() == old(self).issuance_entries(),
            final(self).records_mapped(old(self), |l: Lifecycle| frozen_record(l)),
            forall|i: int|
                0 <= i < final(self).lifecycle_entries().len() ==> (
                #[trigger] final(self).lifecycle_entries()[i]).1.state.spec_is_shutdown(),
    {
        let n = self.lifecycles.len();
        let ghost start = self.lifecycles@;
        for i in 0..n
            invariant
                n == start.len(),
                self.lifecycles@.len() == n,
                start == old(self).lifecycle_entries(),
                self.keeps_controls(old(self)),
                self.issuance_entries() == old(self).issuance_entries(),
                forall|k: int|
                    0 <= k < i ==> #[trigger] self.lifecycles@[k] == (
                        start[k].0,
                        frozen_record(start[k].1),
                    ),
                forall|k: int| i <= k < n ==> #[trigger] self.lifecycles@[k] == start[k],
        {
            let mut l = *self.lifecycles.value_at(i);
            if !l.state.is_shutdown() {
                if l.apply(LifecycleEvent::Freeze).is_err() {
                    return Err(rejected("invalid lifecycle transition"));
                }
                self.lifecycles.set_value_at(i, l);
            }
        }
        self.frozen = true;
        proof {
            assert forall|k: int| 0 <= k < n implies #[trigger] self.lifecycle_entries()[k] == (
                start[k].0,
                frozen_record(start[k].1),
            ) by {
                assert(self.lifecycles@[k] == (start[k].0, frozen_record(start[k].1)));
            }
        }
        Ok(())
    }

    /// Kills every record that is not already killed; the kernel ends frozen
    /// and killed.
    pub fn kill_all(&mut self) -> (r: Result<(), Error>)
        ensures
            r is Ok,
            final(self).spec_frozen(),
            final(self).spec_killed(),
            final(self).spec_policy() == old(self).spec_policy(),
            final(self).journal_entries() == old(self).journal_entries(),
            final(self).spec_tracker() == old(self).spec_tracker(),
            final(self).issuance_entries() == old(self).issuance_entries(),
            final(self).records_mapped(old(self), |l: Lifecycle| killed_record(l)),
            forall|i: int|
                0 <= i < final(self).lifecycle_entries().len() ==> (
                #[trigger] final(self).lifecycle_entries()[i]).1.state == LifecycleState::Killed,
    {
        let n = self.lifecycles.len();
        let ghost start = self.lifecycles@;
        for i in 0..n
            invariant
                n == start.len(),
                self.lifecycles@.len() == n,
                start == old(self).lifecycle_entries(),
                self.keeps_controls(old(self)),
                self.issuance_entries() == old(self).issuance_entries(),
                forall|k: int|
                    0 <= k < i ==> #[trigger] self.lifecycles@[k] == (
                        start[k].0,
                        killed_record(start[k].1),
                    ),
                forall|k: int| i <= k < n ==> #[trigger] self.lifecycles@[k] == start[k],
        {
            let mut l = *self.lifecycles.value_at(i);
            if l.state != LifecycleState::Killed {
                if l.apply(LifecycleEvent::Kill).is_err() {
                    return Err(rejected("invalid lifecycle transition"));
                }
                self.lifecycles.set_value_at(i, l);
            }
        }
        self.frozen = true;
        self.killed = true;
        proof {
            assert forall|k: int| 0 <= k < n implies #[trigger] self.lifecycle_entries()[k] == (
                start[k].0,
                killed_record(start[k].1),
            ) by {
                assert(self.lifecycles@[k] == (start[k].0, killed_record(start[k].1)));
            }
        }
        Ok(())
    }

    /// Installs a fresh failure tracker for `budget`.
    pub fn configure_failure_budget(&mut self, budget: FailureBudget) -> (r: Result<(), Error>)
        ensures
            old(self).spec_frozen() || old(self).spec_killed() ==> (r matches Err(e) && e is Rejected),
            !old(self).spec_frozen() && !old(self).spec_killed() ==> (r is Ok
                <==> budget.spec_valid()),
            !old(self).spec_frozen() && !old(self).spec_killed() && !budget.spec_valid() ==> (
            r matches Err(e) && e is Invalid),
            r is Err ==> final(self).unchanged_from(old(self)),
            r is Ok ==> {
                &&& final(self).spec_tracker() matches Some(t) && fresh_tracker(t, budget)
                &&& final(self).spec_policy() == old(self).spec_policy()
                &&& final(self).journal_entries() == old(self).journal_entries()
                &&& final(self).lifecycle_entries() == old(self).lifecycle_entries()
                &&& final(self).issuance_entries() == old(self).issuance_entries()
                &&& final(self).spec_frozen() == old(self).spec_frozen()
                &&& final(self).spec_killed() == old(self).spec_killed()
            },
    {
        if self.frozen || self.killed {
            return Err(rejected("cannot configure a frozen or killed kernel"));
        }
        match budget.tracker() {
            Ok(t) => {
                self.failure_tracker = Some(t);
                Ok(())
            },
            Err(e) => Err(Error::Invalid(e.message())),
        }
    }

    /// Counts a failure against the configured budget; freezes the kernel when
    /// the budget says so. Without a budget nothing is counted.
    pub fn observe_failure(&mut self, kind: FailureKind) -> (r: Result<BudgetDecision, Error>)
        ensures
            match old(self).spec_tracker() {
                None => r == Ok::<BudgetDecision, Error>(BudgetDecision::Continue)
                    && final(self).unchanged_from(old(self)),
                Some(t) => if !t.spec_consistent() || t.spec_exhausted() {
                    (r matches Err(e) && e is Rejected) && final(self).unchanged_from(old(self))
                } else {
                    &&& final(self).spec_tracker() matches Some(t2) && failure_recorded(t, t2, kind)
                        && r == Ok::<BudgetDecision, Error>(
                        if t2.spec_exhausted() {
                            BudgetDecision::FreezeRequired
                        } else {
                            BudgetDecision::Continue
                        },
                    ) && (t2.spec_exhausted() ==> final(self).spec_frozen()
                        && final(self).records_mapped(old(self), |l: Lifecycle| frozen_record(l)))
                        && (!t2.spec_exhausted() ==> final(self).spec_frozen()
                        == old(self).spec_frozen() && final(self).lifecycle_entries()
                        == old(self).lifecycle_entries())
                    &&& final(self).spec_policy() == old(self).spec_policy()
                    &&& final(self).journal_entries() == old(self).journal_entries()
                    &&& final(self).issuance_entries() == old(self).issuance_entries()
                    &&& final(self).spec_killed() == old(self).spec_killed()
                },
            },
    {
        let taken = self.failure_tracker.take();
        match taken {
            None => Ok(BudgetDecision::Continue),
            Some(mut t) => {
                let result = t.record_failure(kind);
                self.failure_tracker = Some(t);
                match result {
                    Err(e) => Err(Error::Rejected(e.message())),
                    Ok(decision) => {
                        if decision == BudgetDecision::FreezeRequired {
                            let frozen = self.freeze_all();
                            if frozen.is_err() {
                                return Err(rejected("invalid lifecycle transition"));
                            }
                        }
                        Ok(decision)
                    },
                }
            },
        }
    }

    /// Resets the failure streak of an open kernel.
    pub fn observe_success(&mut self)
        ensures
            final(self).keeps_all_but_tracker(old(self)),
            match old(self).spec_tracker() {
                Some(t) if !old(self).spec_frozen() && !old(self).spec_killed() => {
                    final(self).spec_tracker() matches Some(t2) && t2.consecutive_failures == 0
                        && t2.budget == t.budget && t2.rejections == t.rejections && t2.quarantines
                        == t.quarantines && t2.rollbacks == t.rollbacks && t2.recent@ == t.recent@
                },
                _ => final(self).spec_tracker() == old(self).spec_tracker(),
            },
    {
        if !self.frozen && !self.killed {
            let taken = self.failure_tracker.take();
            match taken {
                Some(mut t) => {
                    t.record_success();
                    self.failure_tracker = Some(t);
                },
                None => {},
            }
        }
    }

    /// Everything but the failure tracker is as in `before`.
    pub open spec fn keeps_all_but_tracker(&self, before: &Kernel) -> bool {
        &&& self.spec_policy() == before.spec_policy()
        &&& self.journal_entries() == before.journal_entries()
        &&& self.lifecycle_entries() == before.lifecycle_entries()
        &&& self.issuance_entries() == before.issuance_entries()
        &&& self.spec_frozen() == before.spec_frozen()
        &&& self.spec_killed() == before.spec_killed()
    }
}


/// Two policies with the same contents.
pub open spec fn same_policy(a: Policy, b: Policy) -> bool {
    &&& a.allowed_actions@ == b.allowed_actions@
    &&& a.allowed_scopes@ == b.allowed_scopes@
    &&& a.max_cost@ == b.max_cost@
    &&& a.token_ttl == b.token_ttl
}

/// Two optional trackers with the same contents.
pub open spec fn same_tracker(a: Option<FailureTracker>, b: Option<FailureTracker>) -> bool {
    match (a, b) {
        (Some(x), Some(y)) => {
            &&& x.budget == y.budget
            &&& x.rejections == y.rejections
            &&& x.quarantines == y.quarantines
            &&& x.rollbacks == y.rollbacks
            &&& x.consecutive_failures == y.consecutive_failures
            &&& x.recent@ == y.recent@
        },
        (None, None) => true,
        _ => false,
    }
}

/// Every lifecycle record of a snapshot is keyed by a journaled candidate
/// digest, has moved at least once and is out of `Proposal`, and there is
/// one record per journal entry.
pub open spec fn records_match_journal(s: KernelSnapshot) -> bool {
    crate::checker::lifecycles_match(s.journal.entries@, s.lifecycles@)
}

/// `s` records the persistent state of `k`: its policy, journal, lifecycle
/// records, failure tracker and controls.
pub open spec fn snapshot_of(s: KernelSnapshot, k: Kernel) -> bool {
    &&& same_policy(s.policy, k.spec_policy())
    &&& same_entries(s.journal.entries@, k.journal_entries())
    &&& s.lifecycles@ == k.lifecycle_entries()
    &&& same_tracker(s.failure_tracker, k.spec_tracker())
    &&& s.frozen == k.spec_frozen()
    &&& s.killed == k.spec_killed()
}

/// `k` is the kernel restored from `s`: everything `s` records, and no
/// issued capability.
pub open spec fn restored_from(k: Kernel, s: KernelSnapshot) -> bool {
    &&& k.spec_policy() == s.policy
    &&& k.journal_entries() == s.journal.entries@
    &&& k.lifecycle_entries() == s.lifecycles@
    &&& k.issuance_entries().len() == 0
    &&& k.spec_tracker() == s.failure_tracker
    &&& k.spec_frozen() == s.frozen
    &&& k.spec_killed() == s.killed
}

/// Restoring a snapshot and taking a snapshot again gives back what the
/// first one recorded.
pub proof fn lemma_restore_then_snapshot_round_trips(s: KernelSnapshot, k: Kernel, s2: KernelSnapshot)
    requires
        restored_from(k, s),
        snapshot_of(s2, k),
    ensures
        same_policy(s2.policy, s.policy),
        same_entries(s2.journal.entries@, s.journal.entries@),
        s2.lifecycles@ == s.lifecycles@,
        same_tracker(s2.failure_tracker, s.failure_tracker),
        s2.frozen == s.frozen,
        s2.killed == s.killed,
{
}

/// No lifecycle record is `Frozen` unless the kernel is frozen, and none is
/// `Killed` unless it is killed.
pub open spec fn records_match_flags(s: KernelSnapshot) -> bool {
    forall|i: int|
        0 <= i < s.lifecycles@.len() ==> {
            &&& (#[trigger] s.lifecycles@[i]).1.state == LifecycleState::Frozen ==> s.frozen
            &&& s.lifecycles@[i].1.state == LifecycleState::Killed ==> s.killed
        }
}

/// Whether the lifecycle records agree with the snapshot's flags.
fn check_record_flags(s: &KernelSnapshot) -> (r: bool)
    ensures
        r == records_match_flags(*s),
{
    let n = s.lifecycles.len();
    for i in 0..n
        invariant
            n == s.lifecycles@.len(),
            forall|k: int|
                0 <= k < i ==> {
                    &&& (#[trigger] s.lifecycles@[k]).1.state == LifecycleState::Frozen ==> s.frozen
                    &&& s.lifecycles@[k].1.state == LifecycleState::Killed ==> s.killed
                },
    {
        let state = s.lifecycles.value_at(i).state;
        if state == LifecycleState::Frozen && !s.frozen {
            return false;
        }
        if state == LifecycleState::Killed && !s.killed {
            return false;
        }
    }
    true
}

impl KernelSnapshot {
    pub open spec fn tracker_ok(&self) -> bool {
        match self.failure_tracker {
            Some(t) => t.spec_consistent() && (t.spec_exhausted() ==> self.frozen),
            None => true,
        }
    }

    pub open spec fn spec_valid(&self) -> bool {
        &&& self.policy.spec_valid()
        &&& chain_valid(self.journal.entries@)
        &&& (self.killed ==> self.frozen)
        &&& self.tracker_ok()
        &&& records_match_journal(*self)
        &&& records_match_flags(*self)
    }

    /// Checks a snapshot before a kernel is restored from it.
    pub fn validate(&self) -> (r: Result<(), Error>)
        ensures
            r is Ok <==> self.spec_valid(),
            !self.policy.spec_valid() ==> (r matches Err(e) && e is Invalid),
            self.policy.spec_valid() && !chain_valid(self.journal.entries@) ==> (r matches Err(
                e,
            ) && e is Journal),
            self.policy.spec_valid() && chain_valid(self.journal.entries@) && !((self.killed
                ==> self.frozen) && self.tracker_ok()) ==> (r matches Err(e) && e is Invalid),
            self.policy.spec_valid() && chain_valid(self.journal.entries@) && (self.killed
                ==> self.frozen) && self.tracker_ok() && !records_match_journal(*self) ==> (
            r matches Err(e) && e is Journal),
            self.policy.spec_valid() && chain_valid(self.journal.entries@) && (self.killed
                ==> self.frozen) && self.tracker_ok() && records_match_journal(*self)
                && !records_match_flags(*self) ==> (r matches Err(e) && e is Invalid),
    {
        self.policy.validate()?;
        self.journal.validate()?;
        if self.killed && !self.frozen {
            return Err(invalid("killed kernel snapshot is not frozen"));
        }
        match &self.failure_tracker {
            Some(t) => {
                match t.validate() {
                    Ok(()) => {},
                    Err(e) => {
                        return Err(Error::Invalid(e.message()));
                    },
                }
                if t.is_exhausted() && !self.frozen {
                    return Err(invalid("exhausted failure tracker requires a frozen kernel"));
                }
            },
            None => {},
        }
        crate::checker::validate_lifecycles(&self.journal, &self.lifecycles)?;
        if !check_record_flags(self) {
            return Err(invalid("lifecycle record disagrees with the kernel's freeze and kill flags"));
        }
        Ok(())
    }
}

impl Kernel {
    /// The persistent state of the kernel; issuances are not part of it.
    pub fn snapshot(&self) -> (r: KernelSnapshot)
        ensures
            snapshot_of(r, *self),
    {
        KernelSnapshot {
            policy: self.policy.copy_policy(),
            journal: self.journal.copy_journal(),
            lifecycles: self.lifecycle_records(),
            failure_tracker: match &self.failure_tracker {
                Some(t) => Some(t.copy_tracker()),
                None => None,
            },
            frozen: self.frozen,
            killed: self.killed,
        }
    }

    /// Restores a kernel from a validated snapshot, with no live issuances.
    pub fn from_snapshot(snapshot: KernelSnapshot) -> (r: Result<Kernel, Error>)
        ensures
            r is Ok <==> snapshot.spec_valid(),
            r matches Ok(k) ==> restored_from(k, snapshot),
            r matches Err(e) ==> !snapshot.spec_valid() && (e is Invalid || e is Journal),
    {
        snapshot.validate()?;
        let KernelSnapshot { policy, journal, lifecycles, failure_tracker, frozen, killed } =
            snapshot;
        Ok(
            Kernel {
                policy,
                journal,
                issuances: TextMap::new(),
                lifecycles,
                failure_tracker,
                frozen,
                killed,
            },
        )
    }
}


impl Kernel {
    /// The number of journal entries.
    pub fn journal_len(&self) -> (r: usize)
        ensures
            r == self.journal_entries().len(),
    {
        self.journal.entries.len()
    }

    /// The policy the kernel admits under.
    pub fn policy_ref(&self) -> (r: &Policy)
        ensures
            *r == self.spec_policy(),
    {
        &self.policy
    }

    /// Replaces the policy and returns the one it replaced; nothing else
    /// changes.
    pub fn set_policy(&mut self, policy: Policy) -> (r: Policy)
        ensures
            r == old(self).spec_policy(),
            final(self).spec_policy() == policy,
            final(self).journal_entries() == old(self).journal_entries(),
            final(self).lifecycle_entries() == old(self).lifecycle_entries(),
            final(self).issuance_entries() == old(self).issuance_entries(),
            final(self).spec_tracker() == old(self).spec_tracker(),
            final(self).spec_frozen() == old(self).spec_frozen(),
            final(self).spec_killed() == old(self).spec_killed(),
    {
        let mut replaced = policy;
        std::mem::swap(&mut replaced, &mut self.policy);
        replaced
    }

    /// The decision journal.
    pub fn replay_journal(&self) -> (r: &ReplayJournal)
        ensures
            r.entries@ == self.journal_entries(),
    {
        &self.journal
    }

    /// The digest of the journal's canonical encoding.
    pub fn journal_digest(&self) -> (r: String)
        ensures
            r@ == sha256_hex(crate::journal::journal_bytes(self.journal_entries())),
            is_digest(r@),
    {
        self.journal.digest()
    }
}


/// A kernel holding no issuances, such as one restored from a snapshot,
/// never spends a capability.
pub proof fn lemma_kernel_without_issuances_never_spends(
    k: Kernel,
    k1: Kernel,
    p: Proposal,
    d: Decision,
    now: u64,
    r: Result<bool, Error>,
)
    requires
        k.issuance_entries().len() == 0,
        consumes(k, k1, p, d, now, r),
    ensures
        r != Ok::<bool, Error>(true),
{
    assert(!k.issuance_map().contains_key(p.spec_digest())) by {
        assert(!crate::collections::entry_keys(k.issuance_entries()).contains(p.spec_digest()));
    }
}

/// The earliest expiry among the first `n` claims that qualify at `now` is
/// at or before the expiry of each of them.
proof fn lemma_qualifying_expiry_is_earliest(claims: Seq<Claim>, now: u64, n: int)
    requires
        0 <= n <= claims.len(),
    ensures
        forall|i: int|
            0 <= i < n && (#[trigger] claims[i]).spec_qualifies(now) ==> (qualifying_expiry(
                claims,
                now,
                n,
            ) matches Some(m) && m <= claims[i].valid_until),
    decreases n,
{
    if n > 0 {
        lemma_qualifying_expiry_is_earliest(claims, now, n - 1);
    }
}

/// A capability never outlives what justified it: the capability of an
/// accepted admission is issued at the admission time, is still valid then,
/// and expires no later than the proposal, than the policy's token lifetime
/// from the admission time, and than every claim of the proposal that
/// qualified at that time.
pub proof fn lemma_capability_never_outlives_its_grounds(
    k0: Kernel,
    k1: Kernel,
    p: Proposal,
    now: u64,
    d: Decision,
)
    requires
        admits(k0, k1, p, now, Ok::<Decision, Error>(d)),
        d.capability is Some,
    ensures
        d.kind == DecisionKind::Accepted,
        d.capability->0.issued_at == now,
        now < d.capability->0.expires_at,
        d.capability->0.expires_at <= p.expires_at,
        d.capability->0.expires_at <= now + k0.spec_policy().token_ttl,
        forall|i: int|
            0 <= i < p.claims@.len() && (#[trigger] p.claims@[i]).spec_qualifies(now)
                ==> d.capability->0.expires_at <= p.claims@[i].valid_until,
{
    lemma_qualifying_expiry_is_earliest(p.claims@, now, p.claims@.len() as int);
}

/// Acceptance needs all of its grounds: an accepted proposal asked for no
/// direct authority, names an action and a scope the policy allows, costs
/// no more than the policy caps on every axis (and only on capped axes),
/// and carries a claim that qualifies at admission time; it opens an
/// `Admitted` record and an unspent issuance under its candidate digest.
pub proof fn lemma_acceptance_needs_its_grounds(
    k0: Kernel,
    k1: Kernel,
    p: Proposal,
    now: u64,
    d: Decision,
)
    requires
        admits(k0, k1, p, now, Ok::<Decision, Error>(d)),
        d.kind == DecisionKind::Accepted,
    ensures
        !p.requests_direct_authority,
        k0.spec_policy().allowed_actions@.contains(p.action),
        k0.spec_policy().allowed_scopes@.contains(p.scope@),
        forall|i: int|
            0 <= i < p.resource_cost@.len() ==> entries_map(k0.spec_policy().max_cost@).contains_key(
                (#[trigger] p.resource_cost@[i]).0,
            ) && p.resource_cost@[i].1 <= entries_map(k0.spec_policy().max_cost@)[p.resource_cost@[i].0],
        exists|i: int| 0 <= i < p.claims@.len() && (#[trigger] p.claims@[i]).spec_qualifies(now),
        d.capability is Some,
        k1.lifecycle_map().contains_key(p.spec_digest()),
        k1.lifecycle_map()[p.spec_digest()].state == LifecycleState::Admitted,
        k1.issuance_map().contains_key(p.spec_digest()),
        !k1.issuance_map()[p.spec_digest()].consumed,
{
}

/// A decision that is not an acceptance carries no capability and issues
/// nothing.
pub proof fn lemma_refusal_issues_nothing(k0: Kernel, k1: Kernel, p: Proposal, now: u64, d: Decision)
    requires
        admits(k0, k1, p, now, Ok::<Decision, Error>(d)),
        d.kind != DecisionKind::Accepted,
    ensures
        d.capability is None,
        k1.issuance_map() == k0.issuance_map(),
{
}

} // verus!

