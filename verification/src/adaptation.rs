//! Proposal-only adaptation planning and deterministic work-offer selection.
use crate::canon::{json_bool, json_nat, json_text, lit, push_bool, push_lit, push_nat, push_text};
use crate::digest::{digest_bytes, sha256_hex};
use crate::error::{invalid, quarantined, rejected, Error};
use crate::governance::{CandidateUpdate, ReleaseRegistry};
use crate::order::{compare_text, text_eq, text_lt};
use crate::records::CLAIM_CEILING;
use crate::text::{is_digest, lemma_digest_is_text, text_ok, valid_digest, valid_text};
use vstd::prelude::*;

verus! {

pub const ADAPTATION_VERSION: u8 = 1;

/// The claim ceiling of every adaptation record.
pub const EXPLORATORY_CLAIM_CEILING: &'static str = CLAIM_CEILING;

/// The longest identifier, in bytes.
pub const MAX_ID_LEN: usize = 128;

#[derive(Clone, Copy, Debug, PartialEq, Eq, Structural)]
pub enum EvidenceStatus {
    LocalOnly,
    Inconclusive,
}

pub open spec fn status_name(s: EvidenceStatus) -> Seq<char> {
    match s {
        EvidenceStatus::LocalOnly => "LocalOnly"@,
        EvidenceStatus::Inconclusive => "Inconclusive"@,
    }
}

fn status_text(s: EvidenceStatus) -> (r: &'static str)
    ensures
        r@ == status_name(s),
{
    match s {
        EvidenceStatus::LocalOnly => "LocalOnly",
        EvidenceStatus::Inconclusive => "Inconclusive",
    }
}

/// Local evidence about a candidate over a base.
#[derive(Clone, Debug, PartialEq, Eq)]
pub struct EvidenceAnchor {
    pub evidence_digest: String,
    pub source_digest: String,
    pub base_digest: String,
    pub claim_ceiling: String,
    pub status: EvidenceStatus,
    pub observed_at: u64,
    pub valid_until: u64,
}

impl EvidenceAnchor {
    pub open spec fn spec_valid(&self) -> bool {
        &&& is_digest(self.evidence_digest@)
        &&& is_digest(self.source_digest@)
        &&& is_digest(self.base_digest@)
        &&& self.claim_ceiling@ == CLAIM_CEILING@
        &&& self.observed_at < self.valid_until
        &&& self.observed_at != 0
    }

    pub open spec fn spec_usable(&self, now: u64) -> bool {
        &&& self.spec_valid()
        &&& self.status == EvidenceStatus::LocalOnly
        &&& self.observed_at <= now
        &&& now < self.valid_until
    }

    pub open spec fn bytes(&self) -> Seq<u8> {
        lit("{\"evidence_digest\":") + json_text(self.evidence_digest@) + lit(",\"source_digest\":")
            + json_text(self.source_digest@) + lit(",\"base_digest\":") + json_text(
            self.base_digest@,
        ) + lit(",\"claim_ceiling\":") + json_text(self.claim_ceiling@) + lit(",\"status\":")
            + json_text(status_name(self.status)) + lit(",\"observed_at\":") + json_nat(
            self.observed_at as nat,
        ) + lit(",\"valid_until\":") + json_nat(self.valid_until as nat) + lit("}")
    }

    fn push_canonical(&self, out: &mut Vec<u8>)
        ensures
            final(out)@ == old(out)@ + self.bytes(),
    {
        let ghost start = out@;
        push_lit(out, "{\"evidence_digest\":");
        push_text(out, self.evidence_digest.as_str());
        push_lit(out, ",\"source_digest\":");
        push_text(out, self.source_digest.as_str());
        push_lit(out, ",\"base_digest\":");
        push_text(out, self.base_digest.as_str());
        push_lit(out, ",\"claim_ceiling\":");
        push_text(out, self.claim_ceiling.as_str());
        push_lit(out, ",\"status\":");
        push_text(out, status_text(self.status));
        push_lit(out, ",\"observed_at\":");
        push_nat(out, self.observed_at);
        push_lit(out, ",\"valid_until\":");
        push_nat(out, self.valid_until);
        push_lit(out, "}");
        assert(out@ =~= start + self.bytes());
    }

    pub fn validate(&self) -> (r: Result<(), Error>)
        ensures
            r is Ok <==> self.spec_valid(),
            r matches Err(e) ==> e is Invalid,
    {
        if !valid_digest(self.evidence_digest.as_str()) || !valid_digest(
            self.source_digest.as_str(),
        ) || !valid_digest(self.base_digest.as_str()) || !text_eq(
            self.claim_ceiling.as_str(),
            EXPLORATORY_CLAIM_CEILING,
        ) || self.valid_until <= self.observed_at || self.observed_at == 0 {
            return Err(invalid("adaptation evidence anchor is malformed"));
        }
        Ok(())
    }

    pub fn usable_at(&self, now: u64) -> (r: bool)
        ensures
            r == self.spec_usable(now),
    {
        self.validate().is_ok() && self.status == EvidenceStatus::LocalOnly && now
            >= self.observed_at && now < self.valid_until
    }
}

pub open spec fn update_bytes(c: CandidateUpdate) -> Seq<u8> {
    lit("{\"candidate_id\":") + json_text(c.candidate_id@) + lit(",\"base_digest\":") + json_text(
        c.base_digest@,
    ) + lit(",\"candidate_digest\":") + json_text(c.candidate_digest@) + lit(
        ",\"rollback_digest\":",
    ) + json_text(c.rollback_digest@) + lit(",\"evidence_digest\":") + json_text(
        c.evidence_digest@,
    ) + lit("}")
}

fn push_update(out: &mut Vec<u8>, c: &CandidateUpdate)
    ensures
        final(out)@ == old(out)@ + update_bytes(*c),
{
    let ghost start = out@;
    push_lit(out, "{\"candidate_id\":");
    push_text(out, c.candidate_id.as_str());
    push_lit(out, ",\"base_digest\":");
    push_text(out, c.base_digest.as_str());
    push_lit(out, ",\"candidate_digest\":");
    push_text(out, c.candidate_digest.as_str());
    push_lit(out, ",\"rollback_digest\":");
    push_text(out, c.rollback_digest.as_str());
    push_lit(out, ",\"evidence_digest\":");
    push_text(out, c.evidence_digest.as_str());
    push_lit(out, "}");
    assert(out@ =~= start + update_bytes(*c));
}

/// A proposed update with its evidence and priority; never authorized.
#[derive(Clone, Debug, PartialEq)]
pub struct AdaptationCandidate {
    pub candidate: CandidateUpdate,
    pub evidence: EvidenceAnchor,
    pub priority: u64,
    pub execution_authorized: bool,
}

impl AdaptationCandidate {
    /// Valid parts bound to each other, and no execution authority.
    pub open spec fn spec_valid(&self) -> bool {
        &&& self.candidate.spec_valid()
        &&& self.evidence.spec_valid()
        &&& self.candidate.base_digest@ == self.evidence.base_digest@
        &&& self.candidate.evidence_digest@ == self.evidence.evidence_digest@
        &&& !self.execution_authorized
    }

    pub open spec fn bytes(&self) -> Seq<u8> {
        lit("{\"candidate\":") + update_bytes(self.candidate) + lit(",\"evidence\":")
            + self.evidence.bytes() + lit(",\"priority\":") + json_nat(self.priority as nat) + lit(
            ",\"execution_authorized\":",
        ) + json_bool(self.execution_authorized) + lit("}")
    }

    pub open spec fn spec_digest(&self) -> Seq<char> {
        sha256_hex(self.bytes())
    }

    pub fn validate(&self) -> (r: Result<(), Error>)
        ensures
            r is Ok <==> self.spec_valid(),
            !self.candidate.spec_valid() || !self.evidence.spec_valid() ==> (r matches Err(e)
                && e is Invalid),
            self.candidate.spec_valid() && self.evidence.spec_valid() && r is Err ==> (
            r matches Err(e) && e is Rejected),
    {
        self.candidate.validate()?;
        self.evidence.validate()?;
        if !text_eq(self.candidate.base_digest.as_str(), self.evidence.base_digest.as_str())
            || !text_eq(
            self.candidate.evidence_digest.as_str(),
            self.evidence.evidence_digest.as_str(),
        ) || self.execution_authorized {
            return Err(rejected("adaptation candidate is not bound to its immutable local evidence"));
        }
        Ok(())
    }

    /// The digest of a valid candidate.
    pub fn digest(&self) -> (r: Result<String, Error>)
        ensures
            r is Ok <==> self.spec_valid(),
            r matches Err(e) ==> e is Invalid || e is Rejected,
            r matches Ok(d) ==> d@ == self.spec_digest() && is_digest(d@),
    {
        self.validate()?;
        let mut out: Vec<u8> = Vec::new();
        push_lit(&mut out, "{\"candidate\":");
        push_update(&mut out, &self.candidate);
        push_lit(&mut out, ",\"evidence\":");
        self.evidence.push_canonical(&mut out);
        push_lit(&mut out, ",\"priority\":");
        push_nat(&mut out, self.priority);
        push_lit(&mut out, ",\"execution_authorized\":");
        push_bool(&mut out, self.execution_authorized);
        push_lit(&mut out, "}");
        assert(out@ =~= self.bytes());
        Ok(digest_bytes(out.as_slice()))
    }
}

/// `["adaptation-plan-v1","candidate digest"]`.
pub open spec fn plan_id_material(candidate_digest: Seq<char>) -> Seq<u8> {
    lit("[") + json_text("adaptation-plan-v1"@) + lit(",") + json_text(candidate_digest) + lit("]")
}

fn plan_id_of(candidate_digest: &str) -> (r: String)
    ensures
        r@ == sha256_hex(plan_id_material(candidate_digest@)),
        is_digest(r@),
{
    let mut out: Vec<u8> = Vec::new();
    push_lit(&mut out, "[");
    push_text(&mut out, "adaptation-plan-v1");
    push_lit(&mut out, ",");
    push_text(&mut out, candidate_digest);
    push_lit(&mut out, "]");
    assert(out@ =~= plan_id_material(candidate_digest@));
    digest_bytes(out.as_slice())
}

/// A plan to try a candidate; it never carries execution authority.
#[derive(Clone, Debug, PartialEq, Eq)]
pub struct AdaptationPlan {
    pub version: u8,
    pub plan_id: String,
    pub candidate_digest: String,
    pub base_digest: String,
    pub rollback_digest: String,
    pub evidence_digest: String,
    pub source_digest: String,
    pub claim_ceiling: String,
    pub valid_until: u64,
    pub execution_authorized: bool,
}

impl AdaptationPlan {
    pub open spec fn spec_valid(&self) -> bool {
        &&& self.version == ADAPTATION_VERSION
        &&& text_ok(self.plan_id@, 128)
        &&& is_digest(self.candidate_digest@)
        &&& is_digest(self.base_digest@)
        &&& is_digest(self.rollback_digest@)
        &&& is_digest(self.evidence_digest@)
        &&& is_digest(self.source_digest@)
        &&& self.claim_ceiling@ == CLAIM_CEILING@
        &&& self.valid_until != 0
        &&& self.base_digest@ == self.rollback_digest@
        &&& !self.execution_authorized
        &&& self.plan_id@ == sha256_hex(plan_id_material(self.candidate_digest@))
    }

    pub open spec fn bytes(&self) -> Seq<u8> {
        lit("{\"version\":") + json_nat(self.version as nat) + lit(",\"plan_id\":") + json_text(
            self.plan_id@,
        ) + lit(",\"candidate_digest\":") + json_text(self.candidate_digest@) + lit(
            ",\"base_digest\":",
        ) + json_text(self.base_digest@) + lit(",\"rollback_digest\":") + json_text(
            self.rollback_digest@,
        ) + lit(",\"evidence_digest\":") + json_text(self.evidence_digest@) + lit(
            ",\"source_digest\":",
        ) + json_text(self.source_digest@) + lit(",\"claim_ceiling\":") + json_text(
            self.claim_ceiling@,
        ) + lit(",\"valid_until\":") + json_nat(self.valid_until as nat) + lit(
            ",\"execution_authorized\":",
        ) + json_bool(self.execution_authorized) + lit("}")
    }

    pub open spec fn spec_digest(&self) -> Seq<char> {
        sha256_hex(self.bytes())
    }

    /// The plan a valid candidate yields.
    pub open spec fn plans(&self, c: AdaptationCandidate) -> bool {
        &&& self.version == ADAPTATION_VERSION
        &&& self.candidate_digest@ == c.spec_digest()
        &&& self.plan_id@ == sha256_hex(plan_id_material(c.spec_digest()))
        &&& self.base_digest@ == c.candidate.base_digest@
        &&& self.rollback_digest@ == c.candidate.rollback_digest@
        &&& self.evidence_digest@ == c.evidence.evidence_digest@
        &&& self.source_digest@ == c.evidence.source_digest@
        &&& self.claim_ceiling@ == CLAIM_CEILING@
        &&& self.valid_until == c.evidence.valid_until
        &&& !self.execution_authorized
    }

    fn from_candidate(candidate: &AdaptationCandidate) -> (r: Result<AdaptationPlan, Error>)
        requires
            candidate.spec_valid(),
        ensures
            r matches Ok(p) && p.plans(*candidate) && p.spec_valid(),
    {
        let candidate_digest = match candidate.digest() {
            Ok(d) => d,
            Err(e) => {
                return Err(e);
            },
        };
        let plan_id = plan_id_of(candidate_digest.as_str());
        let plan = AdaptationPlan {
            version: ADAPTATION_VERSION,
            plan_id,
            candidate_digest,
            base_digest: candidate.candidate.base_digest.clone(),
            rollback_digest: candidate.candidate.rollback_digest.clone(),
            evidence_digest: candidate.evidence.evidence_digest.clone(),
            source_digest: candidate.evidence.source_digest.clone(),
            claim_ceiling: EXPLORATORY_CLAIM_CEILING.to_owned(),
            valid_until: candidate.evidence.valid_until,
            execution_authorized: false,
        };
        proof {
            lemma_digest_is_text(plan.plan_id@);
        }
        match plan.validate() {
            Ok(()) => {},
            Err(e) => {
                return Err(e);
            },
        }
        Ok(plan)
    }

    pub fn validate(&self) -> (r: Result<(), Error>)
        ensures
            r is Ok <==> self.spec_valid(),
            r matches Err(e) ==> e is Rejected,
    {
        if self.version != ADAPTATION_VERSION || !valid_text(self.plan_id.as_str(), MAX_ID_LEN)
            || !valid_digest(self.candidate_digest.as_str()) || !valid_digest(
            self.base_digest.as_str(),
        ) || !valid_digest(self.rollback_digest.as_str()) || !valid_digest(
            self.evidence_digest.as_str(),
        ) || !valid_digest(self.source_digest.as_str()) || !text_eq(
            self.claim_ceiling.as_str(),
            EXPLORATORY_CLAIM_CEILING,
        ) || self.valid_until == 0 || !text_eq(
            self.base_digest.as_str(),
            self.rollback_digest.as_str(),
        ) || self.execution_authorized {
            return Err(rejected("adaptation plan is malformed"));
        }
        let expected = plan_id_of(self.candidate_digest.as_str());
        if !text_eq(self.plan_id.as_str(), expected.as_str()) {
            return Err(rejected("adaptation plan is malformed"));
        }
        Ok(())
    }

    /// The digest of a valid plan.
    pub fn digest(&self) -> (r: Result<String, Error>)
        ensures
            r is Ok <==> self.spec_valid(),
            r matches Err(e) ==> e is Rejected,
            r matches Ok(d) ==> d@ == self.spec_digest() && is_digest(d@),
    {
        self.validate()?;
        let mut out: Vec<u8> = Vec::new();
        push_lit(&mut out, "{\"version\":");
        push_nat(&mut out, self.version as u64);
        push_lit(&mut out, ",\"plan_id\":");
        push_text(&mut out, self.plan_id.as_str());
        push_lit(&mut out, ",\"candidate_digest\":");
        push_text(&mut out, self.candidate_digest.as_str());
        push_lit(&mut out, ",\"base_digest\":");
        push_text(&mut out, self.base_digest.as_str());
        push_lit(&mut out, ",\"rollback_digest\":");
        push_text(&mut out, self.rollback_digest.as_str());
        push_lit(&mut out, ",\"evidence_digest\":");
        push_text(&mut out, self.evidence_digest.as_str());
        push_lit(&mut out, ",\"source_digest\":");
        push_text(&mut out, self.source_digest.as_str());
        push_lit(&mut out, ",\"claim_ceiling\":");
        push_text(&mut out, self.claim_ceiling.as_str());
        push_lit(&mut out, ",\"valid_until\":");
        push_nat(&mut out, self.valid_until);
        push_lit(&mut out, ",\"execution_authorized\":");
        push_bool(&mut out, self.execution_authorized);
        push_lit(&mut out, "}");
        assert(out@ =~= self.bytes());
        Ok(digest_bytes(out.as_slice()))
    }

    /// Records the plan's candidate in governance shadow state, and nothing
    /// more.
    pub fn stage_shadow(&self, candidate: &AdaptationCandidate, registry: &mut ReleaseRegistry) -> (r:
        Result<(), Error>)
        ensures
            !self.spec_valid() ==> (r matches Err(e) && e is Rejected),
            self.spec_valid() && !candidate.spec_valid() ==> r is Err,
            self.spec_valid() && candidate.spec_valid() && candidate.spec_digest()
                != self.candidate_digest@ ==> (r matches Err(e) && e is Rejected),
            r is Ok ==> self.spec_valid() && candidate.spec_valid() && candidate.spec_digest()
                == self.candidate_digest@,
            r is Ok ==> {
                let e = final(registry).record_map()[candidate.candidate.candidate_id@];
                &&& !old(registry).record_map().contains_key(candidate.candidate.candidate_id@)
                &&& final(registry).record_map() == old(registry).record_map().insert(
                    candidate.candidate.candidate_id@,
                    e,
                )
                &&& e.candidate.same(&candidate.candidate)
                &&& e.state == crate::governance::ReleaseState::Shadow
            },
            self.spec_valid() && candidate.spec_valid() && candidate.spec_digest()
                == self.candidate_digest@ ==> (r is Ok <==> !old(registry).record_map().contains_key(
                candidate.candidate.candidate_id@,
            )),
            r is Err ==> final(registry).record_map() == old(registry).record_map(),
    {
        self.validate()?;
        candidate.validate()?;
        let d = candidate.digest()?;
        if !text_eq(d.as_str(), self.candidate_digest.as_str()) {
            return Err(rejected("shadow candidate does not match adaptation plan"));
        }
        registry.propose(candidate.candidate.clone())
    }
}

/// A provider's offer to carry out a plan.
#[derive(Clone, Debug, PartialEq, Eq)]
pub struct WorkOffer {
    pub plan_digest: String,
    pub offer_id: String,
    pub provider: String,
    pub price: u64,
    pub submitted_at: u64,
    pub expires_at: u64,
}

impl WorkOffer {
    pub open spec fn spec_valid(&self, plan: AdaptationPlan, now: u64) -> bool {
        &&& plan.spec_valid()
        &&& is_digest(self.plan_digest@)
        &&& self.plan_digest@ == plan.spec_digest()
        &&& text_ok(self.offer_id@, 128)
        &&& text_ok(self.provider@, 128)
        &&& self.submitted_at != 0
        &&& self.submitted_at <= now
        &&& self.submitted_at < self.expires_at
        &&& self.expires_at <= plan.valid_until
    }

    pub fn validate(&self, plan: &AdaptationPlan, now: u64) -> (r: Result<(), Error>)
        ensures
            r is Ok <==> self.spec_valid(*plan, now),
            r matches Err(e) ==> e is Rejected,
    {
        plan.validate()?;
        let plan_digest = plan.digest()?;
        if !valid_digest(self.plan_digest.as_str()) || !text_eq(
            self.plan_digest.as_str(),
            plan_digest.as_str(),
        ) || !valid_text(self.offer_id.as_str(), MAX_ID_LEN) || !valid_text(
            self.provider.as_str(),
            MAX_ID_LEN,
        ) || self.submitted_at == 0 || self.submitted_at > now || self.expires_at
            <= self.submitted_at || self.expires_at > plan.valid_until {
            return Err(rejected("adaptation work offer is malformed"));
        }
        Ok(())
    }
}


/// The outcome of plan selection.
#[derive(Clone, Debug, PartialEq, Eq)]
pub enum PlanDisposition {
    Candidate(AdaptationPlan),
    NoCandidate(&'static str),
}

/// `a` comes before `b`: higher priority first, then base digest, then
/// candidate digest, in byte order.
pub open spec fn ranks_before(a: AdaptationCandidate, b: AdaptationCandidate) -> bool {
    ||| a.priority > b.priority
    ||| a.priority == b.priority && text_lt(a.candidate.base_digest@, b.candidate.base_digest@)
    ||| a.priority == b.priority && a.candidate.base_digest@ == b.candidate.base_digest@
        && text_lt(a.candidate.candidate_digest@, b.candidate.candidate_digest@)
}


/// Ranking is asymmetric.
proof fn lemma_rank_asym(a: AdaptationCandidate, b: AdaptationCandidate)
    requires
        ranks_before(a, b),
    ensures
        !ranks_before(b, a),
{
    let (ab, bb) = (a.candidate.base_digest@, b.candidate.base_digest@);
    let (ac, bc) = (a.candidate.candidate_digest@, b.candidate.candidate_digest@);
    if a.priority == b.priority {
        if text_lt(ab, bb) {
            crate::order::lemma_text_lt_asymmetric(ab, bb);
            crate::order::lemma_text_lt_irreflexive(ab);
        } else {
            crate::order::lemma_text_lt_asymmetric(ac, bc);
            crate::order::lemma_text_lt_irreflexive(ab);
        }
    }
}

/// Ranking is a strict weak order: `j` before `b` and `k` not before `b`
/// puts `j` before `k`.
proof fn lemma_rank_step(j: AdaptationCandidate, b: AdaptationCandidate, k: AdaptationCandidate)
    requires
        ranks_before(j, b),
        !ranks_before(k, b),
    ensures
        ranks_before(j, k),
{
    let (jb, bb, kb) = (j.candidate.base_digest@, b.candidate.base_digest@, k.candidate.base_digest@);
    let (jc, bc, kc) = (
        j.candidate.candidate_digest@,
        b.candidate.candidate_digest@,
        k.candidate.candidate_digest@,
    );
    if j.priority > b.priority || k.priority < b.priority {
    } else {
        assert(j.priority == b.priority && k.priority == b.priority);
        if kb != bb {
            crate::order::lemma_text_lt_total(bb, kb);
            assert(text_lt(bb, kb));
            if text_lt(jb, bb) {
                crate::order::lemma_text_lt_transitive(jb, bb, kb);
            } else {
                assert(jb == bb);
            }
        } else {
            if text_lt(jb, bb) {
            } else {
                assert(jb == bb && text_lt(jc, bc));
                if kc != bc {
                    crate::order::lemma_text_lt_total(bc, kc);
                    crate::order::lemma_text_lt_transitive(jc, bc, kc);
                }
            }
        }
    }
}

fn rank_before(a: &AdaptationCandidate, b: &AdaptationCandidate) -> (r: bool)
    ensures
        r == ranks_before(*a, *b),
{
    if a.priority != b.priority {
        return a.priority > b.priority;
    }
    let base = compare_text(a.candidate.base_digest.as_str(), b.candidate.base_digest.as_str());
    if base != 0 {
        proof {
            if base > 0 {
                crate::order::lemma_text_lt_asymmetric(b.candidate.base_digest@, a.candidate.base_digest@);
            }
        }
        return base < 0;
    }
    compare_text(a.candidate.candidate_digest.as_str(), b.candidate.candidate_digest.as_str()) < 0
}

/// `m` is the first of the best usable candidates.
pub open spec fn best_candidate(cs: Seq<AdaptationCandidate>, now: u64, m: int) -> bool {
    &&& 0 <= m < cs.len()
    &&& cs[m].evidence.spec_usable(now)
    &&& forall|j: int|
        0 <= j < cs.len() && (#[trigger] cs[j]).evidence.spec_usable(now) ==> !ranks_before(cs[j], cs[m])
    &&& forall|j: int|
        0 <= j < m && (#[trigger] cs[j]).evidence.spec_usable(now) ==> ranks_before(cs[m], cs[j])
}

/// Selects one plan from local, still-valid evidence without authorizing it.
pub fn select_plan(candidates: &[AdaptationCandidate], now: u64) -> (r: Result<PlanDisposition, Error>)
    ensures
        candidates@.len() == 0 ==> (r matches Ok(PlanDisposition::NoCandidate(s)) && s@
            == "no adaptation proposals supplied"@),
        candidates@.len() != 0 ==> (r is Err <==> exists|i: int|
            0 <= i < candidates@.len() && !(#[trigger] candidates@[i]).spec_valid()),
        r matches Err(e) ==> e is Invalid || e is Rejected,
        candidates@.len() != 0 && (forall|i: int|
            0 <= i < candidates@.len() ==> (#[trigger] candidates@[i]).spec_valid()) ==> {
            &&& (forall|i: int|
                0 <= i < candidates@.len() ==> !(#[trigger] candidates@[i]).evidence.spec_usable(now))
                ==> (r matches Ok(PlanDisposition::NoCandidate(s)) && s@
                == "evidence is inconclusive or expired"@)
            &&& (exists|i: int|
                0 <= i < candidates@.len() && (#[trigger] candidates@[i]).evidence.spec_usable(now))
                ==> (r matches Ok(PlanDisposition::Candidate(p)) && exists|m: int|
                best_candidate(candidates@, now, m) && p.plans(candidates@[m]))
        },
{
    if candidates.len() == 0 {
        proof {
            reveal_strlit("no adaptation proposals supplied");
        }
        return Ok(PlanDisposition::NoCandidate("no adaptation proposals supplied"));
    }
    let n = candidates.len();
    for i in 0..n
        invariant
            n == candidates@.len(),
            forall|k: int| 0 <= k < i ==> (#[trigger] candidates@[k]).spec_valid(),
    {
        candidates[i].validate()?;
    }
    let mut best: Option<usize> = None;
    for i in 0..n
        invariant
            n == candidates@.len(),
            forall|k: int| 0 <= k < n ==> (#[trigger] candidates@[k]).spec_valid(),
            match best {
                None => forall|k: int| 0 <= k < i ==> !(#[trigger] candidates@[k]).evidence.spec_usable(now),
                Some(b) => {
                    &&& b < i
                    &&& candidates@[b as int].evidence.spec_usable(now)
                    &&& forall|j: int|
                        0 <= j < i && (#[trigger] candidates@[j]).evidence.spec_usable(now)
                            ==> !ranks_before(candidates@[j], candidates@[b as int])
                    &&& forall|j: int|
                        0 <= j < b && (#[trigger] candidates@[j]).evidence.spec_usable(now)
                            ==> ranks_before(candidates@[b as int], candidates@[j])
                },
            },
    {
        if candidates[i].evidence.usable_at(now) {
            match best {
                None => {
                    best = Some(i);
                    proof {
                        crate::order::lemma_text_lt_irreflexive(candidates@[i as int].candidate.base_digest@);
                        crate::order::lemma_text_lt_irreflexive(
                            candidates@[i as int].candidate.candidate_digest@,
                        );
                    }
                },
                Some(b) => {
                    if rank_before(&candidates[i], &candidates[b]) {
                        proof {
                            let cs = candidates@;
                            assert forall|j: int|
                                0 <= j < i + 1 && (#[trigger] cs[j]).evidence.spec_usable(now)
                                    implies !ranks_before(cs[j], cs[i as int]) by {
                                if j == i {
                                    crate::order::lemma_text_lt_irreflexive(cs[j].candidate.base_digest@);
                                    crate::order::lemma_text_lt_irreflexive(
                                        cs[j].candidate.candidate_digest@,
                                    );
                                } else if ranks_before(cs[j], cs[i as int]) {
                                    lemma_rank_asym(cs[i as int], cs[b as int]);
                                    lemma_rank_step(cs[j], cs[i as int], cs[b as int]);
                                }
                            }
                            assert forall|j: int|
                                0 <= j < i && (#[trigger] cs[j]).evidence.spec_usable(now)
                                    implies ranks_before(cs[i as int], cs[j]) by {
                                lemma_rank_step(cs[i as int], cs[b as int], cs[j]);
                            }
                        }
                        best = Some(i);
                    } else {
                        proof {
                            crate::order::lemma_text_lt_irreflexive(candidates@[i as int].candidate.base_digest@);
                        }
                    }
                },
            }
        }
    }
    match best {
        None => {
            proof {
                reveal_strlit("evidence is inconclusive or expired");
            }
            Ok(PlanDisposition::NoCandidate("evidence is inconclusive or expired"))
        },
        Some(b) => {
            let plan = AdaptationPlan::from_candidate(&candidates[b])?;
            proof {
                assert(best_candidate(candidates@, now, b as int));
            }
            Ok(PlanDisposition::Candidate(plan))
        },
    }
}


/// `a` is cheaper than `b`, ties broken by provider, then offer id, in byte
/// order.
pub open spec fn offer_before(a: WorkOffer, b: WorkOffer) -> bool {
    ||| a.price < b.price
    ||| a.price == b.price && text_lt(a.provider@, b.provider@)
    ||| a.price == b.price && a.provider@ == b.provider@ && text_lt(a.offer_id@, b.offer_id@)
}

proof fn lemma_offer_asym(a: WorkOffer, b: WorkOffer)
    requires
        offer_before(a, b),
    ensures
        !offer_before(b, a),
{
    if a.price == b.price {
        if text_lt(a.provider@, b.provider@) {
            crate::order::lemma_text_lt_asymmetric(a.provider@, b.provider@);
            crate::order::lemma_text_lt_irreflexive(a.provider@);
        } else {
            crate::order::lemma_text_lt_asymmetric(a.offer_id@, b.offer_id@);
            crate::order::lemma_text_lt_irreflexive(a.provider@);
        }
    }
}

proof fn lemma_offer_irreflexive(a: WorkOffer)
    ensures
        !offer_before(a, a),
{
    crate::order::lemma_text_lt_irreflexive(a.provider@);
    crate::order::lemma_text_lt_irreflexive(a.offer_id@);
}

proof fn lemma_offer_step(j: WorkOffer, b: WorkOffer, k: WorkOffer)
    requires
        offer_before(j, b),
        !offer_before(k, b),
    ensures
        offer_before(j, k),
{
    if j.price < b.price || k.price > b.price {
    } else {
        assert(j.price == b.price && k.price == b.price);
        if k.provider@ != b.provider@ {
            crate::order::lemma_text_lt_total(b.provider@, k.provider@);
            if text_lt(j.provider@, b.provider@) {
                crate::order::lemma_text_lt_transitive(j.provider@, b.provider@, k.provider@);
            }
        } else if !text_lt(j.provider@, b.provider@) {
            if k.offer_id@ != b.offer_id@ {
                crate::order::lemma_text_lt_total(b.offer_id@, k.offer_id@);
                crate::order::lemma_text_lt_transitive(j.offer_id@, b.offer_id@, k.offer_id@);
            }
        }
    }
}

fn cheaper(a: &WorkOffer, b: &WorkOffer) -> (r: bool)
    ensures
        r == offer_before(*a, *b),
{
    if a.price != b.price {
        return a.price < b.price;
    }
    let p = compare_text(a.provider.as_str(), b.provider.as_str());
    if p != 0 {
        proof {
            if p > 0 {
                crate::order::lemma_text_lt_asymmetric(b.provider@, a.provider@);
            }
        }
        return p < 0;
    }
    compare_text(a.offer_id.as_str(), b.offer_id.as_str()) < 0
}

/// Offer `i` is still open at `now`.
pub open spec fn open_at(o: WorkOffer, now: u64) -> bool {
    now < o.expires_at
}

/// Offer `i` is open and repeats the id of an earlier open offer.
pub open spec fn repeats_id(offers: Seq<WorkOffer>, now: u64, i: int) -> bool {
    &&& open_at(offers[i], now)
    &&& exists|j: int| 0 <= j < i && open_at(#[trigger] offers[j], now) && offers[j].offer_id@ == offers[i].offer_id@
}

/// Offer `i` stops the selection: it is malformed or a repeated open id.
pub open spec fn offer_fails(plan: AdaptationPlan, offers: Seq<WorkOffer>, now: u64, i: int) -> bool {
    !offers[i].spec_valid(plan, now) || repeats_id(offers, now, i)
}

/// `m` is the first of the cheapest open offers.
pub open spec fn best_offer(offers: Seq<WorkOffer>, now: u64, m: int) -> bool {
    &&& 0 <= m < offers.len()
    &&& open_at(offers[m], now)
    &&& forall|j: int|
        0 <= j < offers.len() && open_at(#[trigger] offers[j], now) ==> !offer_before(offers[j], offers[m])
    &&& forall|j: int| 0 <= j < m && open_at(#[trigger] offers[j], now) ==> offer_before(offers[m], offers[j])
}

/// The first `i` offers are well formed and their open ids are distinct.
pub open spec fn clean_prefix(plan: AdaptationPlan, offers: Seq<WorkOffer>, now: u64, i: int) -> bool {
    &&& forall|k: int| 0 <= k < i ==> (#[trigger] offers[k]).spec_valid(plan, now)
    &&& forall|j: int, k: int|
        0 <= j < k < i && open_at(#[trigger] offers[j], now) && open_at(#[trigger] offers[k], now)
            ==> offers[j].offer_id@ != offers[k].offer_id@
}

proof fn lemma_clean_prefix_no_failure(plan: AdaptationPlan, offers: Seq<WorkOffer>, now: u64, i: int)
    requires
        0 <= i <= offers.len(),
        clean_prefix(plan, offers, now, i),
    ensures
        forall|k: int| 0 <= k < i ==> !offer_fails(plan, offers, now, k),
{
    assert forall|k: int| 0 <= k < i implies !offer_fails(plan, offers, now, k) by {
        assert(offers[k].spec_valid(plan, now));
        if repeats_id(offers, now, k) {
            let j = choose|j: int| 0 <= j < k && open_at(#[trigger] offers[j], now) && offers[j].offer_id@ == offers[k].offer_id@;
            assert(open_at(offers[j], now) && open_at(offers[k], now));
        }
    }
}

/// The selection stops at `i`: the earlier offers pass and `i` fails.
proof fn lemma_first_failure_is(plan: AdaptationPlan, offers: Seq<WorkOffer>, now: u64, i: int)
    requires
        0 <= i < offers.len(),
        clean_prefix(plan, offers, now, i),
        offer_fails(plan, offers, now, i),
    ensures
        forall|f: int|
            0 <= f < offers.len() && offer_fails(plan, offers, now, f) && (forall|k: int|
                0 <= k < f ==> !offer_fails(plan, offers, now, k)) ==> f == i,
{
    lemma_clean_prefix_no_failure(plan, offers, now, i);
    assert forall|f: int|
        0 <= f < offers.len() && offer_fails(plan, offers, now, f) && (forall|k: int|
            0 <= k < f ==> !offer_fails(plan, offers, now, k)) implies f == i by {
        if f < i {
        } else if f > i {
            assert(!offer_fails(plan, offers, now, i));
        }
    }
}

/// `b` is the first of the cheapest open offers among the first `i`, or none
/// of them is open.
pub open spec fn best_so_far(offers: Seq<WorkOffer>, now: u64, i: int, best: Option<usize>) -> bool {
    match best {
        None => forall|k: int| 0 <= k < i ==> !open_at(#[trigger] offers[k], now),
        Some(b) => {
            &&& b < i
            &&& open_at(offers[b as int], now)
            &&& forall|j: int|
                0 <= j < i && open_at(#[trigger] offers[j], now) ==> !offer_before(offers[j], offers[b as int])
            &&& forall|j: int|
                0 <= j < b && open_at(#[trigger] offers[j], now) ==> offer_before(offers[b as int], offers[j])
        },
    }
}

proof fn lemma_best_replaced(offers: Seq<WorkOffer>, now: u64, i: usize, b: usize)
    requires
        i < offers.len(),
        open_at(offers[i as int], now),
        best_so_far(offers, now, i as int, Some(b)),
        offer_before(offers[i as int], offers[b as int]),
    ensures
        best_so_far(offers, now, i + 1, Some(i)),
{
    assert forall|j: int| 0 <= j < i + 1 && open_at(#[trigger] offers[j], now) implies !offer_before(
        offers[j],
        offers[i as int],
    ) by {
        if j == i {
            lemma_offer_irreflexive(offers[j]);
        } else if offer_before(offers[j], offers[i as int]) {
            lemma_offer_asym(offers[i as int], offers[b as int]);
            lemma_offer_step(offers[j], offers[i as int], offers[b as int]);
        }
    }
    assert forall|j: int| 0 <= j < i && open_at(#[trigger] offers[j], now) implies offer_before(
        offers[i as int],
        offers[j],
    ) by {
        lemma_offer_step(offers[i as int], offers[b as int], offers[j]);
    }
}

proof fn lemma_best_kept(offers: Seq<WorkOffer>, now: u64, i: usize, b: usize)
    requires
        i < offers.len(),
        best_so_far(offers, now, i as int, Some(b)),
        !offer_before(offers[i as int], offers[b as int]),
    ensures
        best_so_far(offers, now, i + 1, Some(b)),
{
}

proof fn lemma_best_first(offers: Seq<WorkOffer>, now: u64, i: usize)
    requires
        i < offers.len(),
        open_at(offers[i as int], now),
        best_so_far(offers, now, i as int, None),
    ensures
        best_so_far(offers, now, i + 1, Some(i)),
{
    lemma_offer_irreflexive(offers[i as int]);
}

/// The open ids seen so far grow by one open offer whose id is new.
proof fn lemma_open_ids_step(
    plan: AdaptationPlan,
    offers: Seq<WorkOffer>,
    now: u64,
    i: int,
    old_ids: Seq<Seq<char>>,
    new_ids: Seq<Seq<char>>,
)
    requires
        0 <= i < offers.len(),
        clean_prefix(plan, offers, now, i),
        offers[i].spec_valid(plan, now),
        open_at(offers[i], now),
        !old_ids.contains(offers[i].offer_id@),
        new_ids.to_set() == old_ids.to_set().insert(offers[i].offer_id@),
        forall|x: Seq<char>|
            old_ids.contains(x) <==> exists|j: int|
                0 <= j < i && open_at(#[trigger] offers[j], now) && offers[j].offer_id@ == x,
    ensures
        clean_prefix(plan, offers, now, i + 1),
        forall|x: Seq<char>|
            new_ids.contains(x) <==> exists|j: int|
                0 <= j < i + 1 && open_at(#[trigger] offers[j], now) && offers[j].offer_id@ == x,
{
    assert forall|x: Seq<char>|
        new_ids.contains(x) <==> exists|j: int|
            0 <= j < i + 1 && open_at(#[trigger] offers[j], now) && offers[j].offer_id@ == x by {
        assert(new_ids.to_set().contains(x) == new_ids.contains(x));
        assert(old_ids.to_set().contains(x) == old_ids.contains(x));
        if x == offers[i].offer_id@ {
            assert(open_at(offers[i], now));
        }
    }
    assert forall|j: int, k: int|
        0 <= j < k < i + 1 && open_at(#[trigger] offers[j], now) && open_at(#[trigger] offers[k], now)
            implies offers[j].offer_id@ != offers[k].offer_id@ by {
        if k == i {
            assert(old_ids.contains(offers[j].offer_id@));
        }
    }
}

/// Selects the cheapest open offer, with deterministic tie-breaking; a
/// malformed offer is rejected and a repeated open offer id quarantines the
/// selection.
#[verifier::spinoff_prover]
#[verifier::rlimit(100)]
pub fn select_work_offer<'a>(plan: &AdaptationPlan, offers: &'a [WorkOffer], now: u64) -> (r: Result<
    &'a WorkOffer,
    Error,
>)
    ensures
        forall|i: int|
            0 <= i < offers@.len() && offer_fails(*plan, offers@, now, i) && (forall|k: int|
                0 <= k < i ==> !offer_fails(*plan, offers@, now, k)) ==> (if !(
            #[trigger] offers@[i]).spec_valid(*plan, now) {
                r matches Err(e) && e is Rejected
            } else {
                r matches Err(e) && e is Quarantined
            }),
        (forall|i: int| 0 <= i < offers@.len() ==> !offer_fails(*plan, offers@, now, i)) ==> {
            &&& (forall|i: int| 0 <= i < offers@.len() ==> !open_at(#[trigger] offers@[i], now)) ==> (
            r matches Err(e) && e is Quarantined)
            &&& (exists|i: int| 0 <= i < offers@.len() && open_at(#[trigger] offers@[i], now)) ==> (
            r matches Ok(o) && exists|m: int| best_offer(offers@, now, m) && *o == offers@[m])
        },
{
    let n = offers.len();
    let mut best: Option<usize> = None;
    let mut ids = crate::collections::TextSet::new();
    for i in 0..n
        invariant
            n == offers@.len(),
            clean_prefix(*plan, offers@, now, i as int),
            forall|x: Seq<char>|
                ids@.contains(x) <==> exists|j: int|
                    0 <= j < i && open_at(#[trigger] offers@[j], now) && offers@[j].offer_id@ == x,
            best_so_far(offers@, now, i as int, best),
    {
        let offer = &offers[i];
        match offer.validate(plan, now) {
            Ok(()) => {},
            Err(e) => {
                proof {
                    assert(offer_fails(*plan, offers@, now, i as int));
                    lemma_first_failure_is(*plan, offers@, now, i as int);
                }
                return Err(e);
            },
        }
        if now < offer.expires_at {
            if ids.contains(offer.offer_id.as_str()) {
                proof {
                    assert(repeats_id(offers@, now, i as int));
                    lemma_first_failure_is(*plan, offers@, now, i as int);
                }
                return Err(quarantined("duplicate eligible adaptation offer identity"));
            }
            let ghost old_ids = ids@;
            let _ = ids.insert(offer.offer_id.clone());
            proof {
                lemma_open_ids_step(*plan, offers@, now, i as int, old_ids, ids@);
            }
            match best {
                None => {
                    proof {
                        lemma_best_first(offers@, now, i);
                    }
                    best = Some(i);
                },
                Some(b) => {
                    if cheaper(offer, &offers[b]) {
                        proof {
                            lemma_best_replaced(offers@, now, i, b);
                        }
                        best = Some(i);
                    } else {
                        proof {
                            lemma_best_kept(offers@, now, i, b);
                        }
                    }
                },
            }
        }
    }
    proof {
        lemma_clean_prefix_no_failure(*plan, offers@, now, n as int);
    }
    match best {
        Some(b) => {
            proof {
                assert(best_offer(offers@, now, b as int));
            }
            Ok(&offers[b])
        },
        None => Err(quarantined("no eligible adaptation work offer")),
    }
}

} // verus!
