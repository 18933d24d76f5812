//! Reviewed evidence records and the local workflow that requires them.
use crate::collections::{entries_map, TextMap};
use crate::error::{invalid, quarantined, rejected, Error};
use crate::kernel::{admits, Decision, DecisionKind, Kernel};
use crate::order::text_eq;
use crate::records::Proposal;
use crate::runtime::{executes, Runtime};
use crate::text::{contains_control, has_control, is_digest, valid_digest};
use vstd::prelude::*;

verus! {

/// Evidence about a subject, produced by an operator, checked by a validator
/// and, once accepted, reviewed by a third party.
pub struct Evidence {
    pub id: String,
    pub source_digest: String,
    pub operator_id: String,
    pub validator_id: String,
    pub reviewer_id: String,
    pub valid_until: u64,
    pub accepted: bool,
    pub revoked: bool,
}

/// A role name: non-empty and free of control characters.
pub open spec fn role_ok(r: Seq<char>) -> bool {
    r.len() != 0 && !has_control(r)
}

fn role_valid(r: &str) -> (b: bool)
    ensures
        b == role_ok(r@),
{
    !r.is_empty() && !contains_control(r)
}

impl Clone for Evidence {
    fn clone(&self) -> (r: Self)
        ensures
            r.same(self),
    {
        Evidence {
            id: self.id.clone(),
            source_digest: self.source_digest.clone(),
            operator_id: self.operator_id.clone(),
            validator_id: self.validator_id.clone(),
            reviewer_id: self.reviewer_id.clone(),
            valid_until: self.valid_until,
            accepted: self.accepted,
            revoked: self.revoked,
        }
    }
}

impl Evidence {
    /// Field-by-field equality.
    pub open spec fn same(&self, other: &Evidence) -> bool {
        &&& self.id@ == other.id@
        &&& self.source_digest@ == other.source_digest@
        &&& self.operator_id@ == other.operator_id@
        &&& self.validator_id@ == other.validator_id@
        &&& self.reviewer_id@ == other.reviewer_id@
        &&& self.valid_until == other.valid_until
        &&& self.accepted == other.accepted
        &&& self.revoked == other.revoked
    }

    /// A well-formed record: distinct operator and validator, and a approver
    /// distinct from both exactly when the record is accepted.
    pub open spec fn spec_valid(&self) -> bool {
        &&& self.id@.len() != 0
        &&& !has_control(self.id@)
        &&& is_digest(self.source_digest@)
        &&& role_ok(self.operator_id@)
        &&& role_ok(self.validator_id@)
        &&& self.operator_id@ != self.validator_id@
        &&& self.valid_until != 0
        &&& self.accepted ==> role_ok(self.reviewer_id@) && self.reviewer_id@ != self.operator_id@
            && self.reviewer_id@ != self.validator_id@
        &&& !self.accepted ==> self.reviewer_id@.len() == 0
    }

    /// The record vouches for `subject` at `now`.
    pub open spec fn spec_usable(&self, now: u64, subject: Seq<char>) -> bool {
        &&& self.accepted
        &&& !self.revoked
        &&& self.valid_until > now
        &&& self.source_digest@ == subject
        &&& self.operator_id@.len() != 0
        &&& self.validator_id@.len() != 0
        &&& self.reviewer_id@.len() != 0
        &&& self.operator_id@ != self.validator_id@
        &&& self.operator_id@ != self.reviewer_id@
        &&& self.validator_id@ != self.reviewer_id@
    }

    pub fn validate(&self) -> (r: Result<(), Error>)
        ensures
            r is Ok <==> self.spec_valid(),
            r matches Err(e) ==> e is Invalid,
    {
        let reviewer_ok = if self.accepted {
            role_valid(self.reviewer_id.as_str()) && !text_eq(
                self.reviewer_id.as_str(),
                self.operator_id.as_str(),
            ) && !text_eq(self.reviewer_id.as_str(), self.validator_id.as_str())
        } else {
            self.reviewer_id.as_str().is_empty()
        };
        if self.id.as_str().is_empty() || contains_control(self.id.as_str()) || !valid_digest(
            self.source_digest.as_str(),
        ) || !role_valid(self.operator_id.as_str()) || !role_valid(self.validator_id.as_str())
            || text_eq(self.operator_id.as_str(), self.validator_id.as_str()) || self.valid_until
            == 0 || !reviewer_ok {
            return Err(invalid("invalid evidence identity"));
        }
        Ok(())
    }

    fn usable(&self, now: u64, subject: &str) -> (r: bool)
        ensures
            r == self.spec_usable(now, subject@),
    {
        self.accepted && !self.revoked && self.valid_until > now && text_eq(
            self.source_digest.as_str(),
            subject,
        ) && !self.operator_id.as_str().is_empty() && !self.validator_id.as_str().is_empty()
            && !self.reviewer_id.as_str().is_empty() && !text_eq(
            self.operator_id.as_str(),
            self.validator_id.as_str(),
        ) && !text_eq(self.operator_id.as_str(), self.reviewer_id.as_str()) && !text_eq(
            self.validator_id.as_str(),
            self.reviewer_id.as_str(),
        )
    }
}

/// Evidence records by id.
pub struct EvidenceRegistry {
    records: TextMap<Evidence>,
}

/// Every record is well formed and filed under its own id.
pub open spec fn registry_wf(m: Map<Seq<char>, Evidence>) -> bool {
    forall|k: Seq<char>| #[trigger] m.contains_key(k) ==> m[k].id@ == k && m[k].spec_valid()
}

impl EvidenceRegistry {
    #[verifier::type_invariant]
    spec fn wf(self) -> bool {
        registry_wf(entries_map(self.records@))
    }

    /// The records by id.
    pub closed spec fn record_map(&self) -> Map<Seq<char>, Evidence> {
        entries_map(self.records@)
    }

    pub fn new() -> (r: EvidenceRegistry)
        ensures
            r.record_map().dom().len() == 0,
    {
        let r = EvidenceRegistry { records: TextMap::new() };
        proof {
            assert(entries_map(r.records@).dom() =~= Set::empty());
        }
        r
    }

    /// Whether the registry vouches for `subject` with record `id` at `now`.
    pub open spec fn spec_is_valid(&self, id: Seq<char>, now: u64, subject: Seq<char>) -> bool {
        &&& is_digest(subject)
        &&& self.record_map().contains_key(id)
        &&& self.record_map()[id].spec_usable(now, subject)
    }

    /// Every record is well formed and filed under its own id.
    pub fn validate(&self) -> (r: Result<(), Error>)
        ensures
            r is Ok,
            registry_wf(self.record_map()),
    {
        proof {
            use_type_invariant(self);
        }
        Ok(())
    }

    /// Files a new, well-formed record under its id.
    pub fn insert(&mut self, evidence: Evidence) -> (r: Result<(), Error>)
        ensures
            !evidence.spec_valid() ==> (r matches Err(e) && e is Invalid),
            evidence.spec_valid() && old(self).record_map().contains_key(evidence.id@) ==> (
            r matches Err(e) && e is Rejected),
            r is Ok <==> evidence.spec_valid() && !old(self).record_map().contains_key(
                evidence.id@,
            ),
            r is Ok ==> final(self).record_map() == old(self).record_map().insert(
                evidence.id@,
                evidence,
            ),
            r is Err ==> final(self).record_map() == old(self).record_map(),
    {
        evidence.validate()?;
        if self.records.contains_key(evidence.id.as_str()) {
            proof {
                assert(self.record_map().contains_key(evidence.id@));
            }
            return Err(rejected("evidence identity already exists"));
        }
        let key = evidence.id.clone();
        let ghost ev = evidence;
        proof {
            use_type_invariant(&*self);
        }
        let mut taken = TextMap::new();
        std::mem::swap(&mut taken, &mut self.records);
        taken.insert(key, evidence);
        proof {
            assert(registry_wf(entries_map(taken@)));
        }
        self.records = taken;
        Ok(())
    }

    /// Accepts record `id` with a approver distinct from its operator and
    /// validator.
    pub fn accept(&mut self, id: &str, reviewer: &str) -> (r: Result<(), Error>)
        ensures
            accepts(*old(self), *final(self), id@, reviewer@, r),
            !old(self).record_map().contains_key(id@) ==> (r matches Err(e) && e is Quarantined),
            old(self).record_map().contains_key(id@) ==> {
                let e = old(self).record_map()[id@];
                &&& r is Ok <==> role_ok(reviewer@) && !e.revoked && !e.accepted && reviewer@
                    != e.operator_id@ && reviewer@ != e.validator_id@
                &&& r matches Err(x) ==> x is Rejected
            },
            r is Ok ==> {
                let e = old(self).record_map()[id@];
                &&& final(self).record_map().dom() == old(self).record_map().dom()
                &&& forall|k: Seq<char>|
                    #[trigger] final(self).record_map().contains_key(k) && k != id@
                        ==> final(self).record_map()[k] == old(self).record_map()[k]
                &&& final(self).record_map()[id@].accepted
                &&& final(self).record_map()[id@].reviewer_id@ == reviewer@
                &&& final(self).record_map()[id@].id@ == e.id@
                &&& final(self).record_map()[id@].source_digest@ == e.source_digest@
                &&& final(self).record_map()[id@].operator_id@ == e.operator_id@
                &&& final(self).record_map()[id@].validator_id@ == e.validator_id@
                &&& final(self).record_map()[id@].valid_until == e.valid_until
                &&& final(self).record_map()[id@].revoked == e.revoked
            },
            r is Err ==> final(self).record_map() == old(self).record_map(),
    {
        proof {
            use_type_invariant(&*self);
        }
        let i = match self.records.position(id) {
            Some(i) => i,
            None => {
                return Err(quarantined("missing evidence"));
            },
        };
        let e = self.records.value_at(i);
        if !role_valid(reviewer) || e.revoked || e.accepted || text_eq(
            reviewer,
            e.operator_id.as_str(),
        ) || text_eq(reviewer, e.validator_id.as_str()) {
            return Err(rejected("approver role collision"));
        }
        let updated = Evidence {
            id: e.id.clone(),
            source_digest: e.source_digest.clone(),
            operator_id: e.operator_id.clone(),
            validator_id: e.validator_id.clone(),
            reviewer_id: reviewer.to_owned(),
            valid_until: e.valid_until,
            accepted: true,
            revoked: e.revoked,
        };
        let mut taken = TextMap::new();
        std::mem::swap(&mut taken, &mut self.records);
        taken.set_value_at(i, updated);
        proof {
            assert(registry_wf(entries_map(taken@)));
        }
        self.records = taken;
        proof {
            assert(self.record_map().dom() =~= old(self).record_map().dom());
        }
        Ok(())
    }

    /// Whether record `id` vouches for `subject` at `now`.
    pub fn is_valid(&self, id: &str, now: u64, subject: &str) -> (r: bool)
        ensures
            r == self.spec_is_valid(id@, now, subject@),
    {
        if !valid_digest(subject) {
            return false;
        }
        match self.records.get(id) {
            Some(e) => e.usable(now, subject),
            None => false,
        }
    }

    /// Revokes record `id`.
    pub fn revoke(&mut self, id: &str) -> (r: Result<(), Error>)
        ensures
            revokes(*old(self), *final(self), id@, r),
            !old(self).record_map().contains_key(id@) ==> (r matches Err(e) && e is Invalid),
            old(self).record_map().contains_key(id@) ==> (r is Ok
                <==> !old(self).record_map()[id@].revoked),
            old(self).record_map().contains_key(id@) && old(self).record_map()[id@].revoked ==> (
            r matches Err(e) && e is Rejected),
            r is Ok ==> {
                let e = old(self).record_map()[id@];
                &&& final(self).record_map().dom() == old(self).record_map().dom()
                &&& forall|k: Seq<char>|
                    #[trigger] final(self).record_map().contains_key(k) && k != id@
                        ==> final(self).record_map()[k] == old(self).record_map()[k]
                &&& final(self).record_map()[id@].revoked
                &&& final(self).record_map()[id@].accepted == e.accepted
                &&& final(self).record_map()[id@].reviewer_id@ == e.reviewer_id@
                &&& final(self).record_map()[id@].id@ == e.id@
                &&& final(self).record_map()[id@].source_digest@ == e.source_digest@
                &&& final(self).record_map()[id@].operator_id@ == e.operator_id@
                &&& final(self).record_map()[id@].validator_id@ == e.validator_id@
                &&& final(self).record_map()[id@].valid_until == e.valid_until
            },
            r is Err ==> final(self).record_map() == old(self).record_map(),
    {
        proof {
            use_type_invariant(&*self);
        }
        let i = match self.records.position(id) {
            Some(i) => i,
            None => {
                return Err(invalid("unknown evidence"));
            },
        };
        let e = self.records.value_at(i);
        if e.revoked {
            return Err(rejected("evidence is already revoked"));
        }
        let mut updated = e.clone();
        updated.revoked = true;
        let mut taken = TextMap::new();
        std::mem::swap(&mut taken, &mut self.records);
        taken.set_value_at(i, updated);
        proof {
            assert(registry_wf(entries_map(taken@)));
        }
        self.records = taken;
        proof {
            assert(self.record_map().dom() =~= old(self).record_map().dom());
        }
        Ok(())
    }

    /// Every record, in id order.
    pub fn records(&self) -> (r: Vec<Evidence>)
        ensures
            r@.len() == self.record_map().dom().len(),
            forall|i: int| 0 <= i < r@.len() ==> self.record_map().contains_key((#[trigger] r@[i]).id@)
                && r@[i].same(&self.record_map()[r@[i].id@]),
    {
        proof {
            use_type_invariant(self);
        }
        let mut out: Vec<Evidence> = Vec::new();
        let n = self.records.len();
        for i in 0..n
            invariant
                n == self.records@.len(),
                out@.len() == i,
                registry_wf(entries_map(self.records@)),
                forall|k: int|
                    0 <= k < i ==> entries_map(self.records@).contains_key((#[trigger] out@[k]).id@)
                        && out@[k].same(&entries_map(self.records@)[out@[k].id@]),
        {
            let key = self.records.key_at(i);
            let v = match self.records.get(key.as_str()) {
                Some(v) => v,
                None => {
                    proof {
                        assert(crate::collections::entry_keys(self.records@)[i as int] == key@);
                    }
                    return out;
                },
            };
            out.push(v.clone());
        }
        let _ = self.records.len();
        out
    }
}

impl Default for EvidenceRegistry {
    fn default() -> (r: EvidenceRegistry)
        ensures
            r.record_map().dom().len() == 0,
    {
        EvidenceRegistry::new()
    }
}


/// What `run_local_workflow` does: evidence first, then admission, then
/// execution.
pub open spec fn workflow(
    kb: Kernel,
    ka: Kernel,
    rb: Runtime,
    ra: Runtime,
    evidence: EvidenceRegistry,
    evidence_id: Seq<char>,
    p: Proposal,
    now: u64,
    r: Result<&'static str, Error>,
) -> bool {
    if !evidence.spec_is_valid(evidence_id, now, p.spec_digest()) {
        (r matches Ok(s) && s@ == "quarantined"@) && ka.unchanged_from(&kb) && ra.same_runtime(&rb)
    } else {
        exists|mid: Kernel, admitted: Result<Decision, Error>|
            #![trigger admits(kb, mid, p, now, admitted)]
            {
                &&& admits(kb, mid, p, now, admitted)
                &&& match admitted {
                    Err(_) => r is Err && ka == mid && ra.same_runtime(&rb),
                    Ok(d) => if d.kind != DecisionKind::Accepted {
                        (r matches Ok(s) && s@ == "rejected"@) && ka == mid && ra.same_runtime(&rb)
                    } else {
                        exists|ran: Result<bool, Error>|
                            #![trigger executes(rb, ra, mid, ka, p, d, now, ran)]
                            {
                                &&& executes(rb, ra, mid, ka, p, d, now, ran)
                                &&& ran is Err ==> r is Err
                                &&& ran is Ok ==> (r matches Ok(s) && s@ == "completed"@)
                            }
                    },
                }
            }
    }
}

/// Admits and executes `proposal` when evidence `evidence_id` vouches for it.
pub fn run_local_workflow(
    kernel: &mut Kernel,
    runtime: &mut Runtime,
    evidence: &EvidenceRegistry,
    evidence_id: &str,
    proposal: &Proposal,
    now: u64,
) -> (r: Result<&'static str, Error>)
    ensures
        workflow(
            *old(kernel),
            *final(kernel),
            *old(runtime),
            *final(runtime),
            *evidence,
            evidence_id@,
            *proposal,
            now,
            r,
        ),
{
    let subject = proposal.digest_text();
    if !evidence.is_valid(evidence_id, now, subject.as_str()) {
        proof {
            reveal_strlit("quarantined");
        }
        return Ok("quarantined");
    }
    let ghost k0 = *kernel;
    let admitted = kernel.admit_proposal(proposal, now);
    let ghost mid = *kernel;
    proof {
        assert(admits(k0, mid, *proposal, now, admitted));
    }
    let decision = match admitted {
        Ok(d) => d,
        Err(e) => {
            return Err(e);
        },
    };
    if decision.kind != DecisionKind::Accepted {
        proof {
            reveal_strlit("rejected");
        }
        return Ok("rejected");
    }
    let ran = runtime.execute(kernel, proposal, &decision, now);
    proof {
        assert(executes(*old(runtime), *runtime, mid, *kernel, *proposal, decision, now, ran));
    }
    match ran {
        Ok(_) => {
            proof {
                reveal_strlit("completed");
            }
            Ok("completed")
        },
        Err(e) => Err(e),
    }
}

/// What `revoke` does: an unknown or already revoked record is refused and
/// nothing changes; otherwise the record is marked revoked and every other
/// record is left as it was.
pub open spec fn revokes(
    before: EvidenceRegistry,
    after: EvidenceRegistry,
    id: Seq<char>,
    r: Result<(), Error>,
) -> bool {
    &&& r is Ok <==> before.record_map().contains_key(id) && !before.record_map()[id].revoked
    &&& r is Err ==> after.record_map() == before.record_map()
    &&& r is Ok ==> {
        &&& after.record_map().dom() == before.record_map().dom()
        &&& forall|k: Seq<char>|
            #[trigger] after.record_map().contains_key(k) && k != id ==> after.record_map()[k]
                == before.record_map()[k]
        &&& after.record_map()[id].revoked
    }
}

/// Revoked evidence vouches for nothing: whatever the time and the subject,
/// a registry does not hold a revoked record valid.
pub proof fn lemma_revoked_evidence_vouches_for_nothing(
    registry: EvidenceRegistry,
    id: Seq<char>,
    now: u64,
    subject: Seq<char>,
)
    requires
        registry.record_map().contains_key(id),
        registry.record_map()[id].revoked,
    ensures
        !registry.spec_is_valid(id, now, subject),
{
}

/// A revocation takes effect at once and only on its record: after a
/// successful revoke of `id`, `id` is valid for no subject at any time, and
/// every other record is valid exactly when it was before.
pub proof fn lemma_revocation_withdraws_only_its_record(
    before: EvidenceRegistry,
    after: EvidenceRegistry,
    id: Seq<char>,
)
    requires
        revokes(before, after, id, Ok::<(), Error>(())),
    ensures
        forall|now: u64, subject: Seq<char>| !#[trigger] after.spec_is_valid(id, now, subject),
        forall|k: Seq<char>, now: u64, subject: Seq<char>|
            k != id ==> (#[trigger] after.spec_is_valid(k, now, subject) == before.spec_is_valid(
                k,
                now,
                subject,
            )),
{
    assert forall|k: Seq<char>, now: u64, subject: Seq<char>| k != id implies (#[trigger] after.spec_is_valid(
        k,
        now,
        subject,
    ) == before.spec_is_valid(k, now, subject)) by {
        if after.record_map().contains_key(k) {
            assert(after.record_map()[k] == before.record_map()[k]);
        } else {
            assert(!before.record_map().contains_key(k));
        }
    }
}

/// What `accept` does: it approves a known record that is neither revoked
/// nor already approved, by an approver who is neither its operator nor its
/// validator, and leaves every other record as it was; otherwise nothing
/// changes.
pub open spec fn accepts(
    before: EvidenceRegistry,
    after: EvidenceRegistry,
    id: Seq<char>,
    reviewer: Seq<char>,
    r: Result<(), Error>,
) -> bool {
    &&& r is Ok <==> before.record_map().contains_key(id) && role_ok(reviewer)
        && !before.record_map()[id].revoked && !before.record_map()[id].accepted && reviewer
        != before.record_map()[id].operator_id@ && reviewer != before.record_map()[id].validator_id@
    &&& r is Err ==> after.record_map() == before.record_map()
    &&& r is Ok ==> {
        let e = before.record_map()[id];
        &&& after.record_map().dom() == before.record_map().dom()
        &&& forall|k: Seq<char>|
            #[trigger] after.record_map().contains_key(k) && k != id ==> after.record_map()[k]
                == before.record_map()[k]
        &&& after.record_map()[id].accepted
        &&& !after.record_map()[id].revoked
        &&& after.record_map()[id].reviewer_id@ == reviewer
        &&& after.record_map()[id].source_digest@ == e.source_digest@
        &&& after.record_map()[id].operator_id@ == e.operator_id@
        &&& after.record_map()[id].validator_id@ == e.validator_id@
        &&& after.record_map()[id].valid_until == e.valid_until
    }
}

/// Approved evidence vouches for exactly its subject until it expires: after
/// a successful accept of `id` in a well-formed registry, `id` is valid for
/// its source digest at every time before its expiry, and never for another
/// subject or at or after its expiry.
pub proof fn lemma_accepted_evidence_vouches_for_its_subject(
    before: EvidenceRegistry,
    after: EvidenceRegistry,
    id: Seq<char>,
    reviewer: Seq<char>,
)
    requires
        registry_wf(before.record_map()),
        accepts(before, after, id, reviewer, Ok::<(), Error>(())),
    ensures
        forall|now: u64|
            now < before.record_map()[id].valid_until ==> #[trigger] after.spec_is_valid(
                id,
                now,
                before.record_map()[id].source_digest@,
            ),
        forall|now: u64, subject: Seq<char>|
            #[trigger] after.spec_is_valid(id, now, subject) ==> subject
                == before.record_map()[id].source_digest@ && now < before.record_map()[id].valid_until,
{
    assert(before.record_map().contains_key(id));
    assert(before.record_map()[id].spec_valid());
}

} // verus!

