//! Shadow, canary and local release records over an immutable base.
use crate::canon::{json_text, lit, push_lit, push_text};
use crate::collections::{entries_map, TextMap, TextSet};
use crate::digest::{digest_bytes, sha256_hex};
use crate::error::{invalid, rejected, Error};
use crate::order::text_eq;
use crate::text::{is_digest, valid_digest};
use vstd::prelude::*;

verus! {

/// A candidate update over an immutable base, with its rollback target and
/// the evidence for it.
#[derive(Debug)]
pub struct CandidateUpdate {
    pub candidate_id: String,
    pub base_digest: String,
    pub candidate_digest: String,
    pub rollback_digest: String,
    pub evidence_digest: String,
}

impl Clone for CandidateUpdate {
    fn clone(&self) -> (r: Self)
        ensures
            r.same(self),
    {
        CandidateUpdate {
            candidate_id: self.candidate_id.clone(),
            base_digest: self.base_digest.clone(),
            candidate_digest: self.candidate_digest.clone(),
            rollback_digest: self.rollback_digest.clone(),
            evidence_digest: self.evidence_digest.clone(),
        }
    }
}

impl PartialEq for CandidateUpdate {
    fn eq(&self, other: &Self) -> (r: bool) {
        text_eq(self.candidate_id.as_str(), other.candidate_id.as_str()) && text_eq(
            self.base_digest.as_str(),
            other.base_digest.as_str(),
        ) && text_eq(self.candidate_digest.as_str(), other.candidate_digest.as_str()) && text_eq(
            self.rollback_digest.as_str(),
            other.rollback_digest.as_str(),
        ) && text_eq(self.evidence_digest.as_str(), other.evidence_digest.as_str())
    }
}

impl vstd::std_specs::cmp::PartialEqSpecImpl for CandidateUpdate {
    open spec fn obeys_eq_spec() -> bool {
        true
    }

    open spec fn eq_spec(&self, other: &Self) -> bool {
        self.same(other)
    }
}

/// `["id","base","candidate","rollback","evidence"]`.
pub open spec fn candidate_material(c: CandidateUpdate) -> Seq<u8> {
    lit("[") + json_text(c.candidate_id@) + lit(",") + json_text(c.base_digest@) + lit(",")
        + json_text(c.candidate_digest@) + lit(",") + json_text(c.rollback_digest@) + lit(",")
        + json_text(c.evidence_digest@) + lit("]")
}

impl CandidateUpdate {
    /// Field-by-field equality.
    pub open spec fn same(&self, other: &CandidateUpdate) -> bool {
        &&& self.candidate_id@ == other.candidate_id@
        &&& self.base_digest@ == other.base_digest@
        &&& self.candidate_digest@ == other.candidate_digest@
        &&& self.rollback_digest@ == other.rollback_digest@
        &&& self.evidence_digest@ == other.evidence_digest@
    }

    /// A candidate that differs from its base and rolls back to it.
    pub open spec fn spec_valid(&self) -> bool {
        &&& self.candidate_id@.len() != 0
        &&& is_digest(self.base_digest@)
        &&& is_digest(self.candidate_digest@)
        &&& is_digest(self.rollback_digest@)
        &&& is_digest(self.evidence_digest@)
        &&& self.base_digest@ != self.candidate_digest@
        &&& self.base_digest@ == self.rollback_digest@
    }

    pub fn validate(&self) -> (r: Result<(), Error>)
        ensures
            r is Ok <==> self.spec_valid(),
            r matches Err(e) ==> e is Invalid,
    {
        if self.candidate_id.as_str().is_empty() || !valid_digest(self.base_digest.as_str())
            || !valid_digest(self.candidate_digest.as_str()) || !valid_digest(
            self.rollback_digest.as_str(),
        ) || !valid_digest(self.evidence_digest.as_str()) || text_eq(
            self.base_digest.as_str(),
            self.candidate_digest.as_str(),
        ) || !text_eq(self.base_digest.as_str(), self.rollback_digest.as_str()) {
            return Err(invalid("invalid immutable-base candidate"));
        }
        Ok(())
    }

    /// The digest of a valid candidate.
    pub fn digest(&self) -> (r: Result<String, Error>)
        ensures
            r is Ok <==> self.spec_valid(),
            r matches Err(e) ==> e is Invalid,
            r matches Ok(d) ==> d@ == sha256_hex(candidate_material(*self)) && is_digest(d@),
    {
        self.validate()?;
        let mut out: Vec<u8> = Vec::new();
        push_lit(&mut out, "[");
        push_text(&mut out, self.candidate_id.as_str());
        push_lit(&mut out, ",");
        push_text(&mut out, self.base_digest.as_str());
        push_lit(&mut out, ",");
        push_text(&mut out, self.candidate_digest.as_str());
        push_lit(&mut out, ",");
        push_text(&mut out, self.rollback_digest.as_str());
        push_lit(&mut out, ",");
        push_text(&mut out, self.evidence_digest.as_str());
        push_lit(&mut out, "]");
        assert(out@ =~= candidate_material(*self));
        Ok(digest_bytes(out.as_slice()))
    }
}

#[derive(Clone, Copy, Debug, PartialEq, Eq, Structural)]
pub enum ReleaseState {
    Shadow,
    Canary,
    ReleasedLocal,
    Frozen,
}

/// A candidate, its release state, and the phase evidence already used.
pub struct ReleaseEntry {
    pub candidate: CandidateUpdate,
    pub state: ReleaseState,
    pub used_evidence: TextSet,
}

/// The state after a phase advance, if the state has one.
pub open spec fn next_release(s: ReleaseState) -> Option<ReleaseState> {
    match s {
        ReleaseState::Shadow => Some(ReleaseState::Canary),
        ReleaseState::Canary => Some(ReleaseState::ReleasedLocal),
        _ => None,
    }
}

/// Whether `evidence` may advance an entry: the candidate's own evidence, or
/// other well-formed evidence while in canary.
pub open spec fn phase_evidence_ok(e: ReleaseEntry, evidence: Seq<char>) -> bool {
    e.candidate.evidence_digest@ == evidence || (e.state == ReleaseState::Canary && is_digest(
        evidence,
    ))
}

/// Release records by candidate id.
pub struct ReleaseRegistry {
    records: TextMap<ReleaseEntry>,
}

impl ReleaseRegistry {
    pub closed spec fn record_map(&self) -> Map<Seq<char>, ReleaseEntry> {
        entries_map(self.records@)
    }

    pub fn new() -> (r: ReleaseRegistry)
        ensures
            r.record_map().dom().len() == 0,
    {
        let r = ReleaseRegistry { records: TextMap::new() };
        proof {
            assert(entries_map(r.records@).dom() =~= Set::empty());
        }
        r
    }

    /// Records a valid candidate in shadow state.
    pub fn propose(&mut self, candidate: CandidateUpdate) -> (r: Result<(), Error>)
        ensures
            !candidate.spec_valid() ==> (r matches Err(e) && e is Invalid),
            r is Ok <==> candidate.spec_valid() && !old(self).record_map().contains_key(
                candidate.candidate_id@,
            ),
            candidate.spec_valid() && r is Err ==> (r matches Err(e) && e is Rejected),
            r is Ok ==> {
                let e = final(self).record_map()[candidate.candidate_id@];
                &&& final(self).record_map() == old(self).record_map().insert(
                    candidate.candidate_id@,
                    e,
                )
                &&& e.candidate == candidate
                &&& e.state == ReleaseState::Shadow
                &&& e.used_evidence@.len() == 0
            },
            r is Err ==> final(self).record_map() == old(self).record_map(),
    {
        candidate.validate()?;
        if self.records.contains_key(candidate.candidate_id.as_str()) {
            proof {
                assert(self.record_map().contains_key(candidate.candidate_id@));
            }
            return Err(rejected("candidate identity already exists"));
        }
        let key = candidate.candidate_id.clone();
        self.records.insert(
            key,
            ReleaseEntry { candidate, state: ReleaseState::Shadow, used_evidence: TextSet::new() },
        );
        Ok(())
    }

    pub fn state(&self, id: &str) -> (r: Option<ReleaseState>)
        ensures
            r is Some <==> self.record_map().contains_key(id@),
            r matches Some(s) ==> s == self.record_map()[id@].state,
    {
        match self.records.get(id) {
            Some(e) => Some(e.state),
            None => None,
        }
    }

    /// Advances shadow to canary and canary to local release, each with phase
    /// evidence used once.
    pub fn advance(&mut self, id: &str, evidence_digest: &str) -> (r: Result<(), Error>)
        ensures
            !old(self).record_map().contains_key(id@) ==> (r matches Err(e) && e is Invalid),
            old(self).record_map().contains_key(id@) ==> {
                let e = old(self).record_map()[id@];
                &&& r is Ok <==> phase_evidence_ok(e, evidence_digest@) && next_release(e.state) is Some
                    && !e.used_evidence@.contains(evidence_digest@)
                &&& r matches Err(x) ==> x is Rejected
            },
            r is Ok ==> {
                let before = old(self).record_map()[id@];
                let after = final(self).record_map()[id@];
                &&& final(self).record_map() == old(self).record_map().insert(id@, after)
                &&& after.candidate.same(&before.candidate)
                &&& after.state == next_release(before.state)->0
                &&& after.used_evidence@.to_set() == before.used_evidence@.to_set().insert(
                    evidence_digest@,
                )
            },
            r is Err ==> final(self).record_map() == old(self).record_map(),
    {
        let i = match self.records.position(id) {
            Some(i) => i,
            None => {
                return Err(invalid("unknown candidate"));
            },
        };
        let entry = self.records.value_at(i);
        if !text_eq(entry.candidate.evidence_digest.as_str(), evidence_digest) && (entry.state
            != ReleaseState::Canary || !valid_digest(evidence_digest) || text_eq(
            evidence_digest,
            entry.candidate.evidence_digest.as_str(),
        )) {
            return Err(rejected("phase evidence mismatch"));
        }
        let next = match entry.state {
            ReleaseState::Shadow => ReleaseState::Canary,
            ReleaseState::Canary => ReleaseState::ReleasedLocal,
            _ => {
                return Err(rejected("terminal release state"));
            },
        };
        if entry.used_evidence.contains(evidence_digest) {
            return Err(rejected("phase evidence already used"));
        }
        let mut used = entry.used_evidence.copy_set();
        let _ = used.insert(evidence_digest.to_owned());
        let updated = ReleaseEntry {
            candidate: entry.candidate.clone(),
            state: next,
            used_evidence: used,
        };
        self.records.set_value_at(i, updated);
        Ok(())
    }

    /// Freezes the release of candidate `id`: an unknown candidate is
    /// `Invalid`, one already frozen is `Rejected`.
    pub fn freeze(&mut self, id: &str) -> (r: Result<(), Error>)
        ensures
            r is Ok <==> old(self).record_map().contains_key(id@) && old(self).record_map()[id@].state
                != ReleaseState::Frozen,
            !old(self).record_map().contains_key(id@) ==> (r matches Err(e) && e is Invalid),
            old(self).record_map().contains_key(id@) && old(self).record_map()[id@].state
                == ReleaseState::Frozen ==> (r matches Err(e) && e is Rejected),
            r is Ok ==> {
                let before = old(self).record_map()[id@];
                let after = final(self).record_map()[id@];
                &&& final(self).record_map() == old(self).record_map().insert(id@, after)
                &&& after.candidate.same(&before.candidate)
                &&& after.state == ReleaseState::Frozen
                &&& after.used_evidence@ == before.used_evidence@
            },
            r is Err ==> final(self).record_map() == old(self).record_map(),
    {
        let i = match self.records.position(id) {
            Some(i) => i,
            None => {
                return Err(invalid("unknown candidate"));
            },
        };
        let entry = self.records.value_at(i);
        if entry.state == ReleaseState::Frozen {
            return Err(rejected("release is already frozen"));
        }
        let updated = ReleaseEntry {
            candidate: entry.candidate.clone(),
            state: ReleaseState::Frozen,
            used_evidence: entry.used_evidence.copy_set(),
        };
        self.records.set_value_at(i, updated);
        Ok(())
    }
}

impl Default for ReleaseRegistry {
    fn default() -> (r: ReleaseRegistry)
        ensures
            r.record_map().dom().len() == 0,
    {
        ReleaseRegistry::new()
    }
}

} // verus!
