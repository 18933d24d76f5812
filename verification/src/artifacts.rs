//! Artifact manifests and their quarantine, acceptance and revocation.
use crate::canon::{json_nat, json_text, lit, push_lit, push_nat, push_text};
use crate::collections::{entries_map, TextMap};
use crate::digest::{digest_bytes, sha256_hex};
use crate::error::{invalid, rejected, Error};
use crate::order::text_eq;
use crate::text::{all_whitespace, contains_control, has_control, is_blank, is_digest, valid_digest};
use vstd::prelude::*;

verus! {

/// An artifact bound to exact subject, source and provenance digests, with a
/// declared custody root and retention interval `[start, until)`.
#[derive(Debug)]
pub struct ArtifactManifest {
    pub artifact_id: String,
    pub subject_digest: String,
    pub source_digest: String,
    pub license: String,
    pub provenance_digest: String,
    pub custody_root: String,
    pub retention_start: u64,
    pub retention_until: u64,
}

impl Clone for ArtifactManifest {
    fn clone(&self) -> (r: Self)
        ensures
            r.same(self),
    {
        ArtifactManifest {
            artifact_id: self.artifact_id.clone(),
            subject_digest: self.subject_digest.clone(),
            source_digest: self.source_digest.clone(),
            license: self.license.clone(),
            provenance_digest: self.provenance_digest.clone(),
            custody_root: self.custody_root.clone(),
            retention_start: self.retention_start,
            retention_until: self.retention_until,
        }
    }
}

impl ArtifactManifest {
    /// Field-by-field equality.
    pub open spec fn same(&self, other: &ArtifactManifest) -> bool {
        &&& self.artifact_id@ == other.artifact_id@
        &&& self.subject_digest@ == other.subject_digest@
        &&& self.source_digest@ == other.source_digest@
        &&& self.license@ == other.license@
        &&& self.provenance_digest@ == other.provenance_digest@
        &&& self.custody_root@ == other.custody_root@
        &&& self.retention_start == other.retention_start
        &&& self.retention_until == other.retention_until
    }

    pub open spec fn spec_valid(&self) -> bool {
        &&& !all_whitespace(self.artifact_id@)
        &&& !all_whitespace(self.license@)
        &&& !all_whitespace(self.custody_root@)
        &&& !has_control(self.artifact_id@)
        &&& !has_control(self.license@)
        &&& !has_control(self.custody_root@)
        &&& is_digest(self.subject_digest@)
        &&& is_digest(self.source_digest@)
        &&& is_digest(self.provenance_digest@)
        &&& self.retention_start < self.retention_until
    }

    pub open spec fn spec_active(&self, now: u64) -> bool {
        self.spec_valid() && self.retention_start <= now && now < self.retention_until
    }

    /// The canonical encoding of the manifest.
    pub open spec fn bytes(&self) -> Seq<u8> {
        lit("{\"artifact_id\":") + json_text(self.artifact_id@) + lit(",\"subject_digest\":")
            + json_text(self.subject_digest@) + lit(",\"source_digest\":") + json_text(
            self.source_digest@,
        ) + lit(",\"license\":") + json_text(self.license@) + lit(",\"provenance_digest\":")
            + json_text(self.provenance_digest@) + lit(",\"custody_root\":") + json_text(
            self.custody_root@,
        ) + lit(",\"retention_start\":") + json_nat(self.retention_start as nat) + lit(
            ",\"retention_until\":",
        ) + json_nat(self.retention_until as nat) + lit("}")
    }

    pub fn validate(&self) -> (r: Result<(), Error>)
        ensures
            r is Ok <==> self.spec_valid(),
            r matches Err(e) ==> e is Invalid,
    {
        if is_blank(self.artifact_id.as_str()) || is_blank(self.license.as_str()) || is_blank(
            self.custody_root.as_str(),
        ) {
            return Err(invalid("artifact identity, license, and custody root are required"));
        }
        if contains_control(self.artifact_id.as_str()) || contains_control(self.license.as_str())
            || contains_control(self.custody_root.as_str()) {
            return Err(invalid("artifact manifest fields cannot contain control characters"));
        }
        if !valid_digest(self.subject_digest.as_str()) || !valid_digest(
            self.source_digest.as_str(),
        ) || !valid_digest(self.provenance_digest.as_str()) {
            return Err(invalid("subject, source, and provenance digests must be lowercase SHA-256"));
        }
        if self.retention_until <= self.retention_start {
            return Err(invalid("retention interval must have a positive duration"));
        }
        Ok(())
    }

    pub fn active(&self, now: u64) -> (r: bool)
        ensures
            r == self.spec_active(now),
    {
        self.validate().is_ok() && self.retention_start <= now && now < self.retention_until
    }

    /// The digest of a valid manifest.
    pub fn digest(&self) -> (r: Result<String, Error>)
        ensures
            r is Ok <==> self.spec_valid(),
            r matches Err(e) ==> e is Invalid,
            r matches Ok(d) ==> d@ == sha256_hex(self.bytes()) && is_digest(d@),
    {
        self.validate()?;
        let mut out: Vec<u8> = Vec::new();
        push_lit(&mut out, "{\"artifact_id\":");
        push_text(&mut out, self.artifact_id.as_str());
        push_lit(&mut out, ",\"subject_digest\":");
        push_text(&mut out, self.subject_digest.as_str());
        push_lit(&mut out, ",\"source_digest\":");
        push_text(&mut out, self.source_digest.as_str());
        push_lit(&mut out, ",\"license\":");
        push_text(&mut out, self.license.as_str());
        push_lit(&mut out, ",\"provenance_digest\":");
        push_text(&mut out, self.provenance_digest.as_str());
        push_lit(&mut out, ",\"custody_root\":");
        push_text(&mut out, self.custody_root.as_str());
        push_lit(&mut out, ",\"retention_start\":");
        push_nat(&mut out, self.retention_start);
        push_lit(&mut out, ",\"retention_until\":");
        push_nat(&mut out, self.retention_until);
        push_lit(&mut out, "}");
        assert(out@ =~= self.bytes());
        Ok(digest_bytes(out.as_slice()))
    }

    pub fn binds_subject(&self, subject_digest: &str) -> (r: bool)
        ensures
            r == (self.subject_digest@ == subject_digest@),
    {
        text_eq(self.subject_digest.as_str(), subject_digest)
    }
}

#[derive(Clone, Copy, Debug, PartialEq, Eq, Structural)]
pub enum ArtifactStatus {
    Quarantined,
    Accepted,
    Revoked,
}

/// An artifact with its operator, validator, approver and lifecycle.
#[derive(Debug)]
pub struct ArtifactRecord {
    pub manifest: ArtifactManifest,
    pub operator_id: String,
    pub validator_id: String,
    pub reviewer_id: Option<String>,
    pub status: ArtifactStatus,
    pub accepted_at: Option<u64>,
    pub revoked_at: Option<u64>,
}

/// A role assertion: not blank and free of control characters.
pub open spec fn role_ok(r: Seq<char>) -> bool {
    !all_whitespace(r) && !has_control(r)
}

fn validate_role(role: &str) -> (r: Result<(), Error>)
    ensures
        r is Ok <==> role_ok(role@),
        r matches Err(e) ==> e is Invalid,
{
    if is_blank(role) || contains_control(role) {
        return Err(invalid("role must be a non-empty role assertion"));
    }
    Ok(())
}

fn validate_distinct_roles(operator_id: &str, validator_id: &str) -> (r: Result<(), Error>)
    ensures
        r is Ok <==> role_ok(operator_id@) && role_ok(validator_id@) && operator_id@
            != validator_id@,
        !(role_ok(operator_id@) && role_ok(validator_id@)) ==> (r matches Err(e) && e is Invalid),
        role_ok(operator_id@) && role_ok(validator_id@) && operator_id@ == validator_id@ ==> (
        r matches Err(e) && e is Rejected),
{
    validate_role(operator_id)?;
    validate_role(validator_id)?;
    if text_eq(operator_id, validator_id) {
        return Err(rejected("operator and validator roles must be distinct"));
    }
    Ok(())
}

/// The approver is a role distinct from the operator and the validator.
pub open spec fn reviewer_ok(r: ArtifactRecord) -> bool {
    r.reviewer_id matches Some(rv) && role_ok(rv@) && rv@ != r.operator_id@ && rv@
        != r.validator_id@
}

/// A record filed under `key` is consistent with its lifecycle.
pub open spec fn record_ok(key: Seq<char>, r: ArtifactRecord) -> bool {
    &&& r.manifest.spec_valid()
    &&& key == r.manifest.artifact_id@
    &&& role_ok(r.operator_id@)
    &&& role_ok(r.validator_id@)
    &&& r.operator_id@ != r.validator_id@
    &&& match r.status {
        ArtifactStatus::Quarantined => r.reviewer_id is None && r.accepted_at is None
            && r.revoked_at is None,
        ArtifactStatus::Accepted => reviewer_ok(r) && (r.accepted_at matches Some(t)
            && r.manifest.spec_active(t)) && r.revoked_at is None,
        ArtifactStatus::Revoked => r.revoked_at is Some && match r.accepted_at {
            Some(at) => r.manifest.spec_active(at) && r.revoked_at->0 >= at && reviewer_ok(r),
            None => r.reviewer_id is None,
        },
    }
}

fn reviewer_valid(record: &ArtifactRecord) -> (r: bool)
    ensures
        r == reviewer_ok(*record),
{
    match &record.reviewer_id {
        Some(rv) => validate_role(rv.as_str()).is_ok() && !text_eq(
            rv.as_str(),
            record.operator_id.as_str(),
        ) && !text_eq(rv.as_str(), record.validator_id.as_str()),
        None => false,
    }
}

fn check_record(key: &str, record: &ArtifactRecord) -> (r: Result<(), Error>)
    ensures
        r is Ok <==> record_ok(key@, *record),
        r matches Err(e) ==> e is Invalid || e is Rejected,
{
    record.manifest.validate()?;
    if !text_eq(key, record.manifest.artifact_id.as_str()) {
        return Err(invalid("artifact registry key mismatch"));
    }
    validate_distinct_roles(record.operator_id.as_str(), record.validator_id.as_str())?;
    match record.status {
        ArtifactStatus::Quarantined => {
            if record.reviewer_id.is_some() || record.accepted_at.is_some()
                || record.revoked_at.is_some() {
                return Err(invalid("quarantined artifact lifecycle fields are inconsistent"));
            }
        },
        ArtifactStatus::Accepted => {
            if !reviewer_valid(record) {
                return Err(invalid("accepted artifact approver is missing or collides"));
            }
            let accepted_at = match record.accepted_at {
                Some(t) => t,
                None => {
                    return Err(invalid("accepted artifact timestamp is missing"));
                },
            };
            if !record.manifest.active(accepted_at) || record.revoked_at.is_some() {
                return Err(invalid("accepted artifact lifecycle timestamps are invalid"));
            }
        },
        ArtifactStatus::Revoked => {
            let revoked_at = match record.revoked_at {
                Some(t) => t,
                None => {
                    return Err(invalid("revoked artifact timestamp is missing"));
                },
            };
            match record.accepted_at {
                Some(accepted_at) => {
                    if !record.manifest.active(accepted_at) || revoked_at < accepted_at
                        || !reviewer_valid(record) {
                        return Err(invalid("revoked accepted artifact lifecycle is invalid"));
                    }
                },
                None => {
                    if record.reviewer_id.is_some() {
                        return Err(invalid("revoked quarantined artifact has a approver"));
                    }
                },
            }
        },
    }
    Ok(())
}

fn copy_record(
    record: &ArtifactRecord,
    reviewer_id: Option<String>,
    status: ArtifactStatus,
    accepted_at: Option<u64>,
    revoked_at: Option<u64>,
) -> (r: ArtifactRecord)
    ensures
        r.manifest.same(&record.manifest),
        r.operator_id@ == record.operator_id@,
        r.validator_id@ == record.validator_id@,
        r.reviewer_id == reviewer_id,
        r.status == status,
        r.accepted_at == accepted_at,
        r.revoked_at == revoked_at,
{
    ArtifactRecord {
        manifest: record.manifest.clone(),
        operator_id: record.operator_id.clone(),
        validator_id: record.validator_id.clone(),
        reviewer_id,
        status,
        accepted_at,
        revoked_at,
    }
}

/// Artifact records by id.
pub struct ArtifactRegistry {
    records: TextMap<ArtifactRecord>,
}

impl ArtifactRegistry {
    /// The records by artifact id.
    pub closed spec fn record_map(&self) -> Map<Seq<char>, ArtifactRecord> {
        entries_map(self.records@)
    }

    /// Every record is consistent.
    pub open spec fn spec_valid(&self) -> bool {
        forall|k: Seq<char>| #[trigger] self.record_map().contains_key(k) ==> record_ok(
            k,
            self.record_map()[k],
        )
    }

    /// Whether record `id` is accepted evidence for `subject` at `now`.
    pub open spec fn spec_is_valid(&self, id: Seq<char>, subject: Seq<char>, now: u64) -> bool {
        &&& self.record_map().contains_key(id)
        &&& {
            let r = self.record_map()[id];
            &&& r.manifest.spec_valid()
            &&& r.status == ArtifactStatus::Accepted
            &&& r.manifest.spec_active(now)
            &&& r.manifest.subject_digest@ == subject
            &&& role_ok(r.operator_id@)
            &&& role_ok(r.validator_id@)
            &&& r.operator_id@ != r.validator_id@
            &&& reviewer_ok(r)
        }
    }

    pub fn new() -> (r: ArtifactRegistry)
        ensures
            r.record_map().dom().len() == 0,
    {
        let r = ArtifactRegistry { records: TextMap::new() };
        proof {
            assert(entries_map(r.records@).dom() =~= Set::empty());
        }
        r
    }

    /// A registry holding the given records as they are; `validate` checks them.
    pub fn from_entries(entries: Vec<(String, ArtifactRecord)>) -> (r: ArtifactRegistry)
        ensures
            forall|k: Seq<char>|
                #[trigger] r.record_map().contains_key(k) ==> exists|i: int|
                    0 <= i < entries@.len() && (#[trigger] entries@[i]).0@ == k,
    {
        let mut records: TextMap<ArtifactRecord> = TextMap::new();
        let mut rest = entries;
        let ghost all = rest@;
        proof {
            assert(entries_map(records@).dom() =~= Set::empty());
        }
        while rest.len() > 0
            invariant
                all == entries@,
                rest@.len() <= all.len(),
                rest@ == all.subrange(0, rest@.len() as int),
                forall|k: Seq<char>|
                    #[trigger] entries_map(records@).contains_key(k) ==> exists|i: int|
                        0 <= i < all.len() && (#[trigger] all[i]).0@ == k,
            decreases rest@.len(),
        {
            let ghost before = rest@;
            let (key, record) = rest.pop().unwrap();
            proof {
                assert(all[rest@.len() as int] == before.last());
                assert(rest@ =~= all.subrange(0, rest@.len() as int));
            }
            let ghost kv = key@;
            records.insert(key, record);
            proof {
                assert forall|k: Seq<char>|
                    #[trigger] entries_map(records@).contains_key(k) implies exists|i: int|
                    0 <= i < all.len() && (#[trigger] all[i]).0@ == k by {
                    if k == kv {
                        assert(all[rest@.len() as int].0@ == k);
                    }
                }
            }
        }
        ArtifactRegistry { records }
    }

    /// Checks every record and its lifecycle.
    pub fn validate(&self) -> (r: Result<(), Error>)
        ensures
            r is Ok <==> self.spec_valid(),
            r matches Err(e) ==> e is Invalid || e is Rejected,
    {
        let n = self.records.len();
        for i in 0..n
            invariant
                n == self.records@.len(),
                forall|k: int| 0 <= k < i ==> record_ok(#[trigger] self.records@[k].0, self.records@[k].1),
        {
            let key = self.records.key_at(i);
            let record = self.records.value_at(i);
            match check_record(key.as_str(), record) {
                Ok(()) => {},
                Err(e) => {
                    let _ = self.records.keys_sorted();
                    proof {
                        let m = self.record_map();
                        let ks = crate::collections::entry_keys(self.records@);
                        let k = self.records@[i as int].0;
                        assert(ks[i as int] == k);
                        assert(ks.index_of(k) == i as int);
                        assert(m.contains_key(k));
                        assert(m[k] == self.records@[i as int].1);
                    }
                    return Err(e);
                },
            }
        }
        proof {
            assert forall|k: Seq<char>| #[trigger] self.record_map().contains_key(k) implies record_ok(
                k,
                self.record_map()[k],
            ) by {
                let j = crate::collections::entry_keys(self.records@).index_of(k);
                assert(crate::collections::entry_keys(self.records@)[j] == k);
                assert(record_ok(self.records@[j].0, self.records@[j].1));
            }
        }
        Ok(())
    }

    /// Places a valid manifest in quarantine under distinct operator and
    /// validator roles; quarantine does not make the subject usable.
    pub fn quarantine(&mut self, manifest: ArtifactManifest, operator_id: &str, validator_id: &str) -> (r:
        Result<(), Error>)
        ensures
            !manifest.spec_valid() ==> (r matches Err(e) && e is Invalid),
            r is Ok <==> manifest.spec_valid() && role_ok(operator_id@) && role_ok(validator_id@)
                && operator_id@ != validator_id@ && !old(self).record_map().contains_key(
                manifest.artifact_id@,
            ),
            r matches Err(e) ==> e is Invalid || e is Rejected,
            manifest.spec_valid() && role_ok(operator_id@) && role_ok(validator_id@) && r is Err
                ==> (r matches Err(e) && e is Rejected),
            r is Ok ==> {
                let rec = final(self).record_map()[manifest.artifact_id@];
                &&& final(self).record_map().dom() == old(self).record_map().dom().insert(
                    manifest.artifact_id@,
                )
                &&& forall|k: Seq<char>|
                    #[trigger] old(self).record_map().contains_key(k) ==> final(self).record_map()[k]
                        == old(self).record_map()[k]
                &&& rec.manifest == manifest
                &&& rec.operator_id@ == operator_id@
                &&& rec.validator_id@ == validator_id@
                &&& rec.reviewer_id is None
                &&& rec.status == ArtifactStatus::Quarantined
                &&& rec.accepted_at is None
                &&& rec.revoked_at is None
            },
            r is Err ==> final(self).record_map() == old(self).record_map(),
    {
        manifest.validate()?;
        validate_distinct_roles(operator_id, validator_id)?;
        if self.records.contains_key(manifest.artifact_id.as_str()) {
            proof {
                assert(self.record_map().contains_key(manifest.artifact_id@));
            }
            return Err(rejected("artifact identifier already exists"));
        }
        let key = manifest.artifact_id.clone();
        self.records.insert(
            key,
            ArtifactRecord {
                manifest,
                operator_id: operator_id.to_owned(),
                validator_id: validator_id.to_owned(),
                reviewer_id: None,
                status: ArtifactStatus::Quarantined,
                accepted_at: None,
                revoked_at: None,
            },
        );
        Ok(())
    }

    /// Accepts a quarantined record whose subject digest is exactly
    /// `subject_digest`, inside its retention interval, with a approver
    /// distinct from its operator and validator.
    pub fn accept(&mut self, artifact_id: &str, subject_digest: &str, reviewer_id: &str, now: u64) -> (r:
        Result<(), Error>)
        ensures
            !is_digest(subject_digest@) || !role_ok(reviewer_id@) || !old(
                self,
            ).record_map().contains_key(artifact_id@) ==> (r matches Err(e) && e is Invalid),
            r is Ok <==> is_digest(subject_digest@) && role_ok(reviewer_id@) && old(
                self,
            ).record_map().contains_key(artifact_id@) && {
                let rec = old(self).record_map()[artifact_id@];
                &&& rec.status == ArtifactStatus::Quarantined
                &&& rec.manifest.subject_digest@ == subject_digest@
                &&& rec.manifest.spec_active(now)
                &&& reviewer_id@ != rec.operator_id@
                &&& reviewer_id@ != rec.validator_id@
            },
            is_digest(subject_digest@) && role_ok(reviewer_id@) && old(self).record_map().contains_key(
                artifact_id@,
            ) && r is Err ==> (r matches Err(e) && e is Rejected),
            r is Ok ==> {
                let before = old(self).record_map()[artifact_id@];
                let rec = final(self).record_map()[artifact_id@];
                &&& final(self).record_map().dom() == old(self).record_map().dom()
                &&& forall|k: Seq<char>|
                    #[trigger] final(self).record_map().contains_key(k) && k != artifact_id@
                        ==> final(self).record_map()[k] == old(self).record_map()[k]
                &&& rec.manifest.same(&before.manifest)
                &&& rec.operator_id@ == before.operator_id@
                &&& rec.validator_id@ == before.validator_id@
                &&& rec.reviewer_id matches Some(rv) && rv@ == reviewer_id@
                &&& rec.status == ArtifactStatus::Accepted
                &&& rec.accepted_at == Some(now)
                &&& rec.revoked_at == before.revoked_at
            },
            r is Err ==> final(self).record_map() == old(self).record_map(),
    {
        if !valid_digest(subject_digest) {
            return Err(invalid("review subject digest is malformed"));
        }
        validate_role(reviewer_id)?;
        let i = match self.records.position(artifact_id) {
            Some(i) => i,
            None => {
                return Err(invalid("artifact not found"));
            },
        };
        let record = self.records.value_at(i);
        if record.status != ArtifactStatus::Quarantined {
            return Err(rejected("only quarantined artifacts can be accepted"));
        }
        if !record.manifest.binds_subject(subject_digest) {
            return Err(rejected("artifact subject binding mismatch"));
        }
        if !record.manifest.active(now) {
            return Err(rejected("artifact is outside its retention interval"));
        }
        if text_eq(reviewer_id, record.operator_id.as_str()) || text_eq(
            reviewer_id,
            record.validator_id.as_str(),
        ) {
            return Err(rejected("approver role must be distinct from operator and validator"));
        }
        let updated = copy_record(
            record,
            Some(reviewer_id.to_owned()),
            ArtifactStatus::Accepted,
            Some(now),
            record.revoked_at,
        );
        self.records.set_value_at(i, updated);
        Ok(())
    }

    /// Revokes a quarantined or accepted record bound to `subject_digest`;
    /// revocation is final.
    pub fn revoke(&mut self, artifact_id: &str, subject_digest: &str, now: u64) -> (r: Result<
        (),
        Error,
    >)
        ensures
            !is_digest(subject_digest@) || !old(self).record_map().contains_key(artifact_id@) ==> (
            r matches Err(e) && e is Invalid),
            r is Ok <==> is_digest(subject_digest@) && old(self).record_map().contains_key(
                artifact_id@,
            ) && old(self).record_map()[artifact_id@].status != ArtifactStatus::Revoked && old(
                self,
            ).record_map()[artifact_id@].manifest.subject_digest@ == subject_digest@,
            is_digest(subject_digest@) && old(self).record_map().contains_key(artifact_id@) && r is Err
                ==> (r matches Err(e) && e is Rejected),
            r is Ok ==> {
                let before = old(self).record_map()[artifact_id@];
                let rec = final(self).record_map()[artifact_id@];
                &&& final(self).record_map().dom() == old(self).record_map().dom()
                &&& forall|k: Seq<char>|
                    #[trigger] final(self).record_map().contains_key(k) && k != artifact_id@
                        ==> final(self).record_map()[k] == old(self).record_map()[k]
                &&& rec.manifest.same(&before.manifest)
                &&& rec.operator_id@ == before.operator_id@
                &&& rec.validator_id@ == before.validator_id@
                &&& rec.reviewer_id == before.reviewer_id
                &&& rec.status == ArtifactStatus::Revoked
                &&& rec.accepted_at == before.accepted_at
                &&& rec.revoked_at == Some(now)
            },
            r is Err ==> final(self).record_map() == old(self).record_map(),
    {
        if !valid_digest(subject_digest) {
            return Err(invalid("revoke subject digest is malformed"));
        }
        let i = match self.records.position(artifact_id) {
            Some(i) => i,
            None => {
                return Err(invalid("artifact not found"));
            },
        };
        let record = self.records.value_at(i);
        if record.status == ArtifactStatus::Revoked {
            return Err(rejected("artifact is already revoked"));
        }
        if !record.manifest.binds_subject(subject_digest) {
            return Err(rejected("artifact subject binding mismatch"));
        }
        let reviewer = match &record.reviewer_id {
            Some(rv) => Some(rv.clone()),
            None => None,
        };
        let updated = copy_record(record, reviewer, ArtifactStatus::Revoked, record.accepted_at, Some(now));
        proof {
            assert(updated.reviewer_id == record.reviewer_id);
        }
        self.records.set_value_at(i, updated);
        Ok(())
    }

    pub fn get(&self, artifact_id: &str) -> (r: Option<&ArtifactRecord>)
        ensures
            r is Some <==> self.record_map().contains_key(artifact_id@),
            r matches Some(x) ==> *x == self.record_map()[artifact_id@],
    {
        self.records.get(artifact_id)
    }

    /// Whether record `artifact_id` is accepted, live evidence for exactly
    /// `subject_digest` at `now`.
    pub fn is_valid(&self, artifact_id: &str, subject_digest: &str, now: u64) -> (r: bool)
        ensures
            r == self.spec_is_valid(artifact_id@, subject_digest@, now),
    {
        let record = match self.records.get(artifact_id) {
            Some(x) => x,
            None => {
                return false;
            },
        };
        record.manifest.validate().is_ok() && record.status == ArtifactStatus::Accepted
            && record.reviewer_id.is_some() && record.manifest.active(now)
            && record.manifest.binds_subject(subject_digest) && validate_distinct_roles(
            record.operator_id.as_str(),
            record.validator_id.as_str(),
        ).is_ok() && reviewer_valid(record)
    }

    /// The record, when it is valid evidence for `subject_digest` at `now`.
    pub fn require_valid(&self, artifact_id: &str, subject_digest: &str, now: u64) -> (r: Result<
        &ArtifactRecord,
        Error,
    >)
        ensures
            r is Ok <==> self.spec_is_valid(artifact_id@, subject_digest@, now),
            r matches Err(e) ==> e is Rejected,
            r matches Ok(x) ==> *x == self.record_map()[artifact_id@],
    {
        if !self.is_valid(artifact_id, subject_digest, now) {
            return Err(rejected("artifact evidence is absent, stale, revoked, or subject-mismatched"));
        }
        match self.records.get(artifact_id) {
            Some(x) => Ok(x),
            None => Err(rejected("artifact evidence is unavailable")),
        }
    }

    pub fn len(&self) -> (r: usize)
        ensures
            r == self.record_map().dom().len(),
    {
        self.records.len()
    }

    pub fn is_empty(&self) -> (r: bool)
        ensures
            r == (self.record_map().dom().len() == 0),
    {
        self.records.len() == 0
    }
}

impl Default for ArtifactRegistry {
    fn default() -> (r: ArtifactRegistry)
        ensures
            r.record_map().dom().len() == 0,
    {
        ArtifactRegistry::new()
    }
}

/// Revocation is final: a revoked record is never valid evidence again.
pub proof fn lemma_revoked_artifact_is_never_valid(
    reg: ArtifactRegistry,
    id: Seq<char>,
    subject: Seq<char>,
    now: u64,
)
    requires
        reg.record_map().contains_key(id),
        reg.record_map()[id].status == ArtifactStatus::Revoked,
    ensures
        !reg.spec_is_valid(id, subject, now),
{
}

} // verus!
