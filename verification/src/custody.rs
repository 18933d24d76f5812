//! Owner-declared custody roots and retention records.
use crate::collections::{entries_map, TextMap};
use crate::error::{invalid, quarantined, rejected, Error};
use crate::order::text_eq;
use crate::text::{is_digest, text_ok, valid_digest, valid_text};
use vstd::prelude::*;

verus! {

pub const STATE_SLICE: &'static str = "security-alignment-os-foundation-v1";

/// The longest raw retention, in seconds (72 hours).
pub const MAX_RAW_RETENTION_SECONDS: u64 = 259200;

/// The only accepted root mode: owner-only (`0o700`).
pub const OWNER_ONLY_MODE: u32 = 448;

/// A declaration of an owner-only custody root outside the repository.
#[derive(Debug)]
pub struct CustodyRoot {
    pub root_id: String,
    pub owner_id: String,
    /// Digest of the root declaration; the locator itself is never kept.
    pub root_digest: String,
    pub mode: u32,
    pub external_to_repository: bool,
    pub created_at: u64,
    pub expires_at: u64,
    pub raw_retention_until: u64,
}

impl Clone for CustodyRoot {
    fn clone(&self) -> (r: Self)
        ensures
            r.same(self),
    {
        CustodyRoot {
            root_id: self.root_id.clone(),
            owner_id: self.owner_id.clone(),
            root_digest: self.root_digest.clone(),
            mode: self.mode,
            external_to_repository: self.external_to_repository,
            created_at: self.created_at,
            expires_at: self.expires_at,
            raw_retention_until: self.raw_retention_until,
        }
    }
}

impl CustodyRoot {
    /// Field-by-field equality.
    pub open spec fn same(&self, other: &CustodyRoot) -> bool {
        &&& self.root_id@ == other.root_id@
        &&& self.owner_id@ == other.owner_id@
        &&& self.root_digest@ == other.root_digest@
        &&& self.mode == other.mode
        &&& self.external_to_repository == other.external_to_repository
        &&& self.created_at == other.created_at
        &&& self.expires_at == other.expires_at
        &&& self.raw_retention_until == other.raw_retention_until
    }

    pub open spec fn spec_valid(&self) -> bool {
        &&& text_ok(self.root_id@, 128)
        &&& text_ok(self.owner_id@, 256)
        &&& is_digest(self.root_digest@)
        &&& self.mode == OWNER_ONLY_MODE
        &&& self.external_to_repository
        &&& self.created_at < self.expires_at
        &&& self.created_at <= self.raw_retention_until
        &&& self.raw_retention_until <= self.expires_at
        &&& self.raw_retention_until - self.created_at <= MAX_RAW_RETENTION_SECONDS
    }

    pub open spec fn spec_active(&self, now: u64) -> bool {
        self.spec_valid() && self.created_at <= now && now < self.expires_at
    }

    pub fn validate(&self) -> (r: Result<(), Error>)
        ensures
            r is Ok <==> self.spec_valid(),
            r matches Err(e) ==> e is Invalid,
    {
        if !valid_text(self.root_id.as_str(), 128) || !valid_text(self.owner_id.as_str(), 256)
            || !valid_digest(self.root_digest.as_str()) || self.mode != OWNER_ONLY_MODE
            || !self.external_to_repository || self.created_at >= self.expires_at
            || self.raw_retention_until < self.created_at || self.raw_retention_until
            > self.expires_at || self.raw_retention_until - self.created_at
            > MAX_RAW_RETENTION_SECONDS {
            return Err(invalid("custody root declaration is malformed"));
        }
        Ok(())
    }

    pub fn active(&self, now: u64) -> (r: bool)
        ensures
            r == self.spec_active(now),
    {
        self.validate().is_ok() && self.created_at <= now && now < self.expires_at
    }
}

#[derive(Clone, Copy, Debug, PartialEq, Eq, Structural)]
pub enum CustodyStatus {
    Active,
    Deleted,
}

/// A custody record for one artifact under a declared root.
#[derive(Debug)]
pub struct CustodyRecord {
    pub custody_id: String,
    pub root: CustodyRoot,
    pub artifact_digest: String,
    /// Owner assertion that declared the record.
    pub declared_by: String,
    /// Separate local validator assertion.
    pub validator_id: String,
    pub status: CustodyStatus,
    pub deleted_at: Option<u64>,
}

/// A record filed under `key` is well formed: bound to its key, declared by
/// the root's owner, checked by someone else, and deleted exactly when it
/// has a deletion time no earlier than the root.
pub open spec fn record_ok(key: Seq<char>, r: CustodyRecord) -> bool {
    &&& key == r.custody_id@
    &&& text_ok(r.custody_id@, 128)
    &&& is_digest(r.artifact_digest@)
    &&& r.declared_by@ == r.root.owner_id@
    &&& text_ok(r.declared_by@, 256)
    &&& text_ok(r.validator_id@, 256)
    &&& r.declared_by@ != r.validator_id@
    &&& r.root.spec_valid()
    &&& match r.status {
        CustodyStatus::Active => r.deleted_at is None,
        CustodyStatus::Deleted => r.deleted_at matches Some(t) && t >= r.root.created_at,
    }
}

/// Custody records by id.
pub struct CustodyRegistry {
    records: TextMap<CustodyRecord>,
}

pub open spec fn custody_wf(m: Map<Seq<char>, CustodyRecord>) -> bool {
    forall|k: Seq<char>| #[trigger] m.contains_key(k) ==> record_ok(k, m[k])
}

fn validate_record(key: &str, record: &CustodyRecord) -> (r: Result<(), Error>)
    ensures
        r is Ok <==> record_ok(key@, *record),
        r matches Err(e) ==> e is Invalid,
{
    if !text_eq(key, record.custody_id.as_str()) || !valid_text(record.custody_id.as_str(), 128)
        || !valid_digest(record.artifact_digest.as_str()) || !text_eq(
        record.declared_by.as_str(),
        record.root.owner_id.as_str(),
    ) || !valid_text(record.declared_by.as_str(), 256) || !valid_text(
        record.validator_id.as_str(),
        256,
    ) || text_eq(record.declared_by.as_str(), record.validator_id.as_str()) {
        return Err(invalid("custody record binding is malformed"));
    }
    record.root.validate()?;
    match record.status {
        CustodyStatus::Active => {
            if record.deleted_at.is_some() {
                return Err(invalid("active custody record cannot have a deletion time"));
            }
            Ok(())
        },
        CustodyStatus::Deleted => {
            let deleted_at = match record.deleted_at {
                Some(t) => t,
                None => {
                    return Err(invalid("deleted custody record lacks deletion time"));
                },
            };
            if deleted_at < record.root.created_at {
                return Err(invalid("custody deletion predates root creation"));
            }
            Ok(())
        },
    }
}

impl CustodyRegistry {
    #[verifier::type_invariant]
    spec fn wf(self) -> bool {
        custody_wf(entries_map(self.records@))
    }

    /// The records by id.
    pub closed spec fn record_map(&self) -> Map<Seq<char>, CustodyRecord> {
        entries_map(self.records@)
    }

    pub fn new() -> (r: CustodyRegistry)
        ensures
            r.record_map().dom().len() == 0,
    {
        let r = CustodyRegistry { records: TextMap::new() };
        proof {
            assert(entries_map(r.records@).dom() =~= Set::empty());
        }
        r
    }

    /// Whether `require_active` hands out record `id` for `artifact` at `now`.
    pub open spec fn spec_active_record(&self, id: Seq<char>, artifact: Seq<char>, now: u64) -> bool {
        &&& is_digest(artifact)
        &&& self.record_map().contains_key(id)
        &&& self.record_map()[id].status == CustodyStatus::Active
        &&& self.record_map()[id].root.spec_active(now)
        &&& self.record_map()[id].artifact_digest@ == artifact
    }

    /// Every record is well formed and filed under its own id.
    pub fn validate(&self) -> (r: Result<(), Error>)
        ensures
            r is Ok,
            custody_wf(self.record_map()),
    {
        proof {
            use_type_invariant(self);
        }
        Ok(())
    }

    /// Declares an active record under the root owner and a separate validator.
    pub fn declare(
        &mut self,
        custody_id: &str,
        root: CustodyRoot,
        artifact_digest: &str,
        declared_by: &str,
        validator_id: &str,
    ) -> (r: Result<(), Error>)
        ensures
            !root.spec_valid() ==> (r matches Err(e) && e is Invalid),
            r is Ok <==> root.spec_valid() && text_ok(custody_id@, 128) && is_digest(artifact_digest@)
                && declared_by@ == root.owner_id@ && text_ok(declared_by@, 256) && text_ok(
                validator_id@,
                256,
            ) && declared_by@ != validator_id@ && !old(self).record_map().contains_key(custody_id@),
            r is Ok ==> {
                &&& final(self).record_map().dom() == old(self).record_map().dom().insert(custody_id@)
                &&& forall|k: Seq<char>|
                    #[trigger] old(self).record_map().contains_key(k) ==> final(self).record_map()[k]
                        == old(self).record_map()[k]
                &&& final(self).record_map()[custody_id@].custody_id@ == custody_id@
                &&& final(self).record_map()[custody_id@].root == root
                &&& final(self).record_map()[custody_id@].artifact_digest@ == artifact_digest@
                &&& final(self).record_map()[custody_id@].declared_by@ == declared_by@
                &&& final(self).record_map()[custody_id@].validator_id@ == validator_id@
                &&& final(self).record_map()[custody_id@].status == CustodyStatus::Active
                &&& final(self).record_map()[custody_id@].deleted_at is None
            },
            r is Err ==> final(self).record_map() == old(self).record_map(),
            root.spec_valid() && r is Err && !(text_ok(custody_id@, 128) && is_digest(
                artifact_digest@,
            ) && declared_by@ == root.owner_id@ && text_ok(declared_by@, 256) && text_ok(
                validator_id@,
                256,
            ) && declared_by@ != validator_id@) ==> (r matches Err(e) && e is Invalid),
            r is Err && old(self).record_map().contains_key(custody_id@) && root.spec_valid()
                && text_ok(custody_id@, 128) && is_digest(artifact_digest@) && declared_by@
                == root.owner_id@ && text_ok(declared_by@, 256) && text_ok(validator_id@, 256)
                && declared_by@ != validator_id@ ==> (r matches Err(e) && e is Rejected),
    {
        root.validate()?;
        let record = CustodyRecord {
            custody_id: custody_id.to_owned(),
            root,
            artifact_digest: artifact_digest.to_owned(),
            declared_by: declared_by.to_owned(),
            validator_id: validator_id.to_owned(),
            status: CustodyStatus::Active,
            deleted_at: None,
        };
        validate_record(custody_id, &record)?;
        if self.records.contains_key(custody_id) {
            proof {
                assert(self.record_map().contains_key(custody_id@));
            }
            return Err(rejected("custody identity already exists"));
        }
        proof {
            use_type_invariant(&*self);
        }
        let mut taken = TextMap::new();
        std::mem::swap(&mut taken, &mut self.records);
        taken.insert(custody_id.to_owned(), record);
        proof {
            assert(custody_wf(entries_map(taken@)));
        }
        self.records = taken;
        Ok(())
    }

    /// The active record `custody_id`, if it binds `artifact_digest` at `now`.
    pub fn require_active(&self, custody_id: &str, artifact_digest: &str, now: u64) -> (r: Result<
        &CustodyRecord,
        Error,
    >)
        ensures
            r is Ok <==> self.spec_active_record(custody_id@, artifact_digest@, now),
            !is_digest(artifact_digest@) ==> (r matches Err(e) && e is Invalid),
            is_digest(artifact_digest@) && !self.record_map().contains_key(custody_id@) ==> (
            r matches Err(e) && e is Quarantined),
            is_digest(artifact_digest@) && self.record_map().contains_key(custody_id@) && r is Err
                ==> (r matches Err(e) && e is Rejected),
            r matches Ok(x) ==> *x == self.record_map()[custody_id@],
    {
        if !valid_digest(artifact_digest) {
            return Err(invalid("custody artifact digest is malformed"));
        }
        let record = match self.records.get(custody_id) {
            Some(x) => x,
            None => {
                return Err(quarantined("custody record is unavailable"));
            },
        };
        if record.status != CustodyStatus::Active || !record.root.active(now) || !text_eq(
            record.artifact_digest.as_str(),
            artifact_digest,
        ) {
            return Err(rejected("custody record is inactive or digest-mismatched"));
        }
        Ok(record)
    }

    /// Marks the record deleted at `now`, by its owner only; deletion is final.
    pub fn mark_deleted(&mut self, custody_id: &str, owner_id: &str, now: u64) -> (r: Result<
        (),
        Error,
    >)
        ensures
            !old(self).record_map().contains_key(custody_id@) ==> (r matches Err(e) && e is Invalid),
            old(self).record_map().contains_key(custody_id@) ==> {
                let rec = old(self).record_map()[custody_id@];
                &&& r is Ok <==> rec.status == CustodyStatus::Active && owner_id@
                    == rec.root.owner_id@ && now >= rec.root.created_at
                &&& r matches Err(e) ==> e is Rejected
            },
            r is Ok ==> {
                let rec = old(self).record_map()[custody_id@];
                &&& final(self).record_map().dom() == old(self).record_map().dom()
                &&& forall|k: Seq<char>|
                    #[trigger] final(self).record_map().contains_key(k) && k != custody_id@
                        ==> final(self).record_map()[k] == old(self).record_map()[k]
                &&& final(self).record_map()[custody_id@].status == CustodyStatus::Deleted
                &&& final(self).record_map()[custody_id@].deleted_at == Some(now)
                &&& final(self).record_map()[custody_id@].custody_id@ == rec.custody_id@
                &&& final(self).record_map()[custody_id@].root.same(&rec.root)
                &&& final(self).record_map()[custody_id@].artifact_digest@ == rec.artifact_digest@
                &&& final(self).record_map()[custody_id@].declared_by@ == rec.declared_by@
                &&& final(self).record_map()[custody_id@].validator_id@ == rec.validator_id@
            },
            r is Err ==> final(self).record_map() == old(self).record_map(),
    {
        proof {
            use_type_invariant(&*self);
        }
        let i = match self.records.position(custody_id) {
            Some(i) => i,
            None => {
                return Err(invalid("custody record is unavailable"));
            },
        };
        let record = self.records.value_at(i);
        if record.status != CustodyStatus::Active {
            return Err(rejected("custody record is already deleted"));
        }
        if !text_eq(owner_id, record.root.owner_id.as_str()) {
            return Err(rejected("only the declared owner may delete custody"));
        }
        if now < record.root.created_at {
            return Err(rejected("custody deletion time is before creation"));
        }
        let updated = CustodyRecord {
            custody_id: record.custody_id.clone(),
            root: record.root.clone(),
            artifact_digest: record.artifact_digest.clone(),
            declared_by: record.declared_by.clone(),
            validator_id: record.validator_id.clone(),
            status: CustodyStatus::Deleted,
            deleted_at: Some(now),
        };
        let mut taken = TextMap::new();
        std::mem::swap(&mut taken, &mut self.records);
        taken.set_value_at(i, updated);
        proof {
            assert(custody_wf(entries_map(taken@)));
        }
        self.records = taken;
        Ok(())
    }

    pub fn get(&self, custody_id: &str) -> (r: Option<&CustodyRecord>)
        ensures
            r is Some <==> self.record_map().contains_key(custody_id@),
            r matches Some(x) ==> *x == self.record_map()[custody_id@],
    {
        self.records.get(custody_id)
    }

    pub fn len(&self) -> (r: usize)
        ensures
            r == self.record_map().dom().len(),
    {
        self.records.len()
    }

    pub fn is_empty(&self) -> (r: bool)
        ensures
            r == (self.record_map().dom().len() == 0),
    {
        self.records.len() == 0
    }
}

impl Default for CustodyRegistry {
    fn default() -> (r: CustodyRegistry)
        ensures
            r.record_map().dom().len() == 0,
    {
        CustodyRegistry::new()
    }
}

/// Deletion is terminal: a deleted record is never handed out as active and
/// cannot be deleted again.
pub proof fn lemma_deletion_is_terminal(
    reg: CustodyRegistry,
    id: Seq<char>,
    artifact: Seq<char>,
    now: u64,
)
    requires
        reg.record_map().contains_key(id),
        reg.record_map()[id].status == CustodyStatus::Deleted,
    ensures
        !reg.spec_active_record(id, artifact, now),
{
}

} // verus!
