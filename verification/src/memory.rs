//! Caller-owned specialist memory with explicit consent on every access.
//!
//! Records are keyed by tenant and resource and hold a JSON value with its
//! digest and the grant it was written under. Consent grants are not kept:
//! a caller presents an equivalent grant on every access. The file that
//! holds the records is read and written by the caller; this module keeps
//! the records and decides every access.
use crate::collections::{entries_map, TextMap};
use crate::digest::{digest_bytes, sha256_hex};
use crate::error::{invalid, journal, rejected, Error};
use crate::json::{copy_value, value_bytes, JsonValue};
use crate::order::text_eq;
use crate::specialist::{ConsentGrant, SpecialistRegistry};
use crate::text::{is_digest, valid_digest};
use vstd::prelude::*;

verus! {

pub const FORMAT_VERSION: u8 = 1;

/// One stored value.
#[derive(Clone, Debug, PartialEq)]
pub struct MemoryRecord {
    pub tenant_id: String,
    pub resource_id: String,
    pub grant_id: String,
    pub value: JsonValue,
    pub value_digest: String,
}

/// The record is well formed and its digest is that of its value.
pub open spec fn record_ok(r: MemoryRecord) -> bool {
    &&& r.tenant_id@.len() != 0
    &&& r.resource_id@.len() != 0
    &&& is_digest(r.grant_id@)
    &&& is_digest(r.value_digest@)
    &&& r.value_digest@ == sha256_hex(value_bytes(r.value@))
}

/// The digest of a JSON value's canonical encoding.
pub fn value_digest(value: &JsonValue) -> (r: String)
    ensures
        r@ == sha256_hex(value_bytes(value@)),
        is_digest(r@),
{
    let bytes = value.canonical_bytes();
    digest_bytes(bytes.as_slice())
}

/// Checks a stored record.
pub fn validate_record(record: &MemoryRecord) -> (r: Result<(), Error>)
    ensures
        r is Ok <==> record_ok(*record),
        r matches Err(e) ==> e is Journal,
{
    if record.tenant_id.as_str().is_empty() || record.resource_id.as_str().is_empty()
        || !valid_digest(record.grant_id.as_str()) || !valid_digest(record.value_digest.as_str()) {
        return Err(journal("invalid durable memory record"));
    }
    let d = value_digest(&record.value);
    if !text_eq(d.as_str(), record.value_digest.as_str()) {
        return Err(journal("invalid durable memory record"));
    }
    Ok(())
}

/// The grant is valid, in force at `now`, covers the resource, and names a
/// specialist the registry resolves at `now`.
pub open spec fn consent_ok(
    registry: SpecialistRegistry,
    grant: ConsentGrant,
    resource: Seq<char>,
    now: u64,
) -> bool {
    &&& grant.spec_valid()
    &&& grant.spec_active(now)
    &&& (grant.resource_ids@.contains(resource) || grant.resource_ids@.contains("*"@))
    &&& registry.spec_resolve(grant.specialist_id@, now) is Some
}

fn check_consent(
    registry: &SpecialistRegistry,
    grant: &ConsentGrant,
    resource_id: &str,
    now: u64,
) -> (r: Result<(), Error>)
    ensures
        r is Ok <==> consent_ok(*registry, *grant, resource_id@, now),
        r matches Err(e) ==> e is Invalid || e is Rejected,
{
    grant.validate()?;
    if !grant.active(now) || !grant.allows(resource_id) || registry.resolve(
        grant.specialist_id.as_str(),
        now,
    ).is_none() {
        return Err(rejected("consent or specialist is invalid"));
    }
    Ok(())
}

/// The records, by tenant and then by resource, in byte order of each.
pub struct PersistentMemory {
    path: String,
    records: TextMap<TextMap<MemoryRecord>>,
}

impl PersistentMemory {
    pub closed spec fn spec_path(&self) -> Seq<char> {
        self.path@
    }

    /// The record of `tenant`'s `resource`, if any.
    pub closed spec fn lookup(&self, tenant: Seq<char>, resource: Seq<char>) -> Option<
        MemoryRecord,
    > {
        let outer = entries_map(self.records@);
        if outer.contains_key(tenant) && entries_map(outer[tenant]@).contains_key(resource) {
            Some(entries_map(outer[tenant]@)[resource])
        } else {
            None
        }
    }

    /// Only `tenant`'s `resource` may differ between the two.
    pub open spec fn same_except(&self, other: &PersistentMemory, tenant: Seq<char>, resource: Seq<
        char,
    >) -> bool {
        &&& other.spec_path() == self.spec_path()
        &&& forall|t: Seq<char>, r: Seq<char>|
            !(t == tenant && r == resource) ==> #[trigger] other.lookup(t, r) == self.lookup(t, r)
    }

    /// An empty memory kept at `path`.
    pub fn new(path: &str) -> (r: PersistentMemory)
        ensures
            r.spec_path() == path@,
            forall|t: Seq<char>, res: Seq<char>| #[trigger] r.lookup(t, res) is None,
    {
        PersistentMemory { path: path.to_owned(), records: TextMap::new() }
    }

    pub fn path(&self) -> (r: &str)
        ensures
            r@ == self.spec_path(),
    {
        self.path.as_str()
    }

    fn get_record(&self, tenant: &str, resource: &str) -> (r: Option<&MemoryRecord>)
        ensures
            match self.lookup(tenant@, resource@) {
                Some(x) => r matches Some(y) && *y == x,
                None => r is None,
            },
    {
        match self.records.get(tenant) {
            Some(inner) => inner.get(resource),
            None => None,
        }
    }

    fn set_record(&mut self, record: MemoryRecord)
        ensures
            old(self).same_except(&*final(self), record.tenant_id@, record.resource_id@),
            final(self).lookup(record.tenant_id@, record.resource_id@) == Some(record),
    {
        let ghost o = *self;
        let tenant = record.tenant_id.clone();
        let resource = record.resource_id.clone();
        let mut inner = match self.records.remove(tenant.as_str()) {
            Some(m) => m,
            None => TextMap::new(),
        };
        let ghost inner_before = inner;
        inner.insert(resource, record);
        self.records.insert(tenant, inner);
        proof {
            assert forall|t: Seq<char>, r: Seq<char>|
                !(t == record.tenant_id@ && r == record.resource_id@) implies #[trigger] self.lookup(t, r)
                == o.lookup(t, r) by {
                if t == record.tenant_id@ {
                    assert(entries_map(inner@) == entries_map(inner_before@).insert(record.resource_id@, record));
                }
            }
        }
    }

    fn remove_record(&mut self, tenant: &str, resource: &str)
        ensures
            old(self).same_except(&*final(self), tenant@, resource@),
            final(self).lookup(tenant@, resource@) is None,
    {
        let ghost o = *self;
        match self.records.remove(tenant) {
            Some(inner) => {
                let mut inner = inner;
                let ghost inner_before = inner;
                let _ = inner.remove(resource);
                self.records.insert(tenant.to_owned(), inner);
                proof {
                    assert forall|t: Seq<char>, r: Seq<char>|
                        !(t == tenant@ && r == resource@) implies #[trigger] self.lookup(t, r)
                        == o.lookup(t, r) by {
                        if t == tenant@ {
                            assert(entries_map(inner@) == entries_map(inner_before@).remove(resource@));
                        }
                    }
                }
            },
            None => {
                proof {
                    assert forall|t: Seq<char>, r: Seq<char>|
                        !(t == tenant@ && r == resource@) implies #[trigger] self.lookup(t, r)
                        == o.lookup(t, r) by {
                        if t == tenant@ {
                            assert(!entries_map(o.records@).contains_key(t));
                        }
                    }
                }
            },
        }
    }

    /// A copy of the record of `tenant`'s `resource`, if any.
    pub fn record(&self, tenant: &str, resource: &str) -> (r: Option<MemoryRecord>)
        ensures
            match self.lookup(tenant@, resource@) {
                Some(x) => r matches Some(y) && same_record(y, x),
                None => r is None,
            },
    {
        match self.get_record(tenant, resource) {
            Some(rec) => Some(copy_record(rec)),
            None => None,
        }
    }

    /// Puts back what `record` answered for `tenant`'s `resource` before a
    /// write that could not be saved: that record, or no record.
    pub fn restore(&mut self, tenant: &str, resource: &str, previous: Option<MemoryRecord>)
        requires
            previous matches Some(p) ==> p.tenant_id@ == tenant@ && p.resource_id@ == resource@,
        ensures
            old(self).same_except(&*final(self), tenant@, resource@),
            final(self).lookup(tenant@, resource@) == previous,
    {
        match previous {
            Some(p) => self.set_record(p),
            None => self.remove_record(tenant, resource),
        }
    }

    /// Stores `value` for the grant's tenant under `resource_id`, bound to
    /// the grant, and answers the value's digest; the caller then saves the
    /// memory.
    pub fn put(
        &mut self,
        registry: &SpecialistRegistry,
        grant: &ConsentGrant,
        resource_id: &str,
        value: JsonValue,
        now: u64,
    ) -> (r: Result<String, Error>)
        ensures
            r is Ok <==> consent_ok(*registry, *grant, resource_id@, now),
            r matches Err(e) ==> (e is Invalid || e is Rejected) && *final(self) == *old(self),
            r matches Ok(d) ==> {
                &&& d@ == sha256_hex(value_bytes(value@))
                &&& is_digest(d@)
                &&& old(self).same_except(&*final(self), grant.tenant_id@, resource_id@)
                &&& final(self).lookup(grant.tenant_id@, resource_id@) matches Some(rec)
                &&& rec.tenant_id@ == grant.tenant_id@
                &&& rec.resource_id@ == resource_id@
                &&& rec.grant_id@ == grant.grant_id@
                &&& rec.value@ == value@
                &&& rec.value_digest@ == d@
            },
    {
        check_consent(registry, grant, resource_id, now)?;
        let digest = value_digest(&value);
        let record = MemoryRecord {
            tenant_id: grant.tenant_id.clone(),
            resource_id: resource_id.to_owned(),
            grant_id: grant.grant_id.clone(),
            value,
            value_digest: digest.clone(),
        };
        self.set_record(record);
        Ok(digest)
    }

    /// The value stored for the grant's tenant under `resource_id`, if the
    /// consent holds, the record exists, was written under this grant, and
    /// is intact.
    pub fn retrieve(
        &self,
        registry: &SpecialistRegistry,
        grant: &ConsentGrant,
        resource_id: &str,
        now: u64,
    ) -> (r: Result<JsonValue, Error>)
        ensures
            !consent_ok(*registry, *grant, resource_id@, now) ==> (r matches Err(e) && (e is Invalid
                || e is Rejected)),
            consent_ok(*registry, *grant, resource_id@, now) ==> match self.lookup(
                grant.tenant_id@,
                resource_id@,
            ) {
                None => r matches Err(e) && e is Invalid,
                Some(rec) => if rec.grant_id@ != grant.grant_id@ {
                    r matches Err(e) && e is Rejected
                } else if !record_ok(rec) {
                    r matches Err(e) && e is Journal
                } else {
                    r matches Ok(v) && v@ == rec.value@
                },
            },
    {
        check_consent(registry, grant, resource_id, now)?;
        let record = match self.get_record(grant.tenant_id.as_str(), resource_id) {
            Some(rec) => rec,
            None => {
                return Err(invalid("resource not found"));
            },
        };
        if !text_eq(record.grant_id.as_str(), grant.grant_id.as_str()) {
            return Err(rejected("memory grant binding mismatch"));
        }
        validate_record(record)?;
        Ok(copy_value(&record.value))
    }

    /// Deletes the grant's tenant's record of `resource_id`, if it was
    /// written under this grant; answers whether there was one. The caller
    /// then saves the memory.
    pub fn delete(
        &mut self,
        registry: &SpecialistRegistry,
        grant: &ConsentGrant,
        resource_id: &str,
        now: u64,
    ) -> (r: Result<bool, Error>)
        ensures
            !consent_ok(*registry, *grant, resource_id@, now) ==> (r matches Err(e) && (e is Invalid
                || e is Rejected)) && *final(self) == *old(self),
            consent_ok(*registry, *grant, resource_id@, now) ==> match old(self).lookup(
                grant.tenant_id@,
                resource_id@,
            ) {
                None => r == Ok::<bool, Error>(false) && *final(self) == *old(self),
                Some(rec) => if rec.grant_id@ != grant.grant_id@ {
                    r matches Err(e) && e is Rejected && *final(self) == *old(self)
                } else {
                    &&& r == Ok::<bool, Error>(true)
                    &&& old(self).same_except(&*final(self), grant.tenant_id@, resource_id@)
                    &&& final(self).lookup(grant.tenant_id@, resource_id@) is None
                },
            },
    {
        check_consent(registry, grant, resource_id, now)?;
        let bound = match self.get_record(grant.tenant_id.as_str(), resource_id) {
            Some(rec) => text_eq(rec.grant_id.as_str(), grant.grant_id.as_str()),
            None => {
                return Ok(false);
            },
        };
        if !bound {
            return Err(rejected("memory grant binding mismatch"));
        }
        self.remove_record(grant.tenant_id.as_str(), resource_id);
        Ok(true)
    }
}


/// The two records carry the same values.
pub open spec fn same_record(a: MemoryRecord, b: MemoryRecord) -> bool {
    &&& a.tenant_id@ == b.tenant_id@
    &&& a.resource_id@ == b.resource_id@
    &&& a.grant_id@ == b.grant_id@
    &&& a.value@ == b.value@
    &&& a.value_digest@ == b.value_digest@
}

fn copy_record(r: &MemoryRecord) -> (c: MemoryRecord)
    ensures
        same_record(c, *r),
{
    MemoryRecord {
        tenant_id: r.tenant_id.clone(),
        resource_id: r.resource_id.clone(),
        grant_id: r.grant_id.clone(),
        value: copy_value(&r.value),
        value_digest: r.value_digest.clone(),
    }
}

/// The records of the first `n` tenants, tenant by tenant, each tenant's in
/// resource order.
pub open spec fn flat_records(outer: Seq<(Seq<char>, TextMap<MemoryRecord>)>, n: int) -> Seq<
    MemoryRecord,
>
    decreases n,
{
    if n <= 0 || n > outer.len() {
        Seq::empty()
    } else {
        flat_records(outer, n - 1) + outer[n - 1].1@.map_values(
            |e: (Seq<char>, MemoryRecord)| e.1,
        )
    }
}

/// Some record among `v` other than the `i`th has the same tenant and
/// resource.
pub open spec fn key_repeated(v: Seq<MemoryRecord>, i: int) -> bool {
    exists|j: int|
        0 <= j < v.len() && j != i && (#[trigger] v[j]).tenant_id@ == v[i].tenant_id@
            && v[j].resource_id@ == v[i].resource_id@
}

impl PersistentMemory {
    /// A record carrying the same values as `rec` is stored under its keys.
    pub open spec fn holds(&self, rec: MemoryRecord) -> bool {
        self.lookup(rec.tenant_id@, rec.resource_id@) matches Some(x) && same_record(x, rec)
    }

    /// The stored records in key order: by tenant, then by resource.
    pub open spec fn spec_records(&self) -> Seq<MemoryRecord> {
        flat_records(self.spec_tenants(), self.spec_tenants().len() as int)
    }

    pub closed spec fn spec_tenants(&self) -> Seq<(Seq<char>, TextMap<MemoryRecord>)> {
        self.records@
    }

    /// Copies of the stored records in key order, for saving.
    pub fn records(&self) -> (r: Vec<MemoryRecord>)
        ensures
            r@.len() == self.spec_records().len(),
            forall|i: int| 0 <= i < r@.len() ==> same_record(#[trigger] r@[i], self.spec_records()[i]),
    {
        let mut out: Vec<MemoryRecord> = Vec::new();
        let n = self.records.len();
        for i in 0..n
            invariant
                n == self.records@.len(),
                out@.len() == flat_records(self.records@, i as int).len(),
                forall|k: int|
                    0 <= k < out@.len() ==> same_record(
                        #[trigger] out@[k],
                        flat_records(self.records@, i as int)[k],
                    ),
        {
            let inner = self.records.value_at(i);
            let ghost before = flat_records(self.records@, i as int);
            let ghost add = inner@.map_values(|e: (Seq<char>, MemoryRecord)| e.1);
            assert(self.records@[i as int].1 == *inner);
            assert(flat_records(self.records@, i + 1) == before + add);
            let m = inner.len();
            for j in 0..m
                invariant
                    m == inner@.len(),
                    add == inner@.map_values(|e: (Seq<char>, MemoryRecord)| e.1),
                    out@.len() == before.len() + j,
                    forall|k: int|
                        0 <= k < out@.len() ==> same_record(#[trigger] out@[k], (before + add)[k]),
            {
                let rec = inner.value_at(j);
                out.push(copy_record(rec));
            }
        }
        out
    }

    /// How many records are stored.
    pub fn len(&self) -> (r: usize)
        requires
            self.spec_records().len() <= usize::MAX,
        ensures
            r == self.spec_records().len(),
    {
        let mut total: usize = 0;
        let n = self.records.len();
        for i in 0..n
            invariant
                n == self.records@.len(),
                total == flat_records(self.records@, i as int).len(),
                flat_records(self.records@, n as int).len() <= usize::MAX,
        {
            let inner = self.records.value_at(i);
            assert(self.records@[i as int].1 == *inner);
            proof {
                lemma_flat_monotone(self.records@, i + 1, n as int);
            }
            total = total + inner.len();
        }
        total
    }

    /// Whether nothing is stored.
    pub fn is_empty(&self) -> (r: bool)
        ensures
            r == (self.spec_records().len() == 0),
    {
        let n = self.records.len();
        for i in 0..n
            invariant
                n == self.records@.len(),
                flat_records(self.records@, i as int).len() == 0,
        {
            let inner = self.records.value_at(i);
            assert(self.records@[i as int].1 == *inner);
            if inner.len() != 0 {
                proof {
                    lemma_flat_monotone(self.records@, i + 1, n as int);
                }
                return false;
            }
        }
        true
    }

    /// A memory at `path` holding `records`, each checked, no tenant and
    /// resource twice.
    pub fn from_records(path: &str, records: Vec<MemoryRecord>) -> (r: Result<
        PersistentMemory,
        Error,
    >)
        ensures
            r is Ok <==> (forall|i: int| 0 <= i < records@.len() ==> record_ok(#[trigger] records@[i]))
                && (forall|i: int| 0 <= i < records@.len() ==> !#[trigger] key_repeated(records@, i)),
            r matches Err(e) ==> e is Journal,
            r matches Ok(m) ==> {
                &&& m.spec_path() == path@
                &&& forall|i: int| 0 <= i < records@.len() ==> #[trigger] m.holds(records@[i])
                &&& forall|t: Seq<char>, res: Seq<char>|
                    #[trigger] m.lookup(t, res) is Some ==> exists|i: int|
                        0 <= i < records@.len() && records@[i].tenant_id@ == t
                            && records@[i].resource_id@ == res
            },
    {
        let mut memory = PersistentMemory::new(path);
        let n = records.len();
        let ghost rs = records@;
        for i in 0..n
            invariant
                rs == records@,
                rs.len() == n,
                memory.spec_path() == path@,
                forall|k: int| 0 <= k < i ==> record_ok(#[trigger] rs[k]),
                forall|a: int, b: int|
                    0 <= a < b < i ==> !((#[trigger] rs[a]).tenant_id@ == (#[trigger] rs[b]).tenant_id@
                        && rs[a].resource_id@ == rs[b].resource_id@),
                forall|k: int| 0 <= k < i ==> #[trigger] memory.holds(rs[k]),
                forall|t: Seq<char>, res: Seq<char>|
                    #[trigger] memory.lookup(t, res) is Some ==> exists|k: int|
                        0 <= k < i && rs[k].tenant_id@ == t && rs[k].resource_id@ == res,
        {
            let record = &records[i];
            match validate_record(record) {
                Ok(()) => {},
                Err(e) => {
                    proof {
                        assert(!record_ok(rs[i as int]));
                    }
                    return Err(e);
                },
            }
            if memory.get_record(record.tenant_id.as_str(), record.resource_id.as_str()).is_some() {
                proof {
                    let k = choose|k: int|
                        0 <= k < i && rs[k].tenant_id@ == record.tenant_id@ && rs[k].resource_id@
                            == record.resource_id@;
                    assert(rs[k].tenant_id@ == rs[i as int].tenant_id@);
                    assert(key_repeated(rs, i as int));
                }
                return Err(journal("duplicate durable memory key"));
            }
            proof {
                assert forall|k: int| 0 <= k < i implies !(rs[k].tenant_id@ == rs[i as int].tenant_id@
                    && rs[k].resource_id@ == rs[i as int].resource_id@) by {
                    assert(memory.holds(rs[k]));
                }
            }
            let ghost before = memory;
            let copy = copy_record(record);
            memory.set_record(copy);
            proof {
                assert forall|k: int| 0 <= k < i + 1 implies #[trigger] memory.holds(rs[k]) by {
                    if k < i {
                        assert(!(rs[k].tenant_id@ == rs[i as int].tenant_id@ && rs[k].resource_id@
                            == rs[i as int].resource_id@));
                        assert(before.holds(rs[k]));
                    }
                }
                assert forall|t: Seq<char>, res: Seq<char>|
                    #[trigger] memory.lookup(t, res) is Some implies exists|k: int|
                        0 <= k < i + 1 && rs[k].tenant_id@ == t && rs[k].resource_id@ == res by {
                    if !(t == rs[i as int].tenant_id@ && res == rs[i as int].resource_id@) {
                        assert(before.lookup(t, res) is Some);
                    }
                }
            }
        }
        proof {
            assert forall|k: int| 0 <= k < rs.len() implies !#[trigger] key_repeated(rs, k) by {
                if key_repeated(rs, k) {
                    let j = choose|j: int|
                        0 <= j < rs.len() && j != k && (#[trigger] rs[j]).tenant_id@ == rs[k].tenant_id@
                            && rs[j].resource_id@ == rs[k].resource_id@;
                    if j < k {
                        assert(!(rs[j].tenant_id@ == rs[k].tenant_id@ && rs[j].resource_id@
                            == rs[k].resource_id@));
                    } else {
                        assert(!(rs[k].tenant_id@ == rs[j].tenant_id@ && rs[k].resource_id@
                            == rs[j].resource_id@));
                    }
                }
            }
        }
        Ok(memory)
    }
}

proof fn lemma_flat_monotone(outer: Seq<(Seq<char>, TextMap<MemoryRecord>)>, i: int, n: int)
    requires
        0 <= i <= n <= outer.len(),
    ensures
        flat_records(outer, i).len() <= flat_records(outer, n).len(),
    decreases n - i,
{
    if i < n {
        lemma_flat_monotone(outer, i, n - 1);
    }
}

/// Read after write: a value stored for a named resource under a consent
/// that holds is given back by a retrieval under the same consent.
pub proof fn lemma_retrieve_returns_put_value(
    before: PersistentMemory,
    after: PersistentMemory,
    registry: SpecialistRegistry,
    grant: ConsentGrant,
    resource: Seq<char>,
    value: JsonValue,
    now: u64,
    d: Seq<char>,
)
    requires
        consent_ok(registry, grant, resource, now),
        resource.len() != 0,
        d == sha256_hex(value_bytes(value@)),
        is_digest(d),
        after.lookup(grant.tenant_id@, resource) matches Some(rec) && rec.tenant_id@
            == grant.tenant_id@ && rec.resource_id@ == resource && rec.grant_id@ == grant.grant_id@
            && rec.value@ == value@ && rec.value_digest@ == d,
    ensures
        after.lookup(grant.tenant_id@, resource) matches Some(rec) && rec.grant_id@
            == grant.grant_id@ && record_ok(rec) && rec.value@ == value@,
{
    let rec = after.lookup(grant.tenant_id@, resource)->0;
    assert(grant.spec_valid());
    assert(is_digest(grant.grant_id@));
}


/// Restoring what was there before a write undoes the write: every record
/// is again what it was (the restored one carrying the same values).
pub proof fn lemma_restore_undoes_write(
    before: PersistentMemory,
    written: PersistentMemory,
    after: PersistentMemory,
    tenant: Seq<char>,
    resource: Seq<char>,
    previous: Option<MemoryRecord>,
)
    requires
        before.same_except(&written, tenant, resource),
        written.same_except(&after, tenant, resource),
        after.lookup(tenant, resource) == previous,
        match before.lookup(tenant, resource) {
            Some(x) => previous matches Some(y) && same_record(y, x),
            None => previous is None,
        },
    ensures
        after.spec_path() == before.spec_path(),
        forall|t: Seq<char>, r: Seq<char>|
            !(t == tenant && r == resource) ==> #[trigger] after.lookup(t, r) == before.lookup(t, r),
        before.lookup(tenant, resource) is None ==> after.lookup(tenant, resource) is None,
        before.lookup(tenant, resource) matches Some(x) ==> (after.lookup(tenant, resource) matches Some(
            y,
        ) && same_record(y, x)),
{
    assert forall|t: Seq<char>, r: Seq<char>|
        !(t == tenant && r == resource) implies #[trigger] after.lookup(t, r) == before.lookup(t, r) by {
        assert(written.lookup(t, r) == before.lookup(t, r));
    }
}

} // verus!
