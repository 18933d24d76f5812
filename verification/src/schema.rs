//! Versioned schema identities bound to exact definition digests.
use crate::error::{invalid, quarantined, rejected, Error};
use crate::order::text_eq;
use crate::text::{byte_len, contains_control, contains_whitespace, has_control, has_whitespace, is_digest, valid_digest};
use vstd::prelude::*;

verus! {

pub const STATE_SLICE: &'static str = "security-alignment-os-foundation-v1";

/// The longest schema id, in bytes.
pub const MAX_SCHEMA_ID_LEN: usize = 128;

/// A schema id: 1 to 128 bytes, no control characters, no whitespace.
pub open spec fn schema_id_ok(s: Seq<char>) -> bool {
    &&& s.len() != 0
    &&& byte_len(s) <= MAX_SCHEMA_ID_LEN
    &&& !has_control(s)
    &&& !has_whitespace(s)
}

fn valid_schema_id(value: &str) -> (r: bool)
    ensures
        r == schema_id_ok(value@),
{
    !value.is_empty() && value.as_bytes().len() <= MAX_SCHEMA_ID_LEN && !contains_control(value)
        && !contains_whitespace(value)
}

/// A schema identity bound to an exact canonical definition digest.
#[derive(Debug)]
pub struct SchemaDescriptor {
    pub schema_id: String,
    pub version: u32,
    pub schema_digest: String,
}

impl Clone for SchemaDescriptor {
    fn clone(&self) -> (r: Self)
        ensures
            r.same(self),
    {
        SchemaDescriptor {
            schema_id: self.schema_id.clone(),
            version: self.version,
            schema_digest: self.schema_digest.clone(),
        }
    }
}

impl PartialEq for SchemaDescriptor {
    fn eq(&self, other: &Self) -> (r: bool) {
        text_eq(self.schema_id.as_str(), other.schema_id.as_str()) && self.version == other.version
            && text_eq(self.schema_digest.as_str(), other.schema_digest.as_str())
    }
}

impl vstd::std_specs::cmp::PartialEqSpecImpl for SchemaDescriptor {
    open spec fn obeys_eq_spec() -> bool {
        true
    }

    open spec fn eq_spec(&self, other: &Self) -> bool {
        self.same(other)
    }
}

impl SchemaDescriptor {
    /// Field-by-field equality.
    pub open spec fn same(&self, other: &SchemaDescriptor) -> bool {
        &&& self.schema_id@ == other.schema_id@
        &&& self.version == other.version
        &&& self.schema_digest@ == other.schema_digest@
    }

    pub open spec fn spec_valid(&self) -> bool {
        schema_id_ok(self.schema_id@) && self.version != 0 && is_digest(self.schema_digest@)
    }

    pub fn validate(&self) -> (r: Result<(), Error>)
        ensures
            r is Ok <==> self.spec_valid(),
            r matches Err(e) ==> e is Invalid,
    {
        if !valid_schema_id(self.schema_id.as_str()) || self.version == 0 || !valid_digest(
            self.schema_digest.as_str(),
        ) {
            return Err(invalid("schema descriptor is malformed"));
        }
        Ok(())
    }
}

/// Whether a descriptor has schema id `id` and version `version`.
pub open spec fn has_key(d: SchemaDescriptor, id: Seq<char>, version: u32) -> bool {
    d.schema_id@ == id && d.version == version
}

/// The position of the descriptor with that identity, if any.
pub open spec fn key_index(s: Seq<SchemaDescriptor>, id: Seq<char>, version: u32) -> Option<int> {
    if exists|i: int| 0 <= i < s.len() && has_key(#[trigger] s[i], id, version) {
        Some(choose|i: int| 0 <= i < s.len() && has_key(#[trigger] s[i], id, version))
    } else {
        None
    }
}

/// Registered descriptors, in registration order; no identity occurs twice.
#[derive(Debug)]
pub struct SchemaRegistry {
    records: Vec<SchemaDescriptor>,
}

impl SchemaRegistry {
    #[verifier::type_invariant]
    spec fn wf(self) -> bool {
        forall|i: int, j: int|
            0 <= i < j < self.records@.len() ==> !has_key(
                #[trigger] self.records@[i],
                (#[trigger] self.records@[j]).schema_id@,
                self.records@[j].version,
            )
    }

    /// The registered descriptors.
    pub closed spec fn descriptors(&self) -> Seq<SchemaDescriptor> {
        self.records@
    }

    pub fn new() -> (r: SchemaRegistry)
        ensures
            r.descriptors().len() == 0,
    {
        SchemaRegistry { records: Vec::new() }
    }

    fn position(&self, schema_id: &str, version: u32) -> (r: Option<usize>)
        ensures
            match r {
                Some(i) => i < self.descriptors().len() && has_key(
                    self.descriptors()[i as int],
                    schema_id@,
                    version,
                ),
                None => key_index(self.descriptors(), schema_id@, version) is None,
            },
    {
        let n = self.records.len();
        for i in 0..n
            invariant
                n == self.records@.len(),
                forall|k: int| 0 <= k < i ==> !has_key(#[trigger] self.records@[k], schema_id@, version),
        {
            if self.records[i].version == version && text_eq(
                self.records[i].schema_id.as_str(),
                schema_id,
            ) {
                return Some(i);
            }
        }
        None
    }

    /// Registers a well-formed descriptor under a new identity.
    pub fn register(&mut self, descriptor: SchemaDescriptor) -> (r: Result<(), Error>)
        ensures
            !descriptor.spec_valid() ==> (r matches Err(e) && e is Invalid),
            descriptor.spec_valid() ==> (r is Ok <==> key_index(
                old(self).descriptors(),
                descriptor.schema_id@,
                descriptor.version,
            ) is None),
            descriptor.spec_valid() && r is Err ==> (r matches Err(e) && e is Rejected),
            r is Ok ==> final(self).descriptors() == old(self).descriptors().push(descriptor),
            r is Err ==> final(self).descriptors() == old(self).descriptors(),
    {
        descriptor.validate()?;
        if self.position(descriptor.schema_id.as_str(), descriptor.version).is_some() {
            return Err(rejected("schema identity already registered"));
        }
        proof {
            use_type_invariant(&*self);
        }
        let mut records = Vec::new();
        std::mem::swap(&mut records, &mut self.records);
        records.push(descriptor);
        proof {
            assert forall|i: int, j: int|
                0 <= i < j < records@.len() implies !has_key(
                #[trigger] records@[i],
                (#[trigger] records@[j]).schema_id@,
                records@[j].version,
            ) by {
                if j == records@.len() - 1 {
                    assert(records@[i] == old(self).records@[i]);
                } else {
                    assert(records@[i] == old(self).records@[i]);
                    assert(records@[j] == old(self).records@[j]);
                }
            }
        }
        self.records = records;
        Ok(())
    }

    /// The descriptor registered under `schema_id` and `version`.
    pub fn get(&self, schema_id: &str, version: u32) -> (r: Option<&SchemaDescriptor>)
        ensures
            r is Some <==> key_index(self.descriptors(), schema_id@, version) is Some,
            r matches Some(d) ==> has_key(*d, schema_id@, version) && self.descriptors().contains(*d),
    {
        match self.position(schema_id, version) {
            Some(i) => Some(&self.records[i]),
            None => None,
        }
    }

    /// Requires an exact schema id, version and digest match.
    pub fn require(&self, schema_id: &str, version: u32, schema_digest: &str) -> (r: Result<
        &SchemaDescriptor,
        Error,
    >)
        ensures
            !(schema_id_ok(schema_id@) && version != 0 && is_digest(schema_digest@)) ==> (
            r matches Err(e) && e is Invalid),
            schema_id_ok(schema_id@) && version != 0 && is_digest(schema_digest@) ==> {
                &&& key_index(self.descriptors(), schema_id@, version) is None ==> (r matches Err(
                    e,
                ) && e is Quarantined)
                &&& key_index(self.descriptors(), schema_id@, version) matches Some(i) ==> {
                    let d = self.descriptors()[i];
                    &&& d.schema_digest@ != schema_digest@ ==> (r matches Err(e) && e is Rejected)
                    &&& d.schema_digest@ == schema_digest@ ==> (r matches Ok(x) && x.same(&d))
                }
            },
            r matches Ok(x) ==> has_key(*x, schema_id@, version) && x.schema_digest@
                == schema_digest@ && self.descriptors().contains(*x),
    {
        if !valid_schema_id(schema_id) || version == 0 || !valid_digest(schema_digest) {
            return Err(invalid("schema requirement is malformed"));
        }
        proof {
            use_type_invariant(self);
        }
        let i = match self.position(schema_id, version) {
            Some(i) => i,
            None => {
                return Err(quarantined("schema identity is unavailable"));
            },
        };
        proof {
            let s = self.records@;
            let j = key_index(s, schema_id@, version)->0;
            assert(has_key(s[i as int], schema_id@, version));
            if j != i as int {
                if j < i as int {
                    assert(!has_key(s[j], s[i as int].schema_id@, s[i as int].version));
                } else {
                    assert(!has_key(s[i as int], s[j].schema_id@, s[j].version));
                }
            }
        }
        let d = &self.records[i];
        if !text_eq(d.schema_digest.as_str(), schema_digest) {
            return Err(rejected("schema digest binding mismatch"));
        }
        Ok(d)
    }

    pub fn len(&self) -> (r: usize)
        ensures
            r == self.descriptors().len(),
    {
        self.records.len()
    }

    pub fn is_empty(&self) -> (r: bool)
        ensures
            r == (self.descriptors().len() == 0),
    {
        self.records.len() == 0
    }
}

impl Default for SchemaRegistry {
    fn default() -> (r: SchemaRegistry)
        ensures
            r.descriptors().len() == 0,
    {
        SchemaRegistry::new()
    }
}

} // verus!
