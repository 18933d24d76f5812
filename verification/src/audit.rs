//! The digest-chained runtime audit journal.
use crate::canon::{json_nat, json_text, json_text_map, lit, push_lit, push_nat, push_text, push_text_map};
use crate::collections::TextMap;
use crate::digest::{digest_bytes, sha256_hex, zero_digest, zero_digest_text};
use crate::error::{journal, Error};
use crate::order::text_eq;
use crate::text::{is_digest, valid_digest};
use vstd::prelude::*;

verus! {

/// One audit record chained to its predecessor.
pub struct AuditEntry {
    pub sequence: u64,
    pub previous_digest: String,
    pub metadata: TextMap<String>,
    pub entry_digest: String,
}

/// The audit records of a runtime, in order.
pub struct AuditJournal {
    pub entries: Vec<AuditEntry>,
}

/// `[sequence,"previous",{metadata}]`, the material of an audit entry digest.
pub open spec fn audit_material(
    sequence: u64,
    previous: Seq<char>,
    metadata: Seq<(Seq<char>, String)>,
) -> Seq<u8> {
    lit("[") + json_nat(sequence as nat) + lit(",") + json_text(previous) + lit(",")
        + json_text_map(metadata) + lit("]")
}

pub open spec fn audit_digest_of(
    sequence: u64,
    previous: Seq<char>,
    metadata: Seq<(Seq<char>, String)>,
) -> Seq<char> {
    sha256_hex(audit_material(sequence, previous, metadata))
}

/// The digest the entry at position `i` chains to.
pub open spec fn audit_previous(entries: Seq<AuditEntry>, i: int) -> Seq<char> {
    if i == 0 {
        zero_digest()
    } else {
        entries[i - 1].entry_digest@
    }
}

pub open spec fn audit_entry_ok(entries: Seq<AuditEntry>, i: int) -> bool {
    let e = entries[i];
    &&& e.sequence == i
    &&& e.previous_digest@ == audit_previous(entries, i)
    &&& is_digest(e.previous_digest@)
    &&& is_digest(e.entry_digest@)
    &&& e.entry_digest@ == audit_digest_of(e.sequence, e.previous_digest@, e.metadata@)
}

/// Sequence numbers count from 0 and every entry chains to its predecessor
/// with a digest that recomputes.
pub open spec fn audit_chain_valid(entries: Seq<AuditEntry>) -> bool {
    forall|i: int| 0 <= i < entries.len() ==> #[trigger] audit_entry_ok(entries, i)
}

pub(crate) fn audit_digest(sequence: u64, previous: &str, metadata: &TextMap<String>) -> (r: String)
    ensures
        r@ == audit_digest_of(sequence, previous@, metadata@),
        is_digest(r@),
{
    let mut out: Vec<u8> = Vec::new();
    push_lit(&mut out, "[");
    push_nat(&mut out, sequence);
    push_lit(&mut out, ",");
    push_text(&mut out, previous);
    push_lit(&mut out, ",");
    push_text_map(&mut out, metadata);
    push_lit(&mut out, "]");
    assert(out@ =~= audit_material(sequence, previous@, metadata@));
    digest_bytes(out.as_slice())
}

impl AuditJournal {
    /// Chains `records` into a journal, first to last.
    pub fn from_records(records: &Vec<TextMap<String>>) -> (r: Result<AuditJournal, Error>)
        ensures
            r matches Ok(j) && j.entries@.len() == records@.len() && audit_chain_valid(j.entries@)
                && forall|i: int|
                0 <= i < records@.len() ==> (#[trigger] j.entries@[i]).metadata@ == records@[i]@,
    {
        let mut entries: Vec<AuditEntry> = Vec::new();
        let n = records.len();
        for i in 0..n
            invariant
                n == records@.len(),
                entries@.len() == i,
                audit_chain_valid(entries@),
                forall|k: int| 0 <= k < i ==> (#[trigger] entries@[k]).metadata@ == records@[k]@,
        {
            let previous = if i == 0 {
                zero_digest_text()
            } else {
                entries[i - 1].entry_digest.clone()
            };
            let metadata = records[i].copy_map();
            let entry_digest = audit_digest(i as u64, previous.as_str(), &metadata);
            let ghost before = entries@;
            entries.push(
                AuditEntry { sequence: i as u64, previous_digest: previous, metadata, entry_digest },
            );
            proof {
                assert forall|k: int| 0 <= k < entries@.len() implies #[trigger] audit_entry_ok(
                    entries@,
                    k,
                ) by {
                    if k == i {
                        if i > 0 {
                            assert(audit_entry_ok(before, i - 1));
                            assert(entries@[i - 1] == before[i - 1]);
                        }
                    } else {
                        assert(audit_entry_ok(before, k));
                        assert(entries@[k] == before[k]);
                        if k > 0 {
                            assert(entries@[k - 1] == before[k - 1]);
                        }
                    }
                }
            }
        }
        Ok(AuditJournal { entries })
    }

    /// Recomputes the chain.
    pub fn validate(&self) -> (r: Result<(), Error>)
        ensures
            r is Ok <==> audit_chain_valid(self.entries@),
            r matches Err(e) ==> e is Journal,
    {
        let n = self.entries.len();
        let mut previous = zero_digest_text();
        for i in 0..n
            invariant
                n == self.entries@.len(),
                previous@ == audit_previous(self.entries@, i as int),
                forall|k: int| 0 <= k < i ==> #[trigger] audit_entry_ok(self.entries@, k),
        {
            let e = &self.entries[i];
            if e.sequence != i as u64 || !text_eq(e.previous_digest.as_str(), previous.as_str())
                || !valid_digest(e.previous_digest.as_str()) || !valid_digest(
                e.entry_digest.as_str(),
            ) {
                proof {
                    assert(!audit_entry_ok(self.entries@, i as int));
                }
                return Err(journal("invalid audit chain"));
            }
            let expected = audit_digest(e.sequence, e.previous_digest.as_str(), &e.metadata);
            if !text_eq(expected.as_str(), e.entry_digest.as_str()) {
                proof {
                    assert(!audit_entry_ok(self.entries@, i as int));
                }
                return Err(journal("invalid audit chain"));
            }
            previous = e.entry_digest.clone();
        }
        Ok(())
    }
}

} // verus!
