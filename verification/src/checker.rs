//! Independent recomputation of the local control-plane records.
//!
//! These checks recompute the record equations themselves instead of calling
//! the producers' `validate` methods. They are local regression checks, not
//! authenticated acceptance by an outside executor.
use crate::audit::{audit_digest, audit_entry_ok, AuditJournal, AuditEntry};
use crate::collections::{TextMap, TextSet};
use crate::contract::{Lifecycle, LifecycleState};
use crate::digest::{sha256_hex, zero_digest_text};
use crate::error::{journal, rejected, Error};
use crate::journal::{entry_digest, entry_digest_of, has_candidate, previous_of, JournalEntry, ReplayJournal};
use crate::market::{checked_sum, inputs_digest, nat_list, total, SumJob, SumReceipt};
use crate::order::text_eq;
use crate::text::{is_digest, valid_digest};
use vstd::prelude::*;

verus! {

/// What the replay check asks of the entry at position `i`: its sequence
/// number and back link, well-formed candidate, decision and entry digests,
/// and an entry digest that recomputes.
pub open spec fn replay_entry_recomputes(entries: Seq<JournalEntry>, i: int) -> bool {
    let e = entries[i];
    &&& e.sequence == i
    &&& e.previous_digest@ == previous_of(entries, i)
    &&& is_digest(e.candidate_digest@)
    &&& is_digest(e.decision_digest@)
    &&& is_digest(e.entry_digest@)
    &&& e.entry_digest@ == entry_digest_of(
        e.sequence,
        e.previous_digest@,
        e.candidate_digest@,
        e.replay_digest@,
        e.decision_digest@,
    )
}

/// Every entry recomputes and no candidate digest occurs twice.
pub open spec fn replay_recomputes(entries: Seq<JournalEntry>) -> bool {
    &&& forall|i: int| 0 <= i < entries.len() ==> #[trigger] replay_entry_recomputes(entries, i)
    &&& forall|i: int, j: int|
        0 <= i < j < entries.len() ==> (#[trigger] entries[i]).candidate_digest@ != (
        #[trigger] entries[j]).candidate_digest@
}

/// Recomputes the replay journal's chain.
pub fn validate_replay(journal_in: &ReplayJournal) -> (r: Result<(), Error>)
    ensures
        r is Ok <==> replay_recomputes(journal_in.entries@),
        r matches Err(e) ==> e is Journal,
{
    let mut previous = zero_digest_text();
    let mut seen = TextSet::new();
    let n = journal_in.entries.len();
    let ghost es = journal_in.entries@;
    for i in 0..n
        invariant
            n == es.len(),
            es == journal_in.entries@,
            previous@ == previous_of(es, i as int),
            forall|k: int| 0 <= k < i ==> #[trigger] replay_entry_recomputes(es, k),
            forall|a: int, b: int|
                0 <= a < b < i ==> (#[trigger] es[a]).candidate_digest@ != (
                #[trigger] es[b]).candidate_digest@,
            forall|x: Seq<char>|
                seen@.contains(x) <==> exists|k: int|
                    0 <= k < i && (#[trigger] es[k]).candidate_digest@ == x,
    {
        let entry = &journal_in.entries[i];
        if entry.sequence != i as u64 || !text_eq(entry.previous_digest.as_str(), previous.as_str())
            || !valid_digest(entry.candidate_digest.as_str()) || !valid_digest(
            entry.decision_digest.as_str(),
        ) || !valid_digest(entry.entry_digest.as_str()) {
            proof {
                assert(!replay_entry_recomputes(es, i as int));
            }
            return Err(journal("independent replay check failed"));
        }
        let ghost seen_before = seen@;
        if !seen.insert(entry.candidate_digest.clone()) {
            proof {
                let k = choose|k: int|
                    0 <= k < i && (#[trigger] es[k]).candidate_digest@ == entry.candidate_digest@;
                assert(es[k].candidate_digest@ == es[i as int].candidate_digest@);
            }
            return Err(journal("independent replay check failed"));
        }
        let expected = entry_digest(
            entry.sequence,
            entry.previous_digest.as_str(),
            entry.candidate_digest.as_str(),
            entry.replay_digest.as_str(),
            entry.decision_digest.as_str(),
        );
        if !text_eq(expected.as_str(), entry.entry_digest.as_str()) {
            proof {
                assert(!replay_entry_recomputes(es, i as int));
            }
            return Err(journal("independent replay digest mismatch"));
        }
        previous = entry.entry_digest.clone();
        proof {
            assert(replay_entry_recomputes(es, i as int));
            assert forall|x: Seq<char>|
                seen@.contains(x) <==> exists|k: int|
                    0 <= k < i + 1 && (#[trigger] es[k]).candidate_digest@ == x by {
                assert(seen@.to_set().contains(x) <==> seen@.contains(x));
                if x == es[i as int].candidate_digest@ {
                    assert(seen@.to_set().contains(x));
                }
                if seen@.contains(x) && x != es[i as int].candidate_digest@ {
                    assert(seen@.to_set().contains(x));
                    assert(seen_before.to_set().contains(x));
                }
                if exists|k: int| 0 <= k < i && (#[trigger] es[k]).candidate_digest@ == x {
                    assert(seen_before.contains(x));
                    assert(seen_before.to_set().contains(x));
                    assert(seen@.to_set().contains(x));
                }
            }
            assert forall|a: int, b: int|
                0 <= a < b < i + 1 implies (#[trigger] es[a]).candidate_digest@ != (
                #[trigger] es[b]).candidate_digest@ by {
                if b == i {
                    assert(seen_before.contains(es[a].candidate_digest@));
                }
            }
        }
    }
    Ok(())
}

/// Recomputes the audit journal's chain.
pub fn validate_audit(journal_in: &AuditJournal) -> (r: Result<(), Error>)
    ensures
        r is Ok <==> crate::audit::audit_chain_valid(journal_in.entries@),
        r matches Err(e) ==> e is Journal,
{
    let n = journal_in.entries.len();
    let mut previous = zero_digest_text();
    let ghost es: Seq<AuditEntry> = journal_in.entries@;
    for i in 0..n
        invariant
            n == es.len(),
            es == journal_in.entries@,
            previous@ == crate::audit::audit_previous(es, i as int),
            forall|k: int| 0 <= k < i ==> #[trigger] audit_entry_ok(es, k),
    {
        let e = &journal_in.entries[i];
        if e.sequence != i as u64 || !text_eq(e.previous_digest.as_str(), previous.as_str())
            || !valid_digest(e.previous_digest.as_str()) || !valid_digest(e.entry_digest.as_str()) {
            proof {
                assert(!audit_entry_ok(es, i as int));
            }
            return Err(journal("independent audit check failed"));
        }
        let expected = audit_digest(e.sequence, e.previous_digest.as_str(), &e.metadata);
        if !text_eq(expected.as_str(), e.entry_digest.as_str()) {
            proof {
                assert(!audit_entry_ok(es, i as int));
            }
            return Err(journal("independent audit digest mismatch"));
        }
        previous = e.entry_digest.clone();
        proof {
            assert(audit_entry_ok(es, i as int));
        }
    }
    Ok(())
}

/// What the receipt check asks: the inputs' sum fits in `u64`, the provider
/// is named and is not the requester, the receipt is timely, binds the job's
/// encoding, program and inputs, succeeded with the right sum, is within the
/// price and carries a well-formed job digest.
pub open spec fn receipt_recomputes(job: SumJob, receipt: SumReceipt, now: u64) -> bool {
    &&& total(job.inputs@) <= u64::MAX
    &&& receipt.provider@.len() != 0
    &&& receipt.provider@ != job.requester@
    &&& receipt.completed_at <= now
    &&& now < job.deadline
    &&& receipt.job_digest@ == job.spec_digest()
    &&& receipt.program_digest@ == job.program_digest@
    &&& receipt.input_digest@ == sha256_hex(nat_list(job.inputs@))
    &&& receipt.succeeded
    &&& receipt.output == total(job.inputs@)
    &&& receipt.price <= job.max_price
    &&& is_digest(receipt.job_digest@)
}

/// Recomputes a fixed-sum receipt against its job at `now`.
pub fn validate_receipt(job: &SumJob, receipt: &SumReceipt, now: u64) -> (r: Result<(), Error>)
    ensures
        r is Ok <==> receipt_recomputes(*job, *receipt, now),
        r matches Err(e) ==> e is Rejected,
{
    let output = match checked_sum(&job.inputs) {
        Ok(v) => v,
        Err(_) => {
            return Err(rejected("independent receipt sum overflow"));
        },
    };
    let job_digest = job.encoding_digest();
    let input_digest = inputs_digest(&job.inputs);
    if receipt.provider.as_str().is_empty() || text_eq(
        receipt.provider.as_str(),
        job.requester.as_str(),
    ) || receipt.completed_at > now || now >= job.deadline || !text_eq(
        receipt.job_digest.as_str(),
        job_digest.as_str(),
    ) || !text_eq(receipt.program_digest.as_str(), job.program_digest.as_str()) || !text_eq(
        receipt.input_digest.as_str(),
        input_digest.as_str(),
    ) || !receipt.succeeded || receipt.output != output || receipt.price > job.max_price
        || !valid_digest(receipt.job_digest.as_str()) {
        return Err(rejected("independent receipt check failed"));
    }
    Ok(())
}

/// The lifecycle records agree with the journal: one record per entry, each
/// keyed by a journaled candidate digest, moved at least once and out of
/// `Proposal`.
pub open spec fn lifecycles_match(
    entries: Seq<JournalEntry>,
    records: Seq<(Seq<char>, Lifecycle)>,
) -> bool {
    &&& entries.len() == records.len()
    &&& forall|i: int|
        0 <= i < records.len() ==> {
            let (k, l) = #[trigger] records[i];
            &&& is_digest(k)
            &&& l.revision != 0
            &&& l.state != LifecycleState::Proposal
            &&& has_candidate(entries, k)
        }
}

/// Checks lifecycle records against the replay journal.
pub fn validate_lifecycles(journal_in: &ReplayJournal, records: &TextMap<Lifecycle>) -> (r: Result<
    (),
    Error,
>)
    ensures
        r is Ok <==> lifecycles_match(journal_in.entries@, records@),
        r matches Err(e) ==> e is Journal,
{
    if journal_in.entries.len() != records.len() {
        return Err(journal("lifecycle records do not match the journal"));
    }
    let n = records.len();
    for i in 0..n
        invariant
            n == records@.len(),
            journal_in.entries@.len() == records@.len(),
            forall|k: int|
                0 <= k < i ==> {
                    let (key, l) = #[trigger] records@[k];
                    &&& is_digest(key)
                    &&& l.revision != 0
                    &&& l.state != LifecycleState::Proposal
                    &&& has_candidate(journal_in.entries@, key)
                },
    {
        let key = records.key_at(i);
        let l = records.value_at(i);
        if !valid_digest(key.as_str()) || l.revision == 0 || l.state == LifecycleState::Proposal
            || !journal_in.contains_candidate(key.as_str()) {
            return Err(journal("lifecycle records do not match the journal"));
        }
    }
    Ok(())
}

} // verus!
