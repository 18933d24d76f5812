//! The digest-chained replay journal of admission decisions.
use crate::canon::{json_nat, json_text, lit, push_lit, push_nat, push_text};
use crate::collections::TextSet;
use crate::digest::{digest_bytes, sha256_hex, zero_digest, zero_digest_text};
use crate::error::{journal, Error};
use crate::order::text_eq;
use crate::text::{is_digest, valid_digest};
use vstd::prelude::*;

verus! {

/// One admission recorded in the journal.
#[derive(Clone, Debug, PartialEq, Eq)]
pub struct JournalEntry {
    pub sequence: u64,
    pub previous_digest: String,
    pub candidate_digest: String,
    pub replay_digest: String,
    pub decision_digest: String,
    pub entry_digest: String,
}

/// Two entries with the same fields.
pub open spec fn same_entry(a: JournalEntry, b: JournalEntry) -> bool {
    &&& a.sequence == b.sequence
    &&& a.previous_digest@ == b.previous_digest@
    &&& a.candidate_digest@ == b.candidate_digest@
    &&& a.replay_digest@ == b.replay_digest@
    &&& a.decision_digest@ == b.decision_digest@
    &&& a.entry_digest@ == b.entry_digest@
}

/// Two entry sequences with the same entries.
pub open spec fn same_entries(a: Seq<JournalEntry>, b: Seq<JournalEntry>) -> bool {
    a.len() == b.len() && forall|i: int| 0 <= i < a.len() ==> same_entry(#[trigger] a[i], b[i])
}

impl JournalEntry {
    pub fn copy_entry(&self) -> (r: JournalEntry)
        ensures
            same_entry(r, *self),
    {
        JournalEntry {
            sequence: self.sequence,
            previous_digest: self.previous_digest.clone(),
            candidate_digest: self.candidate_digest.clone(),
            replay_digest: self.replay_digest.clone(),
            decision_digest: self.decision_digest.clone(),
            entry_digest: self.entry_digest.clone(),
        }
    }
}

/// The bytes an entry digest is computed over:
/// `[sequence,"previous","candidate","replay","decision"]`.
pub open spec fn entry_material(
    sequence: u64,
    previous: Seq<char>,
    candidate: Seq<char>,
    replay: Seq<char>,
    decision: Seq<char>,
) -> Seq<u8> {
    lit("[") + json_nat(sequence as nat) + lit(",") + json_text(previous) + lit(",") + json_text(
        candidate,
    ) + lit(",") + json_text(replay) + lit(",") + json_text(decision) + lit("]")
}

pub open spec fn entry_digest_of(
    sequence: u64,
    previous: Seq<char>,
    candidate: Seq<char>,
    replay: Seq<char>,
    decision: Seq<char>,
) -> Seq<char> {
    sha256_hex(entry_material(sequence, previous, candidate, replay, decision))
}

/// Digest of an entry's fields other than its own digest.
pub fn entry_digest(
    sequence: u64,
    previous: &str,
    candidate: &str,
    replay: &str,
    decision: &str,
) -> (r: String)
    ensures
        r@ == entry_digest_of(sequence, previous@, candidate@, replay@, decision@),
        is_digest(r@),
{
    let mut out: Vec<u8> = Vec::new();
    push_lit(&mut out, "[");
    push_nat(&mut out, sequence);
    push_lit(&mut out, ",");
    push_text(&mut out, previous);
    push_lit(&mut out, ",");
    push_text(&mut out, candidate);
    push_lit(&mut out, ",");
    push_text(&mut out, replay);
    push_lit(&mut out, ",");
    push_text(&mut out, decision);
    push_lit(&mut out, "]");
    assert(out@ =~= entry_material(sequence, previous@, candidate@, replay@, decision@));
    digest_bytes(out.as_slice())
}

/// The digest an entry at position `i` must chain to.
pub open spec fn previous_of(entries: Seq<JournalEntry>, i: int) -> Seq<char> {
    if i == 0 {
        zero_digest()
    } else {
        entries[i - 1].entry_digest@
    }
}

pub open spec fn entry_ok(entries: Seq<JournalEntry>, i: int) -> bool {
    let e = entries[i];
    &&& e.sequence == i
    &&& e.previous_digest@ == previous_of(entries, i)
    &&& is_digest(e.candidate_digest@)
    &&& is_digest(e.replay_digest@)
    &&& is_digest(e.decision_digest@)
    &&& is_digest(e.entry_digest@)
    &&& e.entry_digest@ == entry_digest_of(
        e.sequence,
        e.previous_digest@,
        e.candidate_digest@,
        e.replay_digest@,
        e.decision_digest@,
    )
}

/// A well-formed chain: sequence numbers count from 0, each entry chains to
/// its predecessor, every digest is well formed and recomputes, and no
/// candidate or agent nonce occurs twice.
pub open spec fn chain_valid(entries: Seq<JournalEntry>) -> bool {
    &&& forall|i: int| 0 <= i < entries.len() ==> #[trigger] entry_ok(entries, i)
    &&& forall|i: int, j: int|
        0 <= i < j < entries.len() ==> (#[trigger] entries[i]).candidate_digest@ != (
        #[trigger] entries[j]).candidate_digest@
    &&& forall|i: int, j: int|
        0 <= i < j < entries.len() ==> (#[trigger] entries[i]).replay_digest@ != (
        #[trigger] entries[j]).replay_digest@
}

pub open spec fn has_candidate(entries: Seq<JournalEntry>, candidate: Seq<char>) -> bool {
    exists|i: int| 0 <= i < entries.len() && (#[trigger] entries[i]).candidate_digest@ == candidate
}

pub open spec fn has_replay(entries: Seq<JournalEntry>, replay: Seq<char>) -> bool {
    exists|i: int| 0 <= i < entries.len() && (#[trigger] entries[i]).replay_digest@ == replay
}

/// Whether `append` accepts these references.
/// Why `append` refuses an entry: malformed references, then a journaled
/// candidate, then a journaled agent nonce.
pub open spec fn append_refusal(
    entries: Seq<JournalEntry>,
    candidate: Seq<char>,
    replay: Seq<char>,
    decision: Seq<char>,
) -> Seq<char> {
    if !(is_digest(candidate) && is_digest(replay) && is_digest(decision)) {
        "journal references must be lowercase digests"@
    } else if has_candidate(entries, candidate) {
        "replayed candidate"@
    } else {
        "replayed agent nonce"@
    }
}

pub open spec fn append_allowed(
    entries: Seq<JournalEntry>,
    candidate: Seq<char>,
    replay: Seq<char>,
    decision: Seq<char>,
) -> bool {
    &&& is_digest(candidate)
    &&& is_digest(replay)
    &&& is_digest(decision)
    &&& !has_candidate(entries, candidate)
    &&& !has_replay(entries, replay)
}

/// The entry that `append` adds.
pub open spec fn appended(
    entries: Seq<JournalEntry>,
    candidate: Seq<char>,
    replay: Seq<char>,
    decision: Seq<char>,
    e: JournalEntry,
) -> bool {
    let prev = if entries.len() == 0 {
        zero_digest()
    } else {
        entries.last().entry_digest@
    };
    &&& e.sequence == entries.len()
    &&& e.previous_digest@ == prev
    &&& e.candidate_digest@ == candidate
    &&& e.replay_digest@ == replay
    &&& e.decision_digest@ == decision
    &&& e.entry_digest@ == entry_digest_of(e.sequence, prev, candidate, replay, decision)
}

/// The append-only journal of admission decisions.
#[derive(Clone, Debug, Default, PartialEq, Eq)]
pub struct ReplayJournal {
    pub entries: Vec<JournalEntry>,
}

impl ReplayJournal {
    pub fn new() -> (r: Self)
        ensures
            r.entries@.len() == 0,
    {
        ReplayJournal { entries: Vec::new() }
    }

    pub fn contains_candidate(&self, candidate: &str) -> (r: bool)
        ensures
            r == has_candidate(self.entries@, candidate@),
    {
        let n = self.entries.len();
        for i in 0..n
            invariant
                n == self.entries@.len(),
                forall|k: int| 0 <= k < i ==> (#[trigger] self.entries@[k]).candidate_digest@ != candidate@,
        {
            if text_eq(self.entries[i].candidate_digest.as_str(), candidate) {
                return true;
            }
        }
        false
    }

    fn contains_replay(&self, replay: &str) -> (r: bool)
        ensures
            r == has_replay(self.entries@, replay@),
    {
        let n = self.entries.len();
        for i in 0..n
            invariant
                n == self.entries@.len(),
                forall|k: int| 0 <= k < i ==> (#[trigger] self.entries@[k]).replay_digest@ != replay@,
        {
            if text_eq(self.entries[i].replay_digest.as_str(), replay) {
                return true;
            }
        }
        false
    }

    /// A copy with the same entries.
    pub fn copy_journal(&self) -> (r: ReplayJournal)
        ensures
            same_entries(r.entries@, self.entries@),
    {
        let mut entries: Vec<JournalEntry> = Vec::new();
        let n = self.entries.len();
        for i in 0..n
            invariant
                n == self.entries@.len(),
                entries@.len() == i,
                forall|k: int| 0 <= k < i ==> same_entry(#[trigger] entries@[k], self.entries@[k]),
        {
            entries.push(self.entries[i].copy_entry());
        }
        ReplayJournal { entries }
    }

    /// Whether `append` would accept these references.
    pub fn can_append(&self, candidate: &str, replay: &str, decision: &str) -> (r: bool)
        ensures
            r == append_allowed(self.entries@, candidate@, replay@, decision@),
    {
        valid_digest(candidate) && valid_digest(replay) && valid_digest(decision)
            && !self.contains_candidate(candidate) && !self.contains_replay(replay)
    }

    /// Appends an entry chained to the last one; refuses malformed references,
    /// a replayed candidate and a replayed agent nonce.
    pub fn append(&mut self, candidate: &str, replay: &str, decision: &str) -> (r: Result<
        (),
        Error,
    >)
        ensures
            r is Ok <==> append_allowed(old(self).entries@, candidate@, replay@, decision@),
            r is Ok ==> final(self).entries@.len() == old(self).entries@.len() + 1
                && final(self).entries@.drop_last() == old(self).entries@ && appended(
                old(self).entries@,
                candidate@,
                replay@,
                decision@,
                final(self).entries@.last(),
            ),
            r is Err ==> final(self).entries@ == old(self).entries@,
            r matches Err(e) ==> e matches Error::Journal(m) && m@ == append_refusal(
                old(self).entries@,
                candidate@,
                replay@,
                decision@,
            ),
    {
        if !valid_digest(candidate) || !valid_digest(replay) || !valid_digest(decision) {
            return Err(journal("journal references must be lowercase digests"));
        }
        if self.contains_candidate(candidate) {
            return Err(journal("replayed candidate"));
        }
        if self.contains_replay(replay) {
            return Err(journal("replayed agent nonce"));
        }
        let n = self.entries.len();
        let previous = if n == 0 {
            zero_digest_text()
        } else {
            self.entries[n - 1].entry_digest.clone()
        };
        let sequence = n as u64;
        let digest = entry_digest(sequence, previous.as_str(), candidate, replay, decision);
        self.entries.push(
            JournalEntry {
                sequence,
                previous_digest: previous,
                candidate_digest: candidate.to_owned(),
                replay_digest: replay.to_owned(),
                decision_digest: decision.to_owned(),
                entry_digest: digest,
            },
        );
        proof {
            assert(self.entries@.drop_last() =~= old(self).entries@);
        }
        Ok(())
    }

    /// Recomputes the chain.
    pub fn validate(&self) -> (r: Result<(), Error>)
        ensures
            r is Ok <==> chain_valid(self.entries@),
            r matches Err(e) ==> e is Journal,
    {
        let mut previous = zero_digest_text();
        let mut seen = TextSet::new();
        let mut replays = TextSet::new();
        let n = self.entries.len();
        let ghost es = self.entries@;
        for i in 0..n
            invariant
                n == es.len(),
                es == self.entries@,
                previous@ == previous_of(es, i as int),
                forall|k: int| 0 <= k < i ==> #[trigger] entry_ok(es, k),
                forall|a: int, b: int|
                    0 <= a < b < i ==> (#[trigger] es[a]).candidate_digest@ != (
                    #[trigger] es[b]).candidate_digest@,
                forall|a: int, b: int|
                    0 <= a < b < i ==> (#[trigger] es[a]).replay_digest@ != (
                    #[trigger] es[b]).replay_digest@,
                forall|x: Seq<char>|
                    seen@.contains(x) <==> exists|k: int|
                        0 <= k < i && (#[trigger] es[k]).candidate_digest@ == x,
                forall|x: Seq<char>|
                    replays@.contains(x) <==> exists|k: int|
                        0 <= k < i && (#[trigger] es[k]).replay_digest@ == x,
        {
            let entry = &self.entries[i];
            if entry.sequence != i as u64 || !text_eq(entry.previous_digest.as_str(), previous.as_str())
                || !valid_digest(entry.candidate_digest.as_str()) || !valid_digest(
                entry.replay_digest.as_str(),
            ) || !valid_digest(entry.decision_digest.as_str()) || !valid_digest(
                entry.entry_digest.as_str(),
            ) {
                proof {
                    assert(!entry_ok(es, i as int));
                }
                return Err(journal("invalid journal chain"));
            }
            let ghost seen_before = seen@;
            let ghost replays_before = replays@;
            if !seen.insert(entry.candidate_digest.clone()) {
                proof {
                    let k = choose|k: int| 0 <= k < i && (#[trigger] es[k]).candidate_digest@ == entry.candidate_digest@;
                    assert(es[k].candidate_digest@ == es[i as int].candidate_digest@);
                }
                return Err(journal("invalid journal chain"));
            }
            if !replays.insert(entry.replay_digest.clone()) {
                proof {
                    let k = choose|k: int| 0 <= k < i && (#[trigger] es[k]).replay_digest@ == entry.replay_digest@;
                    assert(es[k].replay_digest@ == es[i as int].replay_digest@);
                }
                return Err(journal("invalid journal chain"));
            }
            let expected = entry_digest(
                entry.sequence,
                entry.previous_digest.as_str(),
                entry.candidate_digest.as_str(),
                entry.replay_digest.as_str(),
                entry.decision_digest.as_str(),
            );
            if !text_eq(expected.as_str(), entry.entry_digest.as_str()) {
                proof {
                    assert(!entry_ok(es, i as int));
                }
                return Err(journal("entry digest mismatch"));
            }
            previous = entry.entry_digest.clone();
            proof {
                assert(entry_ok(es, i as int));
                assert forall|x: Seq<char>|
                    seen@.contains(x) <==> exists|k: int|
                        0 <= k < i + 1 && (#[trigger] es[k]).candidate_digest@ == x by {
                    assert(seen@.to_set().contains(x) <==> seen@.contains(x));
                    if x == es[i as int].candidate_digest@ {
                        assert(seen@.to_set().contains(x));
                    }
                    if seen@.contains(x) && x != es[i as int].candidate_digest@ {
                        assert(seen@.to_set().contains(x));
                        assert(seen_before.to_set().contains(x));
                    }
                    if exists|k: int| 0 <= k < i && (#[trigger] es[k]).candidate_digest@ == x {
                        assert(seen_before.contains(x));
                        assert(seen_before.to_set().contains(x));
                        assert(seen@.to_set().contains(x));
                    }
                }
                assert forall|a: int, b: int|
                    0 <= a < b < i + 1 implies (#[trigger] es[a]).candidate_digest@ != (
                    #[trigger] es[b]).candidate_digest@ by {
                    if b == i {
                        assert(seen_before.contains(es[a].candidate_digest@));
                    }
                }
                assert forall|x: Seq<char>|
                    replays@.contains(x) <==> exists|k: int|
                        0 <= k < i + 1 && (#[trigger] es[k]).replay_digest@ == x by {
                    assert(replays@.to_set().contains(x) <==> replays@.contains(x));
                    if x == es[i as int].replay_digest@ {
                        assert(replays@.to_set().contains(x));
                    }
                    if replays@.contains(x) && x != es[i as int].replay_digest@ {
                        assert(replays@.to_set().contains(x));
                        assert(replays_before.to_set().contains(x));
                    }
                    if exists|k: int| 0 <= k < i && (#[trigger] es[k]).replay_digest@ == x {
                        assert(replays_before.contains(x));
                        assert(replays_before.to_set().contains(x));
                        assert(replays@.to_set().contains(x));
                    }
                }
                assert forall|a: int, b: int|
                    0 <= a < b < i + 1 implies (#[trigger] es[a]).replay_digest@ != (
                    #[trigger] es[b]).replay_digest@ by {
                    if b == i {
                        assert(replays_before.contains(es[a].replay_digest@));
                    }
                }
            }
        }
        Ok(())
    }
}

/// Appending to a well-formed journal keeps it well formed.
pub proof fn lemma_append_keeps_chain_valid(
    before: Seq<JournalEntry>,
    candidate: Seq<char>,
    replay: Seq<char>,
    decision: Seq<char>,
    e: JournalEntry,
)
    requires
        chain_valid(before),
        append_allowed(before, candidate, replay, decision),
        appended(before, candidate, replay, decision, e),
        is_digest(e.entry_digest@),
    ensures
        chain_valid(before.push(e)),
{
    let after = before.push(e);
    assert forall|i: int| 0 <= i < after.len() implies #[trigger] entry_ok(after, i) by {
        if i < before.len() {
            assert(entry_ok(before, i));
            assert(after[i] == before[i]);
            if i > 0 {
                assert(after[i - 1] == before[i - 1]);
            }
        } else {
            if before.len() > 0 {
                assert(after[i - 1] == before.last());
            }
        }
    }
    assert forall|a: int, b: int|
        0 <= a < b < after.len() implies (#[trigger] after[a]).candidate_digest@ != (
        #[trigger] after[b]).candidate_digest@ by {
        if b == before.len() {
            assert(after[a] == before[a]);
        } else {
            assert(after[a] == before[a]);
            assert(after[b] == before[b]);
        }
    }
    assert forall|a: int, b: int|
        0 <= a < b < after.len() implies (#[trigger] after[a]).replay_digest@ != (
        #[trigger] after[b]).replay_digest@ by {
        if b == before.len() {
            assert(after[a] == before[a]);
        } else {
            assert(after[a] == before[a]);
            assert(after[b] == before[b]);
        }
    }
}


/// The canonical encoding of one entry.
pub open spec fn entry_bytes(e: JournalEntry) -> Seq<u8> {
    lit("{\"sequence\":") + json_nat(e.sequence as nat) + lit(",\"previous_digest\":") + json_text(
        e.previous_digest@,
    ) + lit(",\"candidate_digest\":") + json_text(e.candidate_digest@) + lit(",\"replay_digest\":")
        + json_text(e.replay_digest@) + lit(",\"decision_digest\":") + json_text(e.decision_digest@)
        + lit(",\"entry_digest\":") + json_text(e.entry_digest@) + lit("}")
}

/// The canonical encoding of a journal: `{"entries":[...]}`.
pub open spec fn journal_bytes(entries: Seq<JournalEntry>) -> Seq<u8> {
    lit("{\"entries\":") + crate::canon::json_list(entries.map_values(|e: JournalEntry| entry_bytes(e)))
        + lit("}")
}

fn push_entry(out: &mut Vec<u8>, e: &JournalEntry)
    ensures
        final(out)@ == old(out)@ + entry_bytes(*e),
{
    let ghost start = out@;
    push_lit(out, "{\"sequence\":");
    assert(out@ =~= start + (lit("{\"sequence\":")));
    push_nat(out, e.sequence);
    assert(out@ =~= start + (lit("{\"sequence\":") + json_nat(e.sequence as nat)));
    push_lit(out, ",\"previous_digest\":");
    assert(out@ =~= start + (lit("{\"sequence\":") + json_nat(e.sequence as nat) + lit(",\"previous_digest\":")));
    push_text(out, e.previous_digest.as_str());
    assert(out@ =~= start + (lit("{\"sequence\":") + json_nat(e.sequence as nat) + lit(",\"previous_digest\":") + json_text(e.previous_digest@)));
    push_lit(out, ",\"candidate_digest\":");
    assert(out@ =~= start + (lit("{\"sequence\":") + json_nat(e.sequence as nat) + lit(",\"previous_digest\":") + json_text(e.previous_digest@) + lit(",\"candidate_digest\":")));
    push_text(out, e.candidate_digest.as_str());
    assert(out@ =~= start + (lit("{\"sequence\":") + json_nat(e.sequence as nat) + lit(",\"previous_digest\":") + json_text(e.previous_digest@) + lit(",\"candidate_digest\":") + json_text(e.candidate_digest@)));
    push_lit(out, ",\"replay_digest\":");
    assert(out@ =~= start + (lit("{\"sequence\":") + json_nat(e.sequence as nat) + lit(",\"previous_digest\":") + json_text(e.previous_digest@) + lit(",\"candidate_digest\":") + json_text(e.candidate_digest@) + lit(",\"replay_digest\":")));
    push_text(out, e.replay_digest.as_str());
    assert(out@ =~= start + (lit("{\"sequence\":") + json_nat(e.sequence as nat) + lit(",\"previous_digest\":") + json_text(e.previous_digest@) + lit(",\"candidate_digest\":") + json_text(e.candidate_digest@) + lit(",\"replay_digest\":") + json_text(e.replay_digest@)));
    push_lit(out, ",\"decision_digest\":");
    assert(out@ =~= start + (lit("{\"sequence\":") + json_nat(e.sequence as nat) + lit(",\"previous_digest\":") + json_text(e.previous_digest@) + lit(",\"candidate_digest\":") + json_text(e.candidate_digest@) + lit(",\"replay_digest\":") + json_text(e.replay_digest@) + lit(",\"decision_digest\":")));
    push_text(out, e.decision_digest.as_str());
    assert(out@ =~= start + (lit("{\"sequence\":") + json_nat(e.sequence as nat) + lit(",\"previous_digest\":") + json_text(e.previous_digest@) + lit(",\"candidate_digest\":") + json_text(e.candidate_digest@) + lit(",\"replay_digest\":") + json_text(e.replay_digest@) + lit(",\"decision_digest\":") + json_text(e.decision_digest@)));
    push_lit(out, ",\"entry_digest\":");
    assert(out@ =~= start + (lit("{\"sequence\":") + json_nat(e.sequence as nat) + lit(",\"previous_digest\":") + json_text(e.previous_digest@) + lit(",\"candidate_digest\":") + json_text(e.candidate_digest@) + lit(",\"replay_digest\":") + json_text(e.replay_digest@) + lit(",\"decision_digest\":") + json_text(e.decision_digest@) + lit(",\"entry_digest\":")));
    push_text(out, e.entry_digest.as_str());
    assert(out@ =~= start + (lit("{\"sequence\":") + json_nat(e.sequence as nat) + lit(",\"previous_digest\":") + json_text(e.previous_digest@) + lit(",\"candidate_digest\":") + json_text(e.candidate_digest@) + lit(",\"replay_digest\":") + json_text(e.replay_digest@) + lit(",\"decision_digest\":") + json_text(e.decision_digest@) + lit(",\"entry_digest\":") + json_text(e.entry_digest@)));
    push_lit(out, "}");
    assert(out@ =~= start + (lit("{\"sequence\":") + json_nat(e.sequence as nat) + lit(",\"previous_digest\":") + json_text(e.previous_digest@) + lit(",\"candidate_digest\":") + json_text(e.candidate_digest@) + lit(",\"replay_digest\":") + json_text(e.replay_digest@) + lit(",\"decision_digest\":") + json_text(e.decision_digest@) + lit(",\"entry_digest\":") + json_text(e.entry_digest@) + lit("}")));
}

impl ReplayJournal {
    /// The canonical encoding of the journal.
    pub fn canonical_bytes(&self) -> (r: Vec<u8>)
        ensures
            r@ == journal_bytes(self.entries@),
    {
        let ghost items = self.entries@.map_values(|e: JournalEntry| entry_bytes(e));
        let mut out: Vec<u8> = Vec::new();
        push_lit(&mut out, "{\"entries\":");
        let ghost head = out@;
        out.push(0x5b);
        let ghost start = out@;
        let n = self.entries.len();
        for i in 0..n
            invariant
                n == self.entries@.len(),
                items == self.entries@.map_values(|e: JournalEntry| entry_bytes(e)),
                out@ == start + crate::canon::join(items.subrange(0, i as int)),
        {
            if i > 0 {
                out.push(0x2c);
            }
            push_entry(&mut out, &self.entries[i]);
            proof {
                let pre = items.subrange(0, i as int);
                assert(items.subrange(0, i + 1) =~= pre.push(items[i as int]));
                assert(pre.push(items[i as int]).drop_last() =~= pre);
            }
        }
        out.push(0x5d);
        push_lit(&mut out, "}");
        proof {
            assert(items.subrange(0, n as int) =~= items);
            assert(out@ =~= journal_bytes(self.entries@));
        }
        out
    }

    /// The digest of the canonical encoding.
    pub fn digest(&self) -> (r: String)
        ensures
            r@ == sha256_hex(journal_bytes(self.entries@)),
            is_digest(r@),
    {
        let bytes = self.canonical_bytes();
        digest_bytes(bytes.as_slice())
    }
}

} // verus!
