//! Deterministic property checks over the lifecycle table, the authority
//! lattice and the kernel, reported as digests only.
use crate::canon::{json_bool, json_list, json_nat, json_text, lit, push_bool, push_lit, push_nat, push_text};
use crate::collections::{entries_map, entry_keys, texts_of, TextMap, TextSet};
use crate::json::{JsonModel, JsonValue};
use crate::records::{Action, Claim, Policy, Proposal};
use crate::kernel::{admission_kind, capability_expiry, costs_within, qualifying_expiry, some_claim_qualifies, DecisionKind, Kernel};
use crate::runtime::Runtime;
use crate::contract::{
    all_authorities, lemma_all_authorities, next_state, rank, transition, Authority,
    CapabilitySet, Lifecycle, LifecycleEvent, LifecycleState,
};
use crate::digest::{digest_bytes, sha256_hex};
use crate::error::{invalid, Error};
use crate::order::text_eq;
use crate::records::STATE_SLICE;
use crate::text::is_digest;
use vstd::prelude::*;

verus! {

/// `["slice","property id",passed,evidence]`, the material of an outcome digest.
pub open spec fn outcome_material(property_id: Seq<char>, passed: bool, evidence: Seq<u8>) -> Seq<u8> {
    lit("[") + json_text(STATE_SLICE@) + lit(",") + json_text(property_id) + lit(",") + json_bool(
        passed,
    ) + lit(",") + evidence + lit("]")
}

/// The JSON list of some counters.
pub open spec fn counters(values: Seq<u64>) -> Seq<u8> {
    json_list(values.map_values(|v: u64| json_nat(v as nat)))
}

fn push_counters(out: &mut Vec<u8>, values: &[u64])
    ensures
        final(out)@ == old(out)@ + counters(values@),
{
    let ghost items = values@.map_values(|v: u64| json_nat(v as nat));
    out.push(0x5b);
    let ghost start = out@;
    let n = values.len();
    for i in 0..n
        invariant
            n == values@.len(),
            items == values@.map_values(|v: u64| json_nat(v as nat)),
            out@ == start + crate::canon::join(items.subrange(0, i as int)),
    {
        if i > 0 {
            out.push(0x2c);
        }
        push_nat(out, values[i]);
        proof {
            let pre = items.subrange(0, i as int);
            assert(items.subrange(0, i + 1) =~= pre.push(items[i as int]));
            assert(pre.push(items[i as int]).drop_last() =~= pre);
        }
    }
    out.push(0x5d);
    proof {
        assert(items.subrange(0, n as int) =~= items);
        assert(out@ =~= old(out)@ + counters(values@));
    }
}

/// A digest-only result for one property.
#[derive(Clone, Debug, PartialEq, Eq)]
pub struct PropertyOutcome {
    pub property_id: String,
    pub passed: bool,
    pub evidence_digest: String,
}

impl PropertyOutcome {
    fn new(property_id: &str, passed: bool, evidence: &Vec<u8>) -> (r: PropertyOutcome)
        ensures
            r.property_id@ == property_id@,
            r.passed == passed,
            r.evidence_digest@ == sha256_hex(outcome_material(property_id@, passed, evidence@)),
            is_digest(r.evidence_digest@),
    {
        let mut out: Vec<u8> = Vec::new();
        push_lit(&mut out, "[");
        push_text(&mut out, STATE_SLICE);
        push_lit(&mut out, ",");
        push_text(&mut out, property_id);
        push_lit(&mut out, ",");
        push_bool(&mut out, passed);
        push_lit(&mut out, ",");
        let ghost before = out@;
        let n = evidence.len();
        for i in 0..n
            invariant
                n == evidence@.len(),
                out@ == before + evidence@.subrange(0, i as int),
        {
            out.push(evidence[i]);
            proof {
                assert(evidence@.subrange(0, i + 1) =~= evidence@.subrange(0, i as int).push(
                    evidence@[i as int],
                ));
            }
        }
        push_lit(&mut out, "]");
        assert(out@ =~= outcome_material(property_id@, passed, evidence@));
        PropertyOutcome {
            property_id: property_id.to_owned(),
            passed,
            evidence_digest: digest_bytes(out.as_slice()),
        }
    }
}

fn counters_bytes(values: &[u64]) -> (r: Vec<u8>)
    ensures
        r@ == counters(values@),
{
    let mut out = Vec::new();
    push_counters(&mut out, values);
    assert(out@ =~= counters(values@));
    out
}

fn lifecycle_states() -> (r: [LifecycleState; 9])
    ensures
        forall|s: LifecycleState| r@.contains(s),
{
    let r = [
        LifecycleState::Proposal,
        LifecycleState::Quarantined,
        LifecycleState::Rejected,
        LifecycleState::Admitted,
        LifecycleState::Executing,
        LifecycleState::Completed,
        LifecycleState::RolledBack,
        LifecycleState::Frozen,
        LifecycleState::Killed,
    ];
    proof {
        assert forall|s: LifecycleState| r@.contains(s) by {
            match s {
                LifecycleState::Proposal => assert(r@[0] == s),
                LifecycleState::Quarantined => assert(r@[1] == s),
                LifecycleState::Rejected => assert(r@[2] == s),
                LifecycleState::Admitted => assert(r@[3] == s),
                LifecycleState::Executing => assert(r@[4] == s),
                LifecycleState::Completed => assert(r@[5] == s),
                LifecycleState::RolledBack => assert(r@[6] == s),
                LifecycleState::Frozen => assert(r@[7] == s),
                LifecycleState::Killed => assert(r@[8] == s),
            }
        }
    }
    r
}

fn lifecycle_events() -> (r: [LifecycleEvent; 8])
    ensures
        forall|e: LifecycleEvent| r@.contains(e),
{
    let r = [
        LifecycleEvent::Quarantine,
        LifecycleEvent::Reject,
        LifecycleEvent::Admit,
        LifecycleEvent::BeginExecution,
        LifecycleEvent::Complete,
        LifecycleEvent::Rollback,
        LifecycleEvent::Freeze,
        LifecycleEvent::Kill,
    ];
    proof {
        assert forall|e: LifecycleEvent| r@.contains(e) by {
            match e {
                LifecycleEvent::Quarantine => assert(r@[0] == e),
                LifecycleEvent::Reject => assert(r@[1] == e),
                LifecycleEvent::Admit => assert(r@[2] == e),
                LifecycleEvent::BeginExecution => assert(r@[3] == e),
                LifecycleEvent::Complete => assert(r@[4] == e),
                LifecycleEvent::Rollback => assert(r@[5] == e),
                LifecycleEvent::Freeze => assert(r@[6] == e),
                LifecycleEvent::Kill => assert(r@[7] == e),
            }
        }
    }
    r
}

/// The lifecycle table written out a second time, state by state.
fn expected_transition(state: LifecycleState, event: LifecycleEvent) -> (r: Option<LifecycleState>)
    ensures
        r == next_state(state, event),
{
    match (state, event) {
        (LifecycleState::Proposal, LifecycleEvent::Quarantine) => Some(LifecycleState::Quarantined),
        (LifecycleState::Proposal, LifecycleEvent::Reject) => Some(LifecycleState::Rejected),
        (LifecycleState::Proposal, LifecycleEvent::Admit) => Some(LifecycleState::Admitted),
        (LifecycleState::Quarantined, LifecycleEvent::Reject) => Some(LifecycleState::Rejected),
        (LifecycleState::Quarantined, LifecycleEvent::Admit) => Some(LifecycleState::Admitted),
        (LifecycleState::Admitted, LifecycleEvent::Quarantine) => Some(LifecycleState::Quarantined),
        (LifecycleState::Admitted, LifecycleEvent::BeginExecution) => Some(LifecycleState::Executing),
        (LifecycleState::Executing, LifecycleEvent::Complete) => Some(LifecycleState::Completed),
        (LifecycleState::Executing, LifecycleEvent::Rollback) => Some(LifecycleState::RolledBack),
        (LifecycleState::Completed, LifecycleEvent::Rollback) => Some(LifecycleState::RolledBack),
        (LifecycleState::RolledBack, LifecycleEvent::Admit) => Some(LifecycleState::Admitted),
        (LifecycleState::Frozen, LifecycleEvent::Kill) => Some(LifecycleState::Killed),
        (LifecycleState::Frozen, _) | (LifecycleState::Killed, _) => None,
        (_, LifecycleEvent::Freeze) => Some(LifecycleState::Frozen),
        (_, LifecycleEvent::Kill) => Some(LifecycleState::Killed),
        _ => None,
    }
}

fn same_state(a: Option<LifecycleState>, b: Option<LifecycleState>) -> (r: bool)
    ensures
        r == (a == b),
{
    match (a, b) {
        (Some(x), Some(y)) => x == y,
        (None, None) => true,
        _ => false,
    }
}

pub open spec fn lifecycle_outcome_ok(o: PropertyOutcome) -> bool {
    &&& o.property_id@ == "phase0.lifecycle_transition_table"@
    &&& o.passed
    &&& o.evidence_digest@ == sha256_hex(
        outcome_material("phase0.lifecycle_transition_table"@, true, counters(seq![72u64, 0u64])),
    )
}

/// Checks all 9 x 8 state/event pairs against the table, through
/// `transition` and through `Lifecycle::apply`; every pair agrees.
pub fn check_lifecycle_transitions() -> (r: Result<PropertyOutcome, Error>)
    ensures
        r matches Ok(o) && lifecycle_outcome_ok(o),
{
    let states = lifecycle_states();
    let events = lifecycle_events();
    let mut mismatches: u64 = 0;
    let mut checked: u64 = 0;
    for si in 0..9usize
        invariant
            mismatches == 0,
            checked == si * 8,
    {
        for ei in 0..8usize
            invariant
                mismatches == 0,
                checked == si * 8 + ei,
                si < 9,
        {
            let state = states[si];
            let event = events[ei];
            checked = checked + 1;
            let expected = expected_transition(state, event);
            let actual = match transition(state, event) {
                Ok(x) => Some(x),
                Err(_) => None,
            };
            if !same_state(actual, expected) {
                mismatches = mismatches + 1;
            }
            let mut lifecycle = Lifecycle { state, revision: 7 };
            let before = lifecycle;
            let applied = lifecycle.apply(event);
            match expected {
                Some(next) => {
                    let ok = match applied {
                        Ok(x) => x == next,
                        Err(_) => false,
                    };
                    if !ok || lifecycle.revision != 8 {
                        mismatches = mismatches + 1;
                    }
                },
                None => {
                    if applied.is_ok() || lifecycle.state != before.state || lifecycle.revision
                        != before.revision {
                        mismatches = mismatches + 1;
                    }
                },
            }
        }
    }
    let evidence = counters_bytes(&[checked, mismatches]);
    let id = "phase0.lifecycle_transition_table";
    let outcome = PropertyOutcome::new(id, mismatches == 0, &evidence);
    proof {
        assert(seq![checked, mismatches] =~= seq![72u64, 0u64]);
    }
    Ok(outcome)
}

pub open spec fn nonimplication_outcome_ok(o: PropertyOutcome) -> bool {
    &&& o.property_id@ == "phase0.authority_singleton_nonimplication"@
    &&& o.passed
    &&& o.evidence_digest@ == sha256_hex(
        outcome_material(
            "phase0.authority_singleton_nonimplication"@,
            true,
            counters(seq![56u64, 0u64]),
        ),
    )
}

/// Checks that no singleton authority covers another: there are no implicit
/// implication edges between authorities.
pub fn check_authority_nonimplication() -> (r: Result<PropertyOutcome, Error>)
    ensures
        r matches Ok(o) && nonimplication_outcome_ok(o),
{
    let authorities = Authority::all();
    let mut checked: u64 = 0;
    let mut mismatches: u64 = 0;
    proof {
        assert(all_authorities().no_duplicates()) by {
            assert forall|i: int, j: int|
                0 <= i < j < 8 implies all_authorities()[i] != all_authorities()[j] by {
                let (a, b) = (all_authorities()[i], all_authorities()[j]);
                lemma_all_authorities(a);
                lemma_all_authorities(b);
            }
        }
    }
    for li in 0..8usize
        invariant
            authorities@ == all_authorities(),
            all_authorities().no_duplicates(),
            mismatches == 0,
            checked == li * 7,
    {
        for ri in 0..8usize
            invariant
                authorities@ == all_authorities(),
                all_authorities().no_duplicates(),
                mismatches == 0,
                li < 8,
                checked == li * 7 + ri - (if ri > li {
                    1int
                } else {
                    0int
                }),
        {
            if li != ri {
                checked = checked + 1;
                let a = authorities[li];
                let b = authorities[ri];
                let left = CapabilitySet::from_slice(&[a]);
                let right = CapabilitySet::from_slice(&[b]);
                proof {
                    assert(left@ =~= set![a]);
                    assert(right@ =~= set![b]);
                    assert(a != b);
                    assert(!right@.subset_of(left@)) by {
                        assert(right@.contains(b));
                    }
                    assert(!left@.subset_of(right@)) by {
                        assert(left@.contains(a));
                    }
                }
                if left.covers(&right) || right.covers(&left) {
                    mismatches = mismatches + 1;
                }
            }
        }
    }
    let evidence = counters_bytes(&[checked, mismatches]);
    let outcome = PropertyOutcome::new(
        "phase0.authority_singleton_nonimplication",
        mismatches == 0,
        &evidence,
    );
    proof {
        assert(seq![checked, mismatches] =~= seq![56u64, 0u64]);
    }
    Ok(outcome)
}


/// Bit `k` of `m` is set.
pub open spec fn bit(m: u16, k: u16) -> bool {
    (m >> k) & 1u16 == 1u16
}

/// The authorities whose rank is a set bit of `m`.
pub open spec fn mask_set(m: u16) -> Set<Authority> {
    Set::new(|a: Authority| bit(m, rank(a) as u16))
}

/// The number of set bits of `m` below position `i`.
pub open spec fn low_bits(m: u16, i: nat) -> nat
    decreases i,
{
    if i == 0 {
        0
    } else {
        low_bits(m, (i - 1) as nat) + if bit(m, (i - 1) as u16) {
            1nat
        } else {
            0nat
        }
    }
}

proof fn lemma_and_shift(m: u16, k: u16)
    requires
        k < 16,
    ensures
        ((m & (1u16 << k)) != 0u16) == bit(m, k),
{
    assert(((m & (1u16 << k)) != 0u16) == ((m >> k) & 1u16 == 1u16)) by (bit_vector)
        requires
            k < 16,
    ;
}

proof fn lemma_or_shift(m: u16, k: u16, j: u16)
    requires
        k < 16,
        j < 16,
    ensures
        bit(m | (1u16 << k), j) == (bit(m, j) || j == k),
{
    assert((((m | (1u16 << k)) >> j) & 1u16 == 1u16) == (((m >> j) & 1u16 == 1u16) || j == k))
        by (bit_vector)
        requires
            k < 16,
            j < 16,
    ;
}

proof fn lemma_or_bound(m: u16, k: u16)
    requires
        k < 8,
        m < (1u16 << k),
    ensures
        (m | (1u16 << k)) < (1u16 << (k + 1) as u16),
        m < (1u16 << (k + 1) as u16),
{
    assert((m | (1u16 << k)) < (1u16 << (k + 1) as u16) && m < (1u16 << (k + 1) as u16))
        by (bit_vector)
        requires
            k < 8,
            m < (1u16 << k),
    ;
}


proof fn lemma_bits_equal(a: u16, b: u16)
    requires
        a < 256,
        b < 256,
        forall|j: u16| j < 8 ==> bit(a, j) == bit(b, j),
    ensures
        a == b,
{
    assert(bit(a, 0) == bit(b, 0));
    assert(bit(a, 1) == bit(b, 1));
    assert(bit(a, 2) == bit(b, 2));
    assert(bit(a, 3) == bit(b, 3));
    assert(bit(a, 4) == bit(b, 4));
    assert(bit(a, 5) == bit(b, 5));
    assert(bit(a, 6) == bit(b, 6));
    assert(bit(a, 7) == bit(b, 7));
    assert(a == b) by (bit_vector)
        requires
            a < 256,
            b < 256,
            ((a >> 0u16) & 1u16 == 1u16) == ((b >> 0u16) & 1u16 == 1u16),
            ((a >> 1u16) & 1u16 == 1u16) == ((b >> 1u16) & 1u16 == 1u16),
            ((a >> 2u16) & 1u16 == 1u16) == ((b >> 2u16) & 1u16 == 1u16),
            ((a >> 3u16) & 1u16 == 1u16) == ((b >> 3u16) & 1u16 == 1u16),
            ((a >> 4u16) & 1u16 == 1u16) == ((b >> 4u16) & 1u16 == 1u16),
            ((a >> 5u16) & 1u16 == 1u16) == ((b >> 5u16) & 1u16 == 1u16),
            ((a >> 6u16) & 1u16 == 1u16) == ((b >> 6u16) & 1u16 == 1u16),
            ((a >> 7u16) & 1u16 == 1u16) == ((b >> 7u16) & 1u16 == 1u16),
    ;
}

proof fn lemma_mask_ops(l: u16, r: u16, j: u16)
    requires
        j < 16,
    ensures
        bit(l | r, j) == (bit(l, j) || bit(r, j)),
        bit(l & r, j) == (bit(l, j) && bit(r, j)),
        l | r < 256 <== l < 256 && r < 256,
        l & r < 256 <== l < 256,
{
    assert((((l | r) >> j) & 1u16 == 1u16) == (((l >> j) & 1u16 == 1u16) || ((r >> j) & 1u16
        == 1u16))) by (bit_vector)
        requires
            j < 16,
    ;
    assert((((l & r) >> j) & 1u16 == 1u16) == (((l >> j) & 1u16 == 1u16) && ((r >> j) & 1u16
        == 1u16))) by (bit_vector)
        requires
            j < 16,
    ;
    assert(l < 256 && r < 256 ==> l | r < 256) by (bit_vector);
    assert(l < 256 ==> l & r < 256) by (bit_vector);
}

proof fn lemma_leq_bits(l: u16, r: u16)
    requires
        l < 256,
        r < 256,
    ensures
        ((l & !r) == 0u16) == (forall|j: u16| j < 8 ==> (bit(l, j) ==> bit(r, j))),
{
    let b0 = bit(l, 0) ==> bit(r, 0);
    let b1 = bit(l, 1) ==> bit(r, 1);
    let b2 = bit(l, 2) ==> bit(r, 2);
    let b3 = bit(l, 3) ==> bit(r, 3);
    let b4 = bit(l, 4) ==> bit(r, 4);
    let b5 = bit(l, 5) ==> bit(r, 5);
    let b6 = bit(l, 6) ==> bit(r, 6);
    let b7 = bit(l, 7) ==> bit(r, 7);
    assert(((l & !r) == 0u16) == (b0 && b1 && b2 && b3 && b4 && b5 && b6 && b7)) by (bit_vector)
        requires
            l < 256,
            r < 256,
            b0 == (((l >> 0u16) & 1u16 == 1u16) ==> ((r >> 0u16) & 1u16 == 1u16)),
            b1 == (((l >> 1u16) & 1u16 == 1u16) ==> ((r >> 1u16) & 1u16 == 1u16)),
            b2 == (((l >> 2u16) & 1u16 == 1u16) ==> ((r >> 2u16) & 1u16 == 1u16)),
            b3 == (((l >> 3u16) & 1u16 == 1u16) ==> ((r >> 3u16) & 1u16 == 1u16)),
            b4 == (((l >> 4u16) & 1u16 == 1u16) ==> ((r >> 4u16) & 1u16 == 1u16)),
            b5 == (((l >> 5u16) & 1u16 == 1u16) ==> ((r >> 5u16) & 1u16 == 1u16)),
            b6 == (((l >> 6u16) & 1u16 == 1u16) ==> ((r >> 6u16) & 1u16 == 1u16)),
            b7 == (((l >> 7u16) & 1u16 == 1u16) ==> ((r >> 7u16) & 1u16 == 1u16)),
    ;
    if (l & !r) == 0u16 {
        assert forall|j: u16| j < 8 implies (bit(l, j) ==> bit(r, j)) by {
            if j == 0 {} else if j == 1 {} else if j == 2 {} else if j == 3 {} else if j == 4 {}
            else if j == 5 {} else if j == 6 {} else {}
        }
    } else {
        assert(!(b0 && b1 && b2 && b3 && b4 && b5 && b6 && b7));
    }
}

/// The authorities of the set bits of `mask`.
fn capability_for_mask(mask: u16) -> (r: CapabilitySet)
    requires
        mask < 256,
    ensures
        r@ == mask_set(mask),
        r@.len() == low_bits(mask, 8),
{
    let authorities = Authority::all();
    let mut selected: Vec<Authority> = Vec::new();
    for index in 0..8u16
        invariant
            authorities@ == all_authorities(),
            mask < 256,
            selected@.no_duplicates(),
            selected@.len() == low_bits(mask, index as nat),
            forall|a: Authority|
                #[trigger] selected@.contains(a) <==> rank(a) < index && bit(mask, rank(a) as u16),
    {
        let ghost before = selected@;
        proof {
            lemma_and_shift(mask, index);
        }
        if mask & (1u16 << index) != 0 {
            let a = authorities[index as usize];
            proof {
                lemma_all_authorities(a);
                assert(rank(a) == index as nat) by {
                    assert(all_authorities()[index as int] == a);
                    if rank(a) != index as nat {
                        assert(all_authorities()[rank(a) as int] == a);
                    }
                }
            }
            selected.push(a);
            proof {
                assert forall|x: Authority| #[trigger] selected@.contains(x) <==> rank(x) < index + 1
                    && bit(mask, rank(x) as u16) by {
                    if selected@.contains(x) && x != a {
                        let j = choose|j: int| 0 <= j < selected@.len() && selected@[j] == x;
                        assert(before[j] == x);
                        assert(before.contains(x));
                    }
                    if rank(x) < index && bit(mask, rank(x) as u16) {
                        assert(before.contains(x));
                        let j = choose|j: int| 0 <= j < before.len() && before[j] == x;
                        assert(selected@[j] == x);
                    }
                    if rank(x) == index as nat {
                        lemma_all_authorities(x);
                        assert(x == a);
                        assert(selected@[before.len() as int] == x);
                    }
                }
                assert(!before.contains(a));
            }
        } else {
            proof {
                assert forall|x: Authority| #[trigger] selected@.contains(x) <==> rank(x) < index + 1
                    && bit(mask, rank(x) as u16) by {
                    if rank(x) == index as nat {
                        assert(!bit(mask, index));
                    }
                }
            }
        }
    }
    let r = CapabilitySet::from_slice(selected.as_slice());
    proof {
        assert(r@ =~= mask_set(mask)) by {
            assert forall|a: Authority| r@.contains(a) <==> mask_set(mask).contains(a) by {
                assert(selected@.to_set().contains(a) == selected@.contains(a));
                assert(rank(a) < 8);
            }
        }
        selected@.unique_seq_to_set();
    }
    r
}

/// The mask whose set bits are the ranks of the members of `set`.
fn mask_for_capability(set: &CapabilitySet) -> (r: u16)
    ensures
        r < 256,
        forall|j: u16| j < 8 ==> bit(r, j) == set@.contains(all_authorities()[j as int]),
{
    let authorities = Authority::all();
    let mut mask: u16 = 0;
    proof {
        assert(0u16 < (1u16 << 0u16)) by (bit_vector);
        assert forall|j: u16| j < 16 implies !bit(0u16, j) by {
            assert(!((0u16 >> j) & 1u16 == 1u16)) by (bit_vector)
                requires
                    j < 16,
            ;
        }
    }
    for k in 0..8u16
        invariant
            authorities@ == all_authorities(),
            mask < (1u16 << k),
            forall|j: u16| j < k ==> bit(mask, j) == set@.contains(all_authorities()[j as int]),
            forall|j: u16| k <= j < 16 ==> !bit(mask, j),
    {
        proof {
            lemma_or_bound(mask, k);
        }
        if set.contains(authorities[k as usize]) {
            let ghost before = mask;
            mask = mask | (1u16 << k);
            proof {
                assert forall|j: u16| j < 16 implies bit(mask, j) == (bit(before, j) || j == k) by {
                    lemma_or_shift(before, k, j);
                }
            }
        }
    }
    proof {
        assert((1u16 << 8u16) == 256u16) by (bit_vector);
    }
    mask
}

/// The bits of `low` set below position 8.
fn low_bit_count(m: u16) -> (r: u64)
    ensures
        r == low_bits(m, 8),
{
    let mut count: u64 = 0;
    for k in 0..8u16
        invariant
            count == low_bits(m, k as nat),
            count <= k,
    {
        proof {
            lemma_and_shift(m, k);
        }
        if m & (1u16 << k) != 0 {
            count = count + 1;
        }
    }
    count
}

proof fn lemma_mask_set_mask(m: u16, r: u16)
    requires
        m < 256,
        r < 256,
        forall|j: u16| j < 8 ==> bit(r, j) == mask_set(m).contains(all_authorities()[j as int]),
    ensures
        r == m,
{
    assert forall|j: u16| j < 8 implies bit(r, j) == bit(m, j) by {
        let a = all_authorities()[j as int];
        lemma_all_authorities(a);
        assert(rank(a) == j as nat) by {
            if rank(a) != j as nat {
                assert(all_authorities()[rank(a) as int] == a);
            }
        }
    }
    lemma_bits_equal(r, m);
}

pub open spec fn powerset_outcome_ok(o: PropertyOutcome) -> bool {
    &&& o.property_id@ == "phase0.authority_powerset"@
    &&& o.passed
    &&& o.evidence_digest@ == sha256_hex(
        outcome_material("phase0.authority_powerset"@, true, counters(seq![256u64, 65536u64, 0u64])),
    )
}

/// Checks every element and every ordered pair of the authority powerset
/// against bit masks: membership, size, order, join and meet all agree.
pub fn check_authority_powerset() -> (r: Result<PropertyOutcome, Error>)
    ensures
        r matches Ok(o) && powerset_outcome_ok(o),
{
    let mut mismatches: u64 = 0;
    let mut checked: u64 = 0;
    for left_mask in 0..256u16
        invariant
            mismatches == 0,
            checked == left_mask * 256,
    {
        let left = capability_for_mask(left_mask);
        let lm = mask_for_capability(&left);
        proof {
            lemma_mask_set_mask(left_mask, lm);
        }
        if lm != left_mask || left.len() as u64 != low_bit_count(left_mask) {
            mismatches = mismatches + 1;
        }
        for right_mask in 0..256u16
            invariant
                mismatches == 0,
                left_mask < 256,
                left@ == mask_set(left_mask),
                checked == left_mask * 256 + right_mask,
        {
            checked = checked + 1;
            let right = capability_for_mask(right_mask);
            let expected_leq = (left_mask & !right_mask) == 0;
            let joined = mask_for_capability(&left.join(&right));
            let met = mask_for_capability(&left.meet(&right));
            proof {
                lemma_leq_bits(left_mask, right_mask);
                assert(left@.subset_of(right@) == expected_leq) by {
                    if expected_leq {
                        assert forall|a: Authority| left@.contains(a) implies right@.contains(a) by {
                            assert(rank(a) < 8);
                        }
                    } else {
                        let j = choose|j: u16| j < 8 && !(bit(left_mask, j) ==> bit(right_mask, j));
                        let a = all_authorities()[j as int];
                        lemma_all_authorities(a);
                        assert(rank(a) == j as nat) by {
                            if rank(a) != j as nat {
                                assert(all_authorities()[rank(a) as int] == a);
                            }
                        }
                        assert(left@.contains(a) && !right@.contains(a));
                    }
                }
                lemma_mask_ops(left_mask, right_mask, 0);
                assert(mask_set(left_mask).union(mask_set(right_mask)) =~= mask_set(
                    left_mask | right_mask,
                )) by {
                    assert forall|a: Authority| #[trigger] mask_set(left_mask | right_mask).contains(a)
                        == (mask_set(left_mask).contains(a) || mask_set(right_mask).contains(a)) by {
                        lemma_mask_ops(left_mask, right_mask, rank(a) as u16);
                    }
                }
                assert(mask_set(left_mask).intersect(mask_set(right_mask)) =~= mask_set(
                    left_mask & right_mask,
                )) by {
                    assert forall|a: Authority| #[trigger] mask_set(left_mask & right_mask).contains(a)
                        == (mask_set(left_mask).contains(a) && mask_set(right_mask).contains(a)) by {
                        lemma_mask_ops(left_mask, right_mask, rank(a) as u16);
                    }
                }
                lemma_mask_set_mask(left_mask | right_mask, joined);
                lemma_mask_set_mask(left_mask & right_mask, met);
            }
            if left.leq(&right) != expected_leq || right.covers(&left) != expected_leq || joined
                != (left_mask | right_mask) || met != (left_mask & right_mask) {
                mismatches = mismatches + 1;
            }
        }
    }
    let evidence = counters_bytes(&[256u64, checked, mismatches]);
    let outcome = PropertyOutcome::new("phase0.authority_powerset", mismatches == 0, &evidence);
    proof {
        assert(seq![256u64, checked, mismatches] =~= seq![256u64, 65536u64, 0u64]);
    }
    Ok(outcome)
}


fn hex_text(c: char) -> (r: String)
    requires
        c == 'a' || c == 'b',
    ensures
        is_digest(r@),
{
    if c == 'a' {
        let r = "aaaaaaaaaaaaaaaaaaaaaaaaaaaaaaaaaaaaaaaaaaaaaaaaaaaaaaaaaaaaaaaa".to_owned();
        proof {
            reveal_strlit("aaaaaaaaaaaaaaaaaaaaaaaaaaaaaaaaaaaaaaaaaaaaaaaaaaaaaaaaaaaaaaaa");
            assert forall|i: int| 0 <= i < r@.len() implies crate::text::is_lower_hex_char(#[trigger] r@[i]) by {
                assert(r@[i] == 'a');
            }
        }
        r
    } else {
        let r = "bbbbbbbbbbbbbbbbbbbbbbbbbbbbbbbbbbbbbbbbbbbbbbbbbbbbbbbbbbbbbbbb".to_owned();
        proof {
            reveal_strlit("bbbbbbbbbbbbbbbbbbbbbbbbbbbbbbbbbbbbbbbbbbbbbbbbbbbbbbbbbbbbbbbb");
            assert forall|i: int| 0 <= i < r@.len() implies crate::text::is_lower_hex_char(#[trigger] r@[i]) by {
                assert(r@[i] == 'b');
            }
        }
        r
    }
}

fn valid_claim() -> (r: Claim)
    ensures
        r.spec_valid(),
        r.valid_until == 1000,
        forall|now: u64| now < 1000 ==> #[trigger] r.spec_qualifies(now),
{
    let r = Claim {
        guarantees: vec!["PolicyCompliance".to_owned()],
        assumptions: Vec::new(),
        excludes: vec!["alignment".to_owned()],
        maturity: 1,
        trust_roots: vec!["local".to_owned()],
        valid_until: 1000,
        provenance_digest: hex_text('a'),
    };
    proof {
        reveal_strlit("PolicyCompliance");
        reveal_strlit("alignment");
        reveal_strlit("local");
        assert(texts_of(r.guarantees@) =~= seq!["PolicyCompliance"@]);
        assert(texts_of(r.excludes@) =~= seq!["alignment"@]);
        assert(texts_of(r.guarantees@)[0] == "PolicyCompliance"@);
        assert(texts_of(r.excludes@).contains("PolicyCompliance"@) ==> "alignment"@ == "PolicyCompliance"@);
    }
    r
}

fn cost_map() -> (r: TextMap<u64>)
    ensures
        entries_map(r@) == map!["cpu_ms"@ => 1u64, "bytes"@ => 1u64, "spend"@ => 0u64],
        entry_keys(r@).no_duplicates(),
{
    let mut r = TextMap::new();
    r.insert("cpu_ms".to_owned(), 1u64);
    r.insert("bytes".to_owned(), 1u64);
    r.insert("spend".to_owned(), 0u64);
    proof {
        assert(entries_map(r@) =~= map!["cpu_ms"@ => 1u64, "bytes"@ => 1u64, "spend"@ => 0u64]);
    }
    let _ = r.keys_sorted();
    r
}

fn write_payload() -> (r: TextMap<JsonValue>)
    ensures
        entries_map(r@).map_values(|v: JsonValue| v@) == map![
            "key"@ => JsonModel::Text("sandbox:key"@),
            "value"@ => JsonModel::Int(1),
        ],
{
    let mut r = TextMap::new();
    r.insert("key".to_owned(), JsonValue::Text("sandbox:key".to_owned()));
    r.insert("value".to_owned(), JsonValue::PosInt(1));
    proof {
        assert(entries_map(r@).map_values(|v: JsonValue| v@) =~= map![
            "key"@ => JsonModel::Text("sandbox:key"@),
            "value"@ => JsonModel::Int(1),
        ]);
    }
    r
}

/// The write proposal the kernel checks submit.
fn valid_proposal(candidate_id: &str) -> (r: Proposal)
    requires
        candidate_id@.len() != 0,
    ensures
        r.spec_shape_valid(10),
        r.candidate_id@ == candidate_id@,
        r.action == Action::Write,
        r.scope@ == "sandbox"@,
        entries_map(r.resource_cost@) == map!["cpu_ms"@ => 1u64, "bytes"@ => 1u64, "spend"@ => 0u64],
        entry_keys(r.resource_cost@).no_duplicates(),
        r.claims@.len() == 1,
        r.claims@[0].valid_until == 1000,
        forall|now: u64| now < 1000 ==> #[trigger] r.claims@[0].spec_qualifies(now),
        r.expires_at == 50,
        !r.requests_direct_authority,
{
    let claim = valid_claim();
    let r = Proposal {
        candidate_id: candidate_id.to_owned(),
        agent_id: "property-agent".to_owned(),
        intent: "write-local-value".to_owned(),
        action: Action::Write,
        scope: "sandbox".to_owned(),
        payload: write_payload(),
        resource_cost: cost_map(),
        source_digest: hex_text('b'),
        claims: vec![claim],
        nonce: 1,
        expires_at: 50,
        requests_direct_authority: false,
    };
    proof {
        reveal_strlit("property-agent");
        reveal_strlit("write-local-value");
        reveal_strlit("sandbox");
        assert(r.claims@[0] == claim);
    }
    r
}


/// The default policy admits the property proposal at 10, with a capability
/// that expires at 40.
proof fn lemma_property_proposal_accepted(policy: Policy, p: Proposal)
    requires
        policy.allowed_actions@ == seq![Action::Read, Action::Write],
        policy.allowed_scopes@.to_set() == set!["public"@, "sandbox"@],
        entries_map(policy.max_cost@) == map![
            "cpu_ms"@ => 1000u64,
            "bytes"@ => 1000000u64,
            "spend"@ => 0u64,
        ],
        policy.token_ttl == 30,
        p.action == Action::Write,
        p.scope@ == "sandbox"@,
        entries_map(p.resource_cost@) == map!["cpu_ms"@ => 1u64, "bytes"@ => 1u64, "spend"@ => 0u64],
        entry_keys(p.resource_cost@).no_duplicates(),
        p.claims@.len() == 1,
        p.claims@[0].valid_until == 1000,
        p.claims@[0].spec_qualifies(10),
        p.expires_at == 50,
        !p.requests_direct_authority,
    ensures
        admission_kind(policy, p, 10) == DecisionKind::Accepted,
        capability_expiry(policy, p, 10) == 40,
{
    assert(policy.allowed_actions@[1] == Action::Write);
    assert(policy.allowed_scopes@.to_set().contains("sandbox"@));
    assert(p.allowed_by(policy));
    let cost = p.resource_cost@;
    assert forall|i: int| 0 <= i < cost.len() implies entries_map(policy.max_cost@).contains_key(
        #[trigger] cost[i].0,
    ) && cost[i].1 <= entries_map(policy.max_cost@)[cost[i].0] by {
        let k = cost[i].0;
        assert(entry_keys(cost)[i] == k);
        assert(entry_keys(cost).index_of(k) == i);
        assert(entries_map(cost).contains_key(k));
        assert(entries_map(cost)[k] == cost[i].1);
    }
    assert(costs_within(policy, cost));
    assert(some_claim_qualifies(p.claims@, 10));
    assert(qualifying_expiry(p.claims@, 10, 0) is None);
    assert(qualifying_expiry(p.claims@, 10, 1) == Some(1000u64));
}

/// The bytes `["Rejected",false,0,0]`.
pub open spec fn rejection_evidence() -> Seq<u8> {
    lit("[") + json_text("Rejected"@) + lit(",") + json_bool(false) + lit(",") + json_nat(0) + lit(",")
        + json_nat(0) + lit("]")
}

/// The bytes `[true,0,0]`.
pub open spec fn expiry_evidence() -> Seq<u8> {
    lit("[") + json_bool(true) + lit(",") + json_nat(0) + lit(",") + json_nat(0) + lit("]")
}

/// The bytes `[true,true,0,1]`.
pub open spec fn kill_evidence() -> Seq<u8> {
    lit("[") + json_bool(true) + lit(",") + json_bool(true) + lit(",") + json_nat(0) + lit(",")
        + json_nat(1) + lit("]")
}

pub open spec fn rejection_outcome_ok(o: PropertyOutcome) -> bool {
    &&& o.property_id@ == "kernel.rejection_cannot_mutate_runtime"@
    &&& o.passed
    &&& o.evidence_digest@ == sha256_hex(
        outcome_material("kernel.rejection_cannot_mutate_runtime"@, true, rejection_evidence()),
    )
}

pub open spec fn expiry_outcome_ok(o: PropertyOutcome) -> bool {
    &&& o.property_id@ == "kernel.expired_capability_cannot_execute"@
    &&& o.passed
    &&& o.evidence_digest@ == sha256_hex(
        outcome_material("kernel.expired_capability_cannot_execute"@, true, expiry_evidence()),
    )
}

pub open spec fn kill_outcome_ok(o: PropertyOutcome) -> bool {
    &&& o.property_id@ == "kernel.kill_closes_execution"@
    &&& o.passed
    &&& o.evidence_digest@ == sha256_hex(
        outcome_material("kernel.kill_closes_execution"@, true, kill_evidence()),
    )
}

/// A proposal asking for direct authority is rejected, and executing the
/// rejection changes no runtime state and no audit record.
pub fn check_rejection_cannot_mutate_state() -> (r: Result<PropertyOutcome, Error>)
    ensures
        r matches Ok(o) && rejection_outcome_ok(o),
{
    proof {
        reveal_strlit("property-rejection");
    }
    let mut proposal = valid_proposal("property-rejection");
    proposal.requests_direct_authority = true;
    let mut kernel = Kernel::new(Policy::default())?;
    let mut runtime = Runtime::default();
    let before_state = runtime.state_digest();
    let before_audit = runtime.audit_digest();
    let decision = kernel.admit_proposal(&proposal, 10)?;
    let executed = runtime.execute(&mut kernel, &proposal, &decision, 10)?;
    let passed = decision.kind == DecisionKind::Rejected && !executed && text_eq(
        runtime.state_digest().as_str(),
        before_state.as_str(),
    ) && text_eq(runtime.audit_digest().as_str(), before_audit.as_str());
    let mut evidence: Vec<u8> = Vec::new();
    push_lit(&mut evidence, "[");
    push_text(&mut evidence, decision.kind.name());
    push_lit(&mut evidence, ",");
    push_bool(&mut evidence, executed);
    push_lit(&mut evidence, ",");
    push_nat(&mut evidence, runtime.state_len() as u64);
    push_lit(&mut evidence, ",");
    push_nat(&mut evidence, runtime.audit_len() as u64);
    push_lit(&mut evidence, "]");
    proof {
        reveal_strlit("Rejected");
        assert(evidence@ =~= rejection_evidence());
    }
    Ok(PropertyOutcome::new("kernel.rejection_cannot_mutate_runtime", passed, &evidence))
}

/// A capability presented at its expiry is refused before anything changes.
pub fn check_expired_capability_cannot_execute() -> (r: Result<PropertyOutcome, Error>)
    ensures
        r matches Ok(o) && expiry_outcome_ok(o),
{
    proof {
        reveal_strlit("property-expiry");
    }
    let proposal = valid_proposal("property-expiry");
    let policy = Policy::default();
    proof {
        lemma_property_proposal_accepted(policy, proposal);
    }
    let mut kernel = Kernel::new(policy)?;
    let mut runtime = Runtime::default();
    let decision = kernel.admit_proposal(&proposal, 10)?;
    let before_state = runtime.state_digest();
    let before_audit = runtime.audit_digest();
    let attempted = runtime.execute(&mut kernel, &proposal, &decision, 40);
    let passed = attempted.is_err() && text_eq(runtime.state_digest().as_str(), before_state.as_str())
        && text_eq(runtime.audit_digest().as_str(), before_audit.as_str());
    let mut evidence: Vec<u8> = Vec::new();
    push_lit(&mut evidence, "[");
    push_bool(&mut evidence, attempted.is_err());
    push_lit(&mut evidence, ",");
    push_nat(&mut evidence, runtime.state_len() as u64);
    push_lit(&mut evidence, ",");
    push_nat(&mut evidence, runtime.audit_len() as u64);
    push_lit(&mut evidence, "]");
    proof {
        assert(evidence@ =~= expiry_evidence());
    }
    Ok(PropertyOutcome::new("kernel.expired_capability_cannot_execute", passed, &evidence))
}

/// Killing the runtime closes execution before any capability is consumed.
pub fn check_kill_closes_execution() -> (r: Result<PropertyOutcome, Error>)
    ensures
        r matches Ok(o) && kill_outcome_ok(o),
{
    proof {
        reveal_strlit("property-kill");
    }
    let proposal = valid_proposal("property-kill");
    let mut kernel = Kernel::new(Policy::default())?;
    let mut runtime = Runtime::default();
    let decision = kernel.admit_proposal(&proposal, 10)?;
    let before_state = runtime.state_digest();
    let before_journal = kernel.journal_digest();
    runtime.kill("property-kill");
    let attempted = runtime.execute(&mut kernel, &proposal, &decision, 10);
    let passed = runtime.is_killed() && attempted.is_err() && text_eq(
        runtime.state_digest().as_str(),
        before_state.as_str(),
    ) && text_eq(kernel.journal_digest().as_str(), before_journal.as_str());
    let mut evidence: Vec<u8> = Vec::new();
    push_lit(&mut evidence, "[");
    push_bool(&mut evidence, runtime.is_killed());
    push_lit(&mut evidence, ",");
    push_bool(&mut evidence, attempted.is_err());
    push_lit(&mut evidence, ",");
    push_nat(&mut evidence, runtime.state_len() as u64);
    push_lit(&mut evidence, ",");
    push_nat(&mut evidence, kernel.journal_len() as u64);
    push_lit(&mut evidence, "]");
    proof {
        assert(evidence@ =~= kill_evidence());
    }
    Ok(PropertyOutcome::new("kernel.kill_closes_execution", passed, &evidence))
}


/// The canonical encoding of an outcome.
pub open spec fn outcome_bytes(o: PropertyOutcome) -> Seq<u8> {
    lit("{\"property_id\":") + json_text(o.property_id@) + lit(",\"passed\":") + json_bool(o.passed)
        + lit(",\"evidence_digest\":") + json_text(o.evidence_digest@) + lit("}")
}

pub open spec fn outcomes_bytes(os: Seq<PropertyOutcome>) -> Seq<u8> {
    json_list(os.map_values(|o: PropertyOutcome| outcome_bytes(o)))
}

/// `["slice",[outcomes],passed,failed]`, the material of a report digest.
pub open spec fn report_material(slice: Seq<char>, os: Seq<PropertyOutcome>, passed: u32, failed: u32) -> Seq<u8> {
    lit("[") + json_text(slice) + lit(",") + outcomes_bytes(os) + lit(",") + json_nat(passed as nat)
        + lit(",") + json_nat(failed as nat) + lit("]")
}

/// The number of passed outcomes among the first `n`.
pub open spec fn passed_count(os: Seq<PropertyOutcome>, n: int) -> nat
    decreases n,
{
    if n <= 0 {
        0
    } else {
        passed_count(os, n - 1) + if os[n - 1].passed {
            1nat
        } else {
            0nat
        }
    }
}

proof fn lemma_passed_count_bound(os: Seq<PropertyOutcome>, n: int)
    requires
        0 <= n,
    ensures
        passed_count(os, n) <= n,
    decreases n,
{
    if n > 0 {
        lemma_passed_count_bound(os, n - 1);
    }
}

/// Property ids are non-empty and pairwise distinct.
pub open spec fn ids_ok(os: Seq<PropertyOutcome>) -> bool {
    &&& forall|i: int| 0 <= i < os.len() ==> (#[trigger] os[i]).property_id@.len() != 0
    &&& forall|i: int, j: int|
        0 <= i < j < os.len() ==> (#[trigger] os[i]).property_id@ != (#[trigger] os[j]).property_id@
}

fn push_outcome(out: &mut Vec<u8>, o: &PropertyOutcome)
    ensures
        final(out)@ == old(out)@ + outcome_bytes(*o),
{
    let ghost start = out@;
    push_lit(out, "{\"property_id\":");
    push_text(out, o.property_id.as_str());
    push_lit(out, ",\"passed\":");
    push_bool(out, o.passed);
    push_lit(out, ",\"evidence_digest\":");
    push_text(out, o.evidence_digest.as_str());
    push_lit(out, "}");
    assert(out@ =~= start + outcome_bytes(*o));
}

fn report_digest_of(slice: &str, os: &Vec<PropertyOutcome>, passed: u32, failed: u32) -> (r: String)
    ensures
        r@ == sha256_hex(report_material(slice@, os@, passed, failed)),
        is_digest(r@),
{
    let ghost items = os@.map_values(|o: PropertyOutcome| outcome_bytes(o));
    let mut out: Vec<u8> = Vec::new();
    push_lit(&mut out, "[");
    push_text(&mut out, slice);
    push_lit(&mut out, ",");
    let ghost head = out@;
    out.push(0x5b);
    let ghost start = out@;
    let n = os.len();
    for i in 0..n
        invariant
            n == os@.len(),
            items == os@.map_values(|o: PropertyOutcome| outcome_bytes(o)),
            out@ == start + crate::canon::join(items.subrange(0, i as int)),
    {
        if i > 0 {
            out.push(0x2c);
        }
        push_outcome(&mut out, &os[i]);
        proof {
            let pre = items.subrange(0, i as int);
            assert(items.subrange(0, i + 1) =~= pre.push(items[i as int]));
            assert(pre.push(items[i as int]).drop_last() =~= pre);
        }
    }
    out.push(0x5d);
    proof {
        assert(items.subrange(0, n as int) =~= items);
        assert(out@ =~= head + outcomes_bytes(os@));
    }
    push_lit(&mut out, ",");
    push_nat(&mut out, passed as u64);
    push_lit(&mut out, ",");
    push_nat(&mut out, failed as u64);
    push_lit(&mut out, "]");
    assert(out@ =~= report_material(slice@, os@, passed, failed));
    digest_bytes(out.as_slice())
}

fn count_passed(os: &Vec<PropertyOutcome>) -> (r: u64)
    ensures
        r == passed_count(os@, os@.len() as int),
{
    let mut count: u64 = 0;
    let n = os.len();
    for i in 0..n
        invariant
            n == os@.len(),
            count == passed_count(os@, i as int),
            count <= i,
    {
        proof {
            lemma_passed_count_bound(os@, i as int);
        }
        if os[i].passed {
            count = count + 1;
        }
    }
    count
}

fn check_ids(os: &Vec<PropertyOutcome>) -> (r: bool)
    ensures
        r == ids_ok(os@),
{
    let mut seen = TextSet::new();
    let n = os.len();
    for i in 0..n
        invariant
            n == os@.len(),
            forall|k: int| 0 <= k < i ==> (#[trigger] os@[k]).property_id@.len() != 0,
            forall|a: int, b: int|
                0 <= a < b < i ==> (#[trigger] os@[a]).property_id@ != (#[trigger] os@[b]).property_id@,
            forall|x: Seq<char>| seen@.contains(x) <==> exists|k: int| 0 <= k < i && (#[trigger] os@[k]).property_id@ == x,
    {
        let id = &os[i].property_id;
        if id.as_str().is_empty() {
            return false;
        }
        let ghost before = seen@;
        if !seen.insert(id.clone()) {
            proof {
                let k = choose|k: int| 0 <= k < i && (#[trigger] os@[k]).property_id@ == os@[i as int].property_id@;
                assert(os@[k].property_id@ == os@[i as int].property_id@);
            }
            return false;
        }
        proof {
            assert forall|x: Seq<char>| seen@.contains(x) <==> exists|k: int| 0 <= k < i + 1 && (#[trigger] os@[k]).property_id@ == x by {
                assert(seen@.to_set().contains(x) == seen@.contains(x));
                assert(before.to_set().contains(x) == before.contains(x));
            }
            assert forall|a: int, b: int|
                0 <= a < b < i + 1 implies (#[trigger] os@[a]).property_id@ != (#[trigger] os@[b]).property_id@ by {
                if b == i {
                    assert(before.contains(os@[a].property_id@) ==> true);
                }
            }
        }
    }
    true
}

/// A digest-only report over one complete run of the checks.
#[derive(Clone, Debug, PartialEq, Eq)]
pub struct CheckReport {
    pub state_slice: String,
    pub outcomes: Vec<PropertyOutcome>,
    pub passed: u32,
    pub failed: u32,
    pub report_digest: String,
}

impl CheckReport {
    /// The counters match the outcomes, the ids are distinct, and the digest
    /// commits to all of it.
    pub open spec fn spec_valid(&self) -> bool {
        &&& self.state_slice@ == STATE_SLICE@
        &&& ids_ok(self.outcomes@)
        &&& self.outcomes@.len() <= u32::MAX
        &&& self.passed == passed_count(self.outcomes@, self.outcomes@.len() as int)
        &&& self.failed == self.outcomes@.len() - self.passed
        &&& self.report_digest@ == sha256_hex(
            report_material(self.state_slice@, self.outcomes@, self.passed, self.failed),
        )
    }

    fn from_outcomes(outcomes: Vec<PropertyOutcome>) -> (r: Result<CheckReport, Error>)
        requires
            outcomes@.len() <= u32::MAX,
        ensures
            r is Ok <==> ids_ok(outcomes@),
            r matches Err(e) ==> e is Invalid,
            r matches Ok(rep) ==> rep.spec_valid() && rep.outcomes@ == outcomes@,
    {
        if !check_ids(&outcomes) {
            return Err(invalid("property identifiers must be non-empty and unique"));
        }
        let passed = count_passed(&outcomes) as u32;
        proof {
            lemma_passed_count_bound(outcomes@, outcomes@.len() as int);
        }
        let failed = outcomes.len() as u32 - passed;
        let state_slice = STATE_SLICE.to_owned();
        let report_digest = report_digest_of(state_slice.as_str(), &outcomes, passed, failed);
        Ok(CheckReport { state_slice, outcomes, passed, failed, report_digest })
    }

    /// Recomputes the counters and the digest.
    pub fn validate(&self) -> (r: Result<(), Error>)
        ensures
            r is Ok <==> self.spec_valid(),
            r matches Err(e) ==> e is Invalid,
    {
        if !text_eq(self.state_slice.as_str(), STATE_SLICE) || !check_ids(&self.outcomes)
            || self.outcomes.len() > u32::MAX as usize {
            return Err(invalid("invalid property report"));
        }
        let passed = count_passed(&self.outcomes) as u32;
        proof {
            lemma_passed_count_bound(self.outcomes@, self.outcomes@.len() as int);
        }
        let failed = self.outcomes.len() as u32 - passed;
        if self.passed != passed || self.failed != failed {
            return Err(invalid("property counters do not match"));
        }
        let expected = report_digest_of(self.state_slice.as_str(), &self.outcomes, self.passed, self.failed);
        if !text_eq(self.report_digest.as_str(), expected.as_str()) {
            return Err(invalid("property report digest mismatch"));
        }
        Ok(())
    }
}

/// Runs every check in a fixed order; all six pass.
pub fn run_all() -> (r: Result<CheckReport, Error>)
    ensures
        r matches Ok(rep) && rep.spec_valid() && rep.passed == 6 && rep.failed == 0
            && rep.outcomes@.len() == 6 && lifecycle_outcome_ok(rep.outcomes@[0])
            && powerset_outcome_ok(rep.outcomes@[1]) && nonimplication_outcome_ok(rep.outcomes@[2])
            && rejection_outcome_ok(rep.outcomes@[3]) && expiry_outcome_ok(rep.outcomes@[4])
            && kill_outcome_ok(rep.outcomes@[5]),
{
    let mut outcomes: Vec<PropertyOutcome> = Vec::new();
    outcomes.push(check_lifecycle_transitions()?);
    outcomes.push(check_authority_powerset()?);
    outcomes.push(check_authority_nonimplication()?);
    outcomes.push(check_rejection_cannot_mutate_state()?);
    outcomes.push(check_expired_capability_cannot_execute()?);
    outcomes.push(check_kill_closes_execution()?);
    proof {
        reveal_strlit("phase0.lifecycle_transition_table");
        reveal_strlit("phase0.authority_powerset");
        reveal_strlit("phase0.authority_singleton_nonimplication");
        reveal_strlit("kernel.rejection_cannot_mutate_runtime");
        reveal_strlit("kernel.expired_capability_cannot_execute");
        reveal_strlit("kernel.kill_closes_execution");
        let os = outcomes@;
        assert(ids_ok(os)) by {
            assert forall|i: int, j: int| 0 <= i < j < os.len() implies (#[trigger] os[i]).property_id@
                != (#[trigger] os[j]).property_id@ by {
                assert(os[i].property_id@.len() != os[j].property_id@.len());
            }
        }
        reveal_with_fuel(passed_count, 7);
        assert(passed_count(os, 6) == 6);
    }
    CheckReport::from_outcomes(outcomes)
}

} // verus!
