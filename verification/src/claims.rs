//! Claim envelopes, their meet, and aggregate release packets.
use crate::canon::{json_bool, json_nat, json_text, json_text_list, lit, push_bool, push_lit, push_nat, push_text, push_text_set};
use crate::collections::{lemma_sorted_same_set_equal, sorted_texts, TextSet};
use crate::digest::{digest_bytes, sha256_hex};
use crate::error::{invalid, rejected, Error};
use crate::order::text_eq;
use crate::records::STATE_SLICE;
use crate::text::{is_digest, lemma_digest_is_text, text_ok, valid_digest, valid_text};
use vstd::prelude::*;

verus! {

/// The longest text in a claim, in bytes.
pub const MAX_TEXT_LEN: usize = 256;

/// Every element is a valid text.
pub open spec fn texts_ok(s: Seq<Seq<char>>) -> bool {
    forall|i: int| 0 <= i < s.len() ==> text_ok(#[trigger] s[i], 256)
}

/// Every element is a digest.
pub open spec fn digests_ok(s: Seq<Seq<char>>) -> bool {
    forall|i: int| 0 <= i < s.len() ==> is_digest(#[trigger] s[i])
}

fn valid_text_set(values: &TextSet) -> (r: bool)
    ensures
        r == texts_ok(values@),
{
    let n = values.len();
    for i in 0..n
        invariant
            n == values@.len(),
            forall|k: int| 0 <= k < i ==> text_ok(#[trigger] values@[k], 256),
    {
        if !valid_text(values.get(i).as_str(), MAX_TEXT_LEN) {
            return false;
        }
    }
    true
}

fn valid_digest_set(values: &TextSet) -> (r: bool)
    ensures
        r == digests_ok(values@),
{
    let n = values.len();
    for i in 0..n
        invariant
            n == values@.len(),
            forall|k: int| 0 <= k < i ==> is_digest(#[trigger] values@[k]),
    {
        if !valid_digest(values.get(i).as_str()) {
            return false;
        }
    }
    true
}

proof fn lemma_texts_ok_union(a: Seq<Seq<char>>, b: Seq<Seq<char>>, r: Seq<Seq<char>>)
    requires
        texts_ok(a),
        texts_ok(b),
        r.to_set() <= a.to_set() + b.to_set(),
    ensures
        texts_ok(r),
{
    assert forall|i: int| 0 <= i < r.len() implies text_ok(#[trigger] r[i], 256) by {
        assert(r.to_set().contains(r[i]));
        if a.to_set().contains(r[i]) {
            let j = choose|j: int| 0 <= j < a.len() && a[j] == r[i];
            assert(text_ok(a[j], 256));
        } else {
            let j = choose|j: int| 0 <= j < b.len() && b[j] == r[i];
            assert(text_ok(b[j], 256));
        }
    }
}

proof fn lemma_digests_ok_union(a: Seq<Seq<char>>, b: Seq<Seq<char>>, r: Seq<Seq<char>>)
    requires
        digests_ok(a),
        digests_ok(b),
        r.to_set() <= a.to_set() + b.to_set(),
    ensures
        digests_ok(r),
{
    assert forall|i: int| 0 <= i < r.len() implies is_digest(#[trigger] r[i]) by {
        assert(r.to_set().contains(r[i]));
        if a.to_set().contains(r[i]) {
            let j = choose|j: int| 0 <= j < a.len() && a[j] == r[i];
            assert(is_digest(a[j]));
        } else {
            let j = choose|j: int| 0 <= j < b.len() && b[j] == r[i];
            assert(is_digest(b[j]));
        }
    }
}

/// A bounded claim: what is guaranteed, under which assumptions, what is
/// excluded, and on which evidence, until when.
#[derive(Debug)]
pub struct ClaimEnvelope {
    pub claim_id: String,
    pub state_slice: String,
    pub claim_ceiling: String,
    pub guarantees: TextSet,
    pub assumptions: TextSet,
    pub excludes: TextSet,
    pub evidence_digests: TextSet,
    pub valid_until: u64,
}

/// `["claim-meet-v1","slice","ceiling",[guarantees],[assumptions],[excludes],[evidence],valid_until]`.
pub open spec fn meet_material(
    slice: Seq<char>,
    ceiling: Seq<char>,
    guarantees: Seq<Seq<char>>,
    assumptions: Seq<Seq<char>>,
    excludes: Seq<Seq<char>>,
    evidence: Seq<Seq<char>>,
    valid_until: u64,
) -> Seq<u8> {
    lit("[") + json_text("claim-meet-v1"@) + lit(",") + json_text(slice) + lit(",") + json_text(
        ceiling,
    ) + lit(",") + json_text_list(guarantees) + lit(",") + json_text_list(assumptions) + lit(",")
        + json_text_list(excludes) + lit(",") + json_text_list(evidence) + lit(",") + json_nat(
        valid_until as nat,
    ) + lit("]")
}

/// `m` is the meet of `a` and `b`: the two agree on state slice and
/// ceiling, and `m` keeps only the guarantees both make, every assumption,
/// exclusion and piece of evidence of either, in byte order, and the earlier
/// expiry.
pub open spec fn meets(a: ClaimEnvelope, b: ClaimEnvelope, m: ClaimEnvelope) -> bool {
    &&& a.state_slice@ == b.state_slice@
    &&& a.claim_ceiling@ == b.claim_ceiling@
    &&& sorted_texts(m.guarantees@)
    &&& sorted_texts(m.assumptions@)
    &&& sorted_texts(m.excludes@)
    &&& sorted_texts(m.evidence_digests@)
    &&& m.spec_valid()
    &&& m.state_slice@ == a.state_slice@
    &&& m.claim_ceiling@ == a.claim_ceiling@
    &&& m.guarantees@.to_set() == a.guarantees@.to_set().intersect(
        b.guarantees@.to_set(),
    )
    &&& m.assumptions@.to_set() == a.assumptions@.to_set()
        + b.assumptions@.to_set()
    &&& m.excludes@.to_set() == a.excludes@.to_set() + b.excludes@.to_set()
    &&& m.evidence_digests@.to_set() == a.evidence_digests@.to_set()
        + b.evidence_digests@.to_set()
    &&& m.valid_until == if a.valid_until <= b.valid_until {
        a.valid_until
    } else {
        b.valid_until
    }
    &&& m.claim_id@ == sha256_hex(
        meet_material(
            m.state_slice@,
            m.claim_ceiling@,
            m.guarantees@,
            m.assumptions@,
            m.excludes@,
            m.evidence_digests@,
            m.valid_until,
        ),
    )
}

impl ClaimEnvelope {
    pub open spec fn spec_valid(&self) -> bool {
        &&& text_ok(self.claim_id@, 256)
        &&& self.state_slice@ == STATE_SLICE@
        &&& text_ok(self.claim_ceiling@, 256)
        &&& self.valid_until != 0
        &&& texts_ok(self.guarantees@)
        &&& texts_ok(self.assumptions@)
        &&& texts_ok(self.excludes@)
        &&& !(exists|x: Seq<char>| self.guarantees@.contains(x) && self.excludes@.contains(x))
        &&& digests_ok(self.evidence_digests@)
    }

    pub fn validate(&self) -> (r: Result<(), Error>)
        ensures
            r is Ok <==> self.spec_valid(),
            r matches Err(e) ==> e is Invalid,
    {
        if !valid_text(self.claim_id.as_str(), MAX_TEXT_LEN) || !text_eq(
            self.state_slice.as_str(),
            STATE_SLICE,
        ) || !valid_text(self.claim_ceiling.as_str(), MAX_TEXT_LEN) || self.valid_until == 0
            || !valid_text_set(&self.guarantees) || !valid_text_set(&self.assumptions)
            || !valid_text_set(&self.excludes) || self.guarantees.intersects(&self.excludes)
            || !valid_digest_set(&self.evidence_digests) {
            return Err(invalid("claim envelope is malformed"));
        }
        Ok(())
    }

    pub fn is_valid_at(&self, now: u64) -> (r: bool)
        ensures
            r == (self.spec_valid() && self.valid_until > now),
    {
        self.validate().is_ok() && self.valid_until > now
    }

    /// The meet of two compatible claims: only the guarantees both make,
    /// every assumption, exclusion and piece of evidence of either, and the
    /// earlier expiry.
    pub fn meet(&self, other: &ClaimEnvelope) -> (r: Result<ClaimEnvelope, Error>)
        ensures
            !self.spec_valid() ==> (r matches Err(e) && e is Invalid),
            self.spec_valid() && !other.spec_valid() ==> (r matches Err(e) && e is Invalid),
            r is Ok <==> self.spec_valid() && other.spec_valid() && self.state_slice@
                == other.state_slice@ && self.claim_ceiling@ == other.claim_ceiling@,
            self.spec_valid() && other.spec_valid() && r is Err ==> (r matches Err(e)
                && e is Rejected),
            r matches Ok(m) ==> meets(*self, *other, m),
    {
        self.validate()?;
        other.validate()?;
        if !text_eq(self.state_slice.as_str(), other.state_slice.as_str()) || !text_eq(
            self.claim_ceiling.as_str(),
            other.claim_ceiling.as_str(),
        ) {
            return Err(rejected("claim envelopes have incompatible state or ceiling"));
        }
        let guarantees = self.guarantees.intersection(&other.guarantees);
        let assumptions = self.assumptions.union(&other.assumptions);
        let excludes = self.excludes.union(&other.excludes);
        let evidence_digests = self.evidence_digests.union(&other.evidence_digests);
        let valid_until = if self.valid_until <= other.valid_until {
            self.valid_until
        } else {
            other.valid_until
        };
        let mut out: Vec<u8> = Vec::new();
        push_lit(&mut out, "[");
        push_text(&mut out, "claim-meet-v1");
        push_lit(&mut out, ",");
        push_text(&mut out, self.state_slice.as_str());
        push_lit(&mut out, ",");
        push_text(&mut out, self.claim_ceiling.as_str());
        push_lit(&mut out, ",");
        push_text_set(&mut out, &guarantees);
        push_lit(&mut out, ",");
        push_text_set(&mut out, &assumptions);
        push_lit(&mut out, ",");
        push_text_set(&mut out, &excludes);
        push_lit(&mut out, ",");
        push_text_set(&mut out, &evidence_digests);
        push_lit(&mut out, ",");
        push_nat(&mut out, valid_until);
        push_lit(&mut out, "]");
        assert(out@ =~= meet_material(
            self.state_slice@,
            self.claim_ceiling@,
            guarantees@,
            assumptions@,
            excludes@,
            evidence_digests@,
            valid_until,
        ));
        let claim_id = digest_bytes(out.as_slice());
        let result = ClaimEnvelope {
            claim_id,
            state_slice: self.state_slice.clone(),
            claim_ceiling: self.claim_ceiling.clone(),
            guarantees,
            assumptions,
            excludes,
            evidence_digests,
            valid_until,
        };
        proof {
            lemma_digest_is_text(result.claim_id@);
            lemma_texts_ok_union(self.guarantees@, other.guarantees@, result.guarantees@);
            lemma_texts_ok_union(self.assumptions@, other.assumptions@, result.assumptions@);
            lemma_texts_ok_union(self.excludes@, other.excludes@, result.excludes@);
            lemma_digests_ok_union(
                self.evidence_digests@,
                other.evidence_digests@,
                result.evidence_digests@,
            );
            if exists|x: Seq<char>| result.guarantees@.contains(x) && result.excludes@.contains(x) {
                let x = choose|x: Seq<char>|
                    result.guarantees@.contains(x) && result.excludes@.contains(x);
                assert(result.guarantees@.to_set().contains(x));
                assert(result.excludes@.to_set().contains(x));
                assert(self.guarantees@.to_set().contains(x));
                assert(other.guarantees@.to_set().contains(x));
                if self.excludes@.to_set().contains(x) {
                    assert(self.guarantees@.contains(x) && self.excludes@.contains(x));
                } else {
                    assert(other.guarantees@.contains(x) && other.excludes@.contains(x));
                }
            }
        }
        result.validate()?;
        Ok(result)
    }
}

/// A release packet that carries claim ids and evidence digests, never raw
/// payloads.
#[derive(Debug)]
pub struct AggregateReleasePacket {
    pub packet_id: String,
    pub state_slice: String,
    pub claim_ceiling: String,
    pub claim_ids: TextSet,
    pub evidence_digests: TextSet,
    pub generated_at: u64,
    pub raw_payload_included: bool,
}

/// The claim ids of the envelopes.
pub open spec fn claim_id_set(envelopes: Seq<ClaimEnvelope>) -> Set<Seq<char>> {
    Set::new(|x: Seq<char>| exists|i: int| 0 <= i < envelopes.len() && (#[trigger] envelopes[i]).claim_id@ == x)
}

/// The evidence digests of the envelopes.
pub open spec fn evidence_set(envelopes: Seq<ClaimEnvelope>) -> Set<Seq<char>> {
    Set::new(
        |x: Seq<char>|
            exists|i: int|
                0 <= i < envelopes.len() && (#[trigger] envelopes[i]).evidence_digests@.contains(x),
    )
}

impl AggregateReleasePacket {
    pub open spec fn spec_valid(&self) -> bool {
        &&& text_ok(self.packet_id@, 256)
        &&& self.state_slice@ == STATE_SLICE@
        &&& text_ok(self.claim_ceiling@, 256)
        &&& self.claim_ids@.len() != 0
        &&& texts_ok(self.claim_ids@)
        &&& digests_ok(self.evidence_digests@)
        &&& !self.raw_payload_included
    }

    /// The canonical encoding of the packet.
    pub open spec fn bytes(&self) -> Seq<u8> {
        lit("{\"packet_id\":") + json_text(self.packet_id@) + lit(",\"state_slice\":") + json_text(
            self.state_slice@,
        ) + lit(",\"claim_ceiling\":") + json_text(self.claim_ceiling@) + lit(",\"claim_ids\":")
            + json_text_list(self.claim_ids@) + lit(",\"evidence_digests\":") + json_text_list(
            self.evidence_digests@,
        ) + lit(",\"generated_at\":") + json_nat(self.generated_at as nat) + lit(
            ",\"raw_payload_included\":",
        ) + json_bool(self.raw_payload_included) + lit("}")
    }

    /// Packs compatible, valid envelopes: their ids and evidence, no payload.
    pub fn from_envelopes(packet_id: &str, envelopes: &[ClaimEnvelope], generated_at: u64) -> (r:
        Result<AggregateReleasePacket, Error>)
        ensures
            envelopes@.len() == 0 ==> (r matches Err(e) && e is Invalid),
            r is Ok <==> envelopes@.len() != 0 && (forall|i: int|
                0 <= i < envelopes@.len() ==> (#[trigger] envelopes@[i]).spec_valid()) && (forall|
                i: int,
            |
                0 <= i < envelopes@.len() ==> (#[trigger] envelopes@[i]).state_slice@
                    == envelopes@[0].state_slice@ && envelopes@[i].claim_ceiling@
                    == envelopes@[0].claim_ceiling@) && text_ok(packet_id@, 256),
            r matches Ok(p) ==> {
                &&& p.spec_valid()
                &&& p.packet_id@ == packet_id@
                &&& p.state_slice@ == envelopes@[0].state_slice@
                &&& p.claim_ceiling@ == envelopes@[0].claim_ceiling@
                &&& p.claim_ids@.to_set() == claim_id_set(envelopes@)
                &&& p.evidence_digests@.to_set() == evidence_set(envelopes@)
                &&& p.generated_at == generated_at
                &&& !p.raw_payload_included
            },
    {
        if envelopes.len() == 0 {
            return Err(invalid("release packet needs one claim"));
        }
        let n = envelopes.len();
        for i in 0..n
            invariant
                n == envelopes@.len(),
                forall|k: int| 0 <= k < i ==> (#[trigger] envelopes@[k]).spec_valid(),
        {
            envelopes[i].validate()?;
        }
        let state_slice = envelopes[0].state_slice.clone();
        let claim_ceiling = envelopes[0].claim_ceiling.clone();
        let mut claim_ids = TextSet::new();
        let mut evidence_digests = TextSet::new();
        for i in 0..n
            invariant
                n == envelopes@.len(),
                n > 0,
                state_slice@ == envelopes@[0].state_slice@,
                claim_ceiling@ == envelopes@[0].claim_ceiling@,
                forall|k: int| 0 <= k < n ==> (#[trigger] envelopes@[k]).spec_valid(),
                forall|k: int|
                    0 <= k < i ==> (#[trigger] envelopes@[k]).state_slice@ == state_slice@
                        && envelopes@[k].claim_ceiling@ == claim_ceiling@,
                claim_ids@.to_set() == claim_id_set(envelopes@.subrange(0, i as int)),
                evidence_digests@.to_set() == evidence_set(envelopes@.subrange(0, i as int)),
        {
            let e = &envelopes[i];
            if !text_eq(e.state_slice.as_str(), state_slice.as_str()) || !text_eq(
                e.claim_ceiling.as_str(),
                claim_ceiling.as_str(),
            ) {
                return Err(rejected("release packet claims have incompatible state or ceiling"));
            }
            let _ = claim_ids.insert(e.claim_id.clone());
            evidence_digests = evidence_digests.union(&e.evidence_digests);
            proof {
                let pre = envelopes@.subrange(0, i as int);
                let post = envelopes@.subrange(0, i + 1);
                assert(post =~= pre.push(envelopes@[i as int]));
                assert(claim_id_set(post) =~= claim_id_set(pre).insert(e.claim_id@)) by {
                    assert forall|x: Seq<char>| claim_id_set(post).contains(x) implies claim_id_set(
                        pre,
                    ).insert(e.claim_id@).contains(x) by {
                        let k = choose|k: int| 0 <= k < post.len() && (#[trigger] post[k]).claim_id@ == x;
                        if k < i {
                            assert(pre[k] == post[k]);
                        }
                    }
                    assert forall|x: Seq<char>| claim_id_set(pre).insert(e.claim_id@).contains(
                        x,
                    ) implies claim_id_set(post).contains(x) by {
                        if x == e.claim_id@ {
                            assert(post[i as int] == envelopes@[i as int]);
                        } else {
                            let k = choose|k: int| 0 <= k < pre.len() && (#[trigger] pre[k]).claim_id@ == x;
                            assert(post[k] == pre[k]);
                        }
                    }
                }
                assert(evidence_set(post) =~= evidence_set(pre) + e.evidence_digests@.to_set()) by {
                    assert forall|x: Seq<char>| evidence_set(post).contains(x) implies (evidence_set(
                        pre,
                    ) + e.evidence_digests@.to_set()).contains(x) by {
                        let k = choose|k: int|
                            0 <= k < post.len() && (#[trigger] post[k]).evidence_digests@.contains(x);
                        if k < i {
                            assert(pre[k] == post[k]);
                        }
                    }
                    assert forall|x: Seq<char>| (evidence_set(pre)
                        + e.evidence_digests@.to_set()).contains(x) implies evidence_set(post).contains(
                        x,
                    ) by {
                        if e.evidence_digests@.contains(x) {
                            assert(post[i as int] == envelopes@[i as int]);
                        } else {
                            let k = choose|k: int|
                                0 <= k < pre.len() && (#[trigger] pre[k]).evidence_digests@.contains(x);
                            assert(post[k] == pre[k]);
                        }
                    }
                }
            }
        }
        proof {
            assert(envelopes@.subrange(0, n as int) =~= envelopes@);
        }
        let packet = AggregateReleasePacket {
            packet_id: packet_id.to_owned(),
            state_slice,
            claim_ceiling,
            claim_ids,
            evidence_digests,
            generated_at,
            raw_payload_included: false,
        };
        proof {
            let es = envelopes@;
            assert(packet.claim_ids@.to_set().contains(es[0].claim_id@));
            assert(packet.claim_ids@.len() != 0);
            assert forall|i: int| 0 <= i < packet.claim_ids@.len() implies text_ok(
                #[trigger] packet.claim_ids@[i],
                256,
            ) by {
                assert(packet.claim_ids@.to_set().contains(packet.claim_ids@[i]));
                let k = choose|k: int| 0 <= k < es.len() && (#[trigger] es[k]).claim_id@ == packet.claim_ids@[i];
                assert(es[k].spec_valid());
            }
            assert forall|i: int| 0 <= i < packet.evidence_digests@.len() implies is_digest(
                #[trigger] packet.evidence_digests@[i],
            ) by {
                let x = packet.evidence_digests@[i];
                assert(packet.evidence_digests@.to_set().contains(x));
                let k = choose|k: int| 0 <= k < es.len() && (#[trigger] es[k]).evidence_digests@.contains(x);
                assert(es[k].spec_valid());
                let j = choose|j: int| 0 <= j < es[k].evidence_digests@.len() && es[k].evidence_digests@[j] == x;
                assert(is_digest(es[k].evidence_digests@[j]));
            }
        }
        packet.validate()?;
        Ok(packet)
    }

    pub fn validate(&self) -> (r: Result<(), Error>)
        ensures
            r is Ok <==> self.spec_valid(),
            r matches Err(e) ==> e is Invalid,
    {
        let mut ids_ok = true;
        let n = self.claim_ids.len();
        for i in 0..n
            invariant
                n == self.claim_ids@.len(),
                ids_ok == forall|k: int| 0 <= k < i ==> text_ok(#[trigger] self.claim_ids@[k], 256),
        {
            if !valid_text(self.claim_ids.get(i).as_str(), MAX_TEXT_LEN) {
                ids_ok = false;
            }
        }
        if !valid_text(self.packet_id.as_str(), MAX_TEXT_LEN) || !text_eq(
            self.state_slice.as_str(),
            STATE_SLICE,
        ) || !valid_text(self.claim_ceiling.as_str(), MAX_TEXT_LEN) || self.claim_ids.is_empty()
            || !ids_ok || !valid_digest_set(&self.evidence_digests) || self.raw_payload_included {
            return Err(invalid("aggregate release packet is malformed"));
        }
        Ok(())
    }

    /// The digest of a valid packet.
    pub fn digest(&self) -> (r: Result<String, Error>)
        ensures
            r is Ok <==> self.spec_valid(),
            r matches Err(e) ==> e is Invalid,
            r matches Ok(d) ==> d@ == sha256_hex(self.bytes()) && is_digest(d@),
    {
        self.validate()?;
        let mut out: Vec<u8> = Vec::new();
        push_lit(&mut out, "{\"packet_id\":");
        push_text(&mut out, self.packet_id.as_str());
        push_lit(&mut out, ",\"state_slice\":");
        push_text(&mut out, self.state_slice.as_str());
        push_lit(&mut out, ",\"claim_ceiling\":");
        push_text(&mut out, self.claim_ceiling.as_str());
        push_lit(&mut out, ",\"claim_ids\":");
        push_text_set(&mut out, &self.claim_ids);
        push_lit(&mut out, ",\"evidence_digests\":");
        push_text_set(&mut out, &self.evidence_digests);
        push_lit(&mut out, ",\"generated_at\":");
        push_nat(&mut out, self.generated_at);
        push_lit(&mut out, ",\"raw_payload_included\":");
        push_bool(&mut out, self.raw_payload_included);
        push_lit(&mut out, "}");
        assert(out@ =~= self.bytes());
        Ok(digest_bytes(out.as_slice()))
    }
}

/// Meeting is commutative: the meet of `a` and `b` is the meet of `b` and
/// `a`, field for field.
pub proof fn lemma_meet_commutes(
    a: ClaimEnvelope,
    b: ClaimEnvelope,
    m1: ClaimEnvelope,
    m2: ClaimEnvelope,
)
    requires
        meets(a, b, m1),
        meets(b, a, m2),
    ensures
        m1.claim_id@ == m2.claim_id@,
        m1.state_slice@ == m2.state_slice@,
        m1.claim_ceiling@ == m2.claim_ceiling@,
        m1.guarantees@ == m2.guarantees@,
        m1.assumptions@ == m2.assumptions@,
        m1.excludes@ == m2.excludes@,
        m1.evidence_digests@ == m2.evidence_digests@,
        m1.valid_until == m2.valid_until,
{
    assert(a.guarantees@.to_set().intersect(b.guarantees@.to_set()) =~= b.guarantees@.to_set().intersect(
        a.guarantees@.to_set(),
    ));
    assert(a.assumptions@.to_set() + b.assumptions@.to_set() =~= b.assumptions@.to_set()
        + a.assumptions@.to_set());
    assert(a.excludes@.to_set() + b.excludes@.to_set() =~= b.excludes@.to_set() + a.excludes@.to_set());
    assert(a.evidence_digests@.to_set() + b.evidence_digests@.to_set() =~= b.evidence_digests@.to_set()
        + a.evidence_digests@.to_set());
    lemma_sorted_same_set_equal(m1.guarantees@, m2.guarantees@);
    lemma_sorted_same_set_equal(m1.assumptions@, m2.assumptions@);
    lemma_sorted_same_set_equal(m1.excludes@, m2.excludes@);
    lemma_sorted_same_set_equal(m1.evidence_digests@, m2.evidence_digests@);
}

} // verus!
