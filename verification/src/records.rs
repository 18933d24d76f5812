//! Claims, actions, proposals, policies and capabilities: the records the
//! kernel admits, binds and journals.
use crate::canon::{
    json_bool, json_nat, json_nat_map, json_text, json_text_list, lit, push_bool, push_lit,
    push_nat, push_nat_map, push_text, push_text_set, push_text_vec,
};
use crate::collections::{entries_map, entry_keys, texts_of, TextMap, TextSet};
use crate::contract::Authority;
use crate::digest::{digest_bytes, sha256_hex};
use crate::error::{invalid, Error};
use crate::json::{json_value_map, model_entries, push_value_map, value_bytes, JsonModel, JsonValue};
use crate::order::text_eq;
use crate::text::{contains_control, has_control, is_digest, valid_digest};
use vstd::prelude::*;

verus! {

pub const STATE_SLICE: &'static str = "security-alignment-os-foundation-v1";

pub const CLAIM_CEILING: &'static str =
    "local Rust pure-data control and caller-owned persistence evidence only";

/// Whether any text of the vector is empty.
pub fn any_empty(v: &Vec<String>) -> (r: bool)
    ensures
        r == exists|i: int| 0 <= i < v@.len() && (#[trigger] v@[i])@.len() == 0,
{
    let n = v.len();
    for i in 0..n
        invariant
            n == v@.len(),
            forall|k: int| 0 <= k < i ==> (#[trigger] v@[k])@.len() != 0,
    {
        if v[i].as_str().is_empty() {
            return true;
        }
    }
    false
}

/// Whether the vector holds `needle`.
pub fn vec_contains_text(v: &Vec<String>, needle: &str) -> (r: bool)
    ensures
        r == texts_of(v@).contains(needle@),
{
    let n = v.len();
    for i in 0..n
        invariant
            n == v@.len(),
            forall|k: int| 0 <= k < i ==> (#[trigger] v@[k])@ != needle@,
    {
        if text_eq(v[i].as_str(), needle) {
            proof {
                assert(texts_of(v@)[i as int] == needle@);
            }
            return true;
        }
    }
    proof {
        assert forall|k: int| 0 <= k < texts_of(v@).len() implies texts_of(v@)[k] != needle@ by {
            assert(v@[k]@ != needle@);
        }
    }
    false
}

// ---------------------------------------------------------------- claims

/// A claim carried by a proposal.
#[derive(Clone, Debug, PartialEq, Eq)]
pub struct Claim {
    pub guarantees: Vec<String>,
    pub assumptions: Vec<String>,
    pub excludes: Vec<String>,
    pub maturity: u8,
    pub trust_roots: Vec<String>,
    pub valid_until: u64,
    pub provenance_digest: String,
}

pub open spec fn no_empty(v: Seq<String>) -> bool {
    forall|i: int| 0 <= i < v.len() ==> (#[trigger] v[i])@.len() != 0
}

impl Claim {
    pub open spec fn spec_valid(&self) -> bool {
        &&& no_empty(self.guarantees@)
        &&& no_empty(self.assumptions@)
        &&& no_empty(self.excludes@)
        &&& no_empty(self.trust_roots@)
        &&& self.maturity <= 3
        &&& is_digest(self.provenance_digest@)
    }

    /// Whether the claim can back an admission at `now`.
    pub open spec fn spec_qualifies(&self, now: u64) -> bool {
        &&& self.spec_valid()
        &&& self.valid_until > now
        &&& self.maturity >= 1
        &&& texts_of(self.guarantees@).contains("PolicyCompliance"@)
        &&& !texts_of(self.excludes@).contains("PolicyCompliance"@)
        &&& forall|i: int|
            0 <= i < self.assumptions@.len() ==> texts_of(self.guarantees@).contains(
                (#[trigger] self.assumptions@[i])@,
            )
    }

    pub open spec fn bytes_part0(&self) -> Seq<u8> {
        lit("{\"guarantees\":") + json_text_list(texts_of(self.guarantees@)) + lit(",\"assumptions\":") + json_text_list(texts_of(self.assumptions@)) + lit(",\"excludes\":") + json_text_list(texts_of(self.excludes@))
    }

    pub open spec fn bytes_part1(&self) -> Seq<u8> {
        lit(",\"maturity\":") + json_nat(self.maturity as nat) + lit(",\"trust_roots\":") + json_text_list(texts_of(self.trust_roots@)) + lit(",\"valid_until\":") + json_nat(self.valid_until as nat)
    }

    pub open spec fn bytes_part2(&self) -> Seq<u8> {
        lit(",\"provenance_digest\":") + json_text(self.provenance_digest@) + lit("}")
    }

    pub open spec fn bytes(&self) -> Seq<u8> {
        self.bytes_part0() + self.bytes_part1() + self.bytes_part2()
    }

    fn push_bytes_part0(&self, out: &mut Vec<u8>)
        ensures
            final(out)@ == old(out)@ + self.bytes_part0(),
    {
        let ghost start = out@;
        push_lit(out, "{\"guarantees\":");
        assert(out@ =~= start + (lit("{\"guarantees\":")));
        push_text_vec(out, &self.guarantees);
        assert(out@ =~= start + (lit("{\"guarantees\":") + json_text_list(texts_of(self.guarantees@))));
        push_lit(out, ",\"assumptions\":");
        assert(out@ =~= start + (lit("{\"guarantees\":") + json_text_list(texts_of(self.guarantees@)) + lit(",\"assumptions\":")));
        push_text_vec(out, &self.assumptions);
        assert(out@ =~= start + (lit("{\"guarantees\":") + json_text_list(texts_of(self.guarantees@)) + lit(",\"assumptions\":") + json_text_list(texts_of(self.assumptions@))));
        push_lit(out, ",\"excludes\":");
        assert(out@ =~= start + (lit("{\"guarantees\":") + json_text_list(texts_of(self.guarantees@)) + lit(",\"assumptions\":") + json_text_list(texts_of(self.assumptions@)) + lit(",\"excludes\":")));
        push_text_vec(out, &self.excludes);
        assert(out@ =~= start + (lit("{\"guarantees\":") + json_text_list(texts_of(self.guarantees@)) + lit(",\"assumptions\":") + json_text_list(texts_of(self.assumptions@)) + lit(",\"excludes\":") + json_text_list(texts_of(self.excludes@))));
    }

    fn push_bytes_part1(&self, out: &mut Vec<u8>)
        ensures
            final(out)@ == old(out)@ + self.bytes_part1(),
    {
        let ghost start = out@;
        push_lit(out, ",\"maturity\":");
        assert(out@ =~= start + (lit(",\"maturity\":")));
        push_nat(out, self.maturity as u64);
        assert(out@ =~= start + (lit(",\"maturity\":") + json_nat(self.maturity as nat)));
        push_lit(out, ",\"trust_roots\":");
        assert(out@ =~= start + (lit(",\"maturity\":") + json_nat(self.maturity as nat) + lit(",\"trust_roots\":")));
        push_text_vec(out, &self.trust_roots);
        assert(out@ =~= start + (lit(",\"maturity\":") + json_nat(self.maturity as nat) + lit(",\"trust_roots\":") + json_text_list(texts_of(self.trust_roots@))));
        push_lit(out, ",\"valid_until\":");
        assert(out@ =~= start + (lit(",\"maturity\":") + json_nat(self.maturity as nat) + lit(",\"trust_roots\":") + json_text_list(texts_of(self.trust_roots@)) + lit(",\"valid_until\":")));
        push_nat(out, self.valid_until as u64);
        assert(out@ =~= start + (lit(",\"maturity\":") + json_nat(self.maturity as nat) + lit(",\"trust_roots\":") + json_text_list(texts_of(self.trust_roots@)) + lit(",\"valid_until\":") + json_nat(self.valid_until as nat)));
    }

    fn push_bytes_part2(&self, out: &mut Vec<u8>)
        ensures
            final(out)@ == old(out)@ + self.bytes_part2(),
    {
        let ghost start = out@;
        push_lit(out, ",\"provenance_digest\":");
        assert(out@ =~= start + (lit(",\"provenance_digest\":")));
        push_text(out, self.provenance_digest.as_str());
        assert(out@ =~= start + (lit(",\"provenance_digest\":") + json_text(self.provenance_digest@)));
        push_lit(out, "}");
        assert(out@ =~= start + (lit(",\"provenance_digest\":") + json_text(self.provenance_digest@) + lit("}")));
    }

    pub fn push_canonical(&self, out: &mut Vec<u8>)
        ensures
            final(out)@ == old(out)@ + self.bytes(),
    {
        let ghost start = out@;
        self.push_bytes_part0(out);
        assert(out@ =~= start + (self.bytes_part0()));
        self.push_bytes_part1(out);
        assert(out@ =~= start + (self.bytes_part0() + self.bytes_part1()));
        self.push_bytes_part2(out);
        assert(out@ =~= start + (self.bytes_part0() + self.bytes_part1() + self.bytes_part2()));
    }

    pub fn validate(&self) -> (r: Result<(), Error>)
        ensures
            r is Ok <==> self.spec_valid(),
            r matches Err(e) ==> e is Invalid,
    {
        if any_empty(&self.guarantees) || any_empty(&self.assumptions) || any_empty(&self.excludes)
            || any_empty(&self.trust_roots) {
            return Err(invalid("claim labels must be non-empty"));
        }
        if self.maturity > 3 || !valid_digest(self.provenance_digest.as_str()) {
            return Err(invalid("invalid claim maturity or provenance digest"));
        }
        Ok(())
    }

    pub fn qualifies(&self, now: u64) -> (r: bool)
        ensures
            r == self.spec_qualifies(now),
    {
        if self.validate().is_err() || self.valid_until <= now || self.maturity < 1 {
            return false;
        }
        if !vec_contains_text(&self.guarantees, "PolicyCompliance") || vec_contains_text(
            &self.excludes,
            "PolicyCompliance",
        ) {
            return false;
        }
        let n = self.assumptions.len();
        for i in 0..n
            invariant
                n == self.assumptions@.len(),
                forall|k: int|
                    0 <= k < i ==> texts_of(self.guarantees@).contains(
                        (#[trigger] self.assumptions@[k])@,
                    ),
        {
            if !vec_contains_text(&self.guarantees, self.assumptions[i].as_str()) {
                return false;
            }
        }
        true
    }
}

pub open spec fn claims_bytes(claims: Seq<Claim>) -> Seq<u8> {
    crate::canon::json_list(claims.map_values(|c: Claim| c.bytes()))
}

pub fn push_claims(out: &mut Vec<u8>, claims: &Vec<Claim>)
    ensures
        final(out)@ == old(out)@ + claims_bytes(claims@),
{
    let ghost items = claims@.map_values(|c: Claim| c.bytes());
    out.push(0x5b);
    let ghost start = out@;
    let n = claims.len();
    for i in 0..n
        invariant
            n == claims@.len(),
            items == claims@.map_values(|c: Claim| c.bytes()),
            out@ == start + crate::canon::join(items.subrange(0, i as int)),
    {
        if i > 0 {
            out.push(0x2c);
        }
        claims[i].push_canonical(out);
        proof {
            let pre = items.subrange(0, i as int);
            assert(items.subrange(0, i + 1) =~= pre.push(items[i as int]));
            assert(pre.push(items[i as int]).drop_last() =~= pre);
            assert(out@ =~= start + crate::canon::join(items.subrange(0, i + 1)));
        }
    }
    out.push(0x5d);
    proof {
        assert(items.subrange(0, n as int) =~= items);
        assert(out@ =~= old(out)@ + claims_bytes(claims@));
    }
}

// ---------------------------------------------------------------- actions

/// What a proposal asks to do.
#[derive(Clone, Copy, Debug, PartialEq, Eq, Structural, Hash, PartialOrd, Ord)]
pub enum Action {
    Read,
    Write,
    Network,
    Secrets,
    Spend,
    Replicate,
    SelfModify,
    Execute,
}

/// Position of an action in declaration order (the order sets iterate in).
pub open spec fn action_rank(a: Action) -> nat {
    match a {
        Action::Read => 0,
        Action::Write => 1,
        Action::Network => 2,
        Action::Secrets => 3,
        Action::Spend => 4,
        Action::Replicate => 5,
        Action::SelfModify => 6,
        Action::Execute => 7,
    }
}

pub open spec fn all_actions() -> Seq<Action> {
    seq![
        Action::Read,
        Action::Write,
        Action::Network,
        Action::Secrets,
        Action::Spend,
        Action::Replicate,
        Action::SelfModify,
        Action::Execute,
    ]
}

pub open spec fn action_name(a: Action) -> Seq<char> {
    match a {
        Action::Read => "Read"@,
        Action::Write => "Write"@,
        Action::Network => "Network"@,
        Action::Secrets => "Secrets"@,
        Action::Spend => "Spend"@,
        Action::Replicate => "Replicate"@,
        Action::SelfModify => "SelfModify"@,
        Action::Execute => "Execute"@,
    }
}

pub open spec fn action_bytes(a: Action) -> Seq<u8> {
    json_text(action_name(a))
}

/// The atom of the contract vocabulary an action stands for.
pub open spec fn action_authority(a: Action) -> Authority {
    match a {
        Action::Read => Authority::Read,
        Action::Write => Authority::Write,
        Action::Network => Authority::Network,
        Action::Secrets => Authority::Secrets,
        Action::Spend => Authority::Spend,
        Action::Replicate => Authority::Replicate,
        Action::SelfModify => Authority::SelfModify,
        Action::Execute => Authority::Execute,
    }
}

pub open spec fn authority_action(a: Authority) -> Action {
    match a {
        Authority::Read => Action::Read,
        Authority::Write => Action::Write,
        Authority::Network => Action::Network,
        Authority::Secrets => Action::Secrets,
        Authority::Spend => Action::Spend,
        Authority::Replicate => Action::Replicate,
        Authority::SelfModify => Action::SelfModify,
        Authority::Execute => Action::Execute,
    }
}

/// Converting an action to an authority and back gives the action again,
/// and the other way round.
pub proof fn lemma_action_authority_round_trip(a: Action, b: Authority)
    ensures
        authority_action(action_authority(a)) == a,
        action_authority(authority_action(b)) == b,
{
}

impl From<Authority> for Action {
    fn from(authority: Authority) -> (r: Action) {
        match authority {
            Authority::Read => Action::Read,
            Authority::Write => Action::Write,
            Authority::Network => Action::Network,
            Authority::Secrets => Action::Secrets,
            Authority::Spend => Action::Spend,
            Authority::Replicate => Action::Replicate,
            Authority::Execute => Action::Execute,
            Authority::SelfModify => Action::SelfModify,
        }
    }
}

impl vstd::std_specs::convert::FromSpecImpl<Authority> for Action {
    open spec fn obeys_from_spec() -> bool {
        true
    }

    open spec fn from_spec(v: Authority) -> Action {
        authority_action(v)
    }
}

impl From<Action> for Authority {
    fn from(action: Action) -> (r: Authority) {
        match action {
            Action::Read => Authority::Read,
            Action::Write => Authority::Write,
            Action::Network => Authority::Network,
            Action::Secrets => Authority::Secrets,
            Action::Spend => Authority::Spend,
            Action::Replicate => Authority::Replicate,
            Action::Execute => Authority::Execute,
            Action::SelfModify => Authority::SelfModify,
        }
    }
}

impl vstd::std_specs::convert::FromSpecImpl<Action> for Authority {
    open spec fn obeys_from_spec() -> bool {
        true
    }

    open spec fn from_spec(v: Action) -> Authority {
        action_authority(v)
    }
}

impl Action {
    pub fn all() -> (r: [Action; 8])
        ensures
            r@ == all_actions(),
    {
        let r = [
            Action::Read,
            Action::Write,
            Action::Network,
            Action::Secrets,
            Action::Spend,
            Action::Replicate,
            Action::SelfModify,
            Action::Execute,
        ];
        assert(r@ =~= all_actions());
        r
    }

    /// The variant name, as the canonical encoding writes it.
    pub fn name(&self) -> (r: &'static str)
        ensures
            r@ == action_name(*self),
    {
        match self {
            Action::Read => "Read",
            Action::Write => "Write",
            Action::Network => "Network",
            Action::Secrets => "Secrets",
            Action::Spend => "Spend",
            Action::Replicate => "Replicate",
            Action::SelfModify => "SelfModify",
            Action::Execute => "Execute",
        }
    }

    pub fn to_authority(self) -> (r: Authority)
        ensures
            r == action_authority(self),
    {
        match self {
            Action::Read => Authority::Read,
            Action::Write => Authority::Write,
            Action::Network => Authority::Network,
            Action::Secrets => Authority::Secrets,
            Action::Spend => Authority::Spend,
            Action::Replicate => Authority::Replicate,
            Action::SelfModify => Authority::SelfModify,
            Action::Execute => Authority::Execute,
        }
    }

    pub fn from_authority(authority: Authority) -> (r: Action)
        ensures
            r == authority_action(authority),
    {
        match authority {
            Authority::Read => Action::Read,
            Authority::Write => Action::Write,
            Authority::Network => Action::Network,
            Authority::Secrets => Action::Secrets,
            Authority::Spend => Action::Spend,
            Authority::Replicate => Action::Replicate,
            Authority::SelfModify => Action::SelfModify,
            Authority::Execute => Action::Execute,
        }
    }
}

pub fn push_action(out: &mut Vec<u8>, a: Action)
    ensures
        final(out)@ == old(out)@ + action_bytes(a),
{
    push_text(out, a.name());
}

/// The actions of `v` in declaration order, each once (how a set of actions
/// is encoded).
pub open spec fn action_set_bytes(v: Seq<Action>) -> Seq<u8> {
    crate::canon::json_list(
        all_actions().filter(|a: Action| v.contains(a)).map_values(|a: Action| action_bytes(a)),
    )
}

pub fn vec_contains_action(v: &Vec<Action>, a: Action) -> (r: bool)
    ensures
        r == v@.contains(a),
{
    let n = v.len();
    for i in 0..n
        invariant
            n == v@.len(),
            forall|k: int| 0 <= k < i ==> v@[k] != a,
    {
        if v[i] == a {
            return true;
        }
    }
    false
}

pub fn push_action_set(out: &mut Vec<u8>, v: &Vec<Action>)
    ensures
        final(out)@ == old(out)@ + action_set_bytes(v@),
{
    let atoms = Action::all();
    let ghost pick = |a: Action| v@.contains(a);
    let ghost chosen = all_actions().filter(pick);
    let ghost items = chosen.map_values(|a: Action| action_bytes(a));
    out.push(0x5b);
    let ghost start = out@;
    let mut count: usize = 0;
    for i in 0..8usize
        invariant
            atoms@ == all_actions(),
            pick == (|a: Action| v@.contains(a)),
            count == all_actions().take(i as int).filter(pick).len(),
            count <= i,
            out@ == start + crate::canon::join(
                all_actions().take(i as int).filter(pick).map_values(|a: Action| action_bytes(a)),
            ),
    {
        let ghost pre = all_actions().take(i as int).filter(pick);
        proof {
            reveal_with_fuel(Seq::filter, 1);
            assert(all_actions().take(i + 1).drop_last() =~= all_actions().take(i as int));
            assert(all_actions().take(i + 1).last() == atoms@[i as int]);
        }
        if vec_contains_action(v, atoms[i]) {
            if count > 0 {
                out.push(0x2c);
            }
            push_action(out, atoms[i]);
            count = count + 1;
            proof {
                let post = all_actions().take(i + 1).filter(pick);
                assert(post =~= pre.push(atoms@[i as int]));
                let m = pre.map_values(|a: Action| action_bytes(a));
                assert(post.map_values(|a: Action| action_bytes(a)) =~= m.push(
                    action_bytes(atoms@[i as int]),
                ));
                assert(m.push(action_bytes(atoms@[i as int])).drop_last() =~= m);
            }
        } else {
            proof {
                assert(all_actions().take(i + 1).filter(pick) =~= pre);
            }
        }
    }
    out.push(0x5d);
    proof {
        assert(all_actions().take(8) =~= all_actions());
        assert(out@ =~= old(out)@ + action_set_bytes(v@));
    }
}

// ---------------------------------------------------------------- proposals

/// A typed action proposal submitted by an agent.
#[derive(Clone, Debug)]
pub struct Proposal {
    pub candidate_id: String,
    pub agent_id: String,
    pub intent: String,
    pub action: Action,
    pub scope: String,
    pub payload: TextMap<JsonValue>,
    pub resource_cost: TextMap<u64>,
    pub source_digest: String,
    pub claims: Vec<Claim>,
    pub nonce: u64,
    pub expires_at: u64,
    pub requests_direct_authority: bool,
}

impl Proposal {
    pub open spec fn bytes_part0(&self) -> Seq<u8> {
        lit("{\"candidate_id\":") + json_text(self.candidate_id@) + lit(",\"agent_id\":") + json_text(self.agent_id@) + lit(",\"intent\":") + json_text(self.intent@) + lit(",\"action\":") + action_bytes(self.action) + lit(",\"scope\":")
    }

    pub open spec fn bytes_part1(&self) -> Seq<u8> {
        json_text(self.scope@) + lit(",\"payload\":") + json_value_map(self.payload@) + lit(",\"resource_cost\":") + json_nat_map(self.resource_cost@) + lit(",\"source_digest\":") + json_text(self.source_digest@) + lit(",\"claims\":") + claims_bytes(self.claims@)
    }

    pub open spec fn bytes_part2(&self) -> Seq<u8> {
        lit(",\"nonce\":") + json_nat(self.nonce as nat) + lit(",\"expires_at\":") + json_nat(self.expires_at as nat) + lit(",\"requests_direct_authority\":") + json_bool(self.requests_direct_authority) + lit("}")
    }

    pub open spec fn bytes(&self) -> Seq<u8> {
        self.bytes_part0() + self.bytes_part1() + self.bytes_part2()
    }

    /// The candidate digest: SHA-256 of the canonical encoding.
    pub open spec fn spec_digest(&self) -> Seq<char> {
        sha256_hex(self.bytes())
    }

    fn push_bytes_part0(&self, out: &mut Vec<u8>)
        ensures
            final(out)@ == old(out)@ + self.bytes_part0(),
    {
        let ghost start = out@;
        push_lit(out, "{\"candidate_id\":");
        assert(out@ =~= start + (lit("{\"candidate_id\":")));
        push_text(out, self.candidate_id.as_str());
        assert(out@ =~= start + (lit("{\"candidate_id\":") + json_text(self.candidate_id@)));
        push_lit(out, ",\"agent_id\":");
        assert(out@ =~= start + (lit("{\"candidate_id\":") + json_text(self.candidate_id@) + lit(",\"agent_id\":")));
        push_text(out, self.agent_id.as_str());
        assert(out@ =~= start + (lit("{\"candidate_id\":") + json_text(self.candidate_id@) + lit(",\"agent_id\":") + json_text(self.agent_id@)));
        push_lit(out, ",\"intent\":");
        assert(out@ =~= start + (lit("{\"candidate_id\":") + json_text(self.candidate_id@) + lit(",\"agent_id\":") + json_text(self.agent_id@) + lit(",\"intent\":")));
        push_text(out, self.intent.as_str());
        assert(out@ =~= start + (lit("{\"candidate_id\":") + json_text(self.candidate_id@) + lit(",\"agent_id\":") + json_text(self.agent_id@) + lit(",\"intent\":") + json_text(self.intent@)));
        push_lit(out, ",\"action\":");
        assert(out@ =~= start + (lit("{\"candidate_id\":") + json_text(self.candidate_id@) + lit(",\"agent_id\":") + json_text(self.agent_id@) + lit(",\"intent\":") + json_text(self.intent@) + lit(",\"action\":")));
        push_action(out, self.action);
        assert(out@ =~= start + (lit("{\"candidate_id\":") + json_text(self.candidate_id@) + lit(",\"agent_id\":") + json_text(self.agent_id@) + lit(",\"intent\":") + json_text(self.intent@) + lit(",\"action\":") + action_bytes(self.action)));
        push_lit(out, ",\"scope\":");
        assert(out@ =~= start + (lit("{\"candidate_id\":") + json_text(self.candidate_id@) + lit(",\"agent_id\":") + json_text(self.agent_id@) + lit(",\"intent\":") + json_text(self.intent@) + lit(",\"action\":") + action_bytes(self.action) + lit(",\"scope\":")));
    }

    fn push_bytes_part1(&self, out: &mut Vec<u8>)
        ensures
            final(out)@ == old(out)@ + self.bytes_part1(),
    {
        let ghost start = out@;
        push_text(out, self.scope.as_str());
        assert(out@ =~= start + (json_text(self.scope@)));
        push_lit(out, ",\"payload\":");
        assert(out@ =~= start + (json_text(self.scope@) + lit(",\"payload\":")));
        push_value_map(out, &self.payload);
        assert(out@ =~= start + (json_text(self.scope@) + lit(",\"payload\":") + json_value_map(self.payload@)));
        push_lit(out, ",\"resource_cost\":");
        assert(out@ =~= start + (json_text(self.scope@) + lit(",\"payload\":") + json_value_map(self.payload@) + lit(",\"resource_cost\":")));
        push_nat_map(out, &self.resource_cost);
        assert(out@ =~= start + (json_text(self.scope@) + lit(",\"payload\":") + json_value_map(self.payload@) + lit(",\"resource_cost\":") + json_nat_map(self.resource_cost@)));
        push_lit(out, ",\"source_digest\":");
        assert(out@ =~= start + (json_text(self.scope@) + lit(",\"payload\":") + json_value_map(self.payload@) + lit(",\"resource_cost\":") + json_nat_map(self.resource_cost@) + lit(",\"source_digest\":")));
        push_text(out, self.source_digest.as_str());
        assert(out@ =~= start + (json_text(self.scope@) + lit(",\"payload\":") + json_value_map(self.payload@) + lit(",\"resource_cost\":") + json_nat_map(self.resource_cost@) + lit(",\"source_digest\":") + json_text(self.source_digest@)));
        push_lit(out, ",\"claims\":");
        assert(out@ =~= start + (json_text(self.scope@) + lit(",\"payload\":") + json_value_map(self.payload@) + lit(",\"resource_cost\":") + json_nat_map(self.resource_cost@) + lit(",\"source_digest\":") + json_text(self.source_digest@) + lit(",\"claims\":")));
        push_claims(out, &self.claims);
        assert(out@ =~= start + (json_text(self.scope@) + lit(",\"payload\":") + json_value_map(self.payload@) + lit(",\"resource_cost\":") + json_nat_map(self.resource_cost@) + lit(",\"source_digest\":") + json_text(self.source_digest@) + lit(",\"claims\":") + claims_bytes(self.claims@)));
    }

    fn push_bytes_part2(&self, out: &mut Vec<u8>)
        ensures
            final(out)@ == old(out)@ + self.bytes_part2(),
    {
        let ghost start = out@;
        push_lit(out, ",\"nonce\":");
        assert(out@ =~= start + (lit(",\"nonce\":")));
        push_nat(out, self.nonce as u64);
        assert(out@ =~= start + (lit(",\"nonce\":") + json_nat(self.nonce as nat)));
        push_lit(out, ",\"expires_at\":");
        assert(out@ =~= start + (lit(",\"nonce\":") + json_nat(self.nonce as nat) + lit(",\"expires_at\":")));
        push_nat(out, self.expires_at as u64);
        assert(out@ =~= start + (lit(",\"nonce\":") + json_nat(self.nonce as nat) + lit(",\"expires_at\":") + json_nat(self.expires_at as nat)));
        push_lit(out, ",\"requests_direct_authority\":");
        assert(out@ =~= start + (lit(",\"nonce\":") + json_nat(self.nonce as nat) + lit(",\"expires_at\":") + json_nat(self.expires_at as nat) + lit(",\"requests_direct_authority\":")));
        push_bool(out, self.requests_direct_authority);
        assert(out@ =~= start + (lit(",\"nonce\":") + json_nat(self.nonce as nat) + lit(",\"expires_at\":") + json_nat(self.expires_at as nat) + lit(",\"requests_direct_authority\":") + json_bool(self.requests_direct_authority)));
        push_lit(out, "}");
        assert(out@ =~= start + (lit(",\"nonce\":") + json_nat(self.nonce as nat) + lit(",\"expires_at\":") + json_nat(self.expires_at as nat) + lit(",\"requests_direct_authority\":") + json_bool(self.requests_direct_authority) + lit("}")));
    }

    pub fn push_canonical(&self, out: &mut Vec<u8>)
        ensures
            final(out)@ == old(out)@ + self.bytes(),
    {
        let ghost start = out@;
        self.push_bytes_part0(out);
        assert(out@ =~= start + (self.bytes_part0()));
        self.push_bytes_part1(out);
        assert(out@ =~= start + (self.bytes_part0() + self.bytes_part1()));
        self.push_bytes_part2(out);
        assert(out@ =~= start + (self.bytes_part0() + self.bytes_part1() + self.bytes_part2()));
    }

    /// The canonical encoding.
    pub fn canonical_bytes(&self) -> (r: Vec<u8>)
        ensures
            r@ == self.bytes(),
    {
        let mut out = Vec::new();
        self.push_canonical(&mut out);
        assert(out@ =~= self.bytes());
        out
    }

    /// The candidate digest.
    pub fn digest(&self) -> (r: Result<String, Error>)
        ensures
            r matches Ok(d) && d@ == self.spec_digest() && is_digest(d@),
    {
        let bytes = self.canonical_bytes();
        Ok(digest_bytes(bytes.as_slice()))
    }

    pub fn digest_text(&self) -> (r: String)
        ensures
            r@ == self.spec_digest(),
            is_digest(r@),
    {
        let bytes = self.canonical_bytes();
        digest_bytes(bytes.as_slice())
    }

    pub open spec fn spec_shape_valid(&self, now: u64) -> bool {
        &&& self.candidate_id@.len() != 0
        &&& self.agent_id@.len() != 0
        &&& self.intent@.len() != 0
        &&& self.scope@.len() != 0
        &&& is_digest(self.source_digest@)
        &&& self.expires_at > now
        &&& self.nonce != 0
        &&& forall|i: int| 0 <= i < self.claims@.len() ==> (#[trigger] self.claims@[i]).spec_valid()
    }

    pub fn validate_shape(&self, now: u64) -> (r: Result<(), Error>)
        ensures
            r is Ok <==> self.spec_shape_valid(now),
            r matches Err(e) ==> e is Invalid,
    {
        if self.candidate_id.as_str().is_empty() || self.agent_id.as_str().is_empty()
            || self.intent.as_str().is_empty() || self.scope.as_str().is_empty() {
            return Err(invalid("proposal identity and intent are required"));
        }
        if !valid_digest(self.source_digest.as_str()) || self.expires_at <= now || self.nonce == 0 {
            return Err(invalid("proposal digest, nonce, or validity is invalid"));
        }
        let n = self.claims.len();
        for i in 0..n
            invariant
                n == self.claims@.len(),
                forall|k: int| 0 <= k < i ==> (#[trigger] self.claims@[k]).spec_valid(),
        {
            if self.claims[i].validate().is_err() {
                return Err(invalid("proposal contains malformed claim"));
            }
        }
        Ok(())
    }
}

// ---------------------------------------------------------------- policy

/// The admission policy.
pub struct Policy {
    /// Allowed actions; a set (order and repeats carry no meaning).
    pub allowed_actions: Vec<Action>,
    pub allowed_scopes: TextSet,
    pub max_cost: TextMap<u64>,
    pub token_ttl: u64,
}

pub open spec fn label_ok(s: Seq<char>) -> bool {
    s.len() != 0 && !has_control(s)
}

impl Policy {
    pub open spec fn spec_valid(&self) -> bool {
        &&& self.token_ttl != 0
        &&& self.allowed_scopes@.len() != 0
        &&& forall|i: int|
            0 <= i < self.allowed_scopes@.len() ==> label_ok(#[trigger] self.allowed_scopes@[i])
        &&& forall|i: int|
            0 <= i < self.max_cost@.len() ==> label_ok(#[trigger] self.max_cost@[i].0)
    }

    pub open spec fn bytes(&self) -> Seq<u8> {
        lit("{\"allowed_actions\":") + action_set_bytes(self.allowed_actions@) + lit(",\"allowed_scopes\":") + json_text_list(self.allowed_scopes@) + lit(",\"max_cost\":") + json_nat_map(self.max_cost@) + lit(",\"token_ttl\":") + json_nat(self.token_ttl as nat) + lit("}")
    }

    pub open spec fn spec_digest(&self) -> Seq<char> {
        sha256_hex(self.bytes())
    }

    pub fn push_canonical(&self, out: &mut Vec<u8>)
        ensures
            final(out)@ == old(out)@ + self.bytes(),
    {
        let ghost start = out@;
        push_lit(out, "{\"allowed_actions\":");
        assert(out@ =~= start + (lit("{\"allowed_actions\":")));
        push_action_set(out, &self.allowed_actions);
        assert(out@ =~= start + (lit("{\"allowed_actions\":") + action_set_bytes(self.allowed_actions@)));
        push_lit(out, ",\"allowed_scopes\":");
        assert(out@ =~= start + (lit("{\"allowed_actions\":") + action_set_bytes(self.allowed_actions@) + lit(",\"allowed_scopes\":")));
        push_text_set(out, &self.allowed_scopes);
        assert(out@ =~= start + (lit("{\"allowed_actions\":") + action_set_bytes(self.allowed_actions@) + lit(",\"allowed_scopes\":") + json_text_list(self.allowed_scopes@)));
        push_lit(out, ",\"max_cost\":");
        assert(out@ =~= start + (lit("{\"allowed_actions\":") + action_set_bytes(self.allowed_actions@) + lit(",\"allowed_scopes\":") + json_text_list(self.allowed_scopes@) + lit(",\"max_cost\":")));
        push_nat_map(out, &self.max_cost);
        assert(out@ =~= start + (lit("{\"allowed_actions\":") + action_set_bytes(self.allowed_actions@) + lit(",\"allowed_scopes\":") + json_text_list(self.allowed_scopes@) + lit(",\"max_cost\":") + json_nat_map(self.max_cost@)));
        push_lit(out, ",\"token_ttl\":");
        assert(out@ =~= start + (lit("{\"allowed_actions\":") + action_set_bytes(self.allowed_actions@) + lit(",\"allowed_scopes\":") + json_text_list(self.allowed_scopes@) + lit(",\"max_cost\":") + json_nat_map(self.max_cost@) + lit(",\"token_ttl\":")));
        push_nat(out, self.token_ttl as u64);
        assert(out@ =~= start + (lit("{\"allowed_actions\":") + action_set_bytes(self.allowed_actions@) + lit(",\"allowed_scopes\":") + json_text_list(self.allowed_scopes@) + lit(",\"max_cost\":") + json_nat_map(self.max_cost@) + lit(",\"token_ttl\":") + json_nat(self.token_ttl as nat)));
        push_lit(out, "}");
        assert(out@ =~= start + (lit("{\"allowed_actions\":") + action_set_bytes(self.allowed_actions@) + lit(",\"allowed_scopes\":") + json_text_list(self.allowed_scopes@) + lit(",\"max_cost\":") + json_nat_map(self.max_cost@) + lit(",\"token_ttl\":") + json_nat(self.token_ttl as nat) + lit("}")));
    }

    /// The policy digest.
    pub fn digest_text(&self) -> (r: String)
        ensures
            r@ == self.spec_digest(),
            is_digest(r@),
    {
        let mut out = Vec::new();
        self.push_canonical(&mut out);
        assert(out@ =~= self.bytes());
        digest_bytes(out.as_slice())
    }

    pub fn validate(&self) -> (r: Result<(), Error>)
        ensures
            r is Ok <==> self.spec_valid(),
            r matches Err(e) ==> e is Invalid,
    {
        if self.token_ttl == 0 || self.allowed_scopes.is_empty() {
            return Err(invalid("policy is malformed"));
        }
        let n = self.allowed_scopes.len();
        for i in 0..n
            invariant
                n == self.allowed_scopes@.len(),
                forall|k: int| 0 <= k < i ==> label_ok(#[trigger] self.allowed_scopes@[k]),
        {
            let scope = self.allowed_scopes.get(i);
            if scope.as_str().is_empty() || contains_control(scope.as_str()) {
                return Err(invalid("policy is malformed"));
            }
        }
        let m = self.max_cost.len();
        for i in 0..m
            invariant
                m == self.max_cost@.len(),
                forall|k: int| 0 <= k < i ==> label_ok(#[trigger] self.max_cost@[k].0),
        {
            let axis = self.max_cost.key_at(i);
            if axis.as_str().is_empty() || contains_control(axis.as_str()) {
                return Err(invalid("policy is malformed"));
            }
        }
        Ok(())
    }

    /// A copy of the policy.
    pub fn copy_policy(&self) -> (r: Policy)
        ensures
            r.allowed_actions@ == self.allowed_actions@,
            r.allowed_scopes@ == self.allowed_scopes@,
            r.max_cost@ == self.max_cost@,
            r.token_ttl == self.token_ttl,
    {
        let actions = self.allowed_actions.clone();
        assert(actions@ =~= self.allowed_actions@);
        Policy {
            allowed_actions: actions,
            allowed_scopes: self.allowed_scopes.copy_set(),
            max_cost: self.max_cost.copy_map(),
            token_ttl: self.token_ttl,
        }
    }
}

impl Clone for Policy {
    fn clone(&self) -> (r: Self)
        ensures
            r.allowed_actions@ == self.allowed_actions@,
            r.allowed_scopes@ == self.allowed_scopes@,
            r.max_cost@ == self.max_cost@,
            r.token_ttl == self.token_ttl,
    {
        self.copy_policy()
    }
}

impl Default for Policy {
    /// Read and write on the `public` and `sandbox` scopes, costs capped at
    /// `cpu_ms` 1000, `bytes` 1000000 and `spend` 0, and a token lifetime of 30.
    fn default() -> (r: Self)
        ensures
            r.allowed_actions@ == seq![Action::Read, Action::Write],
            r.allowed_scopes@.to_set() == set!["public"@, "sandbox"@],
            entries_map(r.max_cost@) == map!["cpu_ms"@ => 1000u64, "bytes"@ => 1000000u64, "spend"@ => 0u64],
            r.token_ttl == 30,
            r.spec_valid(),
    {
        let mut actions = Vec::new();
        actions.push(Action::Read);
        actions.push(Action::Write);
        let mut scopes = TextSet::new();
        scopes.insert("public".to_owned());
        scopes.insert("sandbox".to_owned());
        let mut costs = TextMap::new();
        costs.insert("cpu_ms".to_owned(), 1000u64);
        costs.insert("bytes".to_owned(), 1000000u64);
        costs.insert("spend".to_owned(), 0u64);
        let _ = costs.len();
        proof {
            assert(actions@ =~= seq![Action::Read, Action::Write]);
            assert(scopes@.to_set() =~= set!["public"@, "sandbox"@]);
            assert(entries_map(costs@) =~= map!["cpu_ms"@ => 1000u64, "bytes"@ => 1000000u64, "spend"@ => 0u64]);
            reveal_strlit("public");
            reveal_strlit("sandbox");
            reveal_strlit("cpu_ms");
            reveal_strlit("bytes");
            reveal_strlit("spend");
            crate::text::lemma_printable("public"@);
            crate::text::lemma_printable("sandbox"@);
            crate::text::lemma_printable("cpu_ms"@);
            crate::text::lemma_printable("bytes"@);
            crate::text::lemma_printable("spend"@);
            assert forall|i: int| 0 <= i < scopes@.len() implies label_ok(#[trigger] scopes@[i]) by {
                assert(scopes@.to_set().contains(scopes@[i]));
            }
            assert forall|i: int| 0 <= i < costs@.len() implies label_ok(#[trigger] costs@[i].0) by {
                assert(crate::collections::entry_keys(costs@)[i] == costs@[i].0);
                assert(entries_map(costs@).contains_key(costs@[i].0));
            }
            assert(scopes@.to_set().contains("public"@));
        }
        Policy { allowed_actions: actions, allowed_scopes: scopes, max_cost: costs, token_ttl: 30 }
    }
}

// ---------------------------------------------------------------- capabilities

/// A single-use capability issued with an accepted decision.
#[derive(Clone, Debug)]
pub struct Capability {
    pub token_id: String,
    pub agent_id: String,
    pub action: Action,
    pub scope: String,
    pub intent_digest: String,
    pub issued_at: u64,
    pub expires_at: u64,
    pub budget: TextMap<u64>,
}

impl Capability {
    pub open spec fn bytes_part0(&self) -> Seq<u8> {
        lit("{\"token_id\":") + json_text(self.token_id@) + lit(",\"agent_id\":") + json_text(self.agent_id@) + lit(",\"action\":") + action_bytes(self.action)
    }

    pub open spec fn bytes_part1(&self) -> Seq<u8> {
        lit(",\"scope\":") + json_text(self.scope@) + lit(",\"intent_digest\":") + json_text(self.intent_digest@) + lit(",\"issued_at\":") + json_nat(self.issued_at as nat)
    }

    pub open spec fn bytes_part2(&self) -> Seq<u8> {
        lit(",\"expires_at\":") + json_nat(self.expires_at as nat) + lit(",\"budget\":") + json_nat_map(self.budget@) + lit("}")
    }

    pub open spec fn bytes(&self) -> Seq<u8> {
        self.bytes_part0() + self.bytes_part1() + self.bytes_part2()
    }

    /// Field-by-field equality.
    pub open spec fn same(&self, other: &Capability) -> bool {
        &&& self.token_id@ == other.token_id@
        &&& self.agent_id@ == other.agent_id@
        &&& self.action == other.action
        &&& self.scope@ == other.scope@
        &&& self.intent_digest@ == other.intent_digest@
        &&& self.issued_at == other.issued_at
        &&& self.expires_at == other.expires_at
        &&& self.budget@ == other.budget@
    }

    fn push_bytes_part0(&self, out: &mut Vec<u8>)
        ensures
            final(out)@ == old(out)@ + self.bytes_part0(),
    {
        let ghost start = out@;
        push_lit(out, "{\"token_id\":");
        assert(out@ =~= start + (lit("{\"token_id\":")));
        push_text(out, self.token_id.as_str());
        assert(out@ =~= start + (lit("{\"token_id\":") + json_text(self.token_id@)));
        push_lit(out, ",\"agent_id\":");
        assert(out@ =~= start + (lit("{\"token_id\":") + json_text(self.token_id@) + lit(",\"agent_id\":")));
        push_text(out, self.agent_id.as_str());
        assert(out@ =~= start + (lit("{\"token_id\":") + json_text(self.token_id@) + lit(",\"agent_id\":") + json_text(self.agent_id@)));
        push_lit(out, ",\"action\":");
        assert(out@ =~= start + (lit("{\"token_id\":") + json_text(self.token_id@) + lit(",\"agent_id\":") + json_text(self.agent_id@) + lit(",\"action\":")));
        push_action(out, self.action);
        assert(out@ =~= start + (lit("{\"token_id\":") + json_text(self.token_id@) + lit(",\"agent_id\":") + json_text(self.agent_id@) + lit(",\"action\":") + action_bytes(self.action)));
    }

    fn push_bytes_part1(&self, out: &mut Vec<u8>)
        ensures
            final(out)@ == old(out)@ + self.bytes_part1(),
    {
        let ghost start = out@;
        push_lit(out, ",\"scope\":");
        assert(out@ =~= start + (lit(",\"scope\":")));
        push_text(out, self.scope.as_str());
        assert(out@ =~= start + (lit(",\"scope\":") + json_text(self.scope@)));
        push_lit(out, ",\"intent_digest\":");
        assert(out@ =~= start + (lit(",\"scope\":") + json_text(self.scope@) + lit(",\"intent_digest\":")));
        push_text(out, self.intent_digest.as_str());
        assert(out@ =~= start + (lit(",\"scope\":") + json_text(self.scope@) + lit(",\"intent_digest\":") + json_text(self.intent_digest@)));
        push_lit(out, ",\"issued_at\":");
        assert(out@ =~= start + (lit(",\"scope\":") + json_text(self.scope@) + lit(",\"intent_digest\":") + json_text(self.intent_digest@) + lit(",\"issued_at\":")));
        push_nat(out, self.issued_at as u64);
        assert(out@ =~= start + (lit(",\"scope\":") + json_text(self.scope@) + lit(",\"intent_digest\":") + json_text(self.intent_digest@) + lit(",\"issued_at\":") + json_nat(self.issued_at as nat)));
    }

    fn push_bytes_part2(&self, out: &mut Vec<u8>)
        ensures
            final(out)@ == old(out)@ + self.bytes_part2(),
    {
        let ghost start = out@;
        push_lit(out, ",\"expires_at\":");
        assert(out@ =~= start + (lit(",\"expires_at\":")));
        push_nat(out, self.expires_at as u64);
        assert(out@ =~= start + (lit(",\"expires_at\":") + json_nat(self.expires_at as nat)));
        push_lit(out, ",\"budget\":");
        assert(out@ =~= start + (lit(",\"expires_at\":") + json_nat(self.expires_at as nat) + lit(",\"budget\":")));
        push_nat_map(out, &self.budget);
        assert(out@ =~= start + (lit(",\"expires_at\":") + json_nat(self.expires_at as nat) + lit(",\"budget\":") + json_nat_map(self.budget@)));
        push_lit(out, "}");
        assert(out@ =~= start + (lit(",\"expires_at\":") + json_nat(self.expires_at as nat) + lit(",\"budget\":") + json_nat_map(self.budget@) + lit("}")));
    }

    pub fn push_canonical(&self, out: &mut Vec<u8>)
        ensures
            final(out)@ == old(out)@ + self.bytes(),
    {
        let ghost start = out@;
        self.push_bytes_part0(out);
        assert(out@ =~= start + (self.bytes_part0()));
        self.push_bytes_part1(out);
        assert(out@ =~= start + (self.bytes_part0() + self.bytes_part1()));
        self.push_bytes_part2(out);
        assert(out@ =~= start + (self.bytes_part0() + self.bytes_part1() + self.bytes_part2()));
    }

    pub fn same_as(&self, other: &Capability) -> (r: bool)
        ensures
            r == self.same(other),
    {
        text_eq(self.token_id.as_str(), other.token_id.as_str()) && text_eq(
            self.agent_id.as_str(),
            other.agent_id.as_str(),
        ) && self.action == other.action && text_eq(self.scope.as_str(), other.scope.as_str())
            && text_eq(self.intent_digest.as_str(), other.intent_digest.as_str()) && self.issued_at
            == other.issued_at && self.expires_at == other.expires_at && self.budget.same_as(
            &other.budget,
        )
    }

    pub fn copy_capability(&self) -> (r: Capability)
        ensures
            r.same(self),
    {
        Capability {
            token_id: self.token_id.clone(),
            agent_id: self.agent_id.clone(),
            action: self.action,
            scope: self.scope.clone(),
            intent_digest: self.intent_digest.clone(),
            issued_at: self.issued_at,
            expires_at: self.expires_at,
            budget: self.budget.copy_map(),
        }
    }
}

} // verus!
