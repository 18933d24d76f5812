//! Specialist identities, their registry, and tenant consent grants.
use crate::canon::{json_nat, json_text, json_text_list, lit, push_lit, push_nat, push_text, push_text_set, push_text_vec};
use crate::collections::{entries_map, TextMap, TextSet};
use crate::digest::{digest_bytes, sha256_hex};
use crate::error::{invalid, rejected, Error};
use crate::order::text_eq;
use crate::json::{json_equal, push_value, value_bytes, copy_value, item_models, lemma_item_models, lemma_member_models, member_models, model, JsonModel, JsonValue};
use crate::text::{is_digest, text_chars, valid_digest};
use vstd::prelude::*;

verus! {

/// A specialist bound to exact code and policy digests.
#[derive(Debug)]
pub struct SpecialistIdentity {
    pub specialist_id: String,
    pub version: String,
    pub code_digest: String,
    pub policy_digest: String,
    pub issued_at: u64,
}

impl Clone for SpecialistIdentity {
    fn clone(&self) -> (r: Self)
        ensures
            r.same(self),
    {
        SpecialistIdentity {
            specialist_id: self.specialist_id.clone(),
            version: self.version.clone(),
            code_digest: self.code_digest.clone(),
            policy_digest: self.policy_digest.clone(),
            issued_at: self.issued_at,
        }
    }
}

impl SpecialistIdentity {
    /// Field-by-field equality.
    pub open spec fn same(&self, other: &SpecialistIdentity) -> bool {
        &&& self.specialist_id@ == other.specialist_id@
        &&& self.version@ == other.version@
        &&& self.code_digest@ == other.code_digest@
        &&& self.policy_digest@ == other.policy_digest@
        &&& self.issued_at == other.issued_at
    }

    pub open spec fn spec_valid(&self) -> bool {
        &&& self.specialist_id@.len() != 0
        &&& self.version@.len() != 0
        &&& is_digest(self.code_digest@)
        &&& is_digest(self.policy_digest@)
    }

    /// The canonical encoding of the identity.
    pub open spec fn bytes(&self) -> Seq<u8> {
        lit("{\"specialist_id\":") + json_text(self.specialist_id@) + lit(",\"version\":")
            + json_text(self.version@) + lit(",\"code_digest\":") + json_text(self.code_digest@)
            + lit(",\"policy_digest\":") + json_text(self.policy_digest@) + lit(",\"issued_at\":")
            + json_nat(self.issued_at as nat) + lit("}")
    }

    pub open spec fn spec_digest(&self) -> Seq<char> {
        sha256_hex(self.bytes())
    }

    pub fn validate(&self) -> (r: Result<(), Error>)
        ensures
            r is Ok <==> self.spec_valid(),
            r matches Err(e) ==> e is Invalid,
    {
        if self.specialist_id.as_str().is_empty() || self.version.as_str().is_empty()
            || !valid_digest(self.code_digest.as_str()) || !valid_digest(
            self.policy_digest.as_str(),
        ) {
            return Err(invalid("invalid specialist identity"));
        }
        Ok(())
    }

    /// The digest of a valid identity.
    pub fn identity_digest(&self) -> (r: Result<String, Error>)
        ensures
            r is Ok <==> self.spec_valid(),
            r matches Err(e) ==> e is Invalid,
            r matches Ok(d) ==> d@ == self.spec_digest() && is_digest(d@),
    {
        self.validate()?;
        let mut out: Vec<u8> = Vec::new();
        push_lit(&mut out, "{\"specialist_id\":");
        push_text(&mut out, self.specialist_id.as_str());
        push_lit(&mut out, ",\"version\":");
        push_text(&mut out, self.version.as_str());
        push_lit(&mut out, ",\"code_digest\":");
        push_text(&mut out, self.code_digest.as_str());
        push_lit(&mut out, ",\"policy_digest\":");
        push_text(&mut out, self.policy_digest.as_str());
        push_lit(&mut out, ",\"issued_at\":");
        push_nat(&mut out, self.issued_at);
        push_lit(&mut out, "}");
        assert(out@ =~= self.bytes());
        Ok(digest_bytes(out.as_slice()))
    }
}

/// Registered specialists and the ids that were revoked.
pub struct SpecialistRegistry {
    identities: TextMap<SpecialistIdentity>,
    revoked: TextSet,
}

/// Every registered identity is valid and filed under its own id.
pub open spec fn identities_wf(m: Map<Seq<char>, SpecialistIdentity>) -> bool {
    forall|k: Seq<char>| #[trigger] m.contains_key(k) ==> m[k].spec_valid() && m[k].specialist_id@ == k
}

impl SpecialistRegistry {
    #[verifier::type_invariant]
    spec fn wf(self) -> bool {
        identities_wf(entries_map(self.identities@))
    }

    /// Registered identities by specialist id.
    pub closed spec fn identity_map(&self) -> Map<Seq<char>, SpecialistIdentity> {
        entries_map(self.identities@)
    }

    /// The revoked specialist ids.
    pub closed spec fn revoked_ids(&self) -> Seq<Seq<char>> {
        self.revoked@
    }

    /// The identity `resolve` gives for `id` at `now`.
    pub open spec fn spec_resolve(&self, id: Seq<char>, now: u64) -> Option<SpecialistIdentity> {
        if self.identity_map().contains_key(id) && !self.revoked_ids().contains(id)
            && self.identity_map()[id].issued_at <= now {
            Some(self.identity_map()[id])
        } else {
            None
        }
    }

    pub fn new() -> (r: SpecialistRegistry)
        ensures
            r.identity_map().dom().len() == 0,
            r.revoked_ids().len() == 0,
    {
        let r = SpecialistRegistry { identities: TextMap::new(), revoked: TextSet::new() };
        proof {
            assert(entries_map(r.identities@).dom() =~= Set::empty());
        }
        r
    }

    /// Registers a valid identity; an id that was revoked, or registered with
    /// other contents, is refused.
    pub fn register(&mut self, identity: SpecialistIdentity) -> (r: Result<(), Error>)
        ensures
            !identity.spec_valid() ==> (r matches Err(e) && e is Invalid),
            r is Ok <==> identity.spec_valid() && !old(self).revoked_ids().contains(
                identity.specialist_id@,
            ) && (old(self).identity_map().contains_key(identity.specialist_id@) ==> old(
                self,
            ).identity_map()[identity.specialist_id@].same(&identity)),
            identity.spec_valid() && r is Err ==> (r matches Err(e) && e is Rejected),
            r is Ok ==> final(self).identity_map() == old(self).identity_map().insert(
                identity.specialist_id@,
                identity,
            ),
            r is Err ==> final(self).identity_map() == old(self).identity_map(),
            final(self).revoked_ids() == old(self).revoked_ids(),
    {
        identity.validate()?;
        if self.revoked.contains(identity.specialist_id.as_str()) {
            return Err(rejected("specialist is revoked"));
        }
        match self.identities.get(identity.specialist_id.as_str()) {
            Some(existing) => {
                if !(text_eq(existing.specialist_id.as_str(), identity.specialist_id.as_str())
                    && text_eq(existing.version.as_str(), identity.version.as_str()) && text_eq(
                    existing.code_digest.as_str(),
                    identity.code_digest.as_str(),
                ) && text_eq(existing.policy_digest.as_str(), identity.policy_digest.as_str())
                    && existing.issued_at == identity.issued_at) {
                    return Err(rejected("specialist identity drift"));
                }
            },
            None => {},
        }
        let key = identity.specialist_id.clone();
        proof {
            use_type_invariant(&*self);
        }
        let mut taken = TextMap::new();
        std::mem::swap(&mut taken, &mut self.identities);
        taken.insert(key, identity);
        proof {
            assert(identities_wf(entries_map(taken@)));
        }
        self.identities = taken;
        Ok(())
    }

    /// Revokes a registered specialist.
    pub fn revoke(&mut self, specialist_id: &str) -> (r: Result<(), Error>)
        ensures
            r is Ok <==> old(self).identity_map().contains_key(specialist_id@),
            r matches Err(e) ==> e is Invalid,
            final(self).identity_map() == old(self).identity_map(),
            r is Ok ==> final(self).revoked_ids().to_set() == old(self).revoked_ids().to_set().insert(
                specialist_id@,
            ),
            r is Err ==> final(self).revoked_ids() == old(self).revoked_ids(),
    {
        if self.identities.contains_key(specialist_id) {
            proof {
                assert(self.identity_map().contains_key(specialist_id@));
            }
            proof {
                use_type_invariant(&*self);
            }
            let mut revoked = TextSet::new();
            std::mem::swap(&mut revoked, &mut self.revoked);
            let _ = revoked.insert(specialist_id.to_owned());
            self.revoked = revoked;
            Ok(())
        } else {
            Err(invalid("unknown specialist"))
        }
    }

    /// The registered, unrevoked identity of `specialist_id`, if issued by `now`.
    pub fn resolve(&self, specialist_id: &str, now: u64) -> (r: Option<&SpecialistIdentity>)
        ensures
            match self.spec_resolve(specialist_id@, now) {
                Some(i) => r matches Some(x) && *x == i,
                None => r is None,
            },
            r matches Some(x) ==> x.spec_valid(),
    {
        proof {
            use_type_invariant(self);
        }
        match self.identities.get(specialist_id) {
            Some(identity) => {
                if !self.revoked.contains(specialist_id) && identity.issued_at <= now {
                    Some(identity)
                } else {
                    None
                }
            },
            None => None,
        }
    }
}

impl Default for SpecialistRegistry {
    fn default() -> (r: SpecialistRegistry)
        ensures
            r.identity_map().dom().len() == 0,
            r.revoked_ids().len() == 0,
    {
        SpecialistRegistry::new()
    }
}

/// `["tenant","specialist",["resource",...],issued_at,expires_at]`.
pub open spec fn grant_material(
    tenant: Seq<char>,
    specialist: Seq<char>,
    resources: Seq<Seq<char>>,
    issued_at: u64,
    expires_at: u64,
) -> Seq<u8> {
    lit("[") + json_text(tenant) + lit(",") + json_text(specialist) + lit(",") + json_text_list(
        resources,
    ) + lit(",") + json_nat(issued_at as nat) + lit(",") + json_nat(expires_at as nat) + lit("]")
}

pub open spec fn grant_digest_of(
    tenant: Seq<char>,
    specialist: Seq<char>,
    resources: Seq<Seq<char>>,
    issued_at: u64,
    expires_at: u64,
) -> Seq<char> {
    sha256_hex(grant_material(tenant, specialist, resources, issued_at, expires_at))
}

fn grant_digest(
    tenant: &str,
    specialist: &str,
    resources: &TextSet,
    issued_at: u64,
    expires_at: u64,
) -> (r: String)
    ensures
        r@ == grant_digest_of(tenant@, specialist@, resources@, issued_at, expires_at),
        is_digest(r@),
{
    let mut out: Vec<u8> = Vec::new();
    push_lit(&mut out, "[");
    push_text(&mut out, tenant);
    push_lit(&mut out, ",");
    push_text(&mut out, specialist);
    push_lit(&mut out, ",");
    push_text_set(&mut out, resources);
    push_lit(&mut out, ",");
    push_nat(&mut out, issued_at);
    push_lit(&mut out, ",");
    push_nat(&mut out, expires_at);
    push_lit(&mut out, "]");
    assert(out@ =~= grant_material(tenant@, specialist@, resources@, issued_at, expires_at));
    digest_bytes(out.as_slice())
}

/// A tenant's consent for a specialist to use some resources for a while.
#[derive(Debug)]
pub struct ConsentGrant {
    pub tenant_id: String,
    pub specialist_id: String,
    pub resource_ids: TextSet,
    pub issued_at: u64,
    pub expires_at: u64,
    pub grant_id: String,
}

impl Clone for ConsentGrant {
    fn clone(&self) -> (r: Self)
        ensures
            r.same(self),
    {
        ConsentGrant {
            tenant_id: self.tenant_id.clone(),
            specialist_id: self.specialist_id.clone(),
            resource_ids: self.resource_ids.copy_set(),
            issued_at: self.issued_at,
            expires_at: self.expires_at,
            grant_id: self.grant_id.clone(),
        }
    }
}

impl ConsentGrant {
    /// Field-by-field equality.
    pub open spec fn same(&self, other: &ConsentGrant) -> bool {
        &&& self.tenant_id@ == other.tenant_id@
        &&& self.specialist_id@ == other.specialist_id@
        &&& self.resource_ids@ == other.resource_ids@
        &&& self.issued_at == other.issued_at
        &&& self.expires_at == other.expires_at
        &&& self.grant_id@ == other.grant_id@
    }

    /// The fields are well formed (the digest is not checked).
    pub open spec fn spec_shape_ok(&self) -> bool {
        &&& self.tenant_id@.len() != 0
        &&& self.specialist_id@.len() != 0
        &&& self.resource_ids@.len() != 0
        &&& forall|i: int| 0 <= i < self.resource_ids@.len() ==> (#[trigger] self.resource_ids@[i]).len() != 0
        &&& self.issued_at < self.expires_at
        &&& is_digest(self.grant_id@)
    }

    /// The digest the grant's fields call for.
    pub open spec fn expected_id(&self) -> Seq<char> {
        grant_digest_of(
            self.tenant_id@,
            self.specialist_id@,
            self.resource_ids@,
            self.issued_at,
            self.expires_at,
        )
    }

    pub open spec fn spec_valid(&self) -> bool {
        self.spec_shape_ok() && self.grant_id@ == self.expected_id()
    }

    pub open spec fn spec_active(&self, now: u64) -> bool {
        self.spec_valid() && self.issued_at <= now && now < self.expires_at
    }

    /// A grant over a non-empty resource set, identified by its digest.
    pub fn new(
        tenant_id: String,
        specialist_id: String,
        resource_ids: TextSet,
        issued_at: u64,
        expires_at: u64,
    ) -> (r: Result<ConsentGrant, Error>)
        ensures
            r is Ok <==> tenant_id@.len() != 0 && specialist_id@.len() != 0 && resource_ids@.len()
                != 0 && (forall|i: int|
                0 <= i < resource_ids@.len() ==> (#[trigger] resource_ids@[i]).len() != 0)
                && issued_at < expires_at,
            r matches Err(e) ==> e is Invalid,
            r matches Ok(g) ==> {
                &&& g.tenant_id@ == tenant_id@
                &&& g.specialist_id@ == specialist_id@
                &&& g.resource_ids@ == resource_ids@
                &&& g.issued_at == issued_at
                &&& g.expires_at == expires_at
                &&& g.grant_id@ == g.expected_id()
                &&& g.spec_valid()
            },
    {
        if tenant_id.as_str().is_empty() || specialist_id.as_str().is_empty()
            || resource_ids.is_empty() || expires_at <= issued_at {
            return Err(invalid("invalid consent grant"));
        }
        let grant_id = grant_digest(
            tenant_id.as_str(),
            specialist_id.as_str(),
            &resource_ids,
            issued_at,
            expires_at,
        );
        let grant = ConsentGrant {
            tenant_id,
            specialist_id,
            resource_ids,
            issued_at,
            expires_at,
            grant_id,
        };
        grant.validate()?;
        Ok(grant)
    }

    /// Malformed fields are invalid; a grant id that does not match the
    /// fields is rejected.
    pub fn validate(&self) -> (r: Result<(), Error>)
        ensures
            r is Ok <==> self.spec_valid(),
            !self.spec_shape_ok() ==> (r matches Err(e) && e is Invalid),
            self.spec_shape_ok() && !self.spec_valid() ==> (r matches Err(e) && e is Rejected),
    {
        let mut any_empty = false;
        let n = self.resource_ids.len();
        for i in 0..n
            invariant
                n == self.resource_ids@.len(),
                any_empty == exists|k: int| 0 <= k < i && (#[trigger] self.resource_ids@[k]).len()
                    == 0,
        {
            if self.resource_ids.get(i).as_str().is_empty() {
                any_empty = true;
            }
        }
        if self.tenant_id.as_str().is_empty() || self.specialist_id.as_str().is_empty()
            || self.resource_ids.is_empty() || any_empty || self.expires_at <= self.issued_at
            || !valid_digest(self.grant_id.as_str()) {
            return Err(invalid("invalid consent grant"));
        }
        let expected = grant_digest(
            self.tenant_id.as_str(),
            self.specialist_id.as_str(),
            &self.resource_ids,
            self.issued_at,
            self.expires_at,
        );
        if !text_eq(expected.as_str(), self.grant_id.as_str()) {
            return Err(rejected("consent grant digest mismatch"));
        }
        Ok(())
    }

    pub fn active(&self, now: u64) -> (r: bool)
        ensures
            r == self.spec_active(now),
    {
        self.validate().is_ok() && self.issued_at <= now && now < self.expires_at
    }

    /// The grant covers `resource_id`, or every resource (`*`).
    pub fn allows(&self, resource_id: &str) -> (r: bool)
        ensures
            r == (self.resource_ids@.contains(resource_id@) || self.resource_ids@.contains("*"@)),
    {
        self.resource_ids.contains(resource_id) || self.resource_ids.contains("*")
    }
}

/// Kinds of telemetry events.
#[derive(Clone, Copy, Debug, PartialEq, Eq, Structural)]
pub enum TelemetryEvent {
    Proposal,
    Decision,
    Execution,
    Freeze,
    Kill,
    Rollback,
}

/// Outcomes reported with telemetry events.
#[derive(Clone, Copy, Debug, PartialEq, Eq, Structural)]
pub enum TelemetryOutcome {
    Accepted,
    Rejected,
    Quarantined,
    Completed,
    Failed,
    Frozen,
    Killed,
    RolledBack,
}


// ------------------------------------------------------------ telemetry

/// ASCII upper-case letters to lower case; every other character is kept.
pub open spec fn lower_char(c: char) -> char {
    if 'A' <= c <= 'Z' {
        ((c as u32) + 32) as char
    } else {
        c
    }
}

pub open spec fn ascii_lower(s: Seq<char>) -> Seq<char> {
    s.map_values(|c: char| lower_char(c))
}

/// `fragment` occurs in `s`.
pub open spec fn has_fragment(s: Seq<char>, fragment: Seq<char>) -> bool {
    exists|i: int|
        0 <= i && i + fragment.len() <= s.len() && #[trigger] s.subrange(i, i + fragment.len())
            == fragment
}

/// The fragments that mark a field as sensitive, in lower case.
pub open spec fn sensitive_fragment(i: int) -> Seq<char> {
    if i == 0 {
        "credential"@
    } else if i == 1 {
        "token"@
    } else if i == 2 {
        "secret"@
    } else if i == 3 {
        "password"@
    } else if i == 4 {
        "prompt"@
    } else if i == 5 {
        "payload"@
    } else {
        "content"@
    }
}

/// A field name is sensitive when its ASCII lower-case form contains one of
/// the sensitive fragments.
pub open spec fn sensitive_key(key: Seq<char>) -> bool {
    exists|i: int| 0 <= i < 7 && has_fragment(ascii_lower(key), #[trigger] sensitive_fragment(i))
}

/// The value with every sensitive field of every object removed, at any
/// depth; order is kept.
pub open spec fn redacted(v: JsonModel) -> JsonModel
    decreases v, 0int,
{
    match v {
        JsonModel::Array(items) => JsonModel::Array(redacted_items(items, items.len() as int)),
        JsonModel::Object(members) => JsonModel::Object(
            redacted_members(members, members.len() as int),
        ),
        other => other,
    }
}

pub open spec fn redacted_items(items: Seq<JsonModel>, n: int) -> Seq<JsonModel>
    decreases items, n,
{
    if n <= 0 || n > items.len() {
        Seq::empty()
    } else {
        redacted_items(items, n - 1).push(redacted(items[n - 1]))
    }
}

pub open spec fn redacted_members(members: Seq<(Seq<char>, JsonModel)>, n: int) -> Seq<
    (Seq<char>, JsonModel),
>
    decreases members, n,
{
    if n <= 0 || n > members.len() {
        Seq::empty()
    } else if sensitive_key(members[n - 1].0) {
        redacted_members(members, n - 1)
    } else {
        redacted_members(members, n - 1).push((members[n - 1].0, redacted(members[n - 1].1)))
    }
}

/// No object at any depth has a sensitive field.
pub open spec fn free_of_sensitive(v: JsonModel) -> bool
    decreases v, 0int,
{
    match v {
        JsonModel::Array(items) => items_free(items, items.len() as int),
        JsonModel::Object(members) => members_free(members, members.len() as int),
        _ => true,
    }
}

pub open spec fn items_free(items: Seq<JsonModel>, n: int) -> bool
    decreases items, n,
{
    if n <= 0 || n > items.len() {
        true
    } else {
        items_free(items, n - 1) && free_of_sensitive(items[n - 1])
    }
}

pub open spec fn members_free(members: Seq<(Seq<char>, JsonModel)>, n: int) -> bool
    decreases members, n,
{
    if n <= 0 || n > members.len() {
        true
    } else {
        members_free(members, n - 1) && !sensitive_key(members[n - 1].0) && free_of_sensitive(
            members[n - 1].1,
        )
    }
}

fn fragment_text(i: usize) -> (r: &'static str)
    requires
        i < 7,
    ensures
        r@ == sensitive_fragment(i as int),
{
    if i == 0 {
        "credential"
    } else if i == 1 {
        "token"
    } else if i == 2 {
        "secret"
    } else if i == 3 {
        "password"
    } else if i == 4 {
        "prompt"
    } else if i == 5 {
        "payload"
    } else {
        "content"
    }
}

fn contains_fragment(s: &Vec<char>, f: &Vec<char>) -> (r: bool)
    ensures
        r == has_fragment(s@, f@),
{
    let n = s.len();
    let m = f.len();
    if m > n {
        proof {
            assert forall|i: int|
                0 <= i && i + f@.len() <= s@.len() implies #[trigger] s@.subrange(i, i + f@.len())
                != f@ by {}
        }
        return false;
    }
    let mut i: usize = 0;
    while i <= n - m
        invariant
            m <= n,
            n == s@.len(),
            m == f@.len(),
            forall|k: int| 0 <= k < i ==> #[trigger] s@.subrange(k, k + m as int) != f@,
        decreases n - m + 1 - i,
    {
        let mut j: usize = 0;
        let mut same = true;
        while j < m
            invariant
                j <= m,
                i + m <= n,
                n == s@.len(),
                m == f@.len(),
                same == forall|k: int| 0 <= k < j ==> s@[i + k] == f@[k],
            decreases m - j,
        {
            if s[i + j] != f[j] {
                same = false;
            }
            j = j + 1;
        }
        if same {
            proof {
                assert(s@.subrange(i as int, i + m as int) =~= f@);
            }
            return true;
        }
        proof {
            let k = choose|k: int| 0 <= k < m && s@[i + k] != f@[k];
            assert(s@.subrange(i as int, i + m as int)[k] != f@[k]);
        }
        i = i + 1;
    }
    proof {
        assert forall|k: int| 0 <= k && k + f@.len() <= s@.len() implies #[trigger] s@.subrange(
            k,
            k + f@.len(),
        ) != f@ by {
            assert(k < i);
        }
    }
    false
}

/// Whether a field name is sensitive.
pub fn is_sensitive_key(key: &str) -> (r: bool)
    ensures
        r == sensitive_key(key@),
{
    let chars = text_chars(key);
    let mut lower: Vec<char> = Vec::new();
    for i in 0..chars.len()
        invariant
            chars@ == key@,
            lower@ == ascii_lower(key@).take(i as int),
    {
        let c = chars[i];
        let l = if 'A' <= c && c <= 'Z' {
            ((c as u8) + 32) as char
        } else {
            c
        };
        proof {
            assert(ascii_lower(key@).take(i + 1) =~= ascii_lower(key@).take(i as int).push(l));
        }
        lower.push(l);
    }
    proof {
        assert(ascii_lower(key@).take(key@.len() as int) =~= ascii_lower(key@));
    }
    for k in 0..7
        invariant
            lower@ == ascii_lower(key@),
            forall|j: int| 0 <= j < k ==> !has_fragment(ascii_lower(key@), #[trigger] sensitive_fragment(j)),
    {
        let fragment = text_chars(fragment_text(k));
        if contains_fragment(&lower, &fragment) {
            return true;
        }
    }
    false
}

/// Removes every sensitive field of every object, at any depth.
pub fn redact(v: &JsonValue) -> (r: JsonValue)
    ensures
        r@ == redacted(v@),
    decreases v,
{
    match v {
        JsonValue::Array(items) => {
            let out = redact_items(items);
            proof {
                lemma_item_models(out@, out@.len() as int);
                lemma_item_models(items@, items@.len() as int);
                lemma_redacted_items_index(
                    item_models(items@, items@.len() as int),
                    items@.len() as int,
                );
                let im = item_models(items@, items@.len() as int);
                assert forall|i: int| 0 <= i < out@.len() implies item_models(out@, out@.len() as int)[i]
                    == redacted_items(im, items@.len() as int)[i] by {
                    assert(item_models(out@, out@.len() as int)[i] == model(out@[i]));
                    assert(im[i] == model(items@[i]));
                    assert(redacted_items(im, items@.len() as int)[i] == redacted(im[i]));
                }
                assert(item_models(out@, out@.len() as int) =~= redacted_items(
                    item_models(items@, items@.len() as int),
                    items@.len() as int,
                ));
            }
            let r = JsonValue::Array(out);
            proof {
                let im = item_models(items@, items@.len() as int);
                assert(v@ == JsonModel::Array(im));
                assert(im.len() == items@.len());
                assert(redacted(v@) == JsonModel::Array(redacted_items(im, im.len() as int)));
                assert(r@ == JsonModel::Array(item_models(out@, out@.len() as int)));
                assert(item_models(out@, out@.len() as int) == redacted_items(im, im.len() as int));
                assert(r@ == redacted(v@));
            }
            r
        },
        JsonValue::Object(members) => {
            let out = redact_members(members);
            let r = JsonValue::Object(out);
            proof {
                lemma_member_models(members@, members@.len() as int);
                let mm = member_models(members@, members@.len() as int);
                assert(v@ == JsonModel::Object(mm));
                assert(redacted(v@) == JsonModel::Object(redacted_members(mm, mm.len() as int)));
                assert(r@ == redacted(v@));
            }
            r
        },
        other => copy_value(other),
    }
}

proof fn lemma_redacted_items_index(items: Seq<JsonModel>, n: int)
    requires
        0 <= n <= items.len(),
    ensures
        redacted_items(items, n).len() == n,
        forall|i: int| 0 <= i < n ==> redacted_items(items, n)[i] == redacted(#[trigger] items[i]),
    decreases n,
{
    if n > 0 {
        lemma_redacted_items_index(items, n - 1);
    }
}

fn redact_items(items: &Vec<JsonValue>) -> (r: Vec<JsonValue>)
    ensures
        r@.len() == items@.len(),
        forall|i: int| 0 <= i < items@.len() ==> model(#[trigger] r@[i]) == redacted(model(items@[i])),
    decreases items,
{
    let mut r: Vec<JsonValue> = Vec::new();
    let n = items.len();
    for i in 0..n
        invariant
            n == items@.len(),
            r@.len() == i,
            forall|k: int| 0 <= k < i ==> model(#[trigger] r@[k]) == redacted(model(items@[k])),
    {
        proof {
            assert(decreases_to!(*items => items@));
            assert(decreases_to!(items@ => items@[i as int]));
        }
        r.push(redact(&items[i]));
    }
    r
}

fn redact_members(members: &Vec<(String, JsonValue)>) -> (r: Vec<(String, JsonValue)>)
    ensures
        member_models(r@, r@.len() as int) == redacted_members(
            member_models(members@, members@.len() as int),
            members@.len() as int,
        ),
    decreases members,
{
    let ghost mm = member_models(members@, members@.len() as int);
    proof {
        lemma_member_models(members@, members@.len() as int);
    }
    let mut r: Vec<(String, JsonValue)> = Vec::new();
    let n = members.len();
    for i in 0..n
        invariant
            n == members@.len(),
            mm == member_models(members@, members@.len() as int),
            mm.len() == n,
            forall|k: int|
                0 <= k < n ==> mm[k] == (#[trigger] members@[k].0@, model(members@[k].1)),
            member_models(r@, r@.len() as int) == redacted_members(mm, i as int),
    {
        proof {
            assert(decreases_to!(*members => members@));
            assert(decreases_to!(members@ => members@[i as int]));
            assert(decreases_to!(members@[i as int] => members@[i as int].1));
        }
        if !is_sensitive_key(members[i].0.as_str()) {
            let value = redact(&members[i].1);
            let ghost before = r@;
            r.push((members[i].0.clone(), value));
            proof {
                assert(r@.drop_last() == before);
                lemma_member_models_push(before, r@);
            }
        }
    }
    r
}

proof fn lemma_member_models_push(before: Seq<(String, JsonValue)>, after: Seq<(String, JsonValue)>)
    requires
        after.len() == before.len() + 1,
        after.drop_last() == before,
    ensures
        member_models(after, after.len() as int) == member_models(before, before.len() as int).push(
            (after.last().0@, model(after.last().1)),
        ),
{
    lemma_member_models_prefix(after, before.len() as int);
    assert forall|k: int| 0 <= k <= before.len() implies member_models(after, k) == member_models(before, k) by {
        lemma_member_models_same(after, before, k);
    }
}

proof fn lemma_member_models_prefix(s: Seq<(String, JsonValue)>, n: int)
    requires
        0 <= n < s.len(),
    ensures
        member_models(s, n + 1) == member_models(s, n).push((s[n].0@, model(s[n].1))),
{
}

proof fn lemma_member_models_same(a: Seq<(String, JsonValue)>, b: Seq<(String, JsonValue)>, k: int)
    requires
        0 <= k <= b.len(),
        b.len() < a.len(),
        forall|i: int| 0 <= i < b.len() ==> a[i] == b[i],
    ensures
        member_models(a, k) == member_models(b, k),
    decreases k,
{
    if k > 0 {
        lemma_member_models_same(a, b, k - 1);
    }
}

/// Redaction leaves no sensitive field anywhere in the value.
pub proof fn lemma_redaction_removes_sensitive_fields(v: JsonModel)
    ensures
        free_of_sensitive(redacted(v)),
    decreases v, 0int,
{
    match v {
        JsonModel::Array(items) => {
            lemma_redacted_items_free(items, items.len() as int);
        },
        JsonModel::Object(members) => {
            lemma_redacted_members_free(members, members.len() as int);
        },
        _ => {},
    }
}

proof fn lemma_redacted_items_free(items: Seq<JsonModel>, n: int)
    ensures
        items_free(redacted_items(items, n), redacted_items(items, n).len() as int),
    decreases items, n,
{
    if n <= 0 || n > items.len() {
    } else {
        lemma_redacted_items_free(items, n - 1);
        lemma_redaction_removes_sensitive_fields(items[n - 1]);
        let prev = redacted_items(items, n - 1);
        let cur = redacted_items(items, n);
        assert(cur == prev.push(redacted(items[n - 1])));
        lemma_items_free_prefix(cur, prev, prev.len() as int);
    }
}

proof fn lemma_items_free_prefix(a: Seq<JsonModel>, b: Seq<JsonModel>, k: int)
    requires
        0 <= k <= b.len(),
        b.len() < a.len(),
        forall|i: int| 0 <= i < b.len() ==> a[i] == b[i],
    ensures
        items_free(a, k) == items_free(b, k),
    decreases k,
{
    if k > 0 {
        lemma_items_free_prefix(a, b, k - 1);
    }
}

proof fn lemma_members_free_prefix(
    a: Seq<(Seq<char>, JsonModel)>,
    b: Seq<(Seq<char>, JsonModel)>,
    k: int,
)
    requires
        0 <= k <= b.len(),
        b.len() < a.len(),
        forall|i: int| 0 <= i < b.len() ==> a[i] == b[i],
    ensures
        members_free(a, k) == members_free(b, k),
    decreases k,
{
    if k > 0 {
        lemma_members_free_prefix(a, b, k - 1);
    }
}

proof fn lemma_redacted_members_free(members: Seq<(Seq<char>, JsonModel)>, n: int)
    ensures
        members_free(redacted_members(members, n), redacted_members(members, n).len() as int),
    decreases members, n,
{
    if n <= 0 || n > members.len() {
    } else {
        lemma_redacted_members_free(members, n - 1);
        if !sensitive_key(members[n - 1].0) {
            lemma_redaction_removes_sensitive_fields(members[n - 1].1);
            let prev = redacted_members(members, n - 1);
            let cur = redacted_members(members, n);
            lemma_members_free_prefix(cur, prev, prev.len() as int);
        }
    }
}

/// A telemetry record whose fields were redacted on construction.
#[derive(Debug, PartialEq)]
pub struct RedactedTelemetry {
    pub event: TelemetryEvent,
    pub outcome: TelemetryOutcome,
    pub identity_digest: String,
    pub fields: JsonValue,
}

impl RedactedTelemetry {
    /// Records an event about an identity, keeping only the fields that
    /// are not sensitive.
    pub fn new(
        event: TelemetryEvent,
        outcome: TelemetryOutcome,
        identity_digest: String,
        fields: JsonValue,
    ) -> (r: Result<RedactedTelemetry, Error>)
        ensures
            r is Ok <==> is_digest(identity_digest@),
            r matches Err(e) ==> e is Invalid,
            r matches Ok(t) ==> {
                &&& t.event == event
                &&& t.outcome == outcome
                &&& t.identity_digest@ == identity_digest@
                &&& t.fields@ == redacted(fields@)
                &&& free_of_sensitive(t.fields@)
            },
    {
        if !valid_digest(identity_digest.as_str()) {
            return Err(invalid("telemetry identity digest is invalid"));
        }
        let redacted_fields = redact(&fields);
        proof {
            lemma_redaction_removes_sensitive_fields(fields@);
        }
        Ok(RedactedTelemetry { event, outcome, identity_digest, fields: redacted_fields })
    }
}


// ------------------------------------------------------------ tools

/// A tool the specialist may call, bound to its schema and implementation.
#[derive(Debug, PartialEq)]
pub struct ToolManifest {
    pub tool_id: String,
    pub version: String,
    pub schema: JsonValue,
    pub implementation_digest: String,
}

/// The two manifests carry the same values.
pub open spec fn same_manifest(a: ToolManifest, b: ToolManifest) -> bool {
    &&& a.tool_id@ == b.tool_id@
    &&& a.version@ == b.version@
    &&& a.schema@ == b.schema@
    &&& a.implementation_digest@ == b.implementation_digest@
}

impl ToolManifest {
    pub open spec fn spec_valid(&self) -> bool {
        &&& self.tool_id@.len() != 0
        &&& self.version@.len() != 0
        &&& is_digest(self.implementation_digest@)
    }

    /// `["tool_id","version",schema,"implementation_digest"]`.
    pub open spec fn identity_bytes(&self) -> Seq<u8> {
        lit("[") + json_text(self.tool_id@) + lit(",") + json_text(self.version@) + lit(",")
            + value_bytes(self.schema@) + lit(",") + json_text(self.implementation_digest@) + lit(
            "]",
        )
    }

    pub open spec fn spec_identity(&self) -> Seq<char> {
        sha256_hex(self.identity_bytes())
    }

    pub fn validate(&self) -> (r: Result<(), Error>)
        ensures
            r is Ok <==> self.spec_valid(),
            r matches Err(e) ==> e is Invalid,
    {
        if self.tool_id.as_str().is_empty() || self.version.as_str().is_empty() || !valid_digest(
            self.implementation_digest.as_str(),
        ) {
            return Err(invalid("invalid tool manifest"));
        }
        Ok(())
    }

    /// The digest of a valid manifest's identity.
    pub fn identity_digest(&self) -> (r: Result<String, Error>)
        ensures
            r is Ok <==> self.spec_valid(),
            r matches Err(e) ==> e is Invalid,
            r matches Ok(d) ==> d@ == self.spec_identity() && is_digest(d@),
    {
        self.validate()?;
        let mut out: Vec<u8> = Vec::new();
        push_lit(&mut out, "[");
        push_text(&mut out, self.tool_id.as_str());
        push_lit(&mut out, ",");
        push_text(&mut out, self.version.as_str());
        push_lit(&mut out, ",");
        push_value(&mut out, &self.schema);
        push_lit(&mut out, ",");
        push_text(&mut out, self.implementation_digest.as_str());
        push_lit(&mut out, "]");
        assert(out@ =~= self.identity_bytes());
        Ok(digest_bytes(out.as_slice()))
    }

    fn same_as(&self, other: &ToolManifest) -> (r: bool)
        ensures
            r == same_manifest(*self, *other),
    {
        text_eq(self.tool_id.as_str(), other.tool_id.as_str()) && text_eq(
            self.version.as_str(),
            other.version.as_str(),
        ) && json_equal(&self.schema, &other.schema) && text_eq(
            self.implementation_digest.as_str(),
            other.implementation_digest.as_str(),
        )
    }
}

/// The identities of the manifests, in tool-id order.
pub open spec fn manifest_identities(e: Seq<(Seq<char>, ToolManifest)>) -> Seq<Seq<char>> {
    e.map_values(|p: (Seq<char>, ToolManifest)| p.1.spec_identity())
}

/// The digest of the list of tool identities.
pub open spec fn tool_list_digest(e: Seq<(Seq<char>, ToolManifest)>) -> Seq<char> {
    sha256_hex(json_text_list(manifest_identities(e)))
}

/// The registered tools; once frozen, the list cannot change.
pub struct ToolRegistry {
    manifests: TextMap<ToolManifest>,
    frozen_digest: Option<String>,
}

impl ToolRegistry {
    #[verifier::type_invariant]
    spec fn wf(self) -> bool {
        forall|k: Seq<char>|
            #[trigger] entries_map(self.manifests@).contains_key(k) ==> entries_map(
                self.manifests@,
            )[k].spec_valid()
    }

    /// The manifests in tool-id order.
    pub closed spec fn entries(&self) -> Seq<(Seq<char>, ToolManifest)> {
        self.manifests@
    }

    pub closed spec fn spec_frozen_digest(&self) -> Option<Seq<char>> {
        match self.frozen_digest {
            Some(d) => Some(d@),
            None => None,
        }
    }

    pub fn new() -> (r: ToolRegistry)
        ensures
            r.entries().len() == 0,
            r.spec_frozen_digest() is None,
    {
        ToolRegistry { manifests: TextMap::new(), frozen_digest: None }
    }

    /// Registers a valid manifest; a frozen list, or a different manifest
    /// under a registered id, is refused.
    pub fn register(&mut self, manifest: ToolManifest) -> (r: Result<(), Error>)
        ensures
            !manifest.spec_valid() ==> (r matches Err(e) && e is Invalid),
            manifest.spec_valid() && old(self).spec_frozen_digest() is Some ==> (r matches Err(e)
                && e is Rejected),
            r is Err ==> final(self).entries() == old(self).entries()
                && final(self).spec_frozen_digest() == old(self).spec_frozen_digest(),
            r is Ok <==> manifest.spec_valid() && old(self).spec_frozen_digest() is None && (
            entries_map(old(self).entries()).contains_key(manifest.tool_id@) ==> same_manifest(
                entries_map(old(self).entries())[manifest.tool_id@],
                manifest,
            )),
            r is Ok ==> entries_map(final(self).entries()) == entries_map(old(self).entries()).insert(
                manifest.tool_id@,
                manifest,
            ) && final(self).spec_frozen_digest() is None,
    {
        proof {
            use_type_invariant(&*self);
        }
        manifest.validate()?;
        if self.frozen_digest.is_some() {
            return Err(rejected("tool list is frozen"));
        }
        let drift = match self.manifests.get(manifest.tool_id.as_str()) {
            Some(existing) => !existing.same_as(&manifest),
            None => false,
        };
        if drift {
            return Err(rejected("tool manifest drift"));
        }
        let ghost before = self.manifests@;
        let mut manifests = TextMap::new();
        std::mem::swap(&mut manifests, &mut self.manifests);
        let key = manifest.tool_id.clone();
        manifests.insert(key, manifest);
        self.manifests = manifests;
        Ok(())
    }

    fn identities(&self) -> (r: Vec<String>)
        ensures
            r@.map_values(|s: String| s@) == manifest_identities(self.entries()),
    {
        proof {
            use_type_invariant(self);
        }
        let mut out: Vec<String> = Vec::new();
        let n = self.manifests.len();
        for i in 0..n
            invariant
                n == self.manifests@.len(),
                forall|k: Seq<char>|
                    #[trigger] entries_map(self.manifests@).contains_key(k) ==> entries_map(
                        self.manifests@,
                    )[k].spec_valid(),
                out@.len() == i,
                forall|k: int|
                    0 <= k < i ==> (#[trigger] out@[k])@ == self.manifests@[k].1.spec_identity(),
        {
            let _ = self.manifests.key_at(i);
            let m = self.manifests.value_at(i);
            assert(self.manifests@[i as int].1 == *m);
            assert(m.spec_valid());
            match m.identity_digest() {
                Ok(d) => out.push(d),
                Err(_) => {
                    proof {
                        assert(false);
                    }
                    out.push(String::new());
                },
            }
        }
        proof {
            assert(out@.map_values(|s: String| s@) =~= manifest_identities(self.entries()));
        }
        out
    }

    fn list_digest(&self) -> (r: String)
        ensures
            r@ == tool_list_digest(self.entries()),
    {
        let ids = self.identities();
        let mut out: Vec<u8> = Vec::new();
        push_text_vec(&mut out, &ids);
        digest_bytes(out.as_slice())
    }

    /// Freezes the tool list and answers its digest.
    pub fn freeze(&mut self) -> (r: Result<String, Error>)
        ensures
            r matches Ok(d) && d@ == tool_list_digest(old(self).entries()),
            final(self).entries() == old(self).entries(),
            final(self).spec_frozen_digest() == Some(tool_list_digest(old(self).entries())),
    {
        proof {
            use_type_invariant(&*self);
        }
        let list = self.list_digest();
        self.frozen_digest = Some(list.clone());
        Ok(list)
    }

    /// Whether the list is frozen and still has the digest it was frozen
    /// with.
    pub fn check_drift(&self) -> (r: bool)
        ensures
            r == (self.spec_frozen_digest() == Some(tool_list_digest(self.entries()))),
    {
        match &self.frozen_digest {
            Some(expected) => {
                let current = self.list_digest();
                text_eq(current.as_str(), expected.as_str())
            },
            None => false,
        }
    }
}

impl Default for ToolRegistry {
    fn default() -> (r: ToolRegistry)
        ensures
            r.entries().len() == 0,
            r.spec_frozen_digest() is None,
    {
        ToolRegistry::new()
    }
}

/// A frozen tool list does not drift: every registration after the freeze
/// is refused and leaves the list as it was, so the drift check keeps
/// passing.
pub proof fn lemma_frozen_tools_do_not_drift(
    frozen: ToolRegistry,
    after: ToolRegistry,
    manifest: ToolManifest,
    r: Result<(), Error>,
)
    requires
        frozen.spec_frozen_digest() == Some(tool_list_digest(frozen.entries())),
        !manifest.spec_valid() ==> (r matches Err(e) && e is Invalid),
        manifest.spec_valid() && frozen.spec_frozen_digest() is Some ==> (r matches Err(e)
            && e is Rejected),
        r is Err ==> after.entries() == frozen.entries() && after.spec_frozen_digest()
            == frozen.spec_frozen_digest(),
    ensures
        r is Err,
        after.spec_frozen_digest() == Some(tool_list_digest(after.entries())),
{
}

// ------------------------------------------------------------ retrieval

/// Tenant resources served to specialists under registered consent.
pub struct TenantRetrieval {
    records: TextMap<TextMap<JsonValue>>,
    grants: TextMap<ConsentGrant>,
}

impl TenantRetrieval {
    /// The value stored for `tenant`'s `resource`, if any.
    pub closed spec fn value_of(&self, tenant: Seq<char>, resource: Seq<char>) -> Option<JsonModel> {
        let outer = entries_map(self.records@);
        if outer.contains_key(tenant) && entries_map(outer[tenant]@).contains_key(resource) {
            Some(entries_map(outer[tenant]@)[resource]@)
        } else {
            None
        }
    }

    /// The registered grant with this id, if any.
    pub closed spec fn grant_of(&self, grant_id: Seq<char>) -> Option<ConsentGrant> {
        if entries_map(self.grants@).contains_key(grant_id) {
            Some(entries_map(self.grants@)[grant_id])
        } else {
            None
        }
    }

    pub fn new() -> (r: TenantRetrieval)
        ensures
            forall|t: Seq<char>, res: Seq<char>| #[trigger] r.value_of(t, res) is None,
            forall|g: Seq<char>| #[trigger] r.grant_of(g) is None,
    {
        TenantRetrieval { records: TextMap::new(), grants: TextMap::new() }
    }

    /// Stores a tenant's resource.
    pub fn put(&mut self, tenant_id: String, resource_id: String, value: JsonValue) -> (r: Result<
        (),
        Error,
    >)
        ensures
            r is Ok <==> tenant_id@.len() != 0 && resource_id@.len() != 0,
            r matches Err(e) ==> e is Invalid && *final(self) == *old(self),
            r is Ok ==> {
                &&& final(self).value_of(tenant_id@, resource_id@) == Some(value@)
                &&& forall|t: Seq<char>, res: Seq<char>|
                    !(t == tenant_id@ && res == resource_id@) ==> #[trigger] final(self).value_of(
                        t,
                        res,
                    ) == old(self).value_of(t, res)
                &&& forall|g: Seq<char>| #[trigger] final(self).grant_of(g) == old(self).grant_of(g)
            },
    {
        if tenant_id.as_str().is_empty() || resource_id.as_str().is_empty() {
            return Err(invalid("tenant and resource are required"));
        }
        let ghost o = *self;
        let ghost v = value@;
        let mut inner = match self.records.remove(tenant_id.as_str()) {
            Some(m) => m,
            None => TextMap::new(),
        };
        let ghost inner_before = inner;
        let ghost rk = resource_id@;
        let ghost tk = tenant_id@;
        inner.insert(resource_id, value);
        self.records.insert(tenant_id, inner);
        proof {
            assert forall|t: Seq<char>, res: Seq<char>|
                !(t == tk && res == rk) implies #[trigger] self.value_of(t, res) == o.value_of(t, res) by {
                if t == tk {
                    assert(entries_map(inner@) == entries_map(inner_before@).insert(rk, entries_map(inner@)[rk]));
                }
            }
        }
        Ok(())
    }

    /// Registers a valid consent grant under its id.
    pub fn grant(&mut self, grant: ConsentGrant) -> (r: Result<(), Error>)
        ensures
            r is Ok <==> grant.spec_valid(),
            r matches Err(e) ==> (e is Invalid || e is Rejected) && *final(self) == *old(self),
            r is Ok ==> {
                &&& final(self).grant_of(grant.grant_id@) == Some(grant)
                &&& forall|g: Seq<char>|
                    g != grant.grant_id@ ==> #[trigger] final(self).grant_of(g) == old(self).grant_of(g)
                &&& forall|t: Seq<char>, res: Seq<char>|
                    #[trigger] final(self).value_of(t, res) == old(self).value_of(t, res)
            },
    {
        grant.validate()?;
        let key = grant.grant_id.clone();
        self.grants.insert(key, grant);
        Ok(())
    }

    /// Withdraws a grant.
    pub fn revoke(&mut self, grant_id: &str)
        ensures
            final(self).grant_of(grant_id@) is None,
            forall|g: Seq<char>|
                g != grant_id@ ==> #[trigger] final(self).grant_of(g) == old(self).grant_of(g),
            forall|t: Seq<char>, res: Seq<char>|
                #[trigger] final(self).value_of(t, res) == old(self).value_of(t, res),
    {
        let _ = self.grants.remove(grant_id);
    }

    /// The tenant's resource, served only under a valid, registered, active
    /// grant that covers it, for a specialist the registry resolves.
    pub fn retrieve(
        &self,
        registry: &SpecialistRegistry,
        grant: &ConsentGrant,
        resource_id: &str,
        now: u64,
    ) -> (r: Result<JsonValue, Error>)
        ensures
            ({
                let permitted = grant.spec_valid() && (self.grant_of(grant.grant_id@) matches Some(
                    g,
                ) && g.same(grant)) && grant.spec_active(now) && (grant.resource_ids@.contains(
                    resource_id@,
                ) || grant.resource_ids@.contains("*"@)) && registry.spec_resolve(
                    grant.specialist_id@,
                    now,
                ) is Some;
                &&& !permitted ==> (r matches Err(e) && e is Rejected)
                &&& permitted ==> match self.value_of(grant.tenant_id@, resource_id@) {
                    Some(v) => r matches Ok(x) && x@ == v,
                    None => r matches Err(e) && e is Invalid,
                }
            }),
    {
        let registered = match self.grants.get(grant.grant_id.as_str()) {
            Some(g) => same_grant(g, grant),
            None => false,
        };
        if grant.validate().is_err() || !registered || !grant.active(now) || !grant.allows(
            resource_id,
        ) || registry.resolve(grant.specialist_id.as_str(), now).is_none() {
            return Err(rejected("consent or specialist is invalid"));
        }
        let inner = match self.records.get(grant.tenant_id.as_str()) {
            Some(m) => m,
            None => {
                return Err(invalid("resource not found"));
            },
        };
        match inner.get(resource_id) {
            Some(v) => Ok(copy_value(v)),
            None => Err(invalid("resource not found")),
        }
    }
}

impl Default for TenantRetrieval {
    fn default() -> (r: TenantRetrieval)
        ensures
            forall|t: Seq<char>, res: Seq<char>| #[trigger] r.value_of(t, res) is None,
            forall|g: Seq<char>| #[trigger] r.grant_of(g) is None,
    {
        TenantRetrieval::new()
    }
}

fn same_grant(a: &ConsentGrant, b: &ConsentGrant) -> (r: bool)
    ensures
        r == a.same(b),
{
    text_eq(a.tenant_id.as_str(), b.tenant_id.as_str()) && text_eq(
        a.specialist_id.as_str(),
        b.specialist_id.as_str(),
    ) && a.resource_ids.same_as(&b.resource_ids) && a.issued_at == b.issued_at && a.expires_at
        == b.expires_at && text_eq(a.grant_id.as_str(), b.grant_id.as_str())
}

} // verus!
