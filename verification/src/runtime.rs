//! The local runtime: executes admitted reads and writes against a state map,
//! keeping a checkpoint per execution, an audit trail and freeze/kill controls.
use crate::audit::AuditJournal;
use crate::contract::LifecycleState;
use crate::collections::{entries_map, entry_keys, TextMap};
use crate::digest::{digest_bytes, sha256_hex};
use crate::error::{invalid, rejected, Error};
use crate::json::{json_value_map, model_entries, push_value_map, JsonModel, JsonValue};
use crate::kernel::{
    consume_effect, consume_step, intent_digest, intent_digest_of, ConsumeStep, Decision,
    DecisionKind, Kernel,
};
use crate::order::text_eq;
use crate::records::{Action, Capability, Proposal};
use crate::text::{is_digest, starts_with_then};
use vstd::prelude::*;

verus! {

/// A map of JSON values, by key.
pub open spec fn map_view(e: Seq<(Seq<char>, JsonValue)>) -> Map<Seq<char>, JsonModel> {
    entries_map(e).map_values(|v: JsonValue| v@)
}

/// A map of texts, by key.
pub open spec fn text_view(e: Seq<(Seq<char>, String)>) -> Map<Seq<char>, Seq<char>> {
    entries_map(e).map_values(|v: String| v@)
}

/// Entries with the same keys and value models stand for the same map.
pub proof fn lemma_same_models(a: Seq<(Seq<char>, JsonValue)>, b: Seq<(Seq<char>, JsonValue)>)
    requires
        model_entries(a) == model_entries(b),
    ensures
        map_view(a) == map_view(b),
{
    assert(a.len() == model_entries(a).len());
    assert(b.len() == model_entries(b).len());
    assert(entry_keys(a) =~= entry_keys(b)) by {
        assert forall|i: int| 0 <= i < a.len() implies entry_keys(a)[i] == entry_keys(b)[i] by {
            assert(model_entries(a)[i] == model_entries(b)[i]);
        }
    }
    assert forall|k: Seq<char>| #[trigger] entries_map(a).contains_key(k) implies map_view(a)[k]
        == map_view(b)[k] by {
        let i = entry_keys(a).index_of(k);
        assert(model_entries(a)[i] == model_entries(b)[i]);
    }
    assert(map_view(a) =~= map_view(b));
}

/// The value of `key` in the proposal's payload, as a model.
pub open spec fn payload_model(p: Proposal, key: Seq<char>) -> Option<JsonModel> {
    let m = entries_map(p.payload@);
    if m.contains_key(key) {
        Some(m[key]@)
    } else {
        None
    }
}

/// The write target named by the payload's `key`, when it is text.
pub open spec fn write_key(p: Proposal) -> Option<Seq<char>> {
    match payload_model(p, "key"@) {
        Some(JsonModel::Text(s)) => Some(s),
        _ => None,
    }
}

/// The capability binds the proposal and is valid at `now`.
pub open spec fn capability_binds(c: Capability, p: Proposal, now: u64) -> bool {
    &&& c.issued_at <= now
    &&& now < c.expires_at
    &&& c.agent_id@ == p.agent_id@
    &&& c.action == p.action
    &&& c.scope@ == p.scope@
    &&& c.budget@ == p.resource_cost@
    &&& c.intent_digest@ == intent_digest_of(p)
}

/// Which check of `execute` decides.
pub enum RunStep {
    Closed,
    NotAccepted,
    NoCapability,
    Unbound,
    NoWriteKey,
    OutsideScope,
    NoWriteValue,
    NotExecutable,
    Consume,
}

pub open spec fn run_step(closed: bool, p: Proposal, d: Decision, now: u64) -> RunStep {
    if closed {
        RunStep::Closed
    } else if d.kind != DecisionKind::Accepted {
        RunStep::NotAccepted
    } else if d.capability is None {
        RunStep::NoCapability
    } else if !capability_binds(d.capability->0, p, now) {
        RunStep::Unbound
    } else if p.action == Action::Read {
        RunStep::Consume
    } else if p.action == Action::Write {
        if write_key(p) is None {
            RunStep::NoWriteKey
        } else if !(p.scope@ + seq![':']).is_prefix_of(write_key(p)->0) {
            RunStep::OutsideScope
        } else if payload_model(p, "value"@) is None {
            RunStep::NoWriteValue
        } else {
            RunStep::Consume
        }
    } else {
        RunStep::NotExecutable
    }
}

/// The state after executing `p` on `before`.
pub open spec fn written(before: Map<Seq<char>, JsonModel>, p: Proposal) -> Map<
    Seq<char>,
    JsonModel,
> {
    if p.action == Action::Write {
        before.insert(write_key(p)->0, payload_model(p, "value"@)->0)
    } else {
        before
    }
}

pub open spec fn event_name(p: Proposal) -> Seq<char> {
    if p.action == Action::Write {
        "write"@
    } else {
        "read"@
    }
}

/// A two-field audit record.
pub open spec fn record2(k1: Seq<char>, v1: Seq<char>, k2: Seq<char>, v2: Seq<char>) -> Map<
    Seq<char>,
    Seq<char>,
> {
    Map::empty().insert(k1, v1).insert(k2, v2)
}

/// A three-field audit record.
pub open spec fn record3(
    k1: Seq<char>,
    v1: Seq<char>,
    k2: Seq<char>,
    v2: Seq<char>,
    k3: Seq<char>,
    v3: Seq<char>,
) -> Map<Seq<char>, Seq<char>> {
    Map::empty().insert(k1, v1).insert(k2, v2).insert(k3, v3)
}

fn insert_text(m: &mut TextMap<String>, key: &str, value: String)
    ensures
        text_view(final(m)@) == text_view(old(m)@).insert(key@, value@),
{
    m.insert(key.to_owned(), value);
    proof {
        assert(text_view(m@) =~= text_view(old(m)@).insert(key@, value@));
    }
}

fn record_of2(k1: &str, v1: String, k2: &str, v2: String) -> (r: TextMap<String>)
    ensures
        text_view(r@) == record2(k1@, v1@, k2@, v2@),
{
    let mut r: TextMap<String> = TextMap::new();
    proof {
        assert(text_view(r@) =~= Map::<Seq<char>, Seq<char>>::empty());
    }
    insert_text(&mut r, k1, v1);
    insert_text(&mut r, k2, v2);
    r
}

fn record_of3(k1: &str, v1: String, k2: &str, v2: String, k3: &str, v3: String) -> (r: TextMap<
    String,
>)
    ensures
        text_view(r@) == record3(k1@, v1@, k2@, v2@, k3@, v3@),
{
    let mut r: TextMap<String> = TextMap::new();
    proof {
        assert(text_view(r@) =~= Map::<Seq<char>, Seq<char>>::empty());
    }
    insert_text(&mut r, k1, v1);
    insert_text(&mut r, k2, v2);
    insert_text(&mut r, k3, v3);
    r
}

fn state_digest(state: &TextMap<JsonValue>) -> (r: String)
    ensures
        r@ == sha256_hex(json_value_map(state@)),
        is_digest(r@),
{
    let mut out: Vec<u8> = Vec::new();
    push_value_map(&mut out, state);
    assert(out@ =~= json_value_map(state@));
    digest_bytes(out.as_slice())
}

/// The local runtime.
pub struct Runtime {
    pub state: TextMap<JsonValue>,
    pub audit: Vec<TextMap<String>>,
    checkpoints: Vec<TextMap<JsonValue>>,
    frozen: bool,
    killed: bool,
}

/// The persistent form of a runtime.
pub struct RuntimeSnapshot {
    pub state: TextMap<JsonValue>,
    pub audit: Vec<TextMap<String>>,
    pub checkpoints: Vec<TextMap<JsonValue>>,
    pub frozen: bool,
    pub killed: bool,
}

impl Runtime {
    pub closed spec fn state_entries(&self) -> Seq<(Seq<char>, JsonValue)> {
        self.state@
    }

    /// The runtime state as a map of models.
    pub open spec fn state_view(&self) -> Map<Seq<char>, JsonModel> {
        map_view(self.state_entries())
    }

    pub closed spec fn audit_records(&self) -> Seq<TextMap<String>> {
        self.audit@
    }

    pub closed spec fn checkpoint_entries(&self) -> Seq<TextMap<JsonValue>> {
        self.checkpoints@
    }

    /// The checkpoints, oldest first, as maps of models.
    pub open spec fn checkpoint_views(&self) -> Seq<Map<Seq<char>, JsonModel>> {
        self.checkpoint_entries().map_values(|m: TextMap<JsonValue>| map_view(m@))
    }

    pub closed spec fn spec_frozen(&self) -> bool {
        self.frozen
    }

    pub closed spec fn spec_killed(&self) -> bool {
        self.killed
    }

    /// Nothing of the runtime changed.
    pub open spec fn same_runtime(&self, before: &Runtime) -> bool {
        &&& self.state_entries() == before.state_entries()
        &&& self.audit_records() == before.audit_records()
        &&& self.checkpoint_entries() == before.checkpoint_entries()
        &&& self.spec_frozen() == before.spec_frozen()
        &&& self.spec_killed() == before.spec_killed()
    }

    /// `self` is `before` with one audit record appended whose fields are
    /// `record`, and nothing else of the audit changed.
    pub open spec fn audited(&self, before: &Runtime, record: Map<Seq<char>, Seq<char>>) -> bool {
        &&& self.audit_records().len() == before.audit_records().len() + 1
        &&& self.audit_records().drop_last() == before.audit_records()
        &&& text_view(self.audit_records().last()@) == record
    }

    pub fn new() -> (r: Runtime)
        ensures
            r.state_entries().len() == 0,
            r.audit_records().len() == 0,
            r.checkpoint_entries().len() == 0,
            !r.spec_frozen(),
            !r.spec_killed(),
    {
        Runtime {
            state: TextMap::new(),
            audit: Vec::new(),
            checkpoints: Vec::new(),
            frozen: false,
            killed: false,
        }
    }

    pub fn is_frozen(&self) -> (r: bool)
        ensures
            r == self.spec_frozen(),
    {
        self.frozen
    }

    pub fn is_killed(&self) -> (r: bool)
        ensures
            r == self.spec_killed(),
    {
        self.killed
    }
}

impl Default for Runtime {
    fn default() -> (r: Runtime)
        ensures
            r.state_entries().len() == 0,
            r.audit_records().len() == 0,
            r.checkpoint_entries().len() == 0,
            !r.spec_frozen(),
            !r.spec_killed(),
    {
        Runtime::new()
    }
}


/// What `execute` does to a runtime and a kernel, and what it answers.
pub open spec fn executes(
    rb: Runtime,
    ra: Runtime,
    kb: Kernel,
    ka: Kernel,
    p: Proposal,
    d: Decision,
    now: u64,
    r: Result<bool, Error>,
) -> bool {
    match run_step(rb.spec_frozen() || rb.spec_killed(), p, d, now) {
        RunStep::NotAccepted => r == Ok::<bool, Error>(false) && ra.same_runtime(&rb)
            && ka.unchanged_from(&kb),
        RunStep::Consume => {
            &&& consume_effect(kb, ka, p, d, now)
            &&& if consume_step(kb, p, d, now) == ConsumeStep::Spend {
                &&& r == Ok::<bool, Error>(true)
                &&& ra.state_view() == written(rb.state_view(), p)
                &&& ra.checkpoint_views() == rb.checkpoint_views().push(rb.state_view())
                &&& ra.spec_frozen() == rb.spec_frozen()
                &&& ra.spec_killed() == rb.spec_killed()
                &&& ra.audited(
                    &rb,
                    record3(
                        "event"@,
                        event_name(p),
                        "candidate_digest"@,
                        p.spec_digest(),
                        "state_digest"@,
                        sha256_hex(json_value_map(ra.state_entries())),
                    ),
                )
            } else {
                r is Err && ra.same_runtime(&rb)
            }
        },
        _ => (r matches Err(e) && e is Rejected) && ra.same_runtime(&rb) && ka.unchanged_from(&kb),
    }
}

/// What `rollback` does.
pub open spec fn rolls_back(rb: Runtime, ra: Runtime, reason: Seq<char>, r: bool) -> bool {
    &&& r == (!rb.spec_killed() && !rb.spec_frozen() && rb.checkpoint_entries().len() > 0)
    &&& r ==> {
        &&& ra.state_view() == rb.checkpoint_views().last()
        &&& ra.checkpoint_views() == rb.checkpoint_views().drop_last()
        &&& ra.spec_frozen() == rb.spec_frozen()
        &&& ra.spec_killed() == rb.spec_killed()
        &&& ra.audited(&rb, record2("event"@, "rollback"@, "reason"@, reason))
    }
    &&& !r ==> ra.same_runtime(&rb)
}

fn same_binding(capability: &Capability, proposal: &Proposal, now: u64) -> (r: bool)
    ensures
        r == capability_binds(*capability, *proposal, now),
{
    let intent = intent_digest(proposal);
    capability.issued_at <= now && now < capability.expires_at && text_eq(
        capability.agent_id.as_str(),
        proposal.agent_id.as_str(),
    ) && capability.action == proposal.action && text_eq(
        capability.scope.as_str(),
        proposal.scope.as_str(),
    ) && capability.budget.same_as(&proposal.resource_cost) && text_eq(
        capability.intent_digest.as_str(),
        intent.as_str(),
    )
}

fn copy_state(state: &TextMap<JsonValue>) -> (r: TextMap<JsonValue>)
    ensures
        model_entries(r@) == model_entries(state@),
        map_view(r@) == map_view(state@),
{
    let r = state.copy_map();
    proof {
        lemma_same_models(r@, state@);
    }
    r
}

impl Runtime {
    /// Executes an accepted proposal once: consumes its capability in the
    /// kernel, checkpoints the state, applies a write, and audits the step.
    pub fn execute(
        &mut self,
        kernel: &mut Kernel,
        proposal: &Proposal,
        decision: &Decision,
        now: u64,
    ) -> (r: Result<bool, Error>)
        ensures
            executes(*old(self), *final(self), *old(kernel), *final(kernel), *proposal, *decision, now, r),
    {
        if self.frozen || self.killed {
            return Err(rejected("runtime is frozen or killed"));
        }
        if decision.kind != DecisionKind::Accepted {
            return Ok(false);
        }
        let capability = match &decision.capability {
            Some(c) => c,
            None => {
                return Err(rejected("accepted decision lacks capability"));
            },
        };
        if !same_binding(capability, proposal, now) {
            return Err(rejected("capability binding or expiry failed"));
        }
        let write: Option<(String, JsonValue)> = match proposal.action {
            Action::Read => None,
            Action::Write => {
                let key = match proposal.payload.get("key") {
                    Some(v) => match v.as_str() {
                        Some(k) => k,
                        None => {
                            return Err(rejected("write key missing"));
                        },
                    },
                    None => {
                        return Err(rejected("write key missing"));
                    },
                };
                if !starts_with_then(key, proposal.scope.as_str(), ':') {
                    return Err(rejected("write target outside scope"));
                }
                let value = match proposal.payload.get("value") {
                    Some(v) => v.clone(),
                    None => {
                        return Err(rejected("write value missing"));
                    },
                };
                Some((key.to_owned(), value))
            },
            _ => {
                return Err(rejected("action is not executable by local runtime"));
            },
        };
        let before = copy_state(&self.state);
        let mut after = copy_state(&self.state);
        let ghost base = after@;
        match write {
            Some((k, v)) => {
                let ghost kv = k@;
                let ghost vv = v@;
                after.insert(k, v);
                proof {
                    assert(map_view(after@) =~= map_view(base).insert(kv, vv));
                }
            },
            None => {},
        }
        let candidate_digest = proposal.digest_text();
        let digest = state_digest(&after);
        let consumed = kernel.consume(proposal, decision, now)?;
        if !consumed {
            return Err(rejected("execution decision already consumed"));
        }
        let ghost old_checkpoints = self.checkpoints@;
        self.checkpoints.push(before);
        proof {
            assert(self.checkpoints@.map_values(|m: TextMap<JsonValue>| map_view(m@)) =~= old_checkpoints.map_values(
                |m: TextMap<JsonValue>| map_view(m@),
            ).push(map_view(before@)));
        }
        self.state = after;
        let event = if proposal.action == Action::Write {
            "write".to_owned()
        } else {
            "read".to_owned()
        };
        let record = record_of3("event", event, "candidate_digest", candidate_digest, "state_digest", digest);
        let ghost old_audit = self.audit@;
        self.audit.push(record);
        proof {
            assert(self.audit@.drop_last() =~= old_audit);
        }
        Ok(true)
    }

    /// Freezes an open runtime and audits why.
    pub fn freeze(&mut self, reason: &str)
        ensures
            old(self).spec_frozen() || old(self).spec_killed() ==> final(self).same_runtime(old(self)),
            !old(self).spec_frozen() && !old(self).spec_killed() ==> {
                &&& final(self).spec_frozen()
                &&& !final(self).spec_killed()
                &&& final(self).state_entries() == old(self).state_entries()
                &&& final(self).checkpoint_entries() == old(self).checkpoint_entries()
                &&& final(self).audited(old(self), record2("event"@, "freeze"@, "reason"@, reason@))
            },
    {
        if self.frozen || self.killed {
            return;
        }
        self.frozen = true;
        let record = record_of2("event", "freeze".to_owned(), "reason", reason.to_owned());
        let ghost old_audit = self.audit@;
        self.audit.push(record);
        proof {
            assert(self.audit@.drop_last() =~= old_audit);
        }
    }

    /// Kills the runtime, which also freezes it, and audits why.
    pub fn kill(&mut self, reason: &str)
        ensures
            old(self).spec_killed() ==> final(self).same_runtime(old(self)),
            !old(self).spec_killed() ==> {
                &&& final(self).spec_frozen()
                &&& final(self).spec_killed()
                &&& final(self).state_entries() == old(self).state_entries()
                &&& final(self).checkpoint_entries() == old(self).checkpoint_entries()
                &&& final(self).audited(old(self), record2("event"@, "kill"@, "reason"@, reason@))
            },
    {
        if self.killed {
            return;
        }
        self.killed = true;
        self.frozen = true;
        let record = record_of2("event", "kill".to_owned(), "reason", reason.to_owned());
        let ghost old_audit = self.audit@;
        self.audit.push(record);
        proof {
            assert(self.audit@.drop_last() =~= old_audit);
        }
    }

    /// Restores the latest checkpoint of an open runtime and audits why.
    pub fn rollback(&mut self, reason: &str) -> (r: bool)
        ensures
            rolls_back(*old(self), *final(self), reason@, r),
    {
        if self.killed || self.frozen {
            return false;
        }
        let ghost old_checkpoints = self.checkpoints@;
        let checkpoint = match self.checkpoints.pop() {
            Some(c) => c,
            None => {
                return false;
            },
        };
        proof {
            assert(self.checkpoints@.map_values(|m: TextMap<JsonValue>| map_view(m@)) =~= old_checkpoints.map_values(
                |m: TextMap<JsonValue>| map_view(m@),
            ).drop_last());
        }
        self.state = checkpoint;
        let record = record_of2("event", "rollback".to_owned(), "reason", reason.to_owned());
        let ghost old_audit = self.audit@;
        self.audit.push(record);
        proof {
            assert(self.audit@.drop_last() =~= old_audit);
        }
        true
    }
}

/// A frozen or killed runtime executes nothing and changes nothing.
pub proof fn lemma_closed_runtime_executes_nothing(
    rb: Runtime,
    ra: Runtime,
    kb: Kernel,
    ka: Kernel,
    p: Proposal,
    d: Decision,
    now: u64,
    r: Result<bool, Error>,
)
    requires
        rb.spec_frozen() || rb.spec_killed(),
        executes(rb, ra, kb, ka, p, d, now, r),
    ensures
        r is Err,
        ra.same_runtime(&rb),
        ka.unchanged_from(&kb),
{
}


impl Runtime {
    /// The runtime's records, copied.
    pub fn snapshot(&self) -> (r: RuntimeSnapshot)
        ensures
            model_entries(r.state@) == model_entries(self.state_entries()),
            r.audit@.len() == self.audit_records().len(),
            forall|i: int| 0 <= i < r.audit@.len() ==> (#[trigger] r.audit@[i])@ == self.audit_records()[i]@,
            r.checkpoints@.len() == self.checkpoint_entries().len(),
            forall|i: int|
                0 <= i < r.checkpoints@.len() ==> model_entries((#[trigger] r.checkpoints@[i])@)
                    == model_entries(self.checkpoint_entries()[i]@),
            r.frozen == self.spec_frozen(),
            r.killed == self.spec_killed(),
    {
        let mut audit: Vec<TextMap<String>> = Vec::new();
        let n = self.audit.len();
        for i in 0..n
            invariant
                n == self.audit@.len(),
                audit@.len() == i,
                forall|k: int| 0 <= k < i ==> (#[trigger] audit@[k])@ == self.audit@[k]@,
        {
            audit.push(self.audit[i].copy_map());
        }
        let mut checkpoints: Vec<TextMap<JsonValue>> = Vec::new();
        let m = self.checkpoints.len();
        for i in 0..m
            invariant
                m == self.checkpoints@.len(),
                checkpoints@.len() == i,
                forall|k: int|
                    0 <= k < i ==> model_entries((#[trigger] checkpoints@[k])@) == model_entries(
                        self.checkpoints@[k]@,
                    ),
        {
            checkpoints.push(self.checkpoints[i].copy_map());
        }
        RuntimeSnapshot {
            state: self.state.copy_map(),
            audit,
            checkpoints,
            frozen: self.frozen,
            killed: self.killed,
        }
    }

    /// Restores a runtime; a killed snapshot must also be frozen.
    pub fn from_snapshot(snapshot: RuntimeSnapshot) -> (r: Result<Runtime, Error>)
        ensures
            r is Ok <==> (snapshot.killed ==> snapshot.frozen),
            r matches Err(e) ==> e is Invalid,
            r matches Ok(rt) ==> {
                &&& rt.state_entries() == snapshot.state@
                &&& rt.audit_records() == snapshot.audit@
                &&& rt.checkpoint_entries() == snapshot.checkpoints@
                &&& rt.spec_frozen() == snapshot.frozen
                &&& rt.spec_killed() == snapshot.killed
            },
    {
        if snapshot.killed && !snapshot.frozen {
            return Err(invalid("killed runtime snapshot is not frozen"));
        }
        let journal = AuditJournal::from_records(&snapshot.audit)?;
        journal.validate()?;
        let RuntimeSnapshot { state, audit, checkpoints, frozen, killed } = snapshot;
        Ok(Runtime { state, audit, checkpoints, frozen, killed })
    }

    /// The audit trail as a digest chain.
    pub fn audit_journal(&self) -> (r: Result<AuditJournal, Error>)
        ensures
            r matches Ok(j) && j.entries@.len() == self.audit_records().len()
                && crate::audit::audit_chain_valid(j.entries@) && forall|i: int|
                0 <= i < j.entries@.len() ==> (#[trigger] j.entries@[i]).metadata@
                    == self.audit_records()[i]@,
    {
        AuditJournal::from_records(&self.audit)
    }
}


/// The canonical encoding of an audit trail: a list of text maps.
pub open spec fn audit_bytes(records: Seq<TextMap<String>>) -> Seq<u8> {
    crate::canon::json_list(
        records.map_values(|m: TextMap<String>| crate::canon::json_text_map(m@)),
    )
}

impl Runtime {
    /// The digest of the state map.
    pub fn state_digest(&self) -> (r: String)
        ensures
            r@ == sha256_hex(json_value_map(self.state_entries())),
            is_digest(r@),
    {
        state_digest(&self.state)
    }

    /// The digest of the audit trail.
    pub fn audit_digest(&self) -> (r: String)
        ensures
            r@ == sha256_hex(audit_bytes(self.audit_records())),
            is_digest(r@),
    {
        let ghost items = self.audit@.map_values(|m: TextMap<String>| crate::canon::json_text_map(m@));
        let mut out: Vec<u8> = Vec::new();
        out.push(0x5b);
        let ghost start = out@;
        let n = self.audit.len();
        for i in 0..n
            invariant
                n == self.audit@.len(),
                items == self.audit@.map_values(
                    |m: TextMap<String>| crate::canon::json_text_map(m@),
                ),
                out@ == start + crate::canon::join(items.subrange(0, i as int)),
        {
            if i > 0 {
                out.push(0x2c);
            }
            crate::canon::push_text_map(&mut out, &self.audit[i]);
            proof {
                let pre = items.subrange(0, i as int);
                assert(items.subrange(0, i + 1) =~= pre.push(items[i as int]));
                assert(pre.push(items[i as int]).drop_last() =~= pre);
            }
        }
        out.push(0x5d);
        proof {
            assert(items.subrange(0, n as int) =~= items);
            assert(out@ =~= audit_bytes(self.audit@));
        }
        digest_bytes(out.as_slice())
    }

    /// The number of state entries.
    pub fn state_len(&self) -> (r: usize)
        ensures
            r == self.state_entries().len(),
    {
        self.state.len()
    }

    /// The number of audit records.
    pub fn audit_len(&self) -> (r: usize)
        ensures
            r == self.audit_records().len(),
    {
        self.audit.len()
    }
}


/// An execution that fails leaves the runtime as it was.
pub proof fn lemma_failed_execution_changes_nothing(
    rb: Runtime,
    ra: Runtime,
    kb: Kernel,
    ka: Kernel,
    p: Proposal,
    d: Decision,
    now: u64,
    r: Result<bool, Error>,
)
    requires
        executes(rb, ra, kb, ka, p, d, now, r),
        r is Err,
    ensures
        ra.same_runtime(&rb),
{
}

/// Rolling back right after an execution that applied restores the state
/// it started from, and the rollback succeeds.
pub proof fn lemma_rollback_undoes_execution(
    rb: Runtime,
    ra: Runtime,
    rc: Runtime,
    kb: Kernel,
    ka: Kernel,
    p: Proposal,
    d: Decision,
    now: u64,
    reason: Seq<char>,
    rolled: bool,
)
    requires
        executes(rb, ra, kb, ka, p, d, now, Ok::<bool, Error>(true)),
        rolls_back(ra, rc, reason, rolled),
    ensures
        rolled,
        rc.state_view() == rb.state_view(),
        rc.checkpoint_views() == rb.checkpoint_views(),
{
    assert(ra.checkpoint_views().len() == rb.checkpoint_views().len() + 1);
    assert(ra.checkpoint_entries().len() > 0);
    assert(ra.checkpoint_views().drop_last() =~= rb.checkpoint_views());
}

/// A write stays inside its proposal's scope: an execution that applies a
/// write changes exactly one key, the payload's `key`, which begins with the
/// proposal's scope and `:`, and sets it to the payload's `value`; every
/// other key keeps its presence and value.
pub proof fn lemma_write_stays_in_scope(
    rb: Runtime,
    ra: Runtime,
    kb: Kernel,
    ka: Kernel,
    p: Proposal,
    d: Decision,
    now: u64,
)
    requires
        executes(rb, ra, kb, ka, p, d, now, Ok::<bool, Error>(true)),
        p.action == Action::Write,
    ensures
        write_key(p) is Some,
        (p.scope@ + seq![':']).is_prefix_of(write_key(p)->0),
        payload_model(p, "value"@) is Some,
        ra.state_view().contains_key(write_key(p)->0),
        ra.state_view()[write_key(p)->0] == payload_model(p, "value"@)->0,
        forall|j: Seq<char>|
            j != write_key(p)->0 ==> (#[trigger] ra.state_view().contains_key(j)
                == rb.state_view().contains_key(j) && (rb.state_view().contains_key(j)
                ==> ra.state_view()[j] == rb.state_view()[j])),
{
}

/// A write outside its proposal's scope is refused: an accepted write whose
/// payload `key` does not begin with the scope and `:` fails as `Rejected`
/// and changes neither the runtime nor the kernel, so its capability is not
/// consumed.
pub proof fn lemma_write_outside_scope_is_refused(
    rb: Runtime,
    ra: Runtime,
    kb: Kernel,
    ka: Kernel,
    p: Proposal,
    d: Decision,
    now: u64,
    r: Result<bool, Error>,
)
    requires
        executes(rb, ra, kb, ka, p, d, now, r),
        d.kind == DecisionKind::Accepted,
        p.action == Action::Write,
        write_key(p) matches Some(k) && !(p.scope@ + seq![':']).is_prefix_of(k),
    ensures
        r matches Err(e) && e is Rejected,
        ra.same_runtime(&rb),
        ka.unchanged_from(&kb),
{
}

/// An execution that applies spends the capability exactly once: the
/// proposal's record moves to `Executing` and its issuance is marked
/// consumed; a read changes no state, and the state before the write is
/// kept as the newest checkpoint, with one audit record appended.
pub proof fn lemma_execution_spends_and_checkpoints(
    rb: Runtime,
    ra: Runtime,
    kb: Kernel,
    ka: Kernel,
    p: Proposal,
    d: Decision,
    now: u64,
)
    requires
        executes(rb, ra, kb, ka, p, d, now, Ok::<bool, Error>(true)),
    ensures
        d.kind == DecisionKind::Accepted,
        kb.lifecycle_map().contains_key(p.spec_digest()),
        kb.lifecycle_map()[p.spec_digest()].state == LifecycleState::Admitted,
        ka.lifecycle_map().contains_key(p.spec_digest()),
        ka.lifecycle_map()[p.spec_digest()].state == LifecycleState::Executing,
        ka.issuance_map().contains_key(p.spec_digest()),
        ka.issuance_map()[p.spec_digest()].consumed,
        !kb.issuance_map()[p.spec_digest()].consumed,
        p.action == Action::Read ==> ra.state_view() == rb.state_view(),
        ra.checkpoint_views() == rb.checkpoint_views().push(rb.state_view()),
        ra.audit_records().len() == rb.audit_records().len() + 1,
{
}

/// A decision that is not an acceptance executes nothing: the answer is
/// `false` and neither the runtime nor the kernel changes.
pub proof fn lemma_unaccepted_decision_executes_nothing(
    rb: Runtime,
    ra: Runtime,
    kb: Kernel,
    ka: Kernel,
    p: Proposal,
    d: Decision,
    now: u64,
    r: Result<bool, Error>,
)
    requires
        executes(rb, ra, kb, ka, p, d, now, r),
        !rb.spec_frozen(),
        !rb.spec_killed(),
        d.kind != DecisionKind::Accepted,
    ensures
        r == Ok::<bool, Error>(false),
        ra.same_runtime(&rb),
        ka.unchanged_from(&kb),
{
}

} // verus!

