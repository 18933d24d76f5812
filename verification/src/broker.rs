//! The capability broker's typed request, its transaction journal and its
//! wire messages.
//!
//! The broker process, its socket and the supervisor it spawns live outside
//! this library; what is here is the logic they rely on: the request check,
//! the proposal a request stands for, and the digest-chained transaction
//! journal with its recovery rule.
use crate::canon::{json_nat, json_null, json_text, lit, push_lit, push_nat, push_null, push_text};
use crate::collections::{entries_map, TextMap, TextSet};
use crate::digest::{digest_bytes, sha256_hex, zero_digest, zero_digest_text};
use crate::error::{invalid, journal, Error};
use crate::json::{JsonModel, JsonValue};
use crate::maintenance::{has_plain_components, plain_components};
use crate::order::text_eq;
use crate::contract::Lifecycle;
use crate::evidence::EvidenceRegistry;
use crate::kernel::{admits, applies_event, consumes, frozen_record, Decision, DecisionKind, Kernel};
use crate::contract::LifecycleEvent;
use crate::receipts::{same_receipt, CapabilityReceipt, ReceiptSigner};
use crate::records::STATE_SLICE;
use crate::records::{Action, Claim, Policy, Proposal};
use crate::text::{is_digest, text_ok, valid_digest, valid_text};
use vstd::prelude::*;

verus! {

pub const PROTOCOL_VERSION: u8 = 1;

pub const JOURNAL_VERSION: u8 = 1;

pub const MAX_FRAME_BYTES: usize = 65536;

pub const MAX_TEXT_LEN: usize = 256;

pub const MAX_BYTES: u64 = 1000000;

pub const MAX_RUNTIME_MS: u64 = 5000;

pub const WORKSPACE_SCOPE: &'static str = "broker-workspace";

pub const TRANSFORMER_ID: &'static str = "uppercase-ascii-file-transform-v1";

// ------------------------------------------------------------ requests

pub open spec fn text_models(v: Seq<String>) -> Seq<Seq<char>> {
    v.map_values(|s: String| s@)
}

/// `p` is the proposal that stands for `req`.
pub open spec fn proposal_for(p: Proposal, req: FileTransformRequest) -> bool {
    &&& p.candidate_id@ == req.request_id@
    &&& p.agent_id@ == req.agent_id@
    &&& p.intent@ == TRANSFORMER_ID@
    &&& p.action == Action::Write
    &&& p.scope@ == WORKSPACE_SCOPE@
    &&& entries_map(p.payload@).map_values(|v: JsonValue| v@) == map![
        "operation"@ => JsonModel::Text("UppercaseAscii"@),
        "source_relpath"@ => JsonModel::Text(req.source_relpath@),
        "destination_relpath"@ => JsonModel::Text(req.destination_relpath@),
        "input_digest"@ => JsonModel::Text(req.input_digest@),
        "executable_digest"@ => JsonModel::Text(req.executable_digest@),
        "max_bytes"@ => JsonModel::Int(req.max_bytes as int),
        "max_runtime_ms"@ => JsonModel::Int(req.max_runtime_ms as int),
    ]
    &&& entries_map(p.resource_cost@) == map![
        "bytes"@ => req.max_bytes,
        "cpu_ms"@ => req.max_runtime_ms,
        "spend"@ => 0u64,
    ]
    &&& p.source_digest@ == req.executable_digest@
    &&& p.claims@.len() == 1
    &&& text_models(p.claims@[0].guarantees@) == seq!["PolicyCompliance"@]
    &&& p.claims@[0].assumptions@.len() == 0
    &&& p.claims@[0].excludes@.len() == 0
    &&& p.claims@[0].maturity == 1
    &&& text_models(p.claims@[0].trust_roots@) == seq!["broker-local-policy"@]
    &&& p.claims@[0].valid_until == req.expires_at
    &&& p.claims@[0].provenance_digest@ == req.input_digest@
    &&& p.nonce == req.nonce
    &&& p.expires_at == req.expires_at
    &&& !p.requests_direct_authority
}

/// The one transformation the broker performs.
#[derive(Clone, Copy, Debug, PartialEq, Eq, Structural)]
pub enum FileTransformOperation {
    UppercaseAscii,
}

/// A typed request to transform one workspace file into another.
#[derive(Clone, Debug, PartialEq, Eq)]
pub struct FileTransformRequest {
    pub request_id: String,
    pub agent_id: String,
    pub subject: String,
    pub evidence_id: String,
    pub operation: FileTransformOperation,
    pub source_relpath: String,
    pub destination_relpath: String,
    pub input_digest: String,
    pub executable_digest: String,
    pub max_bytes: u64,
    pub max_runtime_ms: u64,
    pub requested_at: u64,
    pub expires_at: u64,
    pub nonce: u64,
    pub telemetry_present: bool,
}

/// Non-empty, at most 256 bytes, no control characters.
pub open spec fn broker_text(s: Seq<char>) -> bool {
    text_ok(s, 256)
}

/// A workspace path: broker text whose components are all plain names
/// (not rooted, no leading `.`, no `..`).
pub open spec fn broker_path(s: Seq<char>) -> bool {
    broker_text(s) && plain_components(s)
}

/// Whether `value` is a workspace path.
pub fn is_broker_path(value: &str) -> (r: bool)
    ensures
        r == broker_path(value@),
{
    valid_text(value, MAX_TEXT_LEN) && has_plain_components(value)
}

impl FileTransformRequest {
    pub open spec fn spec_valid(&self, now: u64) -> bool {
        &&& broker_text(self.request_id@)
        &&& broker_text(self.agent_id@)
        &&& broker_text(self.subject@)
        &&& broker_text(self.evidence_id@)
        &&& broker_path(self.source_relpath@)
        &&& broker_path(self.destination_relpath@)
        &&& self.source_relpath@ != self.destination_relpath@
        &&& is_digest(self.input_digest@)
        &&& is_digest(self.executable_digest@)
        &&& 0 < self.max_bytes <= MAX_BYTES
        &&& 0 < self.max_runtime_ms <= MAX_RUNTIME_MS
        &&& self.requested_at <= now
        &&& self.requested_at < self.expires_at
        &&& now < self.expires_at
        &&& self.nonce != 0
    }

    /// Checks the request at `now`.
    pub fn validate(&self, now: u64) -> (r: Result<(), Error>)
        ensures
            r is Ok <==> self.spec_valid(now),
            r matches Err(e) ==> e is Invalid,
    {
        if !valid_text(self.request_id.as_str(), MAX_TEXT_LEN) || !valid_text(
            self.agent_id.as_str(),
            MAX_TEXT_LEN,
        ) || !valid_text(self.subject.as_str(), MAX_TEXT_LEN) || !valid_text(
            self.evidence_id.as_str(),
            MAX_TEXT_LEN,
        ) || !is_broker_path(self.source_relpath.as_str()) || !is_broker_path(
            self.destination_relpath.as_str(),
        ) || text_eq(self.source_relpath.as_str(), self.destination_relpath.as_str())
            || !valid_digest(self.input_digest.as_str()) || !valid_digest(
            self.executable_digest.as_str(),
        ) || self.max_bytes == 0 || self.max_bytes > MAX_BYTES || self.max_runtime_ms == 0
            || self.max_runtime_ms > MAX_RUNTIME_MS || self.requested_at > now || self.expires_at
            <= self.requested_at || self.expires_at <= now || self.nonce == 0 {
            return Err(invalid("file transformation request is invalid"));
        }
        Ok(())
    }

    /// The write proposal that the kernel admits for this request: the
    /// request's id, agent and nonce, the transformer as intent, the
    /// workspace as scope, the paths, digests and limits as payload, the
    /// limits as costs, and one policy-compliance claim on the input digest
    /// until the request expires.
    pub fn to_proposal(&self) -> (r: Proposal)
        ensures
            proposal_for(r, *self),
    {
        let mut payload: TextMap<JsonValue> = TextMap::new();
        payload.insert("operation".to_owned(), JsonValue::Text("UppercaseAscii".to_owned()));
        payload.insert("source_relpath".to_owned(), JsonValue::Text(self.source_relpath.clone()));
        payload.insert(
            "destination_relpath".to_owned(),
            JsonValue::Text(self.destination_relpath.clone()),
        );
        payload.insert("input_digest".to_owned(), JsonValue::Text(self.input_digest.clone()));
        payload.insert(
            "executable_digest".to_owned(),
            JsonValue::Text(self.executable_digest.clone()),
        );
        payload.insert("max_bytes".to_owned(), JsonValue::PosInt(self.max_bytes));
        payload.insert("max_runtime_ms".to_owned(), JsonValue::PosInt(self.max_runtime_ms));
        let mut costs: TextMap<u64> = TextMap::new();
        costs.insert("bytes".to_owned(), self.max_bytes);
        costs.insert("cpu_ms".to_owned(), self.max_runtime_ms);
        costs.insert("spend".to_owned(), 0);
        proof {
            assert(entries_map(costs@) =~= map![
                "bytes"@ => self.max_bytes,
                "cpu_ms"@ => self.max_runtime_ms,
                "spend"@ => 0u64,
            ]);
            assert(entries_map(payload@).map_values(|v: JsonValue| v@) =~= map![
                "operation"@ => JsonModel::Text("UppercaseAscii"@),
                "source_relpath"@ => JsonModel::Text(self.source_relpath@),
                "destination_relpath"@ => JsonModel::Text(self.destination_relpath@),
                "input_digest"@ => JsonModel::Text(self.input_digest@),
                "executable_digest"@ => JsonModel::Text(self.executable_digest@),
                "max_bytes"@ => JsonModel::Int(self.max_bytes as int),
                "max_runtime_ms"@ => JsonModel::Int(self.max_runtime_ms as int),
            ]);
        }
        let mut guarantees: Vec<String> = Vec::new();
        guarantees.push("PolicyCompliance".to_owned());
        let mut trust_roots: Vec<String> = Vec::new();
        trust_roots.push("broker-local-policy".to_owned());
        proof {
            assert(text_models(guarantees@) =~= seq!["PolicyCompliance"@]);
            assert(text_models(trust_roots@) =~= seq!["broker-local-policy"@]);
        }
        let mut claims: Vec<Claim> = Vec::new();
        claims.push(
            Claim {
                guarantees,
                assumptions: Vec::new(),
                excludes: Vec::new(),
                maturity: 1,
                trust_roots,
                valid_until: self.expires_at,
                provenance_digest: self.input_digest.clone(),
            },
        );
        Proposal {
            candidate_id: self.request_id.clone(),
            agent_id: self.agent_id.clone(),
            intent: TRANSFORMER_ID.to_owned(),
            action: Action::Write,
            scope: WORKSPACE_SCOPE.to_owned(),
            payload,
            resource_cost: costs,
            source_digest: self.executable_digest.clone(),
            claims,
            nonce: self.nonce,
            expires_at: self.expires_at,
            requests_direct_authority: false,
        }
    }
}

/// The broker's policy: workspace writes only, within the transformer's
/// byte and time limits, for at most the runtime limit plus one second.
pub fn broker_policy() -> (r: Policy)
    ensures
        is_broker_policy(r),
{
    let mut actions: Vec<Action> = Vec::new();
    actions.push(Action::Write);
    let mut scopes = TextSet::new();
    scopes.insert(WORKSPACE_SCOPE.to_owned());
    let mut costs: TextMap<u64> = TextMap::new();
    costs.insert("cpu_ms".to_owned(), MAX_RUNTIME_MS);
    costs.insert("bytes".to_owned(), MAX_BYTES);
    costs.insert("spend".to_owned(), 0);
    proof {
        assert(actions@ =~= seq![Action::Write]);
        assert(scopes@.to_set() =~= set![WORKSPACE_SCOPE@]);
        assert(entries_map(costs@) =~= map![
            "cpu_ms"@ => MAX_RUNTIME_MS,
            "bytes"@ => MAX_BYTES,
            "spend"@ => 0u64,
        ]);
    }
    Policy {
        allowed_actions: actions,
        allowed_scopes: scopes,
        max_cost: costs,
        token_ttl: MAX_RUNTIME_MS / 1000 + 1,
    }
}

// ------------------------------------------------------------ wire messages

/// The broker's greeting: protocol, state slice, supervisor and issuer.
#[derive(Clone, Debug, PartialEq, Eq)]
pub struct BrokerHello {
    pub protocol_version: u8,
    pub state_slice: String,
    pub supervisor_digest: String,
    pub issuer_key_id: String,
    pub issuer_public_key: Vec<u8>,
}

/// A request to the broker.
#[derive(Clone, Debug, PartialEq, Eq)]
pub enum BrokerRequest {
    Hello,
    Execute(Box<FileTransformRequest>),
}

/// The broker's answer.
#[derive(Clone, PartialEq, Eq)]
pub enum BrokerResponse {
    Hello(BrokerHello),
    Completed {
        request_digest: String,
        decision_digest: String,
        receipt: CapabilityReceipt,
        output_digest: String,
    },
    Rejected { request_digest: Option<String>, code: String },
    Quarantined { request_digest: Option<String>, code: String, receipt: Option<CapabilityReceipt> },
    Frozen { code: String },
}


// ------------------------------------------------------------ the broker

/// `after` is `before` with the kernel and every one of its records frozen.
pub open spec fn kernel_frozen_from(before: Kernel, after: Kernel) -> bool {
    &&& after.spec_frozen()
    &&& after.spec_killed() == before.spec_killed()
    &&& after.spec_policy() == before.spec_policy()
    &&& after.journal_entries() == before.journal_entries()
    &&& after.spec_tracker() == before.spec_tracker()
    &&& after.issuance_entries() == before.issuance_entries()
    &&& after.records_mapped(&before, |l: Lifecycle| frozen_record(l))
}

/// `p` is the broker's policy.
pub open spec fn is_broker_policy(p: Policy) -> bool {
    &&& p.allowed_actions@ == seq![Action::Write]
    &&& p.allowed_scopes@.to_set() == set![WORKSPACE_SCOPE@]
    &&& entries_map(p.max_cost@) == map![
        "cpu_ms"@ => MAX_RUNTIME_MS,
        "bytes"@ => MAX_BYTES,
        "spend"@ => 0u64,
    ]
    &&& p.token_ttl == MAX_RUNTIME_MS / 1000 + 1
}

pub open spec fn opt_view(o: Option<String>) -> Option<Seq<char>> {
    match o {
        Some(s) => Some(s@),
        None => None,
    }
}

/// `r` is `Rejected` with request digest `d` and `code`.
pub open spec fn rejected_with(r: BrokerResponse, d: Option<Seq<char>>, code: Seq<char>) -> bool {
    r matches BrokerResponse::Rejected { request_digest, code: c } && opt_view(request_digest) == d
        && c@ == code
}

/// `r` is `Quarantined` with request digest `d`, `code` and, where one is
/// given, a receipt carrying the same values as `receipt`.
pub open spec fn quarantined_with(
    r: BrokerResponse,
    d: Option<Seq<char>>,
    code: Seq<char>,
    receipt: Option<CapabilityReceipt>,
) -> bool {
    &&& r matches BrokerResponse::Quarantined { request_digest, code: c, receipt: rc }
    &&& opt_view(r->Quarantined_request_digest) == d
    &&& r->Quarantined_code@ == code
    &&& match (r->Quarantined_receipt, receipt) {
        (None, None) => true,
        (Some(a), Some(b)) => same_receipt(a, b),
        _ => false,
    }
}

pub open spec fn frozen_with(r: BrokerResponse) -> bool {
    r matches BrokerResponse::Frozen { code } && code@ == "broker_frozen"@
}

/// The capability token of a decision, if it carries a capability.
pub open spec fn token_of(d: Decision) -> Option<String> {
    match d.capability {
        Some(c) => Some(c.token_id),
        None => None,
    }
}

fn decision_token(d: &Decision) -> (r: Option<String>)
    ensures
        r == token_of(*d),
{
    match &d.capability {
        Some(c) => Some(c.token_id.clone()),
        None => None,
    }
}

/// What `ReceiptSigner::issue` answers for a decision.
pub open spec fn issue_result(
    signer: ReceiptSigner,
    subject: Seq<char>,
    p: Proposal,
    d: Decision,
    policy: Policy,
    r: Result<CapabilityReceipt, Error>,
) -> bool {
    &&& d.capability is None ==> (r matches Err(e) && e is Rejected)
    &&& d.capability matches Some(c) ==> signer.issues(
        subject,
        p,
        d,
        policy,
        c.issued_at,
        c.expires_at,
        r,
    )
}

/// A request that passed screening: its proposal and the proposal's digest.
pub struct PendingTransform {
    pub proposal: Proposal,
    pub request_digest: String,
}

/// An admitted transaction: the kernel's decision, the receipt issued for it
/// and its capability token.
pub struct AdmittedTransform {
    pub decision: Decision,
    pub receipt: CapabilityReceipt,
    pub capability_token_id: Option<String>,
}

/// What admission of a screened request comes to.
pub enum Admission {
    /// Answer the request with this response.
    Respond(BrokerResponse),
    /// The transaction is admitted and journaled; the journal must be saved
    /// before it goes on.
    Admitted(AdmittedTransform),
}

/// A step that could not be made durable or could not start.
#[derive(Clone, Copy, Debug, PartialEq, Eq, Structural)]
pub enum StepFailure {
    AdmissionNotSaved,
    ExecutionNotSaved,
    LaunchTokenUnavailable,
    CommitNotSaved,
}

pub open spec fn failure_code(f: StepFailure) -> Seq<char> {
    match f {
        StepFailure::AdmissionNotSaved => "journal_admission_failed"@,
        StepFailure::ExecutionNotSaved => "journal_execution_failed"@,
        StepFailure::LaunchTokenUnavailable => "launch_token_unavailable"@,
        StepFailure::CommitNotSaved => "commit_record_failed"@,
    }
}

/// What the end of a transformation comes to.
pub enum Finish {
    /// The transformation failed: remove the destination and answer this.
    Respond(BrokerResponse),
    /// The commit is journaled: save the journal, then answer this.
    Commit(BrokerResponse),
}

/// The broker's decisions over its evidence, signer, kernel and journal.
/// The process around it reads the clock, the workspace files and the
/// supervisor's result, saves the journal when a step asks for it or
/// freezes the broker, and hands the results to the next step.
pub struct Broker {
    supervisor_digest: String,
    evidence: EvidenceRegistry,
    signer: ReceiptSigner,
    policy: Policy,
    kernel: Kernel,
    journal: BrokerJournal,
    frozen: bool,
}

impl Broker {
    pub closed spec fn spec_supervisor(&self) -> Seq<char> {
        self.supervisor_digest@
    }

    pub closed spec fn spec_evidence(&self) -> EvidenceRegistry {
        self.evidence
    }

    pub closed spec fn spec_signer(&self) -> ReceiptSigner {
        self.signer
    }

    pub closed spec fn spec_policy(&self) -> Policy {
        self.policy
    }

    pub closed spec fn spec_kernel(&self) -> Kernel {
        self.kernel
    }

    pub closed spec fn spec_journal(&self) -> BrokerJournal {
        self.journal
    }

    pub closed spec fn spec_frozen(&self) -> bool {
        self.frozen
    }

    /// The supervisor, evidence, signer and policy are kept.
    pub open spec fn same_context(&self, other: Broker) -> bool {
        &&& other.spec_supervisor() == self.spec_supervisor()
        &&& other.spec_evidence() == self.spec_evidence()
        &&& other.spec_signer() == self.spec_signer()
        &&& other.spec_policy() == self.spec_policy()
    }

    /// `after` is `self` frozen: broker, journal and kernel.
    pub open spec fn froze_into(&self, after: Broker) -> bool {
        &&& self.same_context(after)
        &&& after.spec_frozen()
        &&& after.spec_journal().frozen
        &&& after.spec_journal().version == self.spec_journal().version
        &&& after.spec_journal().entries == self.spec_journal().entries
        &&& kernel_frozen_from(self.spec_kernel(), after.spec_kernel())
    }

    /// Sets up the broker over a recovered journal: every transaction the
    /// journal holds in flight is quarantined and the journal frozen (the
    /// flag answers whether that happened, and the journal must then be
    /// saved); the broker is frozen exactly when its journal is.
    pub fn new(
        supervisor_digest: String,
        evidence: EvidenceRegistry,
        signer: ReceiptSigner,
        journal_in: BrokerJournal,
    ) -> (r: Result<(Broker, bool), Error>)
        ensures
            r matches Err(e) ==> e is Journal || e is Invalid,
            r matches Ok((b, changed)) ==> {
                let old_es = journal_in.entries@;
                &&& b.spec_supervisor() == supervisor_digest@
                &&& b.spec_evidence() == evidence
                &&& b.spec_signer() == signer
                &&& is_broker_policy(b.spec_policy())
                &&& is_broker_policy(b.spec_kernel().spec_policy())
                &&& b.spec_kernel().journal_entries().len() == 0
                &&& b.spec_kernel().lifecycle_entries().len() == 0
                &&& b.spec_kernel().issuance_entries().len() == 0
                &&& !b.spec_kernel().spec_frozen()
                &&& !b.spec_kernel().spec_killed()
                &&& changed == (in_flight_prefix(old_es, old_es.len() as int).len() > 0)
                &&& !changed ==> b.spec_journal() == journal_in
                &&& changed ==> {
                    &&& b.spec_journal().frozen
                    &&& b.spec_journal().spec_valid()
                    &&& b.spec_journal().version == journal_in.version
                    &&& recovered_from(old_es, b.spec_journal().entries@)
                }
                &&& b.spec_frozen() == b.spec_journal().frozen
            },
    {
        let mut journal_in = journal_in;
        let changed = quarantine_in_flight(&mut journal_in)?;
        let frozen = journal_in.frozen;
        let policy = broker_policy();
        let kernel = Kernel::new(broker_policy())?;
        Ok(
            (
                Broker {
                    supervisor_digest,
                    evidence,
                    signer,
                    policy,
                    kernel,
                    journal: journal_in,
                    frozen,
                },
                changed,
            ),
        )
    }

    pub fn is_frozen(&self) -> (r: bool)
        ensures
            r == self.spec_frozen(),
    {
        self.frozen
    }

    pub fn journal(&self) -> (r: &BrokerJournal)
        ensures
            *r == self.spec_journal(),
    {
        &self.journal
    }

    /// The broker's greeting.
    pub fn hello(&self) -> (r: BrokerHello)
        ensures
            r.protocol_version == PROTOCOL_VERSION,
            r.state_slice@ == STATE_SLICE@,
            r.supervisor_digest@ == self.spec_supervisor(),
            r.issuer_key_id@ == self.spec_signer().spec_key_id(),
            r.issuer_public_key@ == self.spec_signer().spec_public_key(),
    {
        let key = self.signer.verifying_key_bytes();
        let mut public_key: Vec<u8> = Vec::new();
        for i in 0..32
            invariant
                public_key@ == key@.take(i as int),
        {
            public_key.push(key[i]);
        }
        proof {
            assert(key@.take(32) =~= key@);
        }
        BrokerHello {
            protocol_version: PROTOCOL_VERSION,
            state_slice: STATE_SLICE.to_owned(),
            supervisor_digest: self.supervisor_digest.clone(),
            issuer_key_id: self.signer.key_id().to_owned(),
            issuer_public_key: public_key,
        }
    }

    fn freeze(&mut self)
        ensures
            old(self).froze_into(*final(self)),
    {
        self.frozen = true;
        self.journal.frozen = true;
        let _ = self.kernel.freeze_all();
    }
}


/// A transaction event has been seen for the request: its agent's nonce was
/// used, or its digest was journaled.
pub open spec fn replay_seen(es: Seq<TransactionEvent>, req: FileTransformRequest, d: Seq<char>) -> bool {
    ||| latest_for_nonce(es, req.agent_id@, req.nonce, es.len() as int) is Some
    ||| latest_status(es, d, es.len() as int) is Some
}

/// How screening answers a request whose proposal digest is `d`: a frozen
/// broker answers `Frozen`; then an invalid request, a replay and a foreign
/// supervisor are rejected; missing telemetry freezes the broker and
/// quarantines; unusable evidence quarantines; otherwise the request goes on.
pub open spec fn screens(
    o: Broker,
    f: Broker,
    req: FileTransformRequest,
    now: u64,
    d: Seq<char>,
    v: Option<BrokerResponse>,
) -> bool {
    if o.spec_frozen() {
        v matches Some(x) && frozen_with(x) && f == o
    } else if !req.spec_valid(now) {
        v matches Some(x) && rejected_with(x, None, "invalid_request"@) && f == o
    } else if replay_seen(o.spec_journal().entries@, req, d) {
        v matches Some(x) && rejected_with(x, Some(d), "replay"@) && f == o
    } else if req.executable_digest@ != o.spec_supervisor() {
        v matches Some(x) && rejected_with(x, Some(d), "executable_digest_mismatch"@) && f == o
    } else if !req.telemetry_present {
        v matches Some(x) && quarantined_with(x, Some(d), "telemetry_missing"@, None) && o.froze_into(
            f,
        )
    } else if !o.spec_evidence().spec_is_valid(req.evidence_id@, now, d) {
        v matches Some(x) && quarantined_with(x, Some(d), "evidence_unavailable"@, None) && f == o
    } else {
        v is None && f == o
    }
}

/// The journal `f` holds, with the frozen flag `o`'s journal had.
pub open spec fn journal_before_freeze(o: Broker, f: Broker) -> BrokerJournal {
    BrokerJournal {
        version: f.spec_journal().version,
        frozen: o.spec_journal().frozen,
        entries: f.spec_journal().entries,
    }
}

/// From `o` to `f` the context and journal version are kept and the kernel
/// went to `k`; if `freezes`, the broker, its journal and `k` were then
/// frozen, otherwise the kernel is `k` and nothing was frozen.
pub open spec fn settled(o: Broker, f: Broker, k: Kernel, freezes: bool) -> bool {
    &&& o.same_context(f)
    &&& f.spec_journal().version == o.spec_journal().version
    &&& freezes ==> {
        &&& f.spec_frozen()
        &&& f.spec_journal().frozen
        &&& kernel_frozen_from(k, f.spec_kernel())
    }
    &&& !freezes ==> {
        &&& f.spec_frozen() == o.spec_frozen()
        &&& f.spec_journal().frozen == o.spec_journal().frozen
        &&& f.spec_kernel() == k
    }
}

/// Admission of a request whose source passed its size and digest checks:
/// the kernel's decision `kr` (kernel `k1` after it), the receipt `ir` for
/// an accepted decision and the journal append `ar`, each answered as the
/// broker answers it.
pub open spec fn admission_after_checks(
    o: Broker,
    f: Broker,
    req: FileTransformRequest,
    pend: PendingTransform,
    now: u64,
    r: Admission,
    k1: Kernel,
    kr: Result<Decision, Error>,
    ir: Result<CapabilityReceipt, Error>,
    ar: Result<(), Error>,
) -> bool {
    let d = pend.request_digest@;
    &&& admits(o.spec_kernel(), k1, pend.proposal, now, kr)
    &&& match kr {
        Err(_) => {
            &&& r matches Admission::Respond(x) && rejected_with(x, Some(d), "admission_failed"@)
            &&& settled(o, f, k1, false)
            &&& f.spec_journal().entries == o.spec_journal().entries
        },
        Ok(dec) => if dec.kind != DecisionKind::Accepted {
            &&& r matches Admission::Respond(x) && quarantined_with(
                x,
                Some(d),
                "admission_not_accepted"@,
                None,
            )
            &&& settled(o, f, k1, false)
            &&& f.spec_journal().entries == o.spec_journal().entries
        } else {
            &&& issue_result(o.spec_signer(), req.subject@, pend.proposal, dec, o.spec_policy(), ir)
            &&& match ir {
                Err(_) => {
                    &&& r matches Admission::Respond(x) && rejected_with(
                        x,
                        Some(d),
                        "receipt_issue_failed"@,
                    )
                    &&& settled(o, f, k1, false)
                    &&& f.spec_journal().entries == o.spec_journal().entries
                },
                Ok(rc) => {
                    &&& appends(
                        o.spec_journal(),
                        journal_before_freeze(o, f),
                        d,
                        req.agent_id@,
                        req.nonce,
                        Some(dec.decision_digest),
                        token_of(dec),
                        TransactionStatus::Admitted,
                        None,
                        ar,
                    )
                    &&& settled(o, f, k1, ar is Err)
                    &&& ar is Err ==> (r matches Admission::Respond(x) && quarantined_with(
                        x,
                        Some(d),
                        "journal_admission_failed"@,
                        Some(rc),
                    ))
                    &&& ar is Ok ==> (r matches Admission::Admitted(a) && a.decision == dec
                        && a.receipt == rc && a.capability_token_id == token_of(dec))
                },
            }
        },
    }
}

/// The start of execution of an admitted transaction: the capability is
/// consumed (`cr`, kernel `k1` after it), then `Executing` is journaled
/// (`ar`); either failure freezes the broker and quarantines.
pub open spec fn execution_step(
    o: Broker,
    f: Broker,
    req: FileTransformRequest,
    pend: PendingTransform,
    adm: AdmittedTransform,
    now: u64,
    r: Option<BrokerResponse>,
    k1: Kernel,
    cr: Result<bool, Error>,
    ar: Result<(), Error>,
) -> bool {
    let d = pend.request_digest@;
    &&& consumes(o.spec_kernel(), k1, pend.proposal, adm.decision, now, cr)
    &&& if !(cr matches Ok(true)) {
        &&& r matches Some(x) && quarantined_with(
            x,
            Some(d),
            "capability_consume_failed"@,
            Some(adm.receipt),
        )
        &&& settled(o, f, k1, true)
        &&& f.spec_journal().entries == o.spec_journal().entries
    } else {
        &&& appends(
            o.spec_journal(),
            journal_before_freeze(o, f),
            d,
            req.agent_id@,
            req.nonce,
            Some(adm.decision.decision_digest),
            adm.capability_token_id,
            TransactionStatus::Executing,
            None,
            ar,
        )
        &&& settled(o, f, k1, ar is Err)
        &&& ar is Err ==> (r matches Some(x) && quarantined_with(
            x,
            Some(d),
            "journal_execution_failed"@,
            Some(adm.receipt),
        ))
        &&& ar is Ok ==> r is None
    }
}

/// `r` is `Completed` with these values.
pub open spec fn completed_with(
    r: BrokerResponse,
    d: Seq<char>,
    decision_digest: Seq<char>,
    receipt: CapabilityReceipt,
    output: Seq<char>,
) -> bool {
    &&& r matches BrokerResponse::Completed { .. }
    &&& r->Completed_request_digest@ == d
    &&& r->Completed_decision_digest@ == decision_digest
    &&& same_receipt(r->Completed_receipt, receipt)
    &&& r->Completed_output_digest@ == output
}

/// The end of a transformation whose supervisor answered `outcome`: on
/// success the kernel record is completed (`cr`, kernel `k1`) and `Committed`
/// journaled (`ar`), a failed journal append rolling the record back
/// (`rr`, kernel `k2`); on failure the record is rolled back and
/// `RolledBack` journaled, whatever that answers. Every failure freezes.
pub open spec fn finish_step(
    o: Broker,
    f: Broker,
    req: FileTransformRequest,
    pend: PendingTransform,
    adm: AdmittedTransform,
    outcome: Result<String, String>,
    r: Finish,
    k1: Kernel,
    cr: Result<bool, Error>,
    k2: Kernel,
    rr: Result<bool, Error>,
    ar: Result<(), Error>,
) -> bool {
    let d = pend.request_digest@;
    let dd = adm.decision.decision_digest;
    match outcome {
        Ok(out) => {
            &&& applies_event(o.spec_kernel(), k1, pend.proposal, LifecycleEvent::Complete, cr)
            &&& if cr is Err {
                &&& r matches Finish::Respond(x) && quarantined_with(
                    x,
                    Some(d),
                    "kernel_completion_failed"@,
                    Some(adm.receipt),
                )
                &&& settled(o, f, k1, true)
                &&& f.spec_journal().entries == o.spec_journal().entries
            } else {
                &&& appends(
                    o.spec_journal(),
                    journal_before_freeze(o, f),
                    d,
                    req.agent_id@,
                    req.nonce,
                    Some(dd),
                    adm.capability_token_id,
                    TransactionStatus::Committed,
                    Some(out),
                    ar,
                )
                &&& ar is Err ==> {
                    &&& applies_event(k1, k2, pend.proposal, LifecycleEvent::Rollback, rr)
                    &&& settled(o, f, k2, true)
                    &&& r matches Finish::Respond(x) && quarantined_with(
                        x,
                        Some(d),
                        "commit_record_failed"@,
                        Some(adm.receipt),
                    )
                }
                &&& ar is Ok ==> {
                    &&& settled(o, f, k1, false)
                    &&& r matches Finish::Commit(x) && completed_with(x, d, dd@, adm.receipt, out@)
                }
            }
        },
        Err(code) => {
            &&& applies_event(o.spec_kernel(), k1, pend.proposal, LifecycleEvent::Rollback, rr)
            &&& appends(
                o.spec_journal(),
                journal_before_freeze(o, f),
                d,
                req.agent_id@,
                req.nonce,
                Some(dd),
                adm.capability_token_id,
                TransactionStatus::RolledBack,
                None,
                ar,
            )
            &&& settled(o, f, k1, true)
            &&& r matches Finish::Respond(x) && quarantined_with(x, Some(d), code@, Some(adm.receipt))
        },
    }
}

/// ASCII lower-case letters to upper case; every other byte is kept.
pub open spec fn upper_ascii(b: u8) -> u8 {
    if 97 <= b <= 122 {
        (b - 32) as u8
    } else {
        b
    }
}

pub open spec fn uppercase_ascii(bytes: Seq<u8>) -> Seq<u8> {
    bytes.map_values(|b: u8| upper_ascii(b))
}

/// The digest the transformed file must have: that of the source with its
/// ASCII letters in upper case.
pub fn expected_output_digest(source: &[u8]) -> (r: String)
    ensures
        r@ == sha256_hex(uppercase_ascii(source@)),
{
    let mut out: Vec<u8> = Vec::new();
    for i in 0..source.len()
        invariant
            out@ == uppercase_ascii(source@.take(i as int)),
    {
        let b = source[i];
        let u = if 97 <= b && b <= 122 {
            b - 32
        } else {
            b
        };
        proof {
            assert(source@.take(i + 1) =~= source@.take(i as int).push(b));
        }
        out.push(u);
        proof {
            assert(out@ =~= uppercase_ascii(source@.take(i + 1)));
        }
    }
    proof {
        assert(source@.take(source@.len() as int) =~= source@);
    }
    digest_bytes(out.as_slice())
}

impl Broker {
    /// Screens a transformation request at `now` and answers the proposal
    /// it stands for, its digest, and the response if the request stops
    /// here (`None`: it goes on to the workspace checks).
    pub fn screen(&mut self, request: &FileTransformRequest, now: u64) -> (r: (
        PendingTransform,
        Option<BrokerResponse>,
    ))
        ensures
            proposal_for(r.0.proposal, *request),
            r.0.request_digest@ == r.0.proposal.spec_digest(),
            screens(*old(self), *final(self), *request, now, r.0.request_digest@, r.1),
    {
        let proposal = request.to_proposal();
        let request_digest = proposal.digest_text();
        let verdict = if self.frozen {
            Some(BrokerResponse::Frozen { code: "broker_frozen".to_owned() })
        } else if request.validate(now).is_err() {
            Some(rejected_response(None, "invalid_request"))
        } else if self.journal.replay_status(request.agent_id.as_str(), request.nonce).is_some()
            || self.journal.status(request_digest.as_str()).is_some() {
            Some(rejected_response(Some(request_digest.clone()), "replay"))
        } else if !text_eq(request.executable_digest.as_str(), self.supervisor_digest.as_str()) {
            Some(rejected_response(Some(request_digest.clone()), "executable_digest_mismatch"))
        } else if !request.telemetry_present {
            self.freeze();
            Some(quarantined_response(Some(request_digest.clone()), "telemetry_missing", None))
        } else if !self.evidence.is_valid(
            request.evidence_id.as_str(),
            now,
            request_digest.as_str(),
        ) {
            Some(quarantined_response(Some(request_digest.clone()), "evidence_unavailable", None))
        } else {
            None
        };
        (PendingTransform { proposal, request_digest }, verdict)
    }
}


impl Broker {
    /// Admits a screened request whose source file holds `source`: checks
    /// the source's size and digest, has the kernel decide, issues the
    /// receipt of an accepted decision and journals `Admitted`.
    pub fn admit_transform(
        &mut self,
        request: &FileTransformRequest,
        pending: &PendingTransform,
        source: &[u8],
        now: u64,
    ) -> (r: Admission)
        ensures
            source@.len() > request.max_bytes ==> (r matches Admission::Respond(x)
                && quarantined_with(x, Some(pending.request_digest@), "input_size_invalid"@, None)
                && *final(self) == *old(self)),
            source@.len() <= request.max_bytes && sha256_hex(source@) != request.input_digest@ ==> (
            r matches Admission::Respond(x) && quarantined_with(
                x,
                Some(pending.request_digest@),
                "input_digest_mismatch"@,
                None,
            ) && *final(self) == *old(self)),
            source@.len() <= request.max_bytes && sha256_hex(source@) == request.input_digest@ ==> exists|
                k1: Kernel,
                kr: Result<Decision, Error>,
                ir: Result<CapabilityReceipt, Error>,
                ar: Result<(), Error>,
            |
                #[trigger] admission_after_checks(
                    *old(self),
                    *final(self),
                    *request,
                    *pending,
                    now,
                    r,
                    k1,
                    kr,
                    ir,
                    ar,
                ),
    {
        let ghost o = *self;
        let d = &pending.request_digest;
        if source.len() as u64 > request.max_bytes {
            return Admission::Respond(quarantined_response(Some(d.clone()), "input_size_invalid", None));
        }
        let actual = digest_bytes(source);
        if !text_eq(actual.as_str(), request.input_digest.as_str()) {
            return Admission::Respond(
                quarantined_response(Some(d.clone()), "input_digest_mismatch", None),
            );
        }
        let kr = self.kernel.admit_proposal(&pending.proposal, now);
        let ghost k1 = self.kernel;
        let ghost kr_g = kr;
        let decision = match kr {
            Ok(value) => value,
            Err(_) => {
                let r = Admission::Respond(rejected_response(Some(d.clone()), "admission_failed"));
                proof {
                    assert(admission_after_checks(o, *self, *request, *pending, now, r, k1, kr_g, arbitrary(), arbitrary()));
                }
                return r;
            },
        };
        if decision.kind != DecisionKind::Accepted {
            let r = Admission::Respond(
                quarantined_response(Some(d.clone()), "admission_not_accepted", None),
            );
            proof {
                assert(admission_after_checks(o, *self, *request, *pending, now, r, k1, kr_g, arbitrary(), arbitrary()));
            }
            return r;
        }
        let ir = self.signer.issue(request.subject.as_str(), &pending.proposal, &decision, &self.policy);
        let ghost ir_g = ir;
        let receipt = match ir {
            Ok(value) => value,
            Err(_) => {
                let r = Admission::Respond(
                    rejected_response(Some(d.clone()), "receipt_issue_failed"),
                );
                proof {
                    assert(admission_after_checks(o, *self, *request, *pending, now, r, k1, kr_g, ir_g, arbitrary()));
                }
                return r;
            },
        };
        let token = decision_token(&decision);
        let ar = self.journal.append(
            d.as_str(),
            request.agent_id.as_str(),
            request.nonce,
            Some(decision.decision_digest.clone()),
            decision_token(&decision),
            TransactionStatus::Admitted,
            None,
        );
        let ghost ar_g = ar;
        if ar.is_err() {
            self.freeze();
            let r = Admission::Respond(
                quarantined_response(Some(d.clone()), "journal_admission_failed", Some(&receipt)),
            );
            proof {
                assert(admission_after_checks(o, *self, *request, *pending, now, r, k1, kr_g, ir_g, ar_g));
            }
            return r;
        }
        let r = Admission::Admitted(
            AdmittedTransform { decision, receipt, capability_token_id: token },
        );
        proof {
            assert(admission_after_checks(o, *self, *request, *pending, now, r, k1, kr_g, ir_g, ar_g));
        }
        r
    }
}


impl Broker {
    /// Starts execution of an admitted transaction whose admission was
    /// saved: consumes its capability and journals `Executing`. `None`: save
    /// the journal, then launch the supervisor.
    pub fn begin_execution(
        &mut self,
        request: &FileTransformRequest,
        pending: &PendingTransform,
        admitted: &AdmittedTransform,
        now: u64,
    ) -> (r: Option<BrokerResponse>)
        ensures
            exists|k1: Kernel, cr: Result<bool, Error>, ar: Result<(), Error>|
                #[trigger] execution_step(
                    *old(self),
                    *final(self),
                    *request,
                    *pending,
                    *admitted,
                    now,
                    r,
                    k1,
                    cr,
                    ar,
                ),
    {
        let ghost o = *self;
        let d = &pending.request_digest;
        let cr = self.kernel.consume(&pending.proposal, &admitted.decision, now);
        let ghost k1 = self.kernel;
        let ghost cr_g = cr;
        let consumed = match cr {
            Ok(b) => b,
            Err(_) => false,
        };
        if !consumed {
            self.freeze();
            let r = Some(
                quarantined_response(
                    Some(d.clone()),
                    "capability_consume_failed",
                    Some(&admitted.receipt),
                ),
            );
            proof {
                assert(execution_step(o, *self, *request, *pending, *admitted, now, r, k1, cr_g, arbitrary()));
            }
            return r;
        }
        let token = match &admitted.capability_token_id {
            Some(t) => Some(t.clone()),
            None => None,
        };
        let ar = self.journal.append(
            d.as_str(),
            request.agent_id.as_str(),
            request.nonce,
            Some(admitted.decision.decision_digest.clone()),
            token,
            TransactionStatus::Executing,
            None,
        );
        let ghost ar_g = ar;
        if ar.is_err() {
            self.freeze();
            let r = Some(
                quarantined_response(
                    Some(d.clone()),
                    "journal_execution_failed",
                    Some(&admitted.receipt),
                ),
            );
            proof {
                assert(execution_step(o, *self, *request, *pending, *admitted, now, r, k1, cr_g, ar_g));
            }
            return r;
        }
        proof {
            assert(execution_step(o, *self, *request, *pending, *admitted, now, None, k1, cr_g, ar_g));
        }
        None
    }

    /// Answers a step that could not be saved or started: freezes the
    /// broker (rolling the kernel record back first when the commit was not
    /// saved) and quarantines with the step's code and the receipt.
    pub fn abort(
        &mut self,
        pending: &PendingTransform,
        admitted: &AdmittedTransform,
        failure: StepFailure,
    ) -> (r: BrokerResponse)
        ensures
            quarantined_with(
                r,
                Some(pending.request_digest@),
                failure_code(failure),
                Some(admitted.receipt),
            ),
            final(self).spec_journal().entries == old(self).spec_journal().entries,
            failure != StepFailure::CommitNotSaved ==> old(self).froze_into(*final(self)),
            failure == StepFailure::CommitNotSaved ==> exists|k1: Kernel, rr: Result<bool, Error>|
                #[trigger] applies_event(
                    old(self).spec_kernel(),
                    k1,
                    pending.proposal,
                    LifecycleEvent::Rollback,
                    rr,
                ) && settled(*old(self), *final(self), k1, true),
    {
        let ghost o = *self;
        let code = match failure {
            StepFailure::AdmissionNotSaved => "journal_admission_failed",
            StepFailure::ExecutionNotSaved => "journal_execution_failed",
            StepFailure::LaunchTokenUnavailable => "launch_token_unavailable",
            StepFailure::CommitNotSaved => "commit_record_failed",
        };
        if failure == StepFailure::CommitNotSaved {
            let rr = self.kernel.rollback(&pending.proposal);
            let ghost k1 = self.kernel;
            let ghost rr_g = rr;
            self.freeze();
            proof {
                assert(applies_event(o.spec_kernel(), k1, pending.proposal, LifecycleEvent::Rollback, rr_g));
            }
        } else {
            self.freeze();
        }
        quarantined_response(Some(pending.request_digest.clone()), code, Some(&admitted.receipt))
    }

    /// Ends a transformation whose supervisor answered `outcome` (the
    /// output digest, or a failure code).
    pub fn finish(
        &mut self,
        request: &FileTransformRequest,
        pending: &PendingTransform,
        admitted: &AdmittedTransform,
        outcome: Result<String, String>,
    ) -> (r: Finish)
        ensures
            exists|
                k1: Kernel,
                cr: Result<bool, Error>,
                k2: Kernel,
                rr: Result<bool, Error>,
                ar: Result<(), Error>,
            |
                #[trigger] finish_step(
                    *old(self),
                    *final(self),
                    *request,
                    *pending,
                    *admitted,
                    outcome,
                    r,
                    k1,
                    cr,
                    k2,
                    rr,
                    ar,
                ),
    {
        let ghost o = *self;
        let ghost outcome_g = outcome;
        let d = &pending.request_digest;
        let token = match &admitted.capability_token_id {
            Some(t) => Some(t.clone()),
            None => None,
        };
        match outcome {
            Ok(output_digest) => {
                let cr = self.kernel.complete(&pending.proposal);
                let ghost k1 = self.kernel;
                let ghost cr_g = cr;
                if cr.is_err() {
                    self.freeze();
                    let r = Finish::Respond(
                        quarantined_response(
                            Some(d.clone()),
                            "kernel_completion_failed",
                            Some(&admitted.receipt),
                        ),
                    );
                    proof {
                        assert(finish_step(o, *self, *request, *pending, *admitted, outcome_g, r, k1, cr_g, arbitrary(), arbitrary(), arbitrary()));
                    }
                    return r;
                }
                let ar = self.journal.append(
                    d.as_str(),
                    request.agent_id.as_str(),
                    request.nonce,
                    Some(admitted.decision.decision_digest.clone()),
                    token,
                    TransactionStatus::Committed,
                    Some(output_digest.clone()),
                );
                let ghost ar_g = ar;
                if ar.is_err() {
                    let rr = self.kernel.rollback(&pending.proposal);
                    let ghost k2 = self.kernel;
                    let ghost rr_g = rr;
                    self.freeze();
                    let r = Finish::Respond(
                        quarantined_response(
                            Some(d.clone()),
                            "commit_record_failed",
                            Some(&admitted.receipt),
                        ),
                    );
                    proof {
                        assert(finish_step(o, *self, *request, *pending, *admitted, outcome_g, r, k1, cr_g, k2, rr_g, ar_g));
                    }
                    return r;
                }
                let r = Finish::Commit(
                    BrokerResponse::Completed {
                        request_digest: d.clone(),
                        decision_digest: admitted.decision.decision_digest.clone(),
                        receipt: admitted.receipt.copy_receipt(),
                        output_digest,
                    },
                );
                proof {
                    assert(finish_step(o, *self, *request, *pending, *admitted, outcome_g, r, k1, cr_g, arbitrary(), arbitrary(), ar_g));
                }
                r
            },
            Err(code) => {
                let rr = self.kernel.rollback(&pending.proposal);
                let ghost k1 = self.kernel;
                let ghost rr_g = rr;
                let ar = self.journal.append(
                    d.as_str(),
                    request.agent_id.as_str(),
                    request.nonce,
                    Some(admitted.decision.decision_digest.clone()),
                    token,
                    TransactionStatus::RolledBack,
                    None,
                );
                let ghost ar_g = ar;
                self.freeze();
                let r = Finish::Respond(
                    quarantined_response(Some(d.clone()), code.as_str(), Some(&admitted.receipt)),
                );
                proof {
                    assert(finish_step(o, *self, *request, *pending, *admitted, outcome_g, r, k1, arbitrary(), arbitrary(), rr_g, ar_g));
                }
                r
            },
        }
    }
}

fn rejected_response(request_digest: Option<String>, code: &str) -> (r: BrokerResponse)
    ensures
        rejected_with(r, opt_view(request_digest), code@),
{
    BrokerResponse::Rejected { request_digest, code: code.to_owned() }
}

fn quarantined_response(
    request_digest: Option<String>,
    code: &str,
    receipt: Option<&CapabilityReceipt>,
) -> (r: BrokerResponse)
    ensures
        quarantined_with(
            r,
            opt_view(request_digest),
            code@,
            match receipt {
                Some(rc) => Some(*rc),
                None => None,
            },
        ),
{
    let receipt = match receipt {
        Some(rc) => Some(rc.copy_receipt()),
        None => None,
    };
    BrokerResponse::Quarantined { request_digest, code: code.to_owned(), receipt }
}

// ------------------------------------------------------------ journal

/// Where a brokered transaction stands.
#[derive(Clone, Copy, Debug, PartialEq, Eq, Structural)]
pub enum TransactionStatus {
    Admitted,
    Executing,
    Committed,
    RolledBack,
    Quarantined,
    Rejected,
}

pub open spec fn status_name(s: TransactionStatus) -> Seq<char> {
    match s {
        TransactionStatus::Admitted => "Admitted"@,
        TransactionStatus::Executing => "Executing"@,
        TransactionStatus::Committed => "Committed"@,
        TransactionStatus::RolledBack => "RolledBack"@,
        TransactionStatus::Quarantined => "Quarantined"@,
        TransactionStatus::Rejected => "Rejected"@,
    }
}

fn status_label(s: TransactionStatus) -> (r: &'static str)
    ensures
        r@ == status_name(s),
{
    match s {
        TransactionStatus::Admitted => "Admitted",
        TransactionStatus::Executing => "Executing",
        TransactionStatus::Committed => "Committed",
        TransactionStatus::RolledBack => "RolledBack",
        TransactionStatus::Quarantined => "Quarantined",
        TransactionStatus::Rejected => "Rejected",
    }
}

/// The moves a transaction may make, from no record or from its latest
/// status.
pub open spec fn move_allowed(prior: Option<TransactionStatus>, next: TransactionStatus) -> bool {
    match prior {
        None => next == TransactionStatus::Admitted || next == TransactionStatus::Rejected || next
            == TransactionStatus::Quarantined,
        Some(TransactionStatus::Admitted) => next == TransactionStatus::Executing || next
            == TransactionStatus::Quarantined,
        Some(TransactionStatus::Executing) => next == TransactionStatus::Committed || next
            == TransactionStatus::RolledBack || next == TransactionStatus::Quarantined,
        Some(_) => false,
    }
}

fn move_ok(prior: Option<TransactionStatus>, next: TransactionStatus) -> (r: bool)
    ensures
        r == move_allowed(prior, next),
{
    match prior {
        None => next == TransactionStatus::Admitted || next == TransactionStatus::Rejected || next
            == TransactionStatus::Quarantined,
        Some(TransactionStatus::Admitted) => next == TransactionStatus::Executing || next
            == TransactionStatus::Quarantined,
        Some(TransactionStatus::Executing) => next == TransactionStatus::Committed || next
            == TransactionStatus::RolledBack || next == TransactionStatus::Quarantined,
        Some(_) => false,
    }
}

/// One journaled step of a transaction.
#[derive(Clone, Debug, PartialEq, Eq)]
pub struct TransactionEvent {
    pub sequence: u64,
    pub previous_digest: String,
    pub request_digest: String,
    pub agent_id: String,
    pub nonce: u64,
    pub decision_digest: Option<String>,
    pub capability_token_id: Option<String>,
    pub status: TransactionStatus,
    pub output_digest: Option<String>,
    pub entry_digest: String,
}

pub open spec fn opt_text_bytes(o: Option<String>) -> Seq<u8> {
    match o {
        Some(s) => json_text(s@),
        None => json_null(),
    }
}

pub open spec fn opt_digest_ok(o: Option<String>) -> bool {
    match o {
        Some(s) => is_digest(s@),
        None => true,
    }
}

/// `[sequence,"previous","request","agent",nonce,decision,token,"Status",output]`.
pub open spec fn event_material(
    sequence: u64,
    previous: Seq<char>,
    request: Seq<char>,
    agent: Seq<char>,
    nonce: u64,
    decision: Option<String>,
    token: Option<String>,
    status: TransactionStatus,
    output: Option<String>,
) -> Seq<u8> {
    lit("[") + json_nat(sequence as nat) + lit(",") + json_text(previous) + lit(",") + json_text(
        request,
    ) + lit(",") + json_text(agent) + lit(",") + json_nat(nonce as nat) + lit(",") + opt_text_bytes(
        decision,
    ) + lit(",") + opt_text_bytes(token) + lit(",") + json_text(status_name(status)) + lit(",")
        + opt_text_bytes(output) + lit("]")
}

pub open spec fn event_digest_of(e: TransactionEvent) -> Seq<char> {
    sha256_hex(
        event_material(
            e.sequence,
            e.previous_digest@,
            e.request_digest@,
            e.agent_id@,
            e.nonce,
            e.decision_digest,
            e.capability_token_id,
            e.status,
            e.output_digest,
        ),
    )
}

fn push_opt_text(out: &mut Vec<u8>, o: &Option<String>)
    ensures
        final(out)@ == old(out)@ + opt_text_bytes(*o),
{
    match o {
        Some(s) => push_text(out, s.as_str()),
        None => push_null(out),
    }
}

fn opt_digest_valid(o: &Option<String>) -> (r: bool)
    ensures
        r == opt_digest_ok(*o),
{
    match o {
        Some(s) => valid_digest(s.as_str()),
        None => true,
    }
}

fn event_digest(
    sequence: u64,
    previous: &str,
    request: &str,
    agent: &str,
    nonce: u64,
    decision: &Option<String>,
    token: &Option<String>,
    status: TransactionStatus,
    output: &Option<String>,
) -> (r: String)
    ensures
        r@ == sha256_hex(
            event_material(sequence, previous@, request@, agent@, nonce, *decision, *token, status, *output),
        ),
        is_digest(r@),
{
    let mut out: Vec<u8> = Vec::new();
    push_lit(&mut out, "[");
    push_nat(&mut out, sequence);
    push_lit(&mut out, ",");
    push_text(&mut out, previous);
    push_lit(&mut out, ",");
    push_text(&mut out, request);
    push_lit(&mut out, ",");
    push_text(&mut out, agent);
    push_lit(&mut out, ",");
    push_nat(&mut out, nonce);
    push_lit(&mut out, ",");
    push_opt_text(&mut out, decision);
    push_lit(&mut out, ",");
    push_opt_text(&mut out, token);
    push_lit(&mut out, ",");
    push_text(&mut out, status_label(status));
    push_lit(&mut out, ",");
    push_opt_text(&mut out, output);
    push_lit(&mut out, "]");
    assert(out@ =~= event_material(sequence, previous@, request@, agent@, nonce, *decision, *token, status, *output));
    digest_bytes(out.as_slice())
}

/// The status of the latest of the first `i` events for `request`.
pub open spec fn latest_status(entries: Seq<TransactionEvent>, request: Seq<char>, i: int) -> Option<
    TransactionStatus,
>
    decreases i,
{
    if i <= 0 {
        None
    } else if entries[i - 1].request_digest@ == request {
        Some(entries[i - 1].status)
    } else {
        latest_status(entries, request, i - 1)
    }
}

/// The status of the latest of the first `i` events from `agent` with `nonce`.
pub open spec fn latest_for_nonce(
    entries: Seq<TransactionEvent>,
    agent: Seq<char>,
    nonce: u64,
    i: int,
) -> Option<TransactionStatus>
    decreases i,
{
    if i <= 0 {
        None
    } else if entries[i - 1].agent_id@ == agent && entries[i - 1].nonce == nonce {
        Some(entries[i - 1].status)
    } else {
        latest_for_nonce(entries, agent, nonce, i - 1)
    }
}

/// The digest event `i` must chain to.
pub open spec fn previous_event_digest(entries: Seq<TransactionEvent>, i: int) -> Seq<char> {
    if i == 0 {
        zero_digest()
    } else {
        entries[i - 1].entry_digest@
    }
}

/// Event `i` is numbered, chained, well formed, a permitted move for its
/// transaction, and its digest recomputes.
pub open spec fn event_ok(entries: Seq<TransactionEvent>, i: int) -> bool {
    let e = entries[i];
    &&& e.sequence == i
    &&& e.previous_digest@ == previous_event_digest(entries, i)
    &&& is_digest(e.request_digest@)
    &&& broker_text(e.agent_id@)
    &&& e.nonce != 0
    &&& opt_digest_ok(e.decision_digest)
    &&& opt_digest_ok(e.capability_token_id)
    &&& opt_digest_ok(e.output_digest)
    &&& is_digest(e.entry_digest@)
    &&& move_allowed(latest_status(entries, e.request_digest@, i), e.status)
    &&& e.entry_digest@ == event_digest_of(e)
}

pub open spec fn events_ok(entries: Seq<TransactionEvent>) -> bool {
    forall|i: int| 0 <= i < entries.len() ==> #[trigger] event_ok(entries, i)
}

/// The events still in flight: each event whose transaction's latest status
/// is its own status and is `Admitted` or `Executing`.
pub open spec fn in_flight_at(entries: Seq<TransactionEvent>, e: TransactionEvent) -> bool {
    let s = latest_status(entries, e.request_digest@, entries.len() as int);
    &&& (s == Some(TransactionStatus::Admitted) || s == Some(TransactionStatus::Executing))
    &&& s == Some(e.status)
}

/// The in-flight events among the first `i`, in journal order.
pub open spec fn in_flight_prefix(entries: Seq<TransactionEvent>, i: int) -> Seq<TransactionEvent>
    decreases i,
{
    if i <= 0 {
        Seq::empty()
    } else if in_flight_at(entries, entries[i - 1]) {
        in_flight_prefix(entries, i - 1).push(entries[i - 1])
    } else {
        in_flight_prefix(entries, i - 1)
    }
}

/// Some event of `agent` with `nonce` belongs to another request.
pub open spec fn nonce_taken(
    entries: Seq<TransactionEvent>,
    agent: Seq<char>,
    nonce: u64,
    request: Seq<char>,
) -> bool {
    exists|i: int|
        0 <= i < entries.len() && (#[trigger] entries[i]).agent_id@ == agent && entries[i].nonce
            == nonce && entries[i].request_digest@ != request
}

/// What `append` checks before it writes.
pub open spec fn append_allowed(
    entries: Seq<TransactionEvent>,
    request: Seq<char>,
    agent: Seq<char>,
    nonce: u64,
    status: TransactionStatus,
) -> bool {
    &&& is_digest(request)
    &&& broker_text(agent)
    &&& nonce != 0
    &&& !nonce_taken(entries, agent, nonce, request)
    &&& !(latest_status(entries, request, entries.len() as int) is None && (status
        == TransactionStatus::Executing || status == TransactionStatus::Committed || status
        == TransactionStatus::RolledBack))
}

/// What `BrokerJournal::append` does: refuses what `append_allowed` refuses
/// (and a journal whose numbering is exhausted) without change; otherwise
/// chains the event to the last one and answers whether the journal is
/// still valid.
pub open spec fn appends(
    before: BrokerJournal,
    after: BrokerJournal,
    request: Seq<char>,
    agent: Seq<char>,
    nonce: u64,
    decision: Option<String>,
    token: Option<String>,
    status: TransactionStatus,
    output: Option<String>,
    r: Result<(), Error>,
) -> bool {
    let es = before.entries@;
    let allowed = append_allowed(es, request, agent, nonce, status) && es.len() < u64::MAX;
    &&& r matches Err(e) ==> e is Journal
    &&& after.version == before.version
    &&& after.frozen == before.frozen
    &&& !allowed ==> (r is Err && after.entries@ == es)
    &&& allowed ==> {
        let e = after.entries@.last();
        &&& after.entries@.len() == es.len() + 1
        &&& after.entries@.drop_last() == es
        &&& e.sequence == es.len()
        &&& e.previous_digest@ == previous_event_digest(after.entries@, es.len() as int)
        &&& e.request_digest@ == request
        &&& e.agent_id@ == agent
        &&& e.nonce == nonce
        &&& e.decision_digest == decision
        &&& e.capability_token_id == token
        &&& e.status == status
        &&& e.output_digest == output
        &&& e.entry_digest@ == event_digest_of(e)
        &&& (r is Ok <==> after.spec_valid())
    }
}

impl TransactionEvent {
    fn copy_event(&self) -> (r: TransactionEvent)
        ensures
            r == *self,
    {
        TransactionEvent {
            sequence: self.sequence,
            previous_digest: self.previous_digest.clone(),
            request_digest: self.request_digest.clone(),
            agent_id: self.agent_id.clone(),
            nonce: self.nonce,
            decision_digest: match &self.decision_digest {
                Some(s) => Some(s.clone()),
                None => None,
            },
            capability_token_id: match &self.capability_token_id {
                Some(s) => Some(s.clone()),
                None => None,
            },
            status: self.status,
            output_digest: match &self.output_digest {
                Some(s) => Some(s.clone()),
                None => None,
            },
            entry_digest: self.entry_digest.clone(),
        }
    }
}

/// The broker's durable record of every transaction step.
#[derive(Clone, Debug, PartialEq, Eq)]
pub struct BrokerJournal {
    pub version: u8,
    pub frozen: bool,
    pub entries: Vec<TransactionEvent>,
}

impl BrokerJournal {
    pub open spec fn spec_valid(&self) -> bool {
        self.version == JOURNAL_VERSION && events_ok(self.entries@)
    }

    /// An empty, open journal.
    pub fn new() -> (r: BrokerJournal)
        ensures
            r.version == JOURNAL_VERSION,
            !r.frozen,
            r.entries@.len() == 0,
    {
        BrokerJournal { version: JOURNAL_VERSION, frozen: false, entries: Vec::new() }
    }

    /// Recomputes the chain and the transaction moves.
    pub fn validate(&self) -> (r: Result<(), Error>)
        ensures
            r is Ok <==> self.spec_valid(),
            r matches Err(e) ==> e is Journal,
    {
        if self.version != JOURNAL_VERSION {
            return Err(journal("unsupported broker journal version"));
        }
        let mut previous = zero_digest_text();
        let n = self.entries.len();
        let ghost es = self.entries@;
        for i in 0..n
            invariant
                n == es.len(),
                es == self.entries@,
                previous@ == previous_event_digest(es, i as int),
                forall|k: int| 0 <= k < i ==> #[trigger] event_ok(es, k),
        {
            let event = &self.entries[i];
            if event.sequence != i as u64 || !text_eq(event.previous_digest.as_str(), previous.as_str())
                || !valid_digest(event.request_digest.as_str()) || !valid_text(
                event.agent_id.as_str(),
                MAX_TEXT_LEN,
            ) || event.nonce == 0 || !opt_digest_valid(&event.decision_digest)
                || !opt_digest_valid(&event.capability_token_id) || !opt_digest_valid(
                &event.output_digest,
            ) || !valid_digest(event.entry_digest.as_str()) {
                proof {
                    assert(!event_ok(es, i as int));
                }
                return Err(journal("broker journal event is malformed"));
            }
            let prior = self.status_before(event.request_digest.as_str(), i);
            if !move_ok(prior, event.status) {
                proof {
                    assert(!event_ok(es, i as int));
                }
                return Err(journal("invalid broker transaction transition"));
            }
            let expected = event_digest(
                event.sequence,
                event.previous_digest.as_str(),
                event.request_digest.as_str(),
                event.agent_id.as_str(),
                event.nonce,
                &event.decision_digest,
                &event.capability_token_id,
                event.status,
                &event.output_digest,
            );
            if !text_eq(expected.as_str(), event.entry_digest.as_str()) {
                proof {
                    assert(!event_ok(es, i as int));
                }
                return Err(journal("broker journal digest mismatch"));
            }
            previous = event.entry_digest.clone();
            proof {
                assert(event_ok(es, i as int));
            }
        }
        Ok(())
    }

    /// The latest status of `request_digest` among the first `end` events.
    fn status_before(&self, request_digest: &str, end: usize) -> (r: Option<TransactionStatus>)
        requires
            end <= self.entries@.len(),
        ensures
            r == latest_status(self.entries@, request_digest@, end as int),
    {
        let mut i = end;
        while i > 0
            invariant
                i <= end <= self.entries@.len(),
                latest_status(self.entries@, request_digest@, end as int) == latest_status(
                    self.entries@,
                    request_digest@,
                    i as int,
                ),
            decreases i,
        {
            if text_eq(self.entries[i - 1].request_digest.as_str(), request_digest) {
                return Some(self.entries[i - 1].status);
            }
            i = i - 1;
        }
        None
    }

    /// The latest status of a request, if it was journaled.
    pub fn status(&self, request_digest: &str) -> (r: Option<TransactionStatus>)
        ensures
            r == latest_status(self.entries@, request_digest@, self.entries@.len() as int),
    {
        self.status_before(request_digest, self.entries.len())
    }

    /// The latest status of the transaction that used `agent_id`'s `nonce`.
    pub fn replay_status(&self, agent_id: &str, nonce: u64) -> (r: Option<TransactionStatus>)
        ensures
            r == latest_for_nonce(self.entries@, agent_id@, nonce, self.entries@.len() as int),
    {
        let mut i = self.entries.len();
        while i > 0
            invariant
                i <= self.entries@.len(),
                latest_for_nonce(self.entries@, agent_id@, nonce, self.entries@.len() as int)
                    == latest_for_nonce(self.entries@, agent_id@, nonce, i as int),
            decreases i,
        {
            if text_eq(self.entries[i - 1].agent_id.as_str(), agent_id) && self.entries[i - 1].nonce
                == nonce {
                return Some(self.entries[i - 1].status);
            }
            i = i - 1;
        }
        None
    }

    /// The events of the transactions still admitted or executing, each the
    /// latest of its transaction, in journal order.
    pub fn in_flight(&self) -> (r: Vec<TransactionEvent>)
        ensures
            r@ == in_flight_prefix(self.entries@, self.entries@.len() as int),
    {
        let mut out: Vec<TransactionEvent> = Vec::new();
        let n = self.entries.len();
        for i in 0..n
            invariant
                n == self.entries@.len(),
                out@ == in_flight_prefix(self.entries@, i as int),
        {
            let event = &self.entries[i];
            let latest = self.status(event.request_digest.as_str());
            let open = match latest {
                Some(TransactionStatus::Admitted) => true,
                Some(TransactionStatus::Executing) => true,
                _ => false,
            };
            let own = match latest {
                Some(s) => s == event.status,
                None => false,
            };
            if open && own {
                out.push(event.copy_event());
            }
        }
        out
    }

    fn nonce_in_use(&self, agent_id: &str, nonce: u64, request_digest: &str) -> (r: bool)
        ensures
            r == nonce_taken(self.entries@, agent_id@, nonce, request_digest@),
    {
        let n = self.entries.len();
        for i in 0..n
            invariant
                n == self.entries@.len(),
                forall|k: int|
                    0 <= k < i ==> !((#[trigger] self.entries@[k]).agent_id@ == agent_id@
                        && self.entries@[k].nonce == nonce && self.entries@[k].request_digest@
                        != request_digest@),
        {
            let e = &self.entries[i];
            if text_eq(e.agent_id.as_str(), agent_id) && e.nonce == nonce && !text_eq(
                e.request_digest.as_str(),
                request_digest,
            ) {
                return true;
            }
        }
        false
    }

    /// Appends a step of a transaction chained to the last event, then
    /// checks the whole journal again; refuses a malformed identity, an
    /// agent nonce used by another request, and execution steps of a request
    /// that was never admitted.
    pub fn append(
        &mut self,
        request_digest: &str,
        agent_id: &str,
        nonce: u64,
        decision_digest: Option<String>,
        capability_token_id: Option<String>,
        status: TransactionStatus,
        output_digest: Option<String>,
    ) -> (r: Result<(), Error>)
        ensures
            appends(
                *old(self),
                *final(self),
                request_digest@,
                agent_id@,
                nonce,
                decision_digest,
                capability_token_id,
                status,
                output_digest,
                r,
            ),
    {
        if !valid_digest(request_digest) || !valid_text(agent_id, MAX_TEXT_LEN) || nonce == 0 {
            return Err(journal("broker event identity is malformed"));
        }
        if self.nonce_in_use(agent_id, nonce, request_digest) {
            return Err(journal("broker agent nonce replay"));
        }
        let admitted_before = self.status(request_digest).is_some();
        if !admitted_before && (status == TransactionStatus::Executing || status
            == TransactionStatus::Committed || status == TransactionStatus::RolledBack) {
            return Err(journal("broker execution was not admitted"));
        }
        let n = self.entries.len();
        let previous_digest = if n == 0 {
            zero_digest_text()
        } else {
            self.entries[n - 1].entry_digest.clone()
        };
        if n as u64 >= u64::MAX {
            return Err(journal("broker journal is full"));
        }
        let sequence = n as u64;
        let entry_digest = event_digest(
            sequence,
            previous_digest.as_str(),
            request_digest,
            agent_id,
            nonce,
            &decision_digest,
            &capability_token_id,
            status,
            &output_digest,
        );
        let ghost before = self.entries@;
        self.entries.push(
            TransactionEvent {
                sequence,
                previous_digest,
                request_digest: request_digest.to_owned(),
                agent_id: agent_id.to_owned(),
                nonce,
                decision_digest,
                capability_token_id,
                status,
                output_digest,
                entry_digest,
            },
        );
        proof {
            assert(self.entries@.drop_last() =~= before);
        }
        self.validate()
    }
}

/// `q` closes `e`'s transaction: same request, agent, nonce, decision and
/// token, status `Quarantined`, no output.
pub open spec fn quarantines(q: TransactionEvent, e: TransactionEvent) -> bool {
    &&& q.request_digest@ == e.request_digest@
    &&& q.agent_id@ == e.agent_id@
    &&& q.nonce == e.nonce
    &&& q.decision_digest == e.decision_digest
    &&& q.capability_token_id == e.capability_token_id
    &&& q.status == TransactionStatus::Quarantined
    &&& q.output_digest is None
}

/// `after` is `before` followed by one quarantine event for each event that
/// was in flight in `before`, in the same order.
pub open spec fn recovered_from(before: Seq<TransactionEvent>, after: Seq<TransactionEvent>) -> bool {
    let open = in_flight_prefix(before, before.len() as int);
    &&& after.len() == before.len() + open.len()
    &&& after.subrange(0, before.len() as int) == before
    &&& forall|k: int| 0 <= k < open.len() ==> quarantines(#[trigger] after[before.len() + k], open[k])
}

/// Quarantines every in-flight transaction of a recovered journal and
/// freezes the journal; a journal with nothing in flight is left as it is.
/// Answers whether anything was in flight.
pub fn quarantine_in_flight(journal_in: &mut BrokerJournal) -> (r: Result<bool, Error>)
    ensures
        r matches Err(e) ==> e is Journal,
        r matches Ok(found) ==> {
            let old_es = old(journal_in).entries@;
            let open = in_flight_prefix(old_es, old_es.len() as int);
            let es = final(journal_in).entries@;
            &&& found == (open.len() > 0)
            &&& !found ==> *final(journal_in) == *old(journal_in)
            &&& found ==> {
                &&& final(journal_in).frozen
                &&& final(journal_in).spec_valid()
                &&& final(journal_in).version == old(journal_in).version
                &&& recovered_from(old_es, es)
            }
        },
{
    let ghost old_es = journal_in.entries@;
    let in_flight = journal_in.in_flight();
    if in_flight.len() == 0 {
        return Ok(false);
    }
    journal_in.frozen = true;
    let n = in_flight.len();
    for i in 0..n
        invariant
            n == in_flight@.len(),
            n > 0,
            in_flight@ == in_flight_prefix(old_es, old_es.len() as int),
            journal_in.frozen,
            journal_in.version == old(journal_in).version,
            journal_in.entries@.len() == old_es.len() + i,
            journal_in.entries@.subrange(0, old_es.len() as int) == old_es,
            i > 0 ==> journal_in.spec_valid(),
            forall|k: int|
                0 <= k < i ==> quarantines(
                    #[trigger] journal_in.entries@[old_es.len() + k],
                    in_flight@[k],
                ),
    {
        let event = &in_flight[i];
        let ghost before = journal_in.entries@;
        journal_in.append(
            event.request_digest.as_str(),
            event.agent_id.as_str(),
            event.nonce,
            event.decision_digest.clone(),
            event.capability_token_id.clone(),
            TransactionStatus::Quarantined,
            None,
        )?;
        proof {
            let after = journal_in.entries@;
            assert(after.drop_last() == before);
            assert forall|k: int| 0 <= k < i + 1 implies quarantines(
                #[trigger] after[old_es.len() + k],
                in_flight@[k],
            ) by {
                if k < i {
                    assert(after[old_es.len() + k] == before[old_es.len() + k]);
                }
            }
            assert(after.subrange(0, old_es.len() as int) =~= old_es) by {
                assert forall|k: int| 0 <= k < old_es.len() implies after[k] == old_es[k] by {
                    assert(after[k] == before[k]);
                    assert(before.subrange(0, old_es.len() as int)[k] == old_es[k]);
                }
            }
        }
    }
    proof {
        assert(recovered_from(old_es, journal_in.entries@));
    }
    Ok(true)
}


proof fn lemma_latest_in_tail(es: Seq<TransactionEvent>, lo: int, n: int, r: Seq<char>, j: int)
    requires
        0 <= lo <= j < n <= es.len(),
        es[j].request_digest@ == r,
        forall|m: int| lo <= m < n ==> (#[trigger] es[m]).status == TransactionStatus::Quarantined,
    ensures
        latest_status(es, r, n) == Some(TransactionStatus::Quarantined),
    decreases n,
{
    if es[n - 1].request_digest@ != r {
        lemma_latest_in_tail(es, lo, n - 1, r, j);
    }
}

proof fn lemma_latest_skips_tail(es: Seq<TransactionEvent>, lo: int, n: int, r: Seq<char>)
    requires
        0 <= lo <= n <= es.len(),
        forall|m: int| lo <= m < n ==> (#[trigger] es[m]).request_digest@ != r,
    ensures
        latest_status(es, r, n) == latest_status(es, r, lo),
    decreases n,
{
    if n > lo {
        lemma_latest_skips_tail(es, lo, n - 1, r);
    }
}

proof fn lemma_latest_prefix(es: Seq<TransactionEvent>, other: Seq<TransactionEvent>, r: Seq<char>, i: int)
    requires
        0 <= i <= es.len(),
        i <= other.len(),
        es.subrange(0, i) == other.subrange(0, i),
    ensures
        latest_status(es, r, i) == latest_status(other, r, i),
    decreases i,
{
    if i > 0 {
        assert(es[i - 1] == es.subrange(0, i)[i - 1]);
        assert(other[i - 1] == other.subrange(0, i)[i - 1]);
        assert(es.subrange(0, i - 1) =~= es.subrange(0, i).subrange(0, i - 1));
        assert(other.subrange(0, i - 1) =~= other.subrange(0, i).subrange(0, i - 1));
        lemma_latest_prefix(es, other, r, i - 1);
    }
}

proof fn lemma_latest_witness(es: Seq<TransactionEvent>, r: Seq<char>, i: int) -> (m: int)
    requires
        0 <= i <= es.len(),
        latest_status(es, r, i) is Some,
    ensures
        0 <= m < i,
        es[m].request_digest@ == r,
        Some(es[m].status) == latest_status(es, r, i),
    decreases i,
{
    if es[i - 1].request_digest@ == r {
        i - 1
    } else {
        lemma_latest_witness(es, r, i - 1)
    }
}

proof fn lemma_in_flight_member(es: Seq<TransactionEvent>, i: int, m: int) -> (k: int)
    requires
        0 <= m < i <= es.len(),
        in_flight_at(es, es[m]),
    ensures
        0 <= k < in_flight_prefix(es, i).len(),
        in_flight_prefix(es, i)[k] == es[m],
    decreases i,
{
    if m == i - 1 {
        (in_flight_prefix(es, i).len() - 1) as int
    } else {
        let k = lemma_in_flight_member(es, i - 1, m);
        if in_flight_at(es, es[i - 1]) {
            assert(in_flight_prefix(es, i) == in_flight_prefix(es, i - 1).push(es[i - 1]));
        }
        k
    }
}

proof fn lemma_none_in_flight(es: Seq<TransactionEvent>, i: int)
    requires
        0 <= i <= es.len(),
        forall|j: int| 0 <= j < i ==> !in_flight_at(es, #[trigger] es[j]),
    ensures
        in_flight_prefix(es, i).len() == 0,
    decreases i,
{
    if i > 0 {
        lemma_none_in_flight(es, i - 1);
    }
}

/// Recovery leaves no transaction in flight: after the in-flight events of
/// a journal are each followed by a quarantine event, every transaction that
/// was in flight stands `Quarantined`, and none is admitted or executing.
pub proof fn lemma_recovery_quarantines_in_flight(
    before: Seq<TransactionEvent>,
    after: Seq<TransactionEvent>,
)
    requires
        recovered_from(before, after),
    ensures
        forall|k: int|
            0 <= k < in_flight_prefix(before, before.len() as int).len() ==> latest_status(
                after,
                (#[trigger] in_flight_prefix(before, before.len() as int)[k]).request_digest@,
                after.len() as int,
            ) == Some(TransactionStatus::Quarantined),
        in_flight_prefix(after, after.len() as int).len() == 0,
{
    let open = in_flight_prefix(before, before.len() as int);
    let lo = before.len() as int;
    let n = after.len() as int;
    assert forall|m: int| lo <= m < n implies (#[trigger] after[m]).status
        == TransactionStatus::Quarantined by {
        assert(quarantines(after[lo + (m - lo)], open[m - lo]));
    }
    assert forall|k: int| 0 <= k < open.len() implies latest_status(
        after,
        (#[trigger] open[k]).request_digest@,
        n,
    ) == Some(TransactionStatus::Quarantined) by {
        assert(quarantines(after[lo + k], open[k]));
        lemma_latest_in_tail(after, lo, n, open[k].request_digest@, lo + k);
    }
    assert forall|j: int| 0 <= j < n implies !in_flight_at(after, #[trigger] after[j]) by {
        let r = after[j].request_digest@;
        if exists|m: int| lo <= m < n && (#[trigger] after[m]).request_digest@ == r {
            let m = choose|m: int| lo <= m < n && (#[trigger] after[m]).request_digest@ == r;
            lemma_latest_in_tail(after, lo, n, r, m);
        } else {
            lemma_latest_skips_tail(after, lo, n, r);
            assert(after.subrange(0, lo) =~= before.subrange(0, lo));
            lemma_latest_prefix(after, before, r, lo);
            let s = latest_status(before, r, lo);
            if s == Some(TransactionStatus::Admitted) || s == Some(TransactionStatus::Executing) {
                let m = lemma_latest_witness(before, r, lo);
                assert(in_flight_at(before, before[m]));
                let k = lemma_in_flight_member(before, lo, m);
                assert(quarantines(after[lo + k], open[k]));
                assert(after[lo + k].request_digest@ == r);
                assert(false);
            }
        }
    }
    lemma_none_in_flight(after, n);
}


/// A frozen broker answers every transformation request `Frozen` and
/// changes nothing; a step that froze it leaves it so for the next request.
pub proof fn lemma_frozen_broker_answers_frozen(
    before: Broker,
    frozen: Broker,
    after: Broker,
    req: FileTransformRequest,
    now: u64,
    d: Seq<char>,
    v: Option<BrokerResponse>,
)
    requires
        before.froze_into(frozen),
        screens(frozen, after, req, now, d, v),
    ensures
        v matches Some(x) && frozen_with(x),
        after == frozen,
{
}

/// A valid request to an open broker whose digest, or whose agent's nonce,
/// is already journaled is rejected as a replay, without any change.
pub proof fn lemma_journaled_request_is_replay(
    o: Broker,
    f: Broker,
    req: FileTransformRequest,
    now: u64,
    d: Seq<char>,
    v: Option<BrokerResponse>,
    i: int,
)
    requires
        !o.spec_frozen(),
        req.spec_valid(now),
        0 <= i < o.spec_journal().entries@.len(),
        o.spec_journal().entries@[i].request_digest@ == d || (
        o.spec_journal().entries@[i].agent_id@ == req.agent_id@
            && o.spec_journal().entries@[i].nonce == req.nonce),
        screens(o, f, req, now, d, v),
    ensures
        v matches Some(x) && rejected_with(x, Some(d), "replay"@),
        f == o,
{
    let es = o.spec_journal().entries@;
    if es[i].request_digest@ == d {
        lemma_latest_some(es, d, es.len() as int, i);
    } else {
        lemma_nonce_latest_some(es, req.agent_id@, req.nonce, es.len() as int, i);
    }
}

proof fn lemma_latest_some(es: Seq<TransactionEvent>, r: Seq<char>, n: int, i: int)
    requires
        0 <= i < n <= es.len(),
        es[i].request_digest@ == r,
    ensures
        latest_status(es, r, n) is Some,
    decreases n,
{
    if es[n - 1].request_digest@ != r {
        lemma_latest_some(es, r, n - 1, i);
    }
}

proof fn lemma_nonce_latest_some(es: Seq<TransactionEvent>, agent: Seq<char>, nonce: u64, n: int, i: int)
    requires
        0 <= i < n <= es.len(),
        es[i].agent_id@ == agent,
        es[i].nonce == nonce,
    ensures
        latest_for_nonce(es, agent, nonce, n) is Some,
    decreases n,
{
    if !(es[n - 1].agent_id@ == agent && es[n - 1].nonce == nonce) {
        lemma_nonce_latest_some(es, agent, nonce, n - 1, i);
    }
}

} // verus!
