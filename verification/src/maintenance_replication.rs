//! Signed replication records for the fixed maintenance operation: two host
//! reports, each signed by a host key and an operator key, bound to one
//! request, checkout baseline, process version and revision, and to the
//! same containment and recovery results.
//!
//! Host and operator labels are the signers' assertions: the signatures show
//! possession of the report keys, not a physical host or an independent
//! person.
use crate::canon::{json_list, json_nat, json_text, json_text_list, lit, push_lit, push_nat, push_text};
use crate::canon::lemma_join_push;
use crate::digest::{digest_bytes, sha256_hex};
use crate::error::{rejected, Error};
use crate::hex::{decode_hex, hex_bytes, hex_encode, hex_text, is_hex_of_len, key_array};
use crate::maintenance_process::{
    fixed_input_digest, fixed_policy_digest, fixed_tests_digest, hex_signature_verifies,
    verify_hex_signature, FIXED_INPUT_IDENTITY, FIXED_POLICY_IDENTITY, FIXED_TEST_ROSTER,
    MAX_TIMEOUT_MS, PROCESS_VERSION,
};
use crate::order::{compare_text, text_eq, text_lt};
use crate::receipts::{
    ed25519_key_is_valid, ed25519_key_parses, ed25519_public_key, ed25519_public_of, ed25519_sign,
    ed25519_signature,
};
use crate::records::STATE_SLICE;
use crate::text::{is_digest, text_chars, text_ok, valid_digest, valid_text};
use vstd::prelude::*;

verus! {

pub const REPLICATION_VERSION: u8 = 1;

pub const FIXED_OPERATION_IDENTITY: &'static str = "normalize-trailing-ascii-spaces-v1";

pub const REPLICATION_CLAIM_CEILING: &'static str =
    "local signed wire-consistency evidence for this fixed maintenance operation only";

pub const MAX_LABEL_BYTES: usize = 128;

/// The containment and recovery scenarios every report records, in order.
pub const REQUIRED_SCENARIOS: [&'static str; 8] = [
    "authorized-completion",
    "evaluation-expiry",
    "pre-finalization-cancellation",
    "pre-finalization-expiry",
    "concurrent-target-change",
    "neighbor-change-recovery",
    "shared-checkout-lock",
    "replacement-lock-ownership",
];

pub open spec fn required_scenario(i: int) -> Seq<char> {
    if i == 0 {
        "authorized-completion"@
    } else if i == 1 {
        "evaluation-expiry"@
    } else if i == 2 {
        "pre-finalization-cancellation"@
    } else if i == 3 {
        "pre-finalization-expiry"@
    } else if i == 4 {
        "concurrent-target-change"@
    } else if i == 5 {
        "neighbor-change-recovery"@
    } else if i == 6 {
        "shared-checkout-lock"@
    } else {
        "replacement-lock-ownership"@
    }
}

#[derive(Clone, Copy, Debug, PartialEq, Eq, Structural)]
pub enum ScenarioStatus {
    Applied,
    Quarantined,
    RolledBack,
    Frozen,
    Blocked,
}

#[derive(Clone, Copy, Debug, PartialEq, Eq, Structural)]
pub enum RecoveryDisposition {
    AuthorizedChangeCommitted,
    NoMutation,
    BaselineRestored,
    ExternalChangePreservedAndFrozen,
}

/// The status scenario `i` must end in.
pub open spec fn expected_status(i: int) -> ScenarioStatus {
    if i == 0 {
        ScenarioStatus::Applied
    } else if i == 1 {
        ScenarioStatus::Quarantined
    } else if i == 2 || i == 3 {
        ScenarioStatus::RolledBack
    } else if i == 4 || i == 5 {
        ScenarioStatus::Frozen
    } else {
        ScenarioStatus::Blocked
    }
}

/// The recovery scenario `i` must end in.
pub open spec fn expected_recovery(i: int) -> RecoveryDisposition {
    if i == 0 {
        RecoveryDisposition::AuthorizedChangeCommitted
    } else if i == 1 {
        RecoveryDisposition::NoMutation
    } else if i == 2 || i == 3 {
        RecoveryDisposition::BaselineRestored
    } else if i == 4 || i == 5 {
        RecoveryDisposition::ExternalChangePreservedAndFrozen
    } else {
        RecoveryDisposition::NoMutation
    }
}

fn scenario_expectation(i: usize) -> (r: (&'static str, ScenarioStatus, RecoveryDisposition))
    requires
        i < 8,
    ensures
        r.0@ == required_scenario(i as int),
        r.1 == expected_status(i as int),
        r.2 == expected_recovery(i as int),
{
    let ids = REQUIRED_SCENARIOS;
    let id = ids[i];
    proof {
        reveal_strlit("authorized-completion");
        reveal_strlit("evaluation-expiry");
        reveal_strlit("pre-finalization-cancellation");
        reveal_strlit("pre-finalization-expiry");
        reveal_strlit("concurrent-target-change");
        reveal_strlit("neighbor-change-recovery");
        reveal_strlit("shared-checkout-lock");
        reveal_strlit("replacement-lock-ownership");
    }
    if i == 0 {
        (id, ScenarioStatus::Applied, RecoveryDisposition::AuthorizedChangeCommitted)
    } else if i == 1 {
        (id, ScenarioStatus::Quarantined, RecoveryDisposition::NoMutation)
    } else if i == 2 || i == 3 {
        (id, ScenarioStatus::RolledBack, RecoveryDisposition::BaselineRestored)
    } else if i == 4 || i == 5 {
        (id, ScenarioStatus::Frozen, RecoveryDisposition::ExternalChangePreservedAndFrozen)
    } else {
        (id, ScenarioStatus::Blocked, RecoveryDisposition::NoMutation)
    }
}

pub open spec fn status_name(s: ScenarioStatus) -> Seq<char> {
    match s {
        ScenarioStatus::Applied => "Applied"@,
        ScenarioStatus::Quarantined => "Quarantined"@,
        ScenarioStatus::RolledBack => "RolledBack"@,
        ScenarioStatus::Frozen => "Frozen"@,
        ScenarioStatus::Blocked => "Blocked"@,
    }
}

fn status_label(s: ScenarioStatus) -> (r: &'static str)
    ensures
        r@ == status_name(s),
{
    match s {
        ScenarioStatus::Applied => "Applied",
        ScenarioStatus::Quarantined => "Quarantined",
        ScenarioStatus::RolledBack => "RolledBack",
        ScenarioStatus::Frozen => "Frozen",
        ScenarioStatus::Blocked => "Blocked",
    }
}

pub open spec fn recovery_name(r: RecoveryDisposition) -> Seq<char> {
    match r {
        RecoveryDisposition::AuthorizedChangeCommitted => "AuthorizedChangeCommitted"@,
        RecoveryDisposition::NoMutation => "NoMutation"@,
        RecoveryDisposition::BaselineRestored => "BaselineRestored"@,
        RecoveryDisposition::ExternalChangePreservedAndFrozen => "ExternalChangePreservedAndFrozen"@,
    }
}

fn recovery_label(r: RecoveryDisposition) -> (s: &'static str)
    ensures
        s@ == recovery_name(r),
{
    match r {
        RecoveryDisposition::AuthorizedChangeCommitted => "AuthorizedChangeCommitted",
        RecoveryDisposition::NoMutation => "NoMutation",
        RecoveryDisposition::BaselineRestored => "BaselineRestored",
        RecoveryDisposition::ExternalChangePreservedAndFrozen => "ExternalChangePreservedAndFrozen",
    }
}

/// One scenario as a host ran it.
#[derive(Clone, Debug, PartialEq, Eq)]
pub struct ScenarioResult {
    pub scenario_id: String,
    pub status: ScenarioStatus,
    pub recovery: RecoveryDisposition,
    pub final_checkout_digest: String,
    /// Digest of the operator-supplied local reproduction evidence.
    pub evidence_digest: String,
}

pub open spec fn scenario_bytes(s: ScenarioResult) -> Seq<u8> {
    lit("{\"scenario_id\":") + json_text(s.scenario_id@) + lit(",\"status\":") + json_text(
        status_name(s.status),
    ) + lit(",\"recovery\":") + json_text(recovery_name(s.recovery)) + lit(
        ",\"final_checkout_digest\":",
    ) + json_text(s.final_checkout_digest@) + lit(",\"evidence_digest\":") + json_text(
        s.evidence_digest@,
    ) + lit("}")
}

pub open spec fn scenarios_bytes(v: Seq<ScenarioResult>) -> Seq<u8> {
    json_list(v.map_values(|s: ScenarioResult| scenario_bytes(s)))
}

fn push_scenario(out: &mut Vec<u8>, s: &ScenarioResult)
    ensures
        final(out)@ == old(out)@ + scenario_bytes(*s),
{
    let ghost start = out@;
    push_lit(out, "{\"scenario_id\":");
    push_text(out, s.scenario_id.as_str());
    push_lit(out, ",\"status\":");
    push_text(out, status_label(s.status));
    push_lit(out, ",\"recovery\":");
    push_text(out, recovery_label(s.recovery));
    push_lit(out, ",\"final_checkout_digest\":");
    push_text(out, s.final_checkout_digest.as_str());
    push_lit(out, ",\"evidence_digest\":");
    push_text(out, s.evidence_digest.as_str());
    push_lit(out, "}");
    assert(out@ =~= start + scenario_bytes(*s));
}

fn push_scenarios(out: &mut Vec<u8>, v: &Vec<ScenarioResult>)
    ensures
        final(out)@ == old(out)@ + scenarios_bytes(v@),
{
    let ghost items = v@.map_values(|s: ScenarioResult| scenario_bytes(s));
    out.push(0x5b);
    let ghost start = out@;
    let n = v.len();
    for i in 0..n
        invariant
            n == v@.len(),
            items == v@.map_values(|s: ScenarioResult| scenario_bytes(s)),
            out@ == start + crate::canon::join(items.subrange(0, i as int)),
    {
        if i > 0 {
            out.push(0x2c);
        }
        push_scenario(out, &v[i]);
        proof {
            lemma_join_push(items.subrange(0, i as int), items[i as int]);
            assert(items.subrange(0, i + 1) =~= items.subrange(0, i as int).push(items[i as int]));
        }
    }
    out.push(0x5d);
    proof {
        assert(items.subrange(0, n as int) =~= items);
        assert(out@ =~= old(out)@ + scenarios_bytes(v@));
    }
}

// ------------------------------------------------------------ field checks

/// Forty lowercase hex characters: a full source revision.
pub open spec fn revision_ok(s: Seq<char>) -> bool {
    s.len() == 40 && forall|i: int|
        0 <= i < s.len() ==> (('0' <= #[trigger] s[i] <= '9') || ('a' <= s[i] <= 'f'))
}

fn valid_revision(value: &str) -> (r: bool)
    ensures
        r == revision_ok(value@),
{
    let chars = text_chars(value);
    if chars.len() != 40 {
        return false;
    }
    for i in 0..40
        invariant
            chars@ == value@,
            chars@.len() == 40,
            forall|k: int|
                0 <= k < i ==> (('0' <= #[trigger] value@[k] <= '9') || ('a' <= value@[k] <= 'f')),
    {
        let c = chars[i];
        if !(('0' <= c && c <= '9') || ('a' <= c && c <= 'f')) {
            return false;
        }
    }
    true
}

/// Hex text, of either case, of an Ed25519 public key that decodes.
pub open spec fn public_key_ok(s: Seq<char>) -> bool {
    is_hex_of_len(s, 32) && ed25519_key_parses(hex_bytes(s))
}

fn valid_public_key(value: &str) -> (r: bool)
    ensures
        r == public_key_ok(value@),
{
    match decode_hex(value, 32) {
        Some(bytes) => {
            let key = key_array(&bytes);
            ed25519_key_is_valid(&key)
        },
        None => false,
    }
}

/// A label: non-empty, at most 128 bytes, no control characters.
pub open spec fn label_ok(s: Seq<char>) -> bool {
    text_ok(s, MAX_LABEL_BYTES as nat)
}

// ------------------------------------------------------------ host reports

/// One host's signed record of the fixed operation and its scenarios.
#[derive(Clone, Debug, PartialEq, Eq)]
pub struct HostReport {
    pub version: u8,
    pub state_slice: String,
    pub operation: String,
    pub process_version: u8,
    /// Exact source revision used for the fixed operation.
    pub implementation_revision: String,
    pub request_digest: String,
    pub checkout_baseline_digest: String,
    pub evaluator_executable_digest: String,
    pub evaluator_input_digest: String,
    pub evaluator_tests_digest: String,
    pub policy_digest: String,
    pub evaluator_public_key: String,
    pub evaluator_timeout_ms: u64,
    pub claim_ceiling: String,
    pub host_id: String,
    pub operator_id: String,
    /// Hex Ed25519 verification key of the host signer.
    pub host_public_key: String,
    /// Hex Ed25519 verification key of the operator signer.
    pub operator_public_key: String,
    pub scenarios: Vec<ScenarioResult>,
    pub report_id: String,
    /// Signature over every report field except both signatures.
    pub host_signature: String,
    pub operator_signature: String,
}

/// Scenario `i` is the required one, ended as required, and its final
/// checkout equals the baseline exactly when nothing was to change.
pub open spec fn scenario_ok(s: ScenarioResult, i: int, baseline: Seq<char>) -> bool {
    &&& s.scenario_id@ == required_scenario(i)
    &&& s.status == expected_status(i)
    &&& s.recovery == expected_recovery(i)
    &&& is_digest(s.final_checkout_digest@)
    &&& is_digest(s.evidence_digest@)
    &&& ((s.recovery == RecoveryDisposition::NoMutation || s.recovery
        == RecoveryDisposition::BaselineRestored) == (s.final_checkout_digest@ == baseline))
}

impl HostReport {
    pub open spec fn header_part0(&self) -> Seq<u8> {
        lit("{\"version\":") + json_nat(self.version as nat) + lit(",\"state_slice\":") + json_text(
            self.state_slice@,
        ) + lit(",\"operation\":") + json_text(self.operation@) + lit(",\"process_version\":")
            + json_nat(self.process_version as nat) + lit(",\"implementation_revision\":")
            + json_text(self.implementation_revision@) + lit(",\"request_digest\":") + json_text(
            self.request_digest@,
        ) + lit(",\"checkout_baseline_digest\":") + json_text(self.checkout_baseline_digest@)
    }

    pub open spec fn header_part1(&self) -> Seq<u8> {
        lit(",\"evaluator_executable_digest\":") + json_text(self.evaluator_executable_digest@)
            + lit(",\"evaluator_input_digest\":") + json_text(self.evaluator_input_digest@) + lit(
            ",\"evaluator_tests_digest\":",
        ) + json_text(self.evaluator_tests_digest@) + lit(",\"policy_digest\":") + json_text(
            self.policy_digest@,
        ) + lit(",\"evaluator_public_key\":") + json_text(self.evaluator_public_key@) + lit(
            ",\"evaluator_timeout_ms\":",
        ) + json_nat(self.evaluator_timeout_ms as nat) + lit(",\"claim_ceiling\":") + json_text(
            self.claim_ceiling@,
        )
    }

    pub open spec fn header_part2(&self) -> Seq<u8> {
        lit(",\"host_id\":") + json_text(self.host_id@) + lit(",\"operator_id\":") + json_text(
            self.operator_id@,
        ) + lit(",\"host_public_key\":") + json_text(self.host_public_key@) + lit(
            ",\"operator_public_key\":",
        ) + json_text(self.operator_public_key@) + lit(",\"scenarios\":") + scenarios_bytes(
            self.scenarios@,
        )
    }

    #[verifier::opaque]
    pub open spec fn header(&self) -> Seq<u8> {
        self.header_part0() + self.header_part1() + self.header_part2()
    }

    /// What the report id is the digest of: every field but the id and the
    /// signatures.
    pub open spec fn identity_bytes(&self) -> Seq<u8> {
        self.header() + lit("}")
    }

    /// What both signatures cover: every field but the signatures.
    pub open spec fn signing_bytes(&self) -> Seq<u8> {
        self.header() + lit(",\"report_id\":") + json_text(self.report_id@) + lit("}")
    }

    /// The whole report.
    pub open spec fn bytes(&self) -> Seq<u8> {
        self.header() + lit(",\"report_id\":") + json_text(self.report_id@) + lit(
            ",\"host_signature\":",
        ) + json_text(self.host_signature@) + lit(",\"operator_signature\":") + json_text(
            self.operator_signature@,
        ) + lit("}")
    }

    pub open spec fn expected_id(&self) -> Seq<char> {
        sha256_hex(self.identity_bytes())
    }

    /// The report's form: fixed identities and requirements, distinct
    /// labels and keys, every scenario as required, and an id over its
    /// identity.
    pub open spec fn spec_shape_ok(&self) -> bool {
        &&& self.version == REPLICATION_VERSION
        &&& self.state_slice@ == STATE_SLICE@
        &&& self.operation@ == FIXED_OPERATION_IDENTITY@
        &&& self.process_version == PROCESS_VERSION
        &&& revision_ok(self.implementation_revision@)
        &&& is_digest(self.request_digest@)
        &&& is_digest(self.checkout_baseline_digest@)
        &&& is_digest(self.evaluator_executable_digest@)
        &&& self.evaluator_input_digest@ == sha256_hex(lit(FIXED_INPUT_IDENTITY))
        &&& self.evaluator_tests_digest@ == sha256_hex(lit(FIXED_TEST_ROSTER))
        &&& self.policy_digest@ == sha256_hex(lit(FIXED_POLICY_IDENTITY))
        &&& public_key_ok(self.evaluator_public_key@)
        &&& 0 < self.evaluator_timeout_ms <= MAX_TIMEOUT_MS
        &&& self.claim_ceiling@ == REPLICATION_CLAIM_CEILING@
        &&& label_ok(self.host_id@)
        &&& label_ok(self.operator_id@)
        &&& self.host_id@ != self.operator_id@
        &&& public_key_ok(self.host_public_key@)
        &&& public_key_ok(self.operator_public_key@)
        &&& self.host_public_key@ != self.operator_public_key@
        &&& self.scenarios@.len() == 8
        &&& is_digest(self.report_id@)
        &&& is_hex_of_len(self.host_signature@, 64)
        &&& is_hex_of_len(self.operator_signature@, 64)
        &&& forall|i: int|
            0 <= i < 8 ==> #[trigger] scenario_ok(
                self.scenarios@[i],
                i,
                self.checkout_baseline_digest@,
            )
        &&& self.report_id@ == self.expected_id()
    }

    /// Both signatures verify over the signing bytes.
    pub open spec fn spec_signed(&self) -> bool {
        &&& hex_signature_verifies(self.host_public_key@, self.host_signature@, self.signing_bytes())
        &&& hex_signature_verifies(
            self.operator_public_key@,
            self.operator_signature@,
            self.signing_bytes(),
        )
    }

    pub open spec fn spec_valid(&self) -> bool {
        self.spec_shape_ok() && self.spec_signed()
    }

    #[verifier::spinoff_prover]
    fn push_part0(&self, out: &mut Vec<u8>)
        ensures
            final(out)@ == old(out)@ + self.header_part0(),
    {
        let ghost start = out@;
        push_lit(out, "{\"version\":");
        push_nat(out, self.version as u64);
        push_lit(out, ",\"state_slice\":");
        push_text(out, self.state_slice.as_str());
        push_lit(out, ",\"operation\":");
        push_text(out, self.operation.as_str());
        push_lit(out, ",\"process_version\":");
        push_nat(out, self.process_version as u64);
        push_lit(out, ",\"implementation_revision\":");
        push_text(out, self.implementation_revision.as_str());
        push_lit(out, ",\"request_digest\":");
        push_text(out, self.request_digest.as_str());
        push_lit(out, ",\"checkout_baseline_digest\":");
        push_text(out, self.checkout_baseline_digest.as_str());
        assert(out@ =~= start + self.header_part0());
    }

    #[verifier::spinoff_prover]
    fn push_part1(&self, out: &mut Vec<u8>)
        ensures
            final(out)@ == old(out)@ + self.header_part1(),
    {
        let ghost start = out@;
        push_lit(out, ",\"evaluator_executable_digest\":");
        push_text(out, self.evaluator_executable_digest.as_str());
        push_lit(out, ",\"evaluator_input_digest\":");
        push_text(out, self.evaluator_input_digest.as_str());
        push_lit(out, ",\"evaluator_tests_digest\":");
        push_text(out, self.evaluator_tests_digest.as_str());
        push_lit(out, ",\"policy_digest\":");
        push_text(out, self.policy_digest.as_str());
        push_lit(out, ",\"evaluator_public_key\":");
        push_text(out, self.evaluator_public_key.as_str());
        push_lit(out, ",\"evaluator_timeout_ms\":");
        push_nat(out, self.evaluator_timeout_ms);
        push_lit(out, ",\"claim_ceiling\":");
        push_text(out, self.claim_ceiling.as_str());
        assert(out@ =~= start + self.header_part1());
    }

    #[verifier::spinoff_prover]
    fn push_part2(&self, out: &mut Vec<u8>)
        ensures
            final(out)@ == old(out)@ + self.header_part2(),
    {
        let ghost start = out@;
        push_lit(out, ",\"host_id\":");
        push_text(out, self.host_id.as_str());
        push_lit(out, ",\"operator_id\":");
        push_text(out, self.operator_id.as_str());
        push_lit(out, ",\"host_public_key\":");
        push_text(out, self.host_public_key.as_str());
        push_lit(out, ",\"operator_public_key\":");
        push_text(out, self.operator_public_key.as_str());
        push_lit(out, ",\"scenarios\":");
        push_scenarios(out, &self.scenarios);
        assert(out@ =~= start + self.header_part2());
    }

    fn push_header(&self, out: &mut Vec<u8>)
        ensures
            final(out)@ == old(out)@ + self.header(),
    {
        let ghost start = out@;
        self.push_part0(out);
        self.push_part1(out);
        self.push_part2(out);
        proof {
            reveal(HostReport::header);
        }
        assert(out@ =~= start + self.header());
    }

    fn identity_digest(&self) -> (r: String)
        ensures
            r@ == self.expected_id(),
            is_digest(r@),
    {
        let mut out: Vec<u8> = Vec::new();
        self.push_header(&mut out);
        push_lit(&mut out, "}");
        assert(out@ =~= self.identity_bytes());
        digest_bytes(out.as_slice())
    }

    /// The bytes both signatures cover.
    pub fn unsigned_bytes(&self) -> (r: Result<Vec<u8>, Error>)
        ensures
            r matches Ok(b) && b@ == self.signing_bytes(),
    {
        let mut out: Vec<u8> = Vec::new();
        self.push_header(&mut out);
        push_lit(&mut out, ",\"report_id\":");
        push_text(&mut out, self.report_id.as_str());
        push_lit(&mut out, "}");
        assert(out@ =~= self.signing_bytes());
        Ok(out)
    }

    #[verifier::spinoff_prover]
    pub(crate) fn push_canonical(&self, out: &mut Vec<u8>)
        ensures
            final(out)@ == old(out)@ + self.bytes(),
    {
        let ghost start = out@;
        self.push_header(out);
        let ghost h = self.header();
        assert(out@ == start + h);
        push_lit(out, ",\"report_id\":");
        push_text(out, self.report_id.as_str());
        push_lit(out, ",\"host_signature\":");
        push_text(out, self.host_signature.as_str());
        push_lit(out, ",\"operator_signature\":");
        push_text(out, self.operator_signature.as_str());
        push_lit(out, "}");
        assert(out@ =~= start + (h + lit(",\"report_id\":") + json_text(self.report_id@) + lit(
            ",\"host_signature\":",
        ) + json_text(self.host_signature@) + lit(",\"operator_signature\":") + json_text(
            self.operator_signature@,
        ) + lit("}")));
    }

    fn scenarios_valid(&self) -> (r: bool)
        requires
            self.scenarios@.len() == 8,
        ensures
            r == forall|i: int|
                0 <= i < 8 ==> #[trigger] scenario_ok(
                    self.scenarios@[i],
                    i,
                    self.checkout_baseline_digest@,
                ),
    {
        for i in 0..8
            invariant
                self.scenarios@.len() == 8,
                forall|k: int|
                    0 <= k < i ==> #[trigger] scenario_ok(
                        self.scenarios@[k],
                        k,
                        self.checkout_baseline_digest@,
                    ),
        {
            let s = &self.scenarios[i];
            let (id, status, recovery) = scenario_expectation(i);
            if !text_eq(s.scenario_id.as_str(), id) || s.status != status || s.recovery != recovery
                || !valid_digest(s.final_checkout_digest.as_str()) || !valid_digest(
                s.evidence_digest.as_str(),
            ) {
                proof {
                    assert(!scenario_ok(self.scenarios@[i as int], i as int, self.checkout_baseline_digest@));
                }
                return false;
            }
            let must_match = s.recovery == RecoveryDisposition::NoMutation || s.recovery
                == RecoveryDisposition::BaselineRestored;
            if must_match != text_eq(
                s.final_checkout_digest.as_str(),
                self.checkout_baseline_digest.as_str(),
            ) {
                proof {
                    assert(!scenario_ok(self.scenarios@[i as int], i as int, self.checkout_baseline_digest@));
                }
                return false;
            }
        }
        true
    }

    fn validate_shape(&self) -> (r: Result<(), Error>)
        ensures
            r is Ok <==> self.spec_shape_ok(),
            r matches Err(e) ==> e is Rejected,
    {
        let input = fixed_input_digest();
        let tests = fixed_tests_digest();
        let policy = fixed_policy_digest();
        if self.version != REPLICATION_VERSION || !text_eq(self.state_slice.as_str(), STATE_SLICE)
            || !text_eq(self.operation.as_str(), FIXED_OPERATION_IDENTITY) || self.process_version
            != PROCESS_VERSION || !valid_revision(self.implementation_revision.as_str())
            || !valid_digest(self.request_digest.as_str()) || !valid_digest(
            self.checkout_baseline_digest.as_str(),
        ) || !valid_digest(self.evaluator_executable_digest.as_str()) || !text_eq(
            self.evaluator_input_digest.as_str(),
            input.as_str(),
        ) || !text_eq(self.evaluator_tests_digest.as_str(), tests.as_str()) || !text_eq(
            self.policy_digest.as_str(),
            policy.as_str(),
        ) || !valid_public_key(self.evaluator_public_key.as_str()) || self.evaluator_timeout_ms
            == 0 || self.evaluator_timeout_ms > MAX_TIMEOUT_MS || !text_eq(
            self.claim_ceiling.as_str(),
            REPLICATION_CLAIM_CEILING,
        ) || !valid_text(self.host_id.as_str(), MAX_LABEL_BYTES) || !valid_text(
            self.operator_id.as_str(),
            MAX_LABEL_BYTES,
        ) || text_eq(self.host_id.as_str(), self.operator_id.as_str()) || !valid_public_key(
            self.host_public_key.as_str(),
        ) || !valid_public_key(self.operator_public_key.as_str()) || text_eq(
            self.host_public_key.as_str(),
            self.operator_public_key.as_str(),
        ) || self.scenarios.len() != 8 || !valid_digest(self.report_id.as_str())
            || decode_hex(self.host_signature.as_str(), 64).is_none() || decode_hex(
            self.operator_signature.as_str(),
            64,
        ).is_none() {
            return Err(rejected("maintenance host report shape is invalid"));
        }
        if !self.scenarios_valid() {
            return Err(rejected("maintenance scenario result is invalid"));
        }
        let expected = self.identity_digest();
        if !text_eq(self.report_id.as_str(), expected.as_str()) {
            return Err(rejected("maintenance host report identity mismatch"));
        }
        Ok(())
    }

    /// Verifies the host and operator signatures.
    pub fn verify_signatures(&self) -> (r: Result<(), Error>)
        ensures
            r is Ok <==> self.spec_signed(),
            r matches Err(e) ==> e is Rejected,
    {
        let unsigned = self.unsigned_bytes()?;
        if !verify_hex_signature(
            self.host_public_key.as_str(),
            self.host_signature.as_str(),
            unsigned.as_slice(),
        ) {
            return Err(rejected("maintenance host report signature is invalid"));
        }
        if !verify_hex_signature(
            self.operator_public_key.as_str(),
            self.operator_signature.as_str(),
            unsigned.as_slice(),
        ) {
            return Err(rejected("maintenance host report signature is invalid"));
        }
        Ok(())
    }

    /// Checks the report's form, then its signatures.
    pub fn validate(&self) -> (r: Result<(), Error>)
        ensures
            r is Ok <==> self.spec_valid(),
            r matches Err(e) ==> e is Rejected,
    {
        self.validate_shape()?;
        self.verify_signatures()
    }

    /// Signs the report with distinct host and operator seeds: sets both
    /// public keys, the report id over the identity, and both signatures
    /// over the signing bytes, then checks the whole report.
    pub fn sign_with_seeds(&mut self, host_seed: [u8; 32], operator_seed: [u8; 32]) -> (r: Result<
        (),
        Error,
    >)
        ensures
            final(self).host_public_key@ == hex_text(ed25519_public_of(host_seed@)),
            final(self).operator_public_key@ == hex_text(ed25519_public_of(operator_seed@)),
            final(self).report_id@ == final(self).expected_id(),
            final(self).host_signature@ == hex_text(
                ed25519_signature(host_seed@, final(self).signing_bytes()),
            ),
            final(self).operator_signature@ == hex_text(
                ed25519_signature(operator_seed@, final(self).signing_bytes()),
            ),
            final(self).version == old(self).version,
            final(self).state_slice == old(self).state_slice,
            final(self).operation == old(self).operation,
            final(self).process_version == old(self).process_version,
            final(self).implementation_revision == old(self).implementation_revision,
            final(self).request_digest == old(self).request_digest,
            final(self).checkout_baseline_digest == old(self).checkout_baseline_digest,
            final(self).evaluator_executable_digest == old(self).evaluator_executable_digest,
            final(self).evaluator_input_digest == old(self).evaluator_input_digest,
            final(self).evaluator_tests_digest == old(self).evaluator_tests_digest,
            final(self).policy_digest == old(self).policy_digest,
            final(self).evaluator_public_key == old(self).evaluator_public_key,
            final(self).evaluator_timeout_ms == old(self).evaluator_timeout_ms,
            final(self).claim_ceiling == old(self).claim_ceiling,
            final(self).host_id == old(self).host_id,
            final(self).operator_id == old(self).operator_id,
            final(self).scenarios == old(self).scenarios,
            r is Ok <==> final(self).spec_valid(),
            r matches Err(e) ==> e is Rejected,
    {
        proof {
            reveal(HostReport::header);
        }
        let host_key = ed25519_public_key(&host_seed);
        let operator_key = ed25519_public_key(&operator_seed);
        self.host_public_key = hex_encode(host_key.as_slice());
        self.operator_public_key = hex_encode(operator_key.as_slice());
        self.report_id = self.identity_digest();
        let unsigned = self.unsigned_bytes()?;
        let host_signature = ed25519_sign(&host_seed, unsigned.as_slice());
        let operator_signature = ed25519_sign(&operator_seed, unsigned.as_slice());
        self.host_signature = hex_encode(host_signature.as_slice());
        self.operator_signature = hex_encode(operator_signature.as_slice());
        self.validate()
    }
}


// ------------------------------------------------------------ packets

/// Exactly two host reports of the same fixed operation, in host order,
/// with the fields they share lifted to the packet.
#[derive(Clone, Debug, PartialEq, Eq)]
pub struct ReplicationPacket {
    pub version: u8,
    pub state_slice: String,
    pub operation: String,
    pub process_version: u8,
    pub implementation_revision: String,
    pub request_digest: String,
    pub checkout_baseline_digest: String,
    pub evaluator_executable_digest: String,
    pub evaluator_input_digest: String,
    pub evaluator_tests_digest: String,
    pub policy_digest: String,
    pub evaluator_public_key: String,
    pub evaluator_timeout_ms: u64,
    pub claim_ceiling: String,
    pub reports: Vec<HostReport>,
    pub packet_id: String,
}

/// The report carries the packet's shared fields.
pub open spec fn agrees(r: HostReport, p: ReplicationPacket) -> bool {
    &&& r.version == p.version
    &&& r.state_slice@ == p.state_slice@
    &&& r.operation@ == p.operation@
    &&& r.process_version == p.process_version
    &&& r.implementation_revision@ == p.implementation_revision@
    &&& r.request_digest@ == p.request_digest@
    &&& r.checkout_baseline_digest@ == p.checkout_baseline_digest@
    &&& r.evaluator_executable_digest@ == p.evaluator_executable_digest@
    &&& r.evaluator_input_digest@ == p.evaluator_input_digest@
    &&& r.evaluator_tests_digest@ == p.evaluator_tests_digest@
    &&& r.policy_digest@ == p.policy_digest@
    &&& r.evaluator_public_key@ == p.evaluator_public_key@
    &&& r.evaluator_timeout_ms == p.evaluator_timeout_ms
    &&& r.claim_ceiling@ == p.claim_ceiling@
}

/// Two reports of the same operation from independent signers: `a`'s host
/// comes first, the shared fields agree, and hosts, operators, the four
/// keys and the report ids are all distinct.
pub open spec fn independent_pair(a: HostReport, b: HostReport) -> bool {
    &&& text_lt(a.host_id@, b.host_id@)
    &&& a.state_slice@ == b.state_slice@
    &&& a.operation@ == b.operation@
    &&& a.process_version == b.process_version
    &&& a.implementation_revision@ == b.implementation_revision@
    &&& a.request_digest@ == b.request_digest@
    &&& a.checkout_baseline_digest@ == b.checkout_baseline_digest@
    &&& a.evaluator_executable_digest@ == b.evaluator_executable_digest@
    &&& a.evaluator_input_digest@ == b.evaluator_input_digest@
    &&& a.evaluator_tests_digest@ == b.evaluator_tests_digest@
    &&& a.policy_digest@ == b.policy_digest@
    &&& a.evaluator_public_key@ == b.evaluator_public_key@
    &&& a.evaluator_timeout_ms == b.evaluator_timeout_ms
    &&& a.claim_ceiling@ == b.claim_ceiling@
    &&& a.operator_id@ != b.operator_id@
    &&& a.host_public_key@ != b.host_public_key@
    &&& a.host_public_key@ != b.operator_public_key@
    &&& a.operator_public_key@ != b.host_public_key@
    &&& a.operator_public_key@ != b.operator_public_key@
    &&& a.report_id@ != b.report_id@
}

pub open spec fn report_list_bytes(v: Seq<HostReport>) -> Seq<u8> {
    json_list(v.map_values(|r: HostReport| r.bytes()))
}

fn push_reports(out: &mut Vec<u8>, v: &Vec<HostReport>)
    ensures
        final(out)@ == old(out)@ + report_list_bytes(v@),
{
    let ghost items = v@.map_values(|r: HostReport| r.bytes());
    out.push(0x5b);
    let ghost start = out@;
    let n = v.len();
    for i in 0..n
        invariant
            n == v@.len(),
            items == v@.map_values(|r: HostReport| r.bytes()),
            out@ == start + crate::canon::join(items.subrange(0, i as int)),
    {
        if i > 0 {
            out.push(0x2c);
        }
        v[i].push_canonical(out);
        proof {
            lemma_join_push(items.subrange(0, i as int), items[i as int]);
            assert(items.subrange(0, i + 1) =~= items.subrange(0, i as int).push(items[i as int]));
        }
    }
    out.push(0x5d);
    proof {
        assert(items.subrange(0, n as int) =~= items);
        assert(out@ =~= old(out)@ + report_list_bytes(v@));
    }
}

impl ReplicationPacket {
    pub open spec fn header_part0(&self) -> Seq<u8> {
        lit("{\"version\":") + json_nat(self.version as nat) + lit(",\"state_slice\":") + json_text(
            self.state_slice@,
        ) + lit(",\"operation\":") + json_text(self.operation@) + lit(",\"process_version\":")
            + json_nat(self.process_version as nat) + lit(",\"implementation_revision\":")
            + json_text(self.implementation_revision@) + lit(",\"request_digest\":") + json_text(
            self.request_digest@,
        ) + lit(",\"checkout_baseline_digest\":") + json_text(self.checkout_baseline_digest@)
    }

    pub open spec fn header_part1(&self) -> Seq<u8> {
        lit(",\"evaluator_executable_digest\":") + json_text(self.evaluator_executable_digest@)
            + lit(",\"evaluator_input_digest\":") + json_text(self.evaluator_input_digest@) + lit(
            ",\"evaluator_tests_digest\":",
        ) + json_text(self.evaluator_tests_digest@) + lit(",\"policy_digest\":") + json_text(
            self.policy_digest@,
        ) + lit(",\"evaluator_public_key\":") + json_text(self.evaluator_public_key@) + lit(
            ",\"evaluator_timeout_ms\":",
        ) + json_nat(self.evaluator_timeout_ms as nat) + lit(",\"claim_ceiling\":") + json_text(
            self.claim_ceiling@,
        )
    }

    #[verifier::opaque]
    pub open spec fn header(&self) -> Seq<u8> {
        self.header_part0() + self.header_part1()
    }

    /// The ids of the reports, in order.
    pub open spec fn report_ids(&self) -> Seq<Seq<char>> {
        self.reports@.map_values(|r: HostReport| r.report_id@)
    }

    /// What the packet id is the digest of: the shared fields and the
    /// report ids.
    pub open spec fn identity_bytes(&self) -> Seq<u8> {
        self.header() + lit(",\"report_ids\":") + json_text_list(self.report_ids()) + lit("}")
    }

    /// The whole packet.
    pub open spec fn bytes(&self) -> Seq<u8> {
        self.header() + lit(",\"reports\":") + report_list_bytes(self.reports@) + lit(
            ",\"packet_id\":",
        ) + json_text(self.packet_id@) + lit("}")
    }

    pub open spec fn expected_id(&self) -> Seq<char> {
        sha256_hex(self.identity_bytes())
    }

    /// The shared fields name the fixed operation and requirements.
    pub open spec fn spec_header_ok(&self) -> bool {
        &&& self.version == REPLICATION_VERSION
        &&& self.state_slice@ == STATE_SLICE@
        &&& self.operation@ == FIXED_OPERATION_IDENTITY@
        &&& self.process_version == PROCESS_VERSION
        &&& revision_ok(self.implementation_revision@)
        &&& is_digest(self.request_digest@)
        &&& is_digest(self.checkout_baseline_digest@)
        &&& is_digest(self.evaluator_executable_digest@)
        &&& self.evaluator_input_digest@ == sha256_hex(lit(FIXED_INPUT_IDENTITY))
        &&& self.evaluator_tests_digest@ == sha256_hex(lit(FIXED_TEST_ROSTER))
        &&& self.policy_digest@ == sha256_hex(lit(FIXED_POLICY_IDENTITY))
        &&& public_key_ok(self.evaluator_public_key@)
        &&& 0 < self.evaluator_timeout_ms <= MAX_TIMEOUT_MS
        &&& self.claim_ceiling@ == REPLICATION_CLAIM_CEILING@
    }

    /// A valid packet: fixed shared fields, two valid reports that carry
    /// them and are independent, in host order, and an id over the
    /// identity.
    pub open spec fn spec_valid(&self) -> bool {
        &&& self.spec_header_ok()
        &&& self.reports@.len() == 2
        &&& is_digest(self.packet_id@)
        &&& self.reports@[0].spec_valid()
        &&& self.reports@[1].spec_valid()
        &&& agrees(self.reports@[0], *self)
        &&& independent_pair(self.reports@[0], self.reports@[1])
        &&& self.packet_id@ == self.expected_id()
    }

    #[verifier::spinoff_prover]
    fn push_part0(&self, out: &mut Vec<u8>)
        ensures
            final(out)@ == old(out)@ + self.header_part0(),
    {
        let ghost start = out@;
        push_lit(out, "{\"version\":");
        push_nat(out, self.version as u64);
        push_lit(out, ",\"state_slice\":");
        push_text(out, self.state_slice.as_str());
        push_lit(out, ",\"operation\":");
        push_text(out, self.operation.as_str());
        push_lit(out, ",\"process_version\":");
        push_nat(out, self.process_version as u64);
        push_lit(out, ",\"implementation_revision\":");
        push_text(out, self.implementation_revision.as_str());
        push_lit(out, ",\"request_digest\":");
        push_text(out, self.request_digest.as_str());
        push_lit(out, ",\"checkout_baseline_digest\":");
        push_text(out, self.checkout_baseline_digest.as_str());
        assert(out@ =~= start + self.header_part0());
    }

    #[verifier::spinoff_prover]
    fn push_part1(&self, out: &mut Vec<u8>)
        ensures
            final(out)@ == old(out)@ + self.header_part1(),
    {
        let ghost start = out@;
        push_lit(out, ",\"evaluator_executable_digest\":");
        push_text(out, self.evaluator_executable_digest.as_str());
        push_lit(out, ",\"evaluator_input_digest\":");
        push_text(out, self.evaluator_input_digest.as_str());
        push_lit(out, ",\"evaluator_tests_digest\":");
        push_text(out, self.evaluator_tests_digest.as_str());
        push_lit(out, ",\"policy_digest\":");
        push_text(out, self.policy_digest.as_str());
        push_lit(out, ",\"evaluator_public_key\":");
        push_text(out, self.evaluator_public_key.as_str());
        push_lit(out, ",\"evaluator_timeout_ms\":");
        push_nat(out, self.evaluator_timeout_ms);
        push_lit(out, ",\"claim_ceiling\":");
        push_text(out, self.claim_ceiling.as_str());
        assert(out@ =~= start + self.header_part1());
    }

    fn push_header(&self, out: &mut Vec<u8>)
        ensures
            final(out)@ == old(out)@ + self.header(),
    {
        let ghost start = out@;
        self.push_part0(out);
        self.push_part1(out);
        proof {
            reveal(ReplicationPacket::header);
        }
        assert(out@ =~= start + self.header());
    }

    fn identity_digest(&self) -> (r: String)
        ensures
            r@ == self.expected_id(),
            is_digest(r@),
    {
        let mut ids: Vec<String> = Vec::new();
        for i in 0..self.reports.len()
            invariant
                ids@.len() == i,
                forall|k: int| 0 <= k < i ==> (#[trigger] ids@[k])@ == self.reports@[k].report_id@,
        {
            ids.push(self.reports[i].report_id.clone());
        }
        proof {
            assert(ids@.map_values(|s: String| s@) =~= self.report_ids());
        }
        let mut out: Vec<u8> = Vec::new();
        self.push_header(&mut out);
        push_lit(&mut out, ",\"report_ids\":");
        crate::canon::push_text_vec(&mut out, &ids);
        push_lit(&mut out, "}");
        assert(out@ =~= self.identity_bytes());
        digest_bytes(out.as_slice())
    }

    fn header_valid(&self) -> (r: bool)
        ensures
            r == self.spec_header_ok(),
    {
        let input = fixed_input_digest();
        let tests = fixed_tests_digest();
        let policy = fixed_policy_digest();
        self.version == REPLICATION_VERSION && text_eq(self.state_slice.as_str(), STATE_SLICE)
            && text_eq(self.operation.as_str(), FIXED_OPERATION_IDENTITY) && self.process_version
            == PROCESS_VERSION && valid_revision(self.implementation_revision.as_str())
            && valid_digest(self.request_digest.as_str()) && valid_digest(
            self.checkout_baseline_digest.as_str(),
        ) && valid_digest(self.evaluator_executable_digest.as_str()) && text_eq(
            self.evaluator_input_digest.as_str(),
            input.as_str(),
        ) && text_eq(self.evaluator_tests_digest.as_str(), tests.as_str()) && text_eq(
            self.policy_digest.as_str(),
            policy.as_str(),
        ) && valid_public_key(self.evaluator_public_key.as_str()) && self.evaluator_timeout_ms
            > 0 && self.evaluator_timeout_ms <= MAX_TIMEOUT_MS && text_eq(
            self.claim_ceiling.as_str(),
            REPLICATION_CLAIM_CEILING,
        )
    }

    fn report_agrees(&self, r: &HostReport) -> (b: bool)
        ensures
            b == agrees(*r, *self),
    {
        r.version == self.version && text_eq(r.state_slice.as_str(), self.state_slice.as_str())
            && text_eq(r.operation.as_str(), self.operation.as_str()) && r.process_version
            == self.process_version && text_eq(
            r.implementation_revision.as_str(),
            self.implementation_revision.as_str(),
        ) && text_eq(r.request_digest.as_str(), self.request_digest.as_str()) && text_eq(
            r.checkout_baseline_digest.as_str(),
            self.checkout_baseline_digest.as_str(),
        ) && text_eq(
            r.evaluator_executable_digest.as_str(),
            self.evaluator_executable_digest.as_str(),
        ) && text_eq(r.evaluator_input_digest.as_str(), self.evaluator_input_digest.as_str())
            && text_eq(r.evaluator_tests_digest.as_str(), self.evaluator_tests_digest.as_str())
            && text_eq(r.policy_digest.as_str(), self.policy_digest.as_str()) && text_eq(
            r.evaluator_public_key.as_str(),
            self.evaluator_public_key.as_str(),
        ) && r.evaluator_timeout_ms == self.evaluator_timeout_ms && text_eq(
            r.claim_ceiling.as_str(),
            self.claim_ceiling.as_str(),
        )
    }

    /// Checks the shared fields, both reports, their agreement and
    /// independence, and the packet id.
    pub fn validate(&self) -> (r: Result<(), Error>)
        ensures
            r is Ok <==> self.spec_valid(),
            r matches Err(e) ==> e is Rejected,
    {
        if !self.header_valid() || self.reports.len() != 2 || !valid_digest(
            self.packet_id.as_str(),
        ) || compare_text(self.reports[0].host_id.as_str(), self.reports[1].host_id.as_str())
            >= 0 {
            return Err(rejected("maintenance replication packet shape is invalid"));
        }
        let a = &self.reports[0];
        let b = &self.reports[1];
        a.validate()?;
        if !self.report_agrees(a) {
            return Err(rejected("maintenance replication reports are not independent"));
        }
        b.validate()?;
        if !self.report_agrees(b) || text_eq(a.operator_id.as_str(), b.operator_id.as_str())
            || text_eq(a.host_public_key.as_str(), b.host_public_key.as_str()) || text_eq(
            a.host_public_key.as_str(),
            b.operator_public_key.as_str(),
        ) || text_eq(a.operator_public_key.as_str(), b.host_public_key.as_str()) || text_eq(
            a.operator_public_key.as_str(),
            b.operator_public_key.as_str(),
        ) || text_eq(a.report_id.as_str(), b.report_id.as_str()) {
            return Err(rejected("maintenance replication reports are not independent"));
        }
        let expected = self.identity_digest();
        if !text_eq(self.packet_id.as_str(), expected.as_str()) {
            return Err(rejected("maintenance replication packet identity mismatch"));
        }
        Ok(())
    }

    /// The canonical wire bytes of a valid packet.
    pub fn canonical_bytes(&self) -> (r: Result<Vec<u8>, Error>)
        ensures
            r is Ok <==> self.spec_valid(),
            r matches Err(e) ==> e is Rejected,
            r matches Ok(b) ==> b@ == self.bytes(),
    {
        self.validate()?;
        let mut out: Vec<u8> = Vec::new();
        self.push_header(&mut out);
        push_lit(&mut out, ",\"reports\":");
        push_reports(&mut out, &self.reports);
        push_lit(&mut out, ",\"packet_id\":");
        push_text(&mut out, self.packet_id.as_str());
        push_lit(&mut out, "}");
        assert(out@ =~= self.bytes());
        Ok(out)
    }

    /// Builds the packet of exactly two valid reports: puts them in host
    /// order, lifts the shared fields from the first, and computes the id.
    pub fn from_reports(reports: Vec<HostReport>) -> (r: Result<ReplicationPacket, Error>)
        ensures
            r matches Err(e) ==> e is Rejected,
            r is Ok <==> {
                &&& reports@.len() == 2
                &&& reports@[0].spec_valid()
                &&& reports@[1].spec_valid()
                &&& (independent_pair(reports@[0], reports@[1]) || independent_pair(
                    reports@[1],
                    reports@[0],
                ))
            },
            r matches Ok(p) ==> {
                &&& p.spec_valid()
                &&& (p.reports@ == reports@ || p.reports@ == seq![reports@[1], reports@[0]])
            },
    {
        let mut reports = reports;
        if reports.len() != 2 {
            return Err(rejected("maintenance replication requires exactly two host reports"));
        }
        reports[0].validate()?;
        reports[1].validate()?;
        let ghost given = reports@;
        let second = reports.pop().unwrap();
        let first = reports.pop().unwrap();
        let ordered = if compare_text(second.host_id.as_str(), first.host_id.as_str()) < 0 {
            vec![second, first]
        } else {
            vec![first, second]
        };
        let head = &ordered[0];
        let mut packet = ReplicationPacket {
            version: REPLICATION_VERSION,
            state_slice: STATE_SLICE.to_owned(),
            operation: FIXED_OPERATION_IDENTITY.to_owned(),
            process_version: PROCESS_VERSION,
            implementation_revision: head.implementation_revision.clone(),
            request_digest: head.request_digest.clone(),
            checkout_baseline_digest: head.checkout_baseline_digest.clone(),
            evaluator_executable_digest: head.evaluator_executable_digest.clone(),
            evaluator_input_digest: head.evaluator_input_digest.clone(),
            evaluator_tests_digest: head.evaluator_tests_digest.clone(),
            policy_digest: head.policy_digest.clone(),
            evaluator_public_key: head.evaluator_public_key.clone(),
            evaluator_timeout_ms: head.evaluator_timeout_ms,
            claim_ceiling: head.claim_ceiling.clone(),
            reports: ordered,
            packet_id: String::new(),
        };
        let ghost unnamed = packet;
        packet.packet_id = packet.identity_digest();
        proof {
            reveal(ReplicationPacket::header);
            assert(packet.header() == unnamed.header());
            assert(packet.report_ids() == unnamed.report_ids());
            assert(packet.packet_id@ == packet.expected_id());
        }
        let checked = packet.validate();
        proof {
            let a = packet.reports@[0];
            let b = packet.reports@[1];
            assert(packet.reports@ == seq![given[1], given[0]] || packet.reports@ == seq![
                given[0],
                given[1],
            ]);
            assert(agrees(a, packet));
            assert(packet.spec_header_ok());
            if independent_pair(given[0], given[1]) || independent_pair(given[1], given[0]) {
                if text_lt(given[1].host_id@, given[0].host_id@) {
                    crate::order::lemma_text_lt_asymmetric(given[1].host_id@, given[0].host_id@);
                    assert(!independent_pair(given[0], given[1]));
                } else {
                    assert(!independent_pair(given[1], given[0]));
                }
                assert(independent_pair(a, b));
                assert(packet.spec_valid());
            }
        }
        checked?;
        Ok(packet)
    }
}

/// The host, operator and evaluator signing seeds are pairwise different.
pub fn distinct_seeds(host: &[u8; 32], operator: &[u8; 32], evaluator: &[u8; 32]) -> (r: bool)
    ensures
        r == (host@ != operator@ && host@ != evaluator@ && operator@ != evaluator@),
{
    !crate::maintenance::bytes_equal(host.as_slice(), operator.as_slice())
        && !crate::maintenance::bytes_equal(host.as_slice(), evaluator.as_slice())
        && !crate::maintenance::bytes_equal(operator.as_slice(), evaluator.as_slice())
}

} // verus!

