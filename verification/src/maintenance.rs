//! A bounded, reversible local maintenance workflow.
//!
//! The module is a data contract and an executor seam. It opens no files,
//! starts no processes, contacts no network and authenticates no roles; the
//! caller supplies the executor. `InMemoryMaintenanceExecutor` is the only
//! executor here.
use crate::canon::{
    join, json_bool, json_list, json_nat, json_text, json_text_list, lemma_join_push, lit, push_bool,
    push_lit, push_nat, push_text, push_text_vec,
};
use crate::collections::{entries_map, texts_of, TextMap, TextSet};
use crate::digest::{digest_bytes, sha256_hex};
use crate::error::{invalid, rejected, Error};
use crate::order::text_eq;
use crate::records::STATE_SLICE;
use crate::text::{is_digest, text_chars, text_ok, valid_digest, valid_text};
use vstd::prelude::*;

verus! {

pub const MAX_PATH_BYTES: usize = 256;

pub const MAX_PATCH_BYTES: usize = 1048576;

pub const MAX_TESTS: usize = 64;

/// The adversarial tests every maintenance evaluation must run.
pub const REQUIRED_ADVERSARIAL_TESTS: [&'static str; 4] = [
    "evidence-substitution",
    "evidence-expiry",
    "path-escape",
    "failed-postcheck-rollback",
];

pub open spec fn required_tests() -> Seq<Seq<char>> {
    seq![
        "evidence-substitution"@,
        "evidence-expiry"@,
        "path-escape"@,
        "failed-postcheck-rollback"@,
    ]
}

/// Non-empty, at most 256 bytes, no control characters.
pub open spec fn id_ok(s: Seq<char>) -> bool {
    text_ok(s, 256)
}

// ------------------------------------------------------------ paths

/// A path segment starts at `i`.
pub open spec fn segment_start(s: Seq<char>, i: int) -> bool {
    i == 0 || s[i - 1] == '/'
}

/// A `..` segment starts at `i`.
pub open spec fn parent_at(s: Seq<char>, i: int) -> bool {
    &&& 0 <= i
    &&& i + 1 < s.len()
    &&& segment_start(s, i)
    &&& s[i] == '.'
    &&& s[i + 1] == '.'
    &&& (i + 2 == s.len() || s[i + 2] == '/')
}

/// The path begins with a `.` segment.
pub open spec fn leading_current(s: Seq<char>) -> bool {
    s.len() > 0 && s[0] == '.' && (s.len() == 1 || s[1] == '/')
}

/// Every component of the path is a plain name: it is not rooted, does not
/// begin with `.`, and has no `..` segment (empty and inner `.` segments
/// are no components).
pub open spec fn plain_components(s: Seq<char>) -> bool {
    &&& (s.len() == 0 || s[0] != '/')
    &&& !leading_current(s)
    &&& !(exists|i: int| #[trigger] parent_at(s, i))
}

/// A relative path that stays below its root, in portable form.
pub open spec fn safe_relative_path(s: Seq<char>) -> bool {
    &&& id_ok(s)
    &&& !s.contains('\\')
    &&& !s.contains(':')
    &&& plain_components(s)
}

/// Whether every component of `value` is a plain name.
pub fn has_plain_components(value: &str) -> (r: bool)
    ensures
        r == plain_components(value@),
{
    let chars = text_chars(value);
    let n = chars.len();
    if n == 0 {
        return true;
    }
    for i in 0..n
        invariant
            n == chars@.len(),
            chars@ == value@,
            forall|k: int| 0 <= k < i ==> !#[trigger] parent_at(value@, k),
    {
        if chars[i] == '.' && (i == 0 || chars[i - 1] == '/') && i + 1 < n && chars[i + 1] == '.'
            && (i + 2 == n || chars[i + 2] == '/') {
            proof {
                assert(parent_at(value@, i as int));
            }
            return false;
        }
    }
    proof {
        assert forall|i: int| !#[trigger] parent_at(value@, i) by {
            if 0 <= i < n {
            }
        }
    }
    if chars[0] == '/' {
        return false;
    }
    if chars[0] == '.' && (n == 1 || chars[1] == '/') {
        return false;
    }
    true
}

/// Whether `value` is a safe relative path.
pub fn is_safe_relative_path(value: &str) -> (r: bool)
    ensures
        r == safe_relative_path(value@),
{
    if !valid_text(value, MAX_PATH_BYTES) {
        return false;
    }
    let chars = text_chars(value);
    let n = chars.len();
    for i in 0..n
        invariant
            n == chars@.len(),
            chars@ == value@,
            forall|k: int| 0 <= k < i ==> chars@[k] != '\\' && chars@[k] != ':',
    {
        let c = chars[i];
        if c == '\\' || c == ':' {
            proof {
                assert(value@[i as int] == c);
            }
            return false;
        }
    }
    proof {
        assert(!value@.contains('\\'));
        assert(!value@.contains(':'));
    }
    has_plain_components(value)
}

// ------------------------------------------------------------ requirements

/// The evaluator inputs frozen into a maintenance proposal.
#[derive(Clone, Debug, PartialEq, Eq)]
pub struct MaintenanceRequirements {
    pub evaluator_executable_digest: String,
    pub evaluator_input_digest: String,
    pub evaluator_tests_digest: String,
    pub policy_digest: String,
    pub required_test_ids: Vec<String>,
}

/// Two requirement sets with the same contents.
pub open spec fn same_requirements(a: MaintenanceRequirements, b: MaintenanceRequirements) -> bool {
    &&& a.evaluator_executable_digest@ == b.evaluator_executable_digest@
    &&& a.evaluator_input_digest@ == b.evaluator_input_digest@
    &&& a.evaluator_tests_digest@ == b.evaluator_tests_digest@
    &&& a.policy_digest@ == b.policy_digest@
    &&& texts_of(a.required_test_ids@) == texts_of(b.required_test_ids@)
}

fn requirements_match(a: &MaintenanceRequirements, b: &MaintenanceRequirements) -> (r: bool)
    ensures
        r == same_requirements(*a, *b),
{
    if !text_eq(a.evaluator_executable_digest.as_str(), b.evaluator_executable_digest.as_str())
        || !text_eq(a.evaluator_input_digest.as_str(), b.evaluator_input_digest.as_str())
        || !text_eq(a.evaluator_tests_digest.as_str(), b.evaluator_tests_digest.as_str())
        || !text_eq(a.policy_digest.as_str(), b.policy_digest.as_str()) {
        return false;
    }
    let n = a.required_test_ids.len();
    if n != b.required_test_ids.len() {
        proof {
            assert(texts_of(a.required_test_ids@).len() != texts_of(b.required_test_ids@).len());
        }
        return false;
    }
    for i in 0..n
        invariant
            n == a.required_test_ids@.len(),
            n == b.required_test_ids@.len(),
            forall|k: int| 0 <= k < i ==> a.required_test_ids@[k]@ == b.required_test_ids@[k]@,
    {
        if !text_eq(a.required_test_ids[i].as_str(), b.required_test_ids[i].as_str()) {
            proof {
                assert(texts_of(a.required_test_ids@)[i as int] != texts_of(b.required_test_ids@)[i as int]);
            }
            return false;
        }
    }
    proof {
        assert(texts_of(a.required_test_ids@) =~= texts_of(b.required_test_ids@));
    }
    true
}

impl MaintenanceRequirements {
    /// Well-formed digests, and a roster of one to 64 distinct well-formed
    /// test ids that holds every required adversarial test.
    pub open spec fn spec_valid(&self) -> bool {
        let ids = texts_of(self.required_test_ids@);
        &&& is_digest(self.evaluator_executable_digest@)
        &&& is_digest(self.evaluator_input_digest@)
        &&& is_digest(self.evaluator_tests_digest@)
        &&& is_digest(self.policy_digest@)
        &&& 0 < ids.len() <= MAX_TESTS
        &&& forall|i: int| 0 <= i < ids.len() ==> id_ok(#[trigger] ids[i])
        &&& ids.no_duplicates()
        &&& forall|k: int| 0 <= k < 4 ==> ids.contains(#[trigger] required_tests()[k])
    }

    pub fn validate(&self) -> (r: Result<(), Error>)
        ensures
            r is Ok <==> self.spec_valid(),
            r matches Err(e) ==> e is Invalid,
    {
        if !valid_digest(self.evaluator_executable_digest.as_str()) || !valid_digest(
            self.evaluator_input_digest.as_str(),
        ) || !valid_digest(self.evaluator_tests_digest.as_str()) || !valid_digest(
            self.policy_digest.as_str(),
        ) {
            return Err(invalid("maintenance digest is malformed"));
        }
        let ghost ids = texts_of(self.required_test_ids@);
        let n = self.required_test_ids.len();
        if n == 0 || n > MAX_TESTS {
            return Err(invalid("maintenance evaluator test requirements are empty or too large"));
        }
        let mut seen = TextSet::new();
        for i in 0..n
            invariant
                n == self.required_test_ids@.len(),
                ids == texts_of(self.required_test_ids@),
                forall|k: int| 0 <= k < i ==> id_ok(#[trigger] ids[k]),
                forall|a: int, b: int| 0 <= a < b < i ==> ids[a] != ids[b],
                forall|x: Seq<char>| seen@.contains(x) <==> ids.take(i as int).contains(x),
        {
            let id = &self.required_test_ids[i];
            let ghost before = seen@;
            if !valid_text(id.as_str(), MAX_PATH_BYTES) {
                proof {
                    assert(ids[i as int] == id@);
                }
                return Err(invalid("maintenance evaluator test requirement is malformed or duplicated"));
            }
            if !seen.insert(id.clone()) {
                proof {
                    assert(ids.take(i as int).contains(id@));
                    let k = choose|k: int| 0 <= k < i && #[trigger] ids.take(i as int)[k] == id@;
                    assert(ids[k] == ids[i as int]);
                }
                return Err(invalid("maintenance evaluator test requirement is malformed or duplicated"));
            }
            proof {
                assert(ids[i as int] == id@);
                assert(ids.take(i + 1) =~= ids.take(i as int).push(id@));
                assert forall|x: Seq<char>| seen@.contains(x) <==> ids.take(i + 1).contains(x) by {
                    assert(seen@.to_set().contains(x) <==> seen@.contains(x));
                    assert(before.to_set().contains(x) <==> before.contains(x));
                    if x == id@ {
                        assert(ids.take(i + 1)[i as int] == x);
                    } else {
                        if ids.take(i + 1).contains(x) {
                            let k = choose|k: int| 0 <= k < i + 1 && #[trigger] ids.take(i + 1)[k] == x;
                            assert(ids.take(i as int)[k] == x);
                        }
                    }
                }
                assert forall|a: int, b: int| 0 <= a < b < i + 1 implies ids[a] != ids[b] by {
                    if b == i {
                        assert(ids.take(i as int)[a] == ids[a]);
                        assert(before.contains(ids[a]));
                    }
                }
            }
        }
        proof {
            assert(ids.take(n as int) =~= ids);
            assert(ids.no_duplicates());
        }
        let mut j: usize = 0;
        while j < 4
            invariant
                j <= 4,
                ids == texts_of(self.required_test_ids@),
                forall|x: Seq<char>| seen@.contains(x) <==> ids.contains(x),
                forall|k: int| 0 <= k < j ==> ids.contains(#[trigger] required_tests()[k]),
            decreases 4 - j,
        {
            let required = REQUIRED_ADVERSARIAL_TESTS[j];
            proof {
                reveal_strlit("evidence-substitution");
                reveal_strlit("evidence-expiry");
                reveal_strlit("path-escape");
                reveal_strlit("failed-postcheck-rollback");
                assert(required@ == required_tests()[j as int]);
            }
            if !seen.contains(required) {
                return Err(invalid("required adversarial maintenance tests are missing"));
            }
            j = j + 1;
        }
        Ok(())
    }
}

pub open spec fn requirements_bytes(r: MaintenanceRequirements) -> Seq<u8> {
    lit("{\"evaluator_executable_digest\":") + json_text(r.evaluator_executable_digest@) + lit(
        ",\"evaluator_input_digest\":",
    ) + json_text(r.evaluator_input_digest@) + lit(",\"evaluator_tests_digest\":") + json_text(
        r.evaluator_tests_digest@,
    ) + lit(",\"policy_digest\":") + json_text(r.policy_digest@) + lit(",\"required_test_ids\":")
        + json_text_list(texts_of(r.required_test_ids@)) + lit("}")
}

fn push_requirements(out: &mut Vec<u8>, r: &MaintenanceRequirements)
    ensures
        final(out)@ == old(out)@ + requirements_bytes(*r),
{
    let ghost start = out@;
    push_lit(out, "{\"evaluator_executable_digest\":");
    push_text(out, r.evaluator_executable_digest.as_str());
    push_lit(out, ",\"evaluator_input_digest\":");
    push_text(out, r.evaluator_input_digest.as_str());
    push_lit(out, ",\"evaluator_tests_digest\":");
    push_text(out, r.evaluator_tests_digest.as_str());
    push_lit(out, ",\"policy_digest\":");
    push_text(out, r.policy_digest.as_str());
    push_lit(out, ",\"required_test_ids\":");
    push_text_vec(out, &r.required_test_ids);
    push_lit(out, "}");
    assert(out@ =~= start + requirements_bytes(*r));
}

// ------------------------------------------------------------ bytes

/// The JSON array of some bytes, one number each.
pub open spec fn byte_list(values: Seq<u8>) -> Seq<u8> {
    json_list(values.map_values(|v: u8| json_nat(v as nat)))
}

pub(crate) fn push_byte_list(out: &mut Vec<u8>, values: &Vec<u8>)
    ensures
        final(out)@ == old(out)@ + byte_list(values@),
{
    let ghost items = values@.map_values(|v: u8| json_nat(v as nat));
    out.push(0x5b);
    let ghost start = out@;
    let n = values.len();
    for i in 0..n
        invariant
            n == values@.len(),
            items == values@.map_values(|v: u8| json_nat(v as nat)),
            out@ == start + join(items.subrange(0, i as int)),
    {
        if i > 0 {
            out.push(0x2c);
        }
        push_nat(out, values[i] as u64);
        proof {
            lemma_join_push(items.subrange(0, i as int), items[i as int]);
            assert(items.subrange(0, i + 1) =~= items.subrange(0, i as int).push(items[i as int]));
        }
    }
    out.push(0x5d);
    proof {
        assert(items.subrange(0, n as int) =~= items);
        assert(out@ =~= old(out)@ + byte_list(values@));
    }
}

/// Whether two byte strings are equal.
pub fn bytes_equal(a: &[u8], b: &[u8]) -> (r: bool)
    ensures
        r == (a@ == b@),
{
    let n = a.len();
    if n != b.len() {
        return false;
    }
    for i in 0..n
        invariant
            n == a@.len(),
            n == b@.len(),
            forall|k: int| 0 <= k < i ==> a@[k] == b@[k],
    {
        if a[i] != b[i] {
            return false;
        }
    }
    proof {
        assert(a@ =~= b@);
    }
    true
}

// ------------------------------------------------------------ test results

/// One result from the evaluator's test roster.
#[derive(Clone, Debug, PartialEq, Eq)]
pub struct MaintenanceTestResult {
    pub test_id: String,
    pub passed: bool,
}

pub open spec fn result_bytes(t: MaintenanceTestResult) -> Seq<u8> {
    lit("{\"test_id\":") + json_text(t.test_id@) + lit(",\"passed\":") + json_bool(t.passed) + lit(
        "}",
    )
}

pub open spec fn results_bytes(ts: Seq<MaintenanceTestResult>) -> Seq<u8> {
    json_list(ts.map_values(|t: MaintenanceTestResult| result_bytes(t)))
}

fn push_results(out: &mut Vec<u8>, ts: &Vec<MaintenanceTestResult>)
    ensures
        final(out)@ == old(out)@ + results_bytes(ts@),
{
    let ghost items = ts@.map_values(|t: MaintenanceTestResult| result_bytes(t));
    out.push(0x5b);
    let ghost start = out@;
    let n = ts.len();
    for i in 0..n
        invariant
            n == ts@.len(),
            items == ts@.map_values(|t: MaintenanceTestResult| result_bytes(t)),
            out@ == start + join(items.subrange(0, i as int)),
    {
        if i > 0 {
            out.push(0x2c);
        }
        let ghost before = out@;
        push_lit(out, "{\"test_id\":");
        push_text(out, ts[i].test_id.as_str());
        push_lit(out, ",\"passed\":");
        push_bool(out, ts[i].passed);
        push_lit(out, "}");
        proof {
            assert(out@ =~= before + result_bytes(ts@[i as int]));
            lemma_join_push(items.subrange(0, i as int), items[i as int]);
            assert(items.subrange(0, i + 1) =~= items.subrange(0, i as int).push(items[i as int]));
        }
    }
    out.push(0x5d);
    proof {
        assert(items.subrange(0, n as int) =~= items);
        assert(out@ =~= old(out)@ + results_bytes(ts@));
    }
}

// ------------------------------------------------------------ proposals

/// A single-file patch with its exact bytes and their digests.
#[derive(Clone, Debug, PartialEq, Eq)]
pub struct MaintenancePatchProposal {
    pub patch_id: String,
    pub proposer_role: String,
    pub relative_path: String,
    pub before_bytes: Vec<u8>,
    pub before_digest: String,
    pub after_bytes: Vec<u8>,
    pub after_digest: String,
    pub requirements: MaintenanceRequirements,
    pub proposed_at: u64,
    pub expires_at: u64,
}

impl MaintenancePatchProposal {
    pub open spec fn spec_valid(&self, now: u64) -> bool {
        &&& id_ok(self.patch_id@)
        &&& id_ok(self.proposer_role@)
        &&& safe_relative_path(self.relative_path@)
        &&& self.before_bytes@.len() <= MAX_PATCH_BYTES
        &&& self.after_bytes@.len() <= MAX_PATCH_BYTES
        &&& self.before_bytes@ != self.after_bytes@
        &&& self.proposed_at <= now
        &&& self.proposed_at < self.expires_at
        &&& now < self.expires_at
        &&& is_digest(self.before_digest@)
        &&& is_digest(self.after_digest@)
        &&& self.before_digest@ == sha256_hex(self.before_bytes@)
        &&& self.after_digest@ == sha256_hex(self.after_bytes@)
        &&& self.requirements.spec_valid()
    }

    pub open spec fn bytes_part0(&self) -> Seq<u8> {
        lit("{\"patch_id\":") + json_text(self.patch_id@) + lit(",\"proposer_role\":") + json_text(
            self.proposer_role@,
        ) + lit(",\"relative_path\":") + json_text(self.relative_path@) + lit(",\"before_bytes\":")
            + byte_list(self.before_bytes@) + lit(",\"before_digest\":") + json_text(
            self.before_digest@,
        )
    }

    pub open spec fn bytes_part1(&self) -> Seq<u8> {
        lit(",\"after_bytes\":") + byte_list(self.after_bytes@) + lit(",\"after_digest\":")
            + json_text(self.after_digest@)
    }

    pub open spec fn bytes_part2(&self) -> Seq<u8> {
        lit(",\"requirements\":") + requirements_bytes(self.requirements) + lit(
            ",\"proposed_at\":",
        ) + json_nat(self.proposed_at as nat) + lit(",\"expires_at\":") + json_nat(
            self.expires_at as nat,
        ) + lit("}")
    }

    pub open spec fn bytes(&self) -> Seq<u8> {
        self.bytes_part0() + self.bytes_part1() + self.bytes_part2()
    }

    pub open spec fn spec_digest(&self) -> Seq<char> {
        sha256_hex(self.bytes())
    }

    fn push_part0(&self, out: &mut Vec<u8>)
        ensures
            final(out)@ == old(out)@ + self.bytes_part0(),
    {
        let ghost start = out@;
        push_lit(out, "{\"patch_id\":");
        push_text(out, self.patch_id.as_str());
        push_lit(out, ",\"proposer_role\":");
        push_text(out, self.proposer_role.as_str());
        push_lit(out, ",\"relative_path\":");
        push_text(out, self.relative_path.as_str());
        push_lit(out, ",\"before_bytes\":");
        push_byte_list(out, &self.before_bytes);
        push_lit(out, ",\"before_digest\":");
        push_text(out, self.before_digest.as_str());
        assert(out@ =~= start + self.bytes_part0());
    }

    fn push_part1(&self, out: &mut Vec<u8>)
        ensures
            final(out)@ == old(out)@ + self.bytes_part1(),
    {
        let ghost mid = out@;
        push_lit(out, ",\"after_bytes\":");
        push_byte_list(out, &self.after_bytes);
        push_lit(out, ",\"after_digest\":");
        push_text(out, self.after_digest.as_str());
        assert(out@ =~= mid + self.bytes_part1());
    }

    fn push_part2(&self, out: &mut Vec<u8>)
        ensures
            final(out)@ == old(out)@ + self.bytes_part2(),
    {
        let ghost mid = out@;
        push_lit(out, ",\"requirements\":");
        push_requirements(out, &self.requirements);
        push_lit(out, ",\"proposed_at\":");
        push_nat(out, self.proposed_at);
        push_lit(out, ",\"expires_at\":");
        push_nat(out, self.expires_at);
        push_lit(out, "}");
        assert(out@ =~= mid + self.bytes_part2());
    }

    fn push_canonical(&self, out: &mut Vec<u8>)
        ensures
            final(out)@ == old(out)@ + self.bytes(),
    {
        let ghost start = out@;
        self.push_part0(out);
        self.push_part1(out);
        self.push_part2(out);
        assert(out@ =~= start + self.bytes());
    }

    /// Checks the patch at `now`: ids, a safe path, bounded distinct bytes
    /// that match their digests, a live window, and valid requirements.
    pub fn validate(&self, now: u64) -> (r: Result<(), Error>)
        ensures
            r is Ok <==> self.spec_valid(now),
            r matches Err(e) ==> e is Invalid,
    {
        if !valid_text(self.patch_id.as_str(), MAX_PATH_BYTES) || !valid_text(
            self.proposer_role.as_str(),
            MAX_PATH_BYTES,
        ) || !is_safe_relative_path(self.relative_path.as_str()) || self.before_bytes.len()
            > MAX_PATCH_BYTES || self.after_bytes.len() > MAX_PATCH_BYTES || bytes_equal(
            self.before_bytes.as_slice(),
            self.after_bytes.as_slice(),
        ) || self.proposed_at > now || self.expires_at <= self.proposed_at || self.expires_at
            <= now {
            return Err(invalid("maintenance patch proposal is invalid"));
        }
        if !valid_digest(self.before_digest.as_str()) || !valid_digest(self.after_digest.as_str()) {
            return Err(invalid("maintenance digest is malformed"));
        }
        let before = digest_bytes(self.before_bytes.as_slice());
        let after = digest_bytes(self.after_bytes.as_slice());
        if !text_eq(self.before_digest.as_str(), before.as_str()) || !text_eq(
            self.after_digest.as_str(),
            after.as_str(),
        ) {
            return Err(invalid("maintenance patch byte digest does not match bytes"));
        }
        self.requirements.validate()
    }

    /// The digest of the proposal's encoding.
    pub fn digest(&self) -> (r: String)
        ensures
            r@ == self.spec_digest(),
            is_digest(r@),
    {
        let mut out: Vec<u8> = Vec::new();
        self.push_canonical(&mut out);
        assert(out@ =~= self.bytes());
        digest_bytes(out.as_slice())
    }
}

// ------------------------------------------------------------ evaluations

/// The evaluator's output. Its role field is the caller's assertion.
#[derive(Clone, Debug, PartialEq, Eq)]
pub struct MaintenanceEvaluation {
    pub evaluation_id: String,
    pub evaluator_role: String,
    pub proposal_digest: String,
    pub requirements: MaintenanceRequirements,
    pub test_results: Vec<MaintenanceTestResult>,
    pub accepted: bool,
    pub evaluated_at: u64,
    pub expires_at: u64,
}

/// The results name exactly the required tests, each once, and all passed.
pub open spec fn roster_matches(results: Seq<MaintenanceTestResult>, required: Seq<Seq<char>>) -> bool {
    &&& forall|i: int| 0 <= i < results.len() ==> id_ok((#[trigger] results[i]).test_id@)
    &&& forall|i: int| 0 <= i < results.len() ==> required.contains((#[trigger] results[i]).test_id@)
    &&& forall|i: int, j: int|
        0 <= i < j < results.len() ==> (#[trigger] results[i]).test_id@ != (
        #[trigger] results[j]).test_id@
    &&& forall|i: int| 0 <= i < results.len() ==> (#[trigger] results[i]).passed
    &&& forall|k: int| 0 <= k < required.len() ==> has_result(results, #[trigger] required[k])
}

/// Some result is for test `id`.
pub open spec fn has_result(results: Seq<MaintenanceTestResult>, id: Seq<char>) -> bool {
    exists|i: int| 0 <= i < results.len() && (#[trigger] results[i]).test_id@ == id
}

impl MaintenanceEvaluation {
    /// An accepted, live evaluation by a distinct role of exactly this
    /// proposal under its requirements, with every required test passed.
    pub open spec fn spec_valid_for(&self, p: MaintenancePatchProposal, now: u64) -> bool {
        &&& id_ok(self.evaluation_id@)
        &&& id_ok(self.evaluator_role@)
        &&& is_digest(self.proposal_digest@)
        &&& self.evaluator_role@ != p.proposer_role@
        &&& self.evaluated_at <= now
        &&& p.proposed_at <= self.evaluated_at
        &&& self.evaluated_at < self.expires_at
        &&& now < self.expires_at
        &&& same_requirements(self.requirements, p.requirements)
        &&& self.proposal_digest@ == p.spec_digest()
        &&& 0 < self.test_results@.len() <= MAX_TESTS
        &&& self.accepted
        &&& roster_matches(self.test_results@, texts_of(p.requirements.required_test_ids@))
    }

    pub open spec fn bytes_part0(&self) -> Seq<u8> {
        lit("{\"evaluation_id\":") + json_text(self.evaluation_id@) + lit(",\"evaluator_role\":")
            + json_text(self.evaluator_role@) + lit(",\"proposal_digest\":") + json_text(
            self.proposal_digest@,
        ) + lit(",\"requirements\":") + requirements_bytes(self.requirements)
    }

    pub open spec fn bytes_part1(&self) -> Seq<u8> {
        lit(",\"test_results\":") + results_bytes(self.test_results@) + lit(",\"accepted\":")
            + json_bool(self.accepted) + lit(",\"evaluated_at\":") + json_nat(
            self.evaluated_at as nat,
        ) + lit(",\"expires_at\":") + json_nat(self.expires_at as nat) + lit("}")
    }

    pub open spec fn bytes(&self) -> Seq<u8> {
        self.bytes_part0() + self.bytes_part1()
    }

    fn push_part0(&self, out: &mut Vec<u8>)
        ensures
            final(out)@ == old(out)@ + self.bytes_part0(),
    {
        let ghost start = out@;
        push_lit(out, "{\"evaluation_id\":");
        push_text(out, self.evaluation_id.as_str());
        push_lit(out, ",\"evaluator_role\":");
        push_text(out, self.evaluator_role.as_str());
        push_lit(out, ",\"proposal_digest\":");
        push_text(out, self.proposal_digest.as_str());
        push_lit(out, ",\"requirements\":");
        push_requirements(out, &self.requirements);
        assert(out@ =~= start + self.bytes_part0());
    }

    #[verifier::rlimit(40)]
    fn push_part1(&self, out: &mut Vec<u8>)
        ensures
            final(out)@ == old(out)@ + self.bytes_part1(),
    {
        let ghost mid = out@;
        push_lit(out, ",\"test_results\":");
        push_results(out, &self.test_results);
        push_lit(out, ",\"accepted\":");
        push_bool(out, self.accepted);
        push_lit(out, ",\"evaluated_at\":");
        push_nat(out, self.evaluated_at);
        push_lit(out, ",\"expires_at\":");
        push_nat(out, self.expires_at);
        push_lit(out, "}");
        assert(out@ =~= mid + self.bytes_part1());
    }

    fn push_canonical(&self, out: &mut Vec<u8>)
        ensures
            final(out)@ == old(out)@ + self.bytes(),
    {
        let ghost start = out@;
        self.push_part0(out);
        self.push_part1(out);
        assert(out@ =~= start + self.bytes());
    }

    /// Checks the evaluation against `proposal` at `now`.
    pub fn validate_for(&self, proposal: &MaintenancePatchProposal, now: u64) -> (r: Result<(), Error>)
        ensures
            r is Ok <==> self.spec_valid_for(*proposal, now),
            r matches Err(e) ==> e is Invalid,
    {
        let proposal_digest = proposal.digest();
        if !valid_text(self.evaluation_id.as_str(), MAX_PATH_BYTES) || !valid_text(
            self.evaluator_role.as_str(),
            MAX_PATH_BYTES,
        ) || !valid_digest(self.proposal_digest.as_str()) || text_eq(
            self.evaluator_role.as_str(),
            proposal.proposer_role.as_str(),
        ) || self.evaluated_at > now || self.evaluated_at < proposal.proposed_at || self.expires_at
            <= self.evaluated_at || self.expires_at <= now || !requirements_match(
            &self.requirements,
            &proposal.requirements,
        ) || !text_eq(self.proposal_digest.as_str(), proposal_digest.as_str())
            || self.test_results.len() == 0 || self.test_results.len() > MAX_TESTS
            || !self.accepted {
            return Err(invalid("maintenance evaluation is stale, mismatched, incomplete, or rejected"));
        }
        check_roster(&self.test_results, &proposal.requirements.required_test_ids)
    }
}

fn vec_contains_text(v: &Vec<String>, needle: &str) -> (r: bool)
    ensures
        r == texts_of(v@).contains(needle@),
{
    let n = v.len();
    for i in 0..n
        invariant
            n == v@.len(),
            forall|k: int| 0 <= k < i ==> v@[k]@ != needle@,
    {
        if text_eq(v[i].as_str(), needle) {
            proof {
                assert(texts_of(v@)[i as int] == needle@);
            }
            return true;
        }
    }
    proof {
        assert forall|k: int| 0 <= k < texts_of(v@).len() implies texts_of(v@)[k] != needle@ by {
            assert(v@[k]@ != needle@);
        }
    }
    false
}

fn check_roster(results: &Vec<MaintenanceTestResult>, required: &Vec<String>) -> (r: Result<(), Error>)
    ensures
        r is Ok <==> roster_matches(results@, texts_of(required@)),
        r matches Err(e) ==> e is Invalid,
{
    let ghost req = texts_of(required@);
    let mut observed = TextSet::new();
    let n = results.len();
    for i in 0..n
        invariant
            n == results@.len(),
            req == texts_of(required@),
            forall|k: int| 0 <= k < i ==> id_ok((#[trigger] results@[k]).test_id@),
            forall|k: int| 0 <= k < i ==> req.contains((#[trigger] results@[k]).test_id@),
            forall|a: int, b: int|
                0 <= a < b < i ==> (#[trigger] results@[a]).test_id@ != (#[trigger] results@[b]).test_id@,
            forall|k: int| 0 <= k < i ==> (#[trigger] results@[k]).passed,
            forall|x: Seq<char>|
                observed@.contains(x) <==> exists|k: int| 0 <= k < i && (#[trigger] results@[k]).test_id@ == x,
    {
        let t = &results[i];
        if !valid_text(t.test_id.as_str(), MAX_PATH_BYTES) {
            return Err(invalid("maintenance test result ID is invalid"));
        }
        let ghost before = observed@;
        if !vec_contains_text(required, t.test_id.as_str()) {
            return Err(invalid("maintenance evaluator test result roster does not match requirements"));
        }
        if !observed.insert(t.test_id.clone()) {
            proof {
                let k = choose|k: int| 0 <= k < i && (#[trigger] results@[k]).test_id@ == t.test_id@;
                assert(results@[k].test_id@ == results@[i as int].test_id@);
            }
            return Err(invalid("maintenance evaluator test result roster does not match requirements"));
        }
        if !t.passed {
            return Err(invalid("required maintenance evaluator test failed"));
        }
        proof {
            assert forall|x: Seq<char>|
                observed@.contains(x) <==> exists|k: int| 0 <= k < i + 1 && (#[trigger] results@[k]).test_id@ == x by {
                assert(observed@.to_set().contains(x) <==> observed@.contains(x));
                assert(before.to_set().contains(x) <==> before.contains(x));
                if x == results@[i as int].test_id@ {
                    assert(observed@.to_set().contains(x));
                }
                if exists|k: int| 0 <= k < i && (#[trigger] results@[k]).test_id@ == x {
                    assert(before.to_set().contains(x));
                }
            }
            assert forall|a: int, b: int|
                0 <= a < b < i + 1 implies (#[trigger] results@[a]).test_id@ != (#[trigger] results@[b]).test_id@ by {
                if b == i {
                    assert(before.contains(results@[a].test_id@));
                }
            }
        }
    }
    let m = required.len();
    for j in 0..m
        invariant
            m == required@.len(),
            n == results@.len(),
            req == texts_of(required@),
            forall|k: int| 0 <= k < n ==> id_ok((#[trigger] results@[k]).test_id@),
            forall|k: int| 0 <= k < n ==> req.contains((#[trigger] results@[k]).test_id@),
            forall|a: int, b: int|
                0 <= a < b < n ==> (#[trigger] results@[a]).test_id@ != (#[trigger] results@[b]).test_id@,
            forall|k: int| 0 <= k < n ==> (#[trigger] results@[k]).passed,
            forall|x: Seq<char>|
                observed@.contains(x) <==> exists|k: int| 0 <= k < n && (#[trigger] results@[k]).test_id@ == x,
            forall|k: int| 0 <= k < j ==> has_result(results@, #[trigger] req[k]),
    {
        if !observed.contains(required[j].as_str()) {
            proof {
                assert(req[j as int] == required@[j as int]@);
            }
            return Err(invalid("maintenance evaluator omitted a required test result"));
        }
        proof {
            assert(req[j as int] == required@[j as int]@);
            assert(observed@.contains(req[j as int]));
            assert(has_result(results@, req[j as int]));
        }
    }
    Ok(())
}

// ------------------------------------------------------------ acceptance and packet

/// Independent acceptance of one exact packet. The acceptor's role is the
/// caller's assertion and is not authenticated here.
#[derive(Clone, Debug, PartialEq, Eq)]
pub struct MaintenanceAcceptance {
    pub reviewer_role: String,
    pub complete_packet_digest: String,
    pub accepted_at: u64,
    pub expires_at: u64,
}

/// The proposal and its evaluation, as one packet.
#[derive(Clone, Debug, PartialEq, Eq)]
pub struct MaintenancePacket {
    pub proposal: MaintenancePatchProposal,
    pub evaluation: MaintenanceEvaluation,
}

impl MaintenancePacket {
    pub open spec fn spec_valid(&self, now: u64) -> bool {
        self.proposal.spec_valid(now) && self.evaluation.spec_valid_for(self.proposal, now)
    }

    pub open spec fn bytes(&self) -> Seq<u8> {
        lit("{\"proposal\":") + self.proposal.bytes() + lit(",\"evaluation\":")
            + self.evaluation.bytes() + lit("}")
    }

    pub open spec fn spec_digest(&self) -> Seq<char> {
        sha256_hex(self.bytes())
    }

    pub fn validate(&self, now: u64) -> (r: Result<(), Error>)
        ensures
            r is Ok <==> self.spec_valid(now),
            r matches Err(e) ==> e is Invalid,
    {
        self.proposal.validate(now)?;
        self.evaluation.validate_for(&self.proposal, now)
    }

    /// The digest of the packet's encoding.
    pub fn digest(&self) -> (r: String)
        ensures
            r@ == self.spec_digest(),
            is_digest(r@),
    {
        let mut out: Vec<u8> = Vec::new();
        push_lit(&mut out, "{\"proposal\":");
        self.proposal.push_canonical(&mut out);
        push_lit(&mut out, ",\"evaluation\":");
        self.evaluation.push_canonical(&mut out);
        push_lit(&mut out, "}");
        assert(out@ =~= self.bytes());
        digest_bytes(out.as_slice())
    }
}

impl MaintenanceAcceptance {
    /// A live acceptance, after the evaluation, of exactly this packet, by a
    /// role distinct from the proposer and the evaluator.
    pub open spec fn spec_valid_for(&self, packet: MaintenancePacket, now: u64) -> bool {
        &&& id_ok(self.reviewer_role@)
        &&& is_digest(self.complete_packet_digest@)
        &&& self.accepted_at <= now
        &&& self.accepted_at < self.expires_at
        &&& packet.evaluation.evaluated_at <= self.accepted_at
        &&& now < self.expires_at
        &&& self.complete_packet_digest@ == packet.spec_digest()
        &&& self.reviewer_role@ != packet.proposal.proposer_role@
        &&& self.reviewer_role@ != packet.evaluation.evaluator_role@
    }

    pub fn validate_for(&self, packet: &MaintenancePacket, now: u64) -> (r: Result<(), Error>)
        ensures
            r is Ok <==> self.spec_valid_for(*packet, now),
            r matches Err(e) ==> e is Invalid,
    {
        let packet_digest = packet.digest();
        if !valid_text(self.reviewer_role.as_str(), MAX_PATH_BYTES) || !valid_digest(
            self.complete_packet_digest.as_str(),
        ) || self.accepted_at > now || self.expires_at <= self.accepted_at || self.accepted_at
            < packet.evaluation.evaluated_at || self.expires_at <= now || !text_eq(
            self.complete_packet_digest.as_str(),
            packet_digest.as_str(),
        ) || text_eq(self.reviewer_role.as_str(), packet.proposal.proposer_role.as_str())
            || text_eq(self.reviewer_role.as_str(), packet.evaluation.evaluator_role.as_str()) {
            return Err(invalid("maintenance acceptance is stale, mismatched, or role-colliding"));
        }
        Ok(())
    }
}

// ------------------------------------------------------------ outcomes

#[derive(Clone, Copy, Debug, PartialEq, Eq, Structural)]
pub enum MaintenanceStatus {
    Applied,
    Quarantined,
    RolledBack,
    Frozen,
}

#[derive(Clone, Copy, Debug, PartialEq, Eq, Structural)]
pub enum MaintenanceReason {
    MissingAcceptance,
    InvalidEvidence,
    ExpiredEvidence,
    MismatchedEvidence,
    ReplayedAcceptance,
    MissingTarget,
    BeforeDigestMismatch,
    WriteFailed,
    PostcheckFailed,
    RollbackFailed,
}

/// What the coordinator did with a packet, by digest only.
#[derive(Clone, Debug, PartialEq, Eq)]
pub struct MaintenanceOutcome {
    pub state_slice: &'static str,
    pub status: MaintenanceStatus,
    pub reason: Option<MaintenanceReason>,
    pub packet_digest: String,
    pub before_digest: String,
    pub after_digest: String,
}

// ------------------------------------------------------------ executors

/// A reversible executor owned by the caller. Implementations keep all I/O
/// inside their declared local scope. What is assumed of them is the
/// contract of `read`: it reports `spec_contents` of the path, succeeding
/// exactly when that is `Some`, and leaves it as it was. Nothing is assumed
/// of `write`.
pub trait MaintenanceExecutor {
    /// What the executor holds at `relative_path`, as its reads report it.
    spec fn spec_contents(&self, relative_path: Seq<char>) -> Option<Seq<u8>>;

    fn read(&mut self, relative_path: &str) -> (r: Result<Vec<u8>, Error>)
        ensures
            r is Ok <==> old(self).spec_contents(relative_path@) is Some,
            r matches Ok(v) ==> old(self).spec_contents(relative_path@) == Some(v@),
            final(self).spec_contents(relative_path@) == old(self).spec_contents(relative_path@),
    ;

    fn write(&mut self, relative_path: &str, bytes: &[u8]) -> Result<(), Error>;
}

/// The bytes with their first byte's lowest bit flipped, or a single `1`
/// for no bytes: what a corrupted write leaves.
pub open spec fn corrupted(b: Seq<u8>) -> Seq<u8> {
    if b.len() > 0 {
        b.update(0, b[0] ^ 1u8)
    } else {
        seq![1u8]
    }
}

/// An in-memory executor for hermetic checks, with switches that make writes
/// fail, corrupt the next write, or fail every write after the first.
#[derive(Clone, Debug)]
pub struct InMemoryMaintenanceExecutor {
    files: TextMap<Vec<u8>>,
    pub fail_writes: bool,
    pub corrupt_next_write: bool,
    pub fail_rollback_writes: bool,
    writes: usize,
}

impl InMemoryMaintenanceExecutor {
    pub closed spec fn file_map(&self) -> Map<Seq<char>, Vec<u8>> {
        entries_map(self.files@)
    }

    pub closed spec fn spec_writes(&self) -> usize {
        self.writes
    }

    pub closed spec fn spec_fail_writes(&self) -> bool {
        self.fail_writes
    }

    pub closed spec fn spec_corrupt_next_write(&self) -> bool {
        self.corrupt_next_write
    }

    pub closed spec fn spec_fail_rollback_writes(&self) -> bool {
        self.fail_rollback_writes
    }

    /// No write fails and none is corrupted.
    pub closed spec fn switches_off(&self) -> bool {
        !self.fail_writes && !self.corrupt_next_write && !self.fail_rollback_writes
    }

    /// An executor with no files and every switch off.
    pub fn new() -> (r: InMemoryMaintenanceExecutor)
        ensures
            r.file_map().dom().len() == 0,
            r.spec_writes() == 0,
            r.switches_off(),
    {
        let r = InMemoryMaintenanceExecutor {
            files: TextMap::new(),
            fail_writes: false,
            corrupt_next_write: false,
            fail_rollback_writes: false,
            writes: 0,
        };
        let _ = r.files.len();
        r
    }

    /// An executor holding one file.
    pub fn with_file(relative_path: &str, bytes: Vec<u8>) -> (r: InMemoryMaintenanceExecutor)
        ensures
            r.file_map() == map![relative_path@ => bytes],
            r.spec_writes() == 0,
            r.switches_off(),
    {
        let mut r = InMemoryMaintenanceExecutor::new();
        r.files.insert(relative_path.to_owned(), bytes);
        proof {
            assert(r.file_map() =~= map![relative_path@ => bytes]);
        }
        r
    }

    /// The bytes of a file, if present.
    pub fn file(&self, relative_path: &str) -> (r: Option<&[u8]>)
        ensures
            r is Some <==> self.file_map().contains_key(relative_path@),
            r matches Some(b) ==> b@ == self.file_map()[relative_path@]@,
    {
        match self.files.get(relative_path) {
            Some(v) => Some(v.as_slice()),
            None => None,
        }
    }

    /// The number of writes that took effect.
    pub fn writes(&self) -> (r: usize)
        ensures
            r == self.spec_writes(),
    {
        self.writes
    }
}

impl Default for InMemoryMaintenanceExecutor {
    fn default() -> (r: InMemoryMaintenanceExecutor)
        ensures
            r.file_map().dom().len() == 0,
            r.spec_writes() == 0,
            r.switches_off(),
    {
        InMemoryMaintenanceExecutor::new()
    }
}

impl MaintenanceExecutor for InMemoryMaintenanceExecutor {
    open spec fn spec_contents(&self, relative_path: Seq<char>) -> Option<Seq<u8>> {
        if self.file_map().contains_key(relative_path) {
            Some(self.file_map()[relative_path]@)
        } else {
            None
        }
    }

    fn read(&mut self, relative_path: &str) -> (r: Result<Vec<u8>, Error>)
        ensures
            r is Ok <==> old(self).file_map().contains_key(relative_path@),
            r matches Ok(v) ==> v@ == old(self).file_map()[relative_path@]@,
            r matches Err(e) ==> e is Rejected,
            *final(self) == *old(self),
    {
        match self.files.get(relative_path) {
            Some(v) => {
                let c = v.clone();
                assert(c@ =~= v@);
                Ok(c)
            },
            None => Err(rejected("maintenance target is missing")),
        }
    }

    fn write(&mut self, relative_path: &str, bytes: &[u8]) -> (r: Result<(), Error>)
        ensures
            old(self).spec_fail_writes() || (old(self).spec_fail_rollback_writes() && old(self).spec_writes()
                > 0) ==> (r matches Err(e) && e is Rejected && *final(self) == *old(self)),
            !(old(self).spec_fail_writes() || (old(self).spec_fail_rollback_writes() && old(self).spec_writes()
                > 0)) ==> {
                &&& r is Ok
                &&& final(self).file_map().dom() == old(self).file_map().dom().insert(
                    relative_path@,
                )
                &&& final(self).file_map().remove(relative_path@) == old(self).file_map().remove(
                    relative_path@,
                )
                &&& final(self).file_map()[relative_path@]@ == if old(self).spec_corrupt_next_write() {
                    corrupted(bytes@)
                } else {
                    bytes@
                }
                &&& !final(self).spec_corrupt_next_write()
                &&& final(self).spec_fail_writes() == old(self).spec_fail_writes()
                &&& final(self).spec_fail_rollback_writes() == old(self).spec_fail_rollback_writes()
                &&& final(self).spec_writes() == if old(self).spec_writes() < usize::MAX {
                    (old(self).spec_writes() + 1) as usize
                } else {
                    old(self).spec_writes()
                }
            },
    {
        if self.fail_writes {
            return Err(rejected("maintenance write failed"));
        }
        if self.fail_rollback_writes && self.writes > 0 {
            return Err(rejected("maintenance rollback write failed"));
        }
        let mut value: Vec<u8> = Vec::new();
        let n = bytes.len();
        for i in 0..n
            invariant
                n == bytes@.len(),
                value@ == bytes@.take(i as int),
        {
            value.push(bytes[i]);
            proof {
                assert(bytes@.take(i + 1) =~= bytes@.take(i as int).push(bytes@[i as int]));
            }
        }
        if self.corrupt_next_write {
            self.corrupt_next_write = false;
            if value.len() > 0 {
                let first = value[0];
                value.set(0, first ^ 1);
            } else {
                value.push(1);
            }
        }
        let ghost stored = value@;
        let ghost before = self.file_map();
        self.files.insert(relative_path.to_owned(), value);
        self.writes = self.writes.saturating_add(1);
        proof {
            assert(self.file_map() == before.insert(relative_path@, self.file_map()[relative_path@]));
            assert(self.file_map().dom() =~= before.dom().insert(relative_path@));
            assert(self.file_map().remove(relative_path@) =~= before.remove(relative_path@));
        }
        Ok(())
    }
}

// ------------------------------------------------------------ coordinator

/// Holds the fixed requirements and roles, and the acceptances already
/// spent, so that one acceptance never authorizes two changes.
#[derive(Clone, Debug)]
pub struct MaintenanceCoordinator {
    requirements: MaintenanceRequirements,
    evaluator_role: String,
    reviewer_role: String,
    consumed_acceptances: TextSet,
    frozen: bool,
}

/// The first refusal of the checks made before the executor is touched, or
/// `None` when all of them pass.
pub open spec fn gate(
    c: MaintenanceCoordinator,
    packet: MaintenancePacket,
    acceptance: Option<MaintenanceAcceptance>,
    now: u64,
) -> Option<MaintenanceReason> {
    if packet.proposal.expires_at <= now || packet.evaluation.expires_at <= now {
        Some(MaintenanceReason::ExpiredEvidence)
    } else if !same_requirements(packet.proposal.requirements, c.spec_requirements())
        || !same_requirements(packet.evaluation.requirements, c.spec_requirements())
        || packet.evaluation.evaluator_role@ != c.spec_evaluator() || (acceptance matches Some(a)
        && a.reviewer_role@ != c.spec_reviewer()) {
        Some(MaintenanceReason::MismatchedEvidence)
    } else if !packet.spec_valid(now) {
        Some(MaintenanceReason::InvalidEvidence)
    } else if acceptance is None {
        Some(MaintenanceReason::MissingAcceptance)
    } else if c.consumed().contains(acceptance->0.complete_packet_digest@) {
        Some(MaintenanceReason::ReplayedAcceptance)
    } else if acceptance->0.expires_at <= now {
        Some(MaintenanceReason::ExpiredEvidence)
    } else if !acceptance->0.spec_valid_for(packet, now) {
        Some(MaintenanceReason::MismatchedEvidence)
    } else {
        None
    }
}

/// What the executor answered during one `apply`: the first read of the
/// target, whether the write of the after bytes succeeded, the read that
/// followed that write, and whether the before bytes were written back and
/// read again intact.
#[derive(Clone, Debug)]
pub struct ApplyReplies {
    pub target: Option<Vec<u8>>,
    pub write_ok: bool,
    pub check: Option<Vec<u8>>,
    pub rolled_back: bool,
}

/// The target holds the proposal's before bytes, and they hash to its
/// before digest.
pub open spec fn target_matches(packet: MaintenancePacket, t: Seq<u8>) -> bool {
    t == packet.proposal.before_bytes@ && sha256_hex(t) == packet.proposal.before_digest@
}

/// What `apply` answers for the executor's replies `rp`: the status, the
/// reason, whether the acceptance is spent, and whether the coordinator
/// freezes.
pub open spec fn settle_result(
    c0: MaintenanceCoordinator,
    packet: MaintenancePacket,
    acceptance: Option<MaintenanceAcceptance>,
    now: u64,
    rp: ApplyReplies,
) -> (MaintenanceStatus, Option<MaintenanceReason>, bool, bool) {
    if c0.spec_frozen() {
        (MaintenanceStatus::Frozen, Some(MaintenanceReason::RollbackFailed), false, false)
    } else {
        match gate(c0, packet, acceptance, now) {
            Some(reason) => (MaintenanceStatus::Quarantined, Some(reason), false, false),
            None => match acceptance {
                None => (
                    MaintenanceStatus::Quarantined,
                    Some(MaintenanceReason::MissingAcceptance),
                    false,
                    false,
                ),
                Some(_) => match rp.target {
                    None => (
                        MaintenanceStatus::Quarantined,
                        Some(MaintenanceReason::MissingTarget),
                        false,
                        false,
                    ),
                    Some(t) => if !target_matches(packet, t@) {
                        (
                            MaintenanceStatus::Quarantined,
                            Some(MaintenanceReason::BeforeDigestMismatch),
                            false,
                            false,
                        )
                    } else if rp.write_ok && (rp.check matches Some(b) && b@
                        == packet.proposal.after_bytes@) {
                        (MaintenanceStatus::Applied, None, true, false)
                    } else if rp.rolled_back {
                        (
                            MaintenanceStatus::RolledBack,
                            Some(
                                if rp.write_ok {
                                    MaintenanceReason::PostcheckFailed
                                } else {
                                    MaintenanceReason::WriteFailed
                                },
                            ),
                            true,
                            false,
                        )
                    } else {
                        (MaintenanceStatus::Frozen, Some(MaintenanceReason::RollbackFailed), true, true)
                    },
                },
            },
        }
    }
}

/// `c1` and `o` are what settling `packet` on `c0` with replies `rp` gives.
pub open spec fn settles(
    c0: MaintenanceCoordinator,
    c1: MaintenanceCoordinator,
    packet: MaintenancePacket,
    acceptance: Option<MaintenanceAcceptance>,
    now: u64,
    rp: ApplyReplies,
    o: MaintenanceOutcome,
) -> bool {
    let res = settle_result(c0, packet, acceptance, now, rp);
    &&& o.state_slice@ == STATE_SLICE@
    &&& o.packet_digest@ == packet.spec_digest()
    &&& o.before_digest@ == packet.proposal.before_digest@
    &&& o.after_digest@ == packet.proposal.after_digest@
    &&& o.status == res.0
    &&& o.reason == res.1
    &&& c1.spec_requirements() == c0.spec_requirements()
    &&& c1.spec_evaluator() == c0.spec_evaluator()
    &&& c1.spec_reviewer() == c0.spec_reviewer()
    &&& c1.consumed() == if res.2 {
        c0.consumed().insert(acceptance->0.complete_packet_digest@)
    } else {
        c0.consumed()
    }
    &&& c1.spec_frozen() == (c0.spec_frozen() || res.3)
}

/// The executor is consulted only when the coordinator is not frozen, no
/// binding refuses the packet, and an acceptance is presented.
pub open spec fn reaches_executor(
    c0: MaintenanceCoordinator,
    packet: MaintenancePacket,
    acceptance: Option<MaintenanceAcceptance>,
    now: u64,
) -> bool {
    !c0.spec_frozen() && gate(c0, packet, acceptance, now) is None && acceptance is Some
}

/// Whether `current` holds the proposal's before bytes and hashes to its
/// before digest.
fn target_holds_before(packet: &MaintenancePacket, current: &[u8]) -> (r: bool)
    ensures
        r == target_matches(*packet, current@),
{
    let current_digest = digest_bytes(current);
    bytes_equal(current, packet.proposal.before_bytes.as_slice()) && text_eq(
        current_digest.as_str(),
        packet.proposal.before_digest.as_str(),
    )
}

/// Settling by some replies is one of the outcomes `maintained` allows.
proof fn lemma_settles_maintained(
    c0: MaintenanceCoordinator,
    c1: MaintenanceCoordinator,
    packet: MaintenancePacket,
    acceptance: Option<MaintenanceAcceptance>,
    now: u64,
    rp: ApplyReplies,
    o: MaintenanceOutcome,
)
    requires
        settles(c0, c1, packet, acceptance, now, rp, o),
    ensures
        maintained(c0, c1, packet, acceptance, now, o),
{
}

/// The acceptance presented, as a value.
pub open spec fn owned_acceptance(a: Option<&MaintenanceAcceptance>) -> Option<MaintenanceAcceptance> {
    match a {
        Some(x) => Some(*x),
        None => None,
    }
}

/// The first read in `rp` is what the executor held at the target.
pub open spec fn read_target(contents: Option<Seq<u8>>, rp: ApplyReplies) -> bool {
    match rp.target {
        Some(t) => contents == Some(t@),
        None => contents is None,
    }
}

/// What `apply` did: the outcome is bound to the packet; a frozen
/// coordinator refuses everything; a refused gate quarantines without
/// spending the acceptance; past the gates either the target is missing or
/// stale (quarantined, nothing spent), or the acceptance is spent and the
/// change is applied, rolled back, or left frozen.
pub open spec fn maintained(
    c0: MaintenanceCoordinator,
    c1: MaintenanceCoordinator,
    packet: MaintenancePacket,
    acceptance: Option<MaintenanceAcceptance>,
    now: u64,
    o: MaintenanceOutcome,
) -> bool {
    &&& o.state_slice@ == STATE_SLICE@
    &&& o.packet_digest@ == packet.spec_digest()
    &&& o.before_digest@ == packet.proposal.before_digest@
    &&& o.after_digest@ == packet.proposal.after_digest@
    &&& c1.spec_requirements() == c0.spec_requirements()
    &&& c1.spec_evaluator() == c0.spec_evaluator()
    &&& c1.spec_reviewer() == c0.spec_reviewer()
    &&& c0.consumed().subset_of(c1.consumed())
    &&& (c0.spec_frozen() ==> c1.spec_frozen())
    &&& if c0.spec_frozen() {
        &&& o.status == MaintenanceStatus::Frozen
        &&& o.reason == Some(MaintenanceReason::RollbackFailed)
        &&& c1.consumed() == c0.consumed()
    } else {
        match gate(c0, packet, acceptance, now) {
            Some(reason) => {
                &&& o.status == MaintenanceStatus::Quarantined
                &&& o.reason == Some(reason)
                &&& c1.consumed() == c0.consumed()
                &&& !c1.spec_frozen()
            },
            None => {
                ||| {
                    &&& o.status == MaintenanceStatus::Quarantined
                    &&& (o.reason == Some(MaintenanceReason::MissingTarget) || o.reason == Some(
                        MaintenanceReason::BeforeDigestMismatch,
                    ))
                    &&& c1.consumed() == c0.consumed()
                    &&& !c1.spec_frozen()
                }
                ||| {
                    &&& c1.consumed() == c0.consumed().insert(
                        acceptance->0.complete_packet_digest@,
                    )
                    &&& {
                        ||| (o.status == MaintenanceStatus::Applied && o.reason is None
                            && !c1.spec_frozen())
                        ||| (o.status == MaintenanceStatus::RolledBack && (o.reason == Some(
                            MaintenanceReason::WriteFailed,
                        ) || o.reason == Some(MaintenanceReason::PostcheckFailed))
                            && !c1.spec_frozen())
                        ||| (o.status == MaintenanceStatus::Frozen && o.reason == Some(
                            MaintenanceReason::RollbackFailed,
                        ) && c1.spec_frozen())
                    }
                }
            },
        }
    }
}

impl MaintenanceCoordinator {
    pub closed spec fn spec_requirements(&self) -> MaintenanceRequirements {
        self.requirements
    }

    pub closed spec fn spec_evaluator(&self) -> Seq<char> {
        self.evaluator_role@
    }

    pub closed spec fn spec_reviewer(&self) -> Seq<char> {
        self.reviewer_role@
    }

    /// The packet digests of the acceptances already spent.
    pub closed spec fn consumed(&self) -> Set<Seq<char>> {
        self.consumed_acceptances@.to_set()
    }

    pub closed spec fn spec_frozen(&self) -> bool {
        self.frozen
    }

    /// A coordinator for valid requirements and two distinct well-formed roles.
    pub fn new(requirements: MaintenanceRequirements, evaluator_role: &str, reviewer_role: &str) -> (r:
        Result<MaintenanceCoordinator, Error>)
        ensures
            r is Ok <==> requirements.spec_valid() && id_ok(evaluator_role@) && id_ok(
                reviewer_role@,
            ) && evaluator_role@ != reviewer_role@,
            r matches Err(e) ==> e is Invalid,
            r matches Ok(c) ==> {
                &&& c.spec_requirements() == requirements
                &&& c.spec_evaluator() == evaluator_role@
                &&& c.spec_reviewer() == reviewer_role@
                &&& c.consumed() == Set::<Seq<char>>::empty()
                &&& !c.spec_frozen()
            },
    {
        requirements.validate()?;
        if !valid_text(evaluator_role, MAX_PATH_BYTES) || !valid_text(reviewer_role, MAX_PATH_BYTES)
            || text_eq(evaluator_role, reviewer_role) {
            return Err(invalid("maintenance coordinator roles are invalid or collide"));
        }
        let c = MaintenanceCoordinator {
            requirements,
            evaluator_role: evaluator_role.to_owned(),
            reviewer_role: reviewer_role.to_owned(),
            consumed_acceptances: TextSet::new(),
            frozen: false,
        };
        proof {
            assert(c.consumed() =~= Set::<Seq<char>>::empty());
        }
        Ok(c)
    }

    /// Whether a rollback failed and the coordinator refuses all changes.
    pub fn is_frozen(&self) -> (r: bool)
        ensures
            r == self.spec_frozen(),
    {
        self.frozen
    }

    fn outcome(
        packet: &MaintenancePacket,
        packet_digest: &String,
        status: MaintenanceStatus,
        reason: Option<MaintenanceReason>,
    ) -> (r: MaintenanceOutcome)
        ensures
            r.state_slice@ == STATE_SLICE@,
            r.status == status,
            r.reason == reason,
            r.packet_digest@ == packet_digest@,
            r.before_digest@ == packet.proposal.before_digest@,
            r.after_digest@ == packet.proposal.after_digest@,
    {
        MaintenanceOutcome {
            state_slice: STATE_SLICE,
            status,
            reason,
            packet_digest: packet_digest.clone(),
            before_digest: packet.proposal.before_digest.clone(),
            after_digest: packet.proposal.after_digest.clone(),
        }
    }

    /// The checks made before the executor is touched.
    fn check_gate(
        &self,
        packet: &MaintenancePacket,
        acceptance: Option<&MaintenanceAcceptance>,
        now: u64,
    ) -> (r: Option<MaintenanceReason>)
        ensures
            r == gate(
                *self,
                *packet,
                match acceptance {
                    Some(a) => Some(*a),
                    None => None,
                },
                now,
            ),
    {
        if packet.proposal.expires_at <= now || packet.evaluation.expires_at <= now {
            return Some(MaintenanceReason::ExpiredEvidence);
        }
        let reviewer_mismatch = match acceptance {
            Some(a) => !text_eq(a.reviewer_role.as_str(), self.reviewer_role.as_str()),
            None => false,
        };
        if !requirements_match(&packet.proposal.requirements, &self.requirements)
            || !requirements_match(&packet.evaluation.requirements, &self.requirements) || !text_eq(
            packet.evaluation.evaluator_role.as_str(),
            self.evaluator_role.as_str(),
        ) || reviewer_mismatch {
            return Some(MaintenanceReason::MismatchedEvidence);
        }
        if packet.validate(now).is_err() {
            return Some(MaintenanceReason::InvalidEvidence);
        }
        let a = match acceptance {
            Some(a) => a,
            None => {
                return Some(MaintenanceReason::MissingAcceptance);
            },
        };
        if self.consumed_acceptances.contains(a.complete_packet_digest.as_str()) {
            return Some(MaintenanceReason::ReplayedAcceptance);
        }
        if a.expires_at <= now {
            return Some(MaintenanceReason::ExpiredEvidence);
        }
        if a.validate_for(packet, now).is_err() {
            return Some(MaintenanceReason::MismatchedEvidence);
        }
        None
    }

    /// Writes the before bytes back and reads them again; answers `true`
    /// only when the read gives the before bytes.
    fn roll_back<E: MaintenanceExecutor>(executor: &mut E, packet: &MaintenancePacket) -> (r: bool)
        ensures
            r ==> final(executor).spec_contents(packet.proposal.relative_path@) == Some(
                packet.proposal.before_bytes@,
            ),
    {
        if executor.write(packet.proposal.relative_path.as_str(), packet.proposal.before_bytes.as_slice()).is_err() {
            return false;
        }
        match executor.read(packet.proposal.relative_path.as_str()) {
            Ok(bytes) => bytes_equal(bytes.as_slice(), packet.proposal.before_bytes.as_slice()),
            Err(_) => false,
        }
    }

    /// Settles `packet` from the executor's replies: refuses when frozen or
    /// when a binding fails, then looks at the target read, spends the acceptance once the
    /// target holds the before bytes, and reports `Applied` when the after
    /// bytes were written and read back, `RolledBack` when they were not but
    /// the before bytes were restored, and freezes otherwise.
    pub fn settle(
        &mut self,
        packet: &MaintenancePacket,
        acceptance: Option<&MaintenanceAcceptance>,
        now: u64,
        replies: &ApplyReplies,
    ) -> (o: MaintenanceOutcome)
        ensures
            settles(
                *old(self),
                *final(self),
                *packet,
                match acceptance {
                    Some(a) => Some(*a),
                    None => None,
                },
                now,
                *replies,
                o,
            ),
    {
        let packet_digest = packet.digest();
        if self.frozen {
            return Self::outcome(
                packet,
                &packet_digest,
                MaintenanceStatus::Frozen,
                Some(MaintenanceReason::RollbackFailed),
            );
        }
        match self.check_gate(packet, acceptance, now) {
            Some(reason) => {
                return Self::outcome(packet, &packet_digest, MaintenanceStatus::Quarantined, Some(reason));
            },
            None => {},
        }
        let a = match acceptance {
            Some(a) => a,
            None => {
                return Self::outcome(
                    packet,
                    &packet_digest,
                    MaintenanceStatus::Quarantined,
                    Some(MaintenanceReason::MissingAcceptance),
                );
            },
        };
        let current = match &replies.target {
            Some(t) => t,
            None => {
                return Self::outcome(
                    packet,
                    &packet_digest,
                    MaintenanceStatus::Quarantined,
                    Some(MaintenanceReason::MissingTarget),
                );
            },
        };
        if !target_holds_before(packet, current.as_slice()) {
            return Self::outcome(
                packet,
                &packet_digest,
                MaintenanceStatus::Quarantined,
                Some(MaintenanceReason::BeforeDigestMismatch),
            );
        }
        let mut consumed = TextSet::new();
        std::mem::swap(&mut consumed, &mut self.consumed_acceptances);
        consumed.insert(a.complete_packet_digest.clone());
        self.consumed_acceptances = consumed;
        let checked = replies.write_ok && match &replies.check {
            Some(b) => bytes_equal(b.as_slice(), packet.proposal.after_bytes.as_slice()),
            None => false,
        };
        if checked {
            return Self::outcome(packet, &packet_digest, MaintenanceStatus::Applied, None);
        }
        if replies.rolled_back {
            let reason = if replies.write_ok {
                MaintenanceReason::PostcheckFailed
            } else {
                MaintenanceReason::WriteFailed
            };
            return Self::outcome(packet, &packet_digest, MaintenanceStatus::RolledBack, Some(reason));
        }
        self.frozen = true;
        Self::outcome(
            packet,
            &packet_digest,
            MaintenanceStatus::Frozen,
            Some(MaintenanceReason::RollbackFailed),
        )
    }

    /// Checks every binding before it touches the executor, then reads the
    /// target, writes the after bytes only when the target holds the before
    /// bytes, reads them back, and writes the before bytes back when that
    /// write or read-back fails; the outcome is what `settle` gives for the
    /// executor's replies.
    #[verifier::rlimit(60)]
    pub fn apply<E: MaintenanceExecutor>(
        &mut self,
        packet: &MaintenancePacket,
        acceptance: Option<&MaintenanceAcceptance>,
        executor: &mut E,
        now: u64,
    ) -> (r: Result<MaintenanceOutcome, Error>)
        ensures
            r matches Ok(o) && maintained(
                *old(self),
                *final(self),
                *packet,
                match acceptance {
                    Some(a) => Some(*a),
                    None => None,
                },
                now,
                o,
            ),
            r matches Ok(o) && exists|rp: ApplyReplies|
                #[trigger] settles(
                    *old(self),
                    *final(self),
                    *packet,
                    owned_acceptance(acceptance),
                    now,
                    rp,
                    o,
                ) && (reaches_executor(*old(self), *packet, owned_acceptance(acceptance), now)
                    ==> read_target(old(executor).spec_contents(packet.proposal.relative_path@), rp)),
            !reaches_executor(
                *old(self),
                *packet,
                match acceptance {
                    Some(a) => Some(*a),
                    None => None,
                },
                now,
            ) ==> *final(executor) == *old(executor),
            r matches Ok(o) && o.status == MaintenanceStatus::Quarantined ==> final(executor).spec_contents(packet.proposal.relative_path@) == old(executor).spec_contents(
                packet.proposal.relative_path@,
            ),
            r matches Ok(o) && o.status == MaintenanceStatus::Applied ==> final(executor).spec_contents(packet.proposal.relative_path@) == Some(
                packet.proposal.after_bytes@,
            ),
            r matches Ok(o) && o.status == MaintenanceStatus::RolledBack ==> final(executor).spec_contents(packet.proposal.relative_path@) == Some(
                packet.proposal.before_bytes@,
            ),
    {
        let ghost c0 = *self;
        let path = packet.proposal.relative_path.as_str();
        let mut replies = ApplyReplies { target: None, write_ok: false, check: None, rolled_back: false };
        if !self.frozen && self.check_gate(packet, acceptance, now).is_none() && acceptance.is_some() {
            let target = match executor.read(path) {
                Ok(bytes) => Some(bytes),
                Err(_) => None,
            };
            let holds_before = match &target {
                Some(t) => target_holds_before(packet, t.as_slice()),
                None => false,
            };
            replies.target = target;
            if holds_before {
                replies.write_ok = executor.write(path, packet.proposal.after_bytes.as_slice()).is_ok();
                if replies.write_ok {
                    replies.check = match executor.read(path) {
                        Ok(bytes) => Some(bytes),
                        Err(_) => None,
                    };
                }
                let checked = replies.write_ok && match &replies.check {
                    Some(b) => bytes_equal(b.as_slice(), packet.proposal.after_bytes.as_slice()),
                    None => false,
                };
                if !checked {
                    replies.rolled_back = Self::roll_back(executor, packet);
                }
            }
        }
        let o = self.settle(packet, acceptance, now, &replies);
        proof {
            lemma_settles_maintained(c0, *self, *packet, owned_acceptance(acceptance), now, replies, o);
        }
        Ok(o)
    }
}

/// An acceptance authorizes at most one change: once a packet was applied
/// with it, any later packet presented with the same acceptance digest is
/// not applied.
pub proof fn lemma_acceptance_is_single_use(
    c0: MaintenanceCoordinator,
    c1: MaintenanceCoordinator,
    c2: MaintenanceCoordinator,
    first: MaintenancePacket,
    accepted: MaintenanceAcceptance,
    n1: u64,
    o1: MaintenanceOutcome,
    second: MaintenancePacket,
    again: MaintenanceAcceptance,
    n2: u64,
    o2: MaintenanceOutcome,
)
    requires
        maintained(c0, c1, first, Some(accepted), n1, o1),
        o1.status == MaintenanceStatus::Applied,
        maintained(c1, c2, second, Some(again), n2, o2),
        again.complete_packet_digest@ == accepted.complete_packet_digest@,
    ensures
        o2.status != MaintenanceStatus::Applied,
        c2.consumed() == c1.consumed(),
{
}

/// A frozen coordinator stays frozen, spends nothing and applies nothing.
pub proof fn lemma_frozen_coordinator_applies_nothing(
    c0: MaintenanceCoordinator,
    c1: MaintenanceCoordinator,
    packet: MaintenancePacket,
    acceptance: Option<MaintenanceAcceptance>,
    now: u64,
    o: MaintenanceOutcome,
)
    requires
        c0.spec_frozen(),
        maintained(c0, c1, packet, acceptance, now, o),
    ensures
        c1.spec_frozen(),
        c1.consumed() == c0.consumed(),
        o.status == MaintenanceStatus::Frozen,
{
}

} // verus!
