//! The fixed maintenance operation run as a bounded process: strip ASCII
//! spaces before each Markdown line ending, and nothing else.
//!
//! What is here is the process's logic: the operation itself, the request
//! check, the evaluator's independent re-evaluation and its signed receipt,
//! the receipt's binding to the request and configuration, and the recovery
//! rule for an interrupted write. Files, locks, the clock and the evaluator
//! process stay outside.
use crate::canon::{
    join, json_bool, json_list, json_nat, json_text, lemma_join_push, lit, push_bool, push_lit, push_nat, push_text,
};
use crate::digest::{digest_bytes, sha256_hex};
use crate::error::{error_text, invalid, rejected, Error};
use crate::hex::{decode_hex, hex_bytes, hex_encode, hex_text, is_hex_of_len, key_array};
use crate::maintenance::{byte_list, bytes_equal, push_byte_list};
use crate::order::{compare_text, lemma_text_lt_irreflexive, lemma_text_lt_transitive, text_eq, text_lt};
use crate::receipts::{ed25519_accepts, ed25519_sign, ed25519_signature, ed25519_verify};
use crate::records::STATE_SLICE;
use crate::text::{is_digest, text_chars, text_ok, valid_digest, valid_text};
use vstd::prelude::*;

verus! {

pub const PROCESS_VERSION: u8 = 1;

pub const MAX_ID_BYTES: usize = 128;

pub const MAX_PATCH_BYTES: usize = 1048576;

pub const MAX_EVALUATOR_OUTPUT_BYTES: usize = 32768;

pub const MAX_JOB_BYTES: usize = 9437184;

pub const MAX_TIMEOUT_MS: u64 = 60000;

pub const EVALUATOR_ROLE: &'static str = "fixed-maintenance-evaluator-v1";

pub const FIXED_INPUT_IDENTITY: &'static str = "normalize-trailing-ascii-spaces-v1";

pub const FIXED_POLICY_IDENTITY: &'static str =
    "root-level-markdown-single-file-no-arbitrary-code-v1";

/// The evaluator's fixed test ids.
pub const FIXED_TEST_IDS: [&'static str; 6] = [
    "exact-transformation",
    "deterministic-repeat",
    "request-byte-digests",
    "request-live-lease",
    "root-markdown-path",
    "frozen-requirements",
];

/// The fixed test ids, one per line: the text whose digest names the test
/// roster.
pub const FIXED_TEST_ROSTER: &'static str =
    "exact-transformation\ndeterministic-repeat\nrequest-byte-digests\nrequest-live-lease\nroot-markdown-path\nfrozen-requirements";

/// The digest of the fixed operation's identity.
pub fn fixed_input_digest() -> (r: String)
    ensures
        r@ == sha256_hex(lit(FIXED_INPUT_IDENTITY)),
        is_digest(r@),
{
    let mut out: Vec<u8> = Vec::new();
    push_lit(&mut out, FIXED_INPUT_IDENTITY);
    digest_bytes(out.as_slice())
}

/// The digest of the fixed test roster.
pub fn fixed_tests_digest() -> (r: String)
    ensures
        r@ == sha256_hex(lit(FIXED_TEST_ROSTER)),
        is_digest(r@),
{
    let mut out: Vec<u8> = Vec::new();
    push_lit(&mut out, FIXED_TEST_ROSTER);
    digest_bytes(out.as_slice())
}

/// The digest of the fixed policy's identity.
pub fn fixed_policy_digest() -> (r: String)
    ensures
        r@ == sha256_hex(lit(FIXED_POLICY_IDENTITY)),
        is_digest(r@),
{
    let mut out: Vec<u8> = Vec::new();
    push_lit(&mut out, FIXED_POLICY_IDENTITY);
    digest_bytes(out.as_slice())
}

// ------------------------------------------------------------ the operation

/// The space at `p` is part of a run of spaces that reaches a line ending:
/// a `\n`, a `\r\n`, or the end of the bytes.
pub open spec fn trailing_space(s: Seq<u8>, p: int) -> bool
    decreases s.len() - p,
{
    if p < 0 || p >= s.len() || s[p] != 32u8 {
        false
    } else if p + 1 == s.len() || s[p + 1] == 10u8 || (s[p + 1] == 13u8 && p + 2 < s.len() && s[p
        + 2] == 10u8) {
        true
    } else {
        trailing_space(s, p + 1)
    }
}

/// The bytes kept among the first `n`.
pub open spec fn normalized_prefix(s: Seq<u8>, n: int) -> Seq<u8>
    decreases n,
{
    if n <= 0 {
        Seq::empty()
    } else if trailing_space(s, n - 1) {
        normalized_prefix(s, n - 1)
    } else {
        normalized_prefix(s, n - 1).push(s[n - 1])
    }
}

/// The bytes with every trailing space of every line removed; line endings,
/// `\r` included, are kept.
pub open spec fn normalized(s: Seq<u8>) -> Seq<u8> {
    normalized_prefix(s, s.len() as int)
}

/// Applies the sole permitted transformation.
pub fn normalize_trailing_ascii_spaces(bytes: &[u8]) -> (r: Vec<u8>)
    ensures
        r@ == normalized(bytes@),
{
    let n = bytes.len();
    // drop[p]: the byte at p is a trailing space, computed from the end.
    let mut drop: Vec<bool> = Vec::new();
    let mut k: usize = 0;
    while k < n
        invariant
            k <= n,
            n == bytes@.len(),
            drop@.len() == k,
            forall|j: int|
                0 <= j < k ==> #[trigger] drop@[j] == trailing_space(bytes@, n - 1 - j),
        decreases n - k,
    {
        let p = n - 1 - k;
        let b = bytes[p];
        let t = if b != 32 {
            false
        } else if p + 1 == n || bytes[p + 1] == 10 || (bytes[p + 1] == 13 && p + 2 < n && bytes[p
            + 2] == 10) {
            true
        } else {
            drop[k - 1]
        };
        drop.push(t);
        k = k + 1;
    }
    let mut out: Vec<u8> = Vec::new();
    for i in 0..n
        invariant
            n == bytes@.len(),
            drop@.len() == n,
            forall|j: int|
                0 <= j < n ==> #[trigger] drop@[j] == trailing_space(bytes@, n - 1 - j),
            out@ == normalized_prefix(bytes@, i as int),
    {
        assert(drop@[(n - 1 - i) as int] == trailing_space(bytes@, i as int));
        if !drop[n - 1 - i] {
            out.push(bytes[i]);
        }
    }
    out
}

// ------------------------------------------------------------ requests

/// The proposer's request. The evaluator, key, checkout and seed come from
/// the operator's configuration, never from here.
#[derive(Clone, Debug, PartialEq, Eq)]
pub struct Request {
    pub request_id: String,
    pub relative_path: String,
    pub before_bytes: Vec<u8>,
    pub before_digest: String,
    pub after_bytes: Vec<u8>,
    pub after_digest: String,
    /// Digest of every regular file in the trusted checkout at proposal time.
    pub checkout_baseline_digest: String,
    pub lease_expires_at: u64,
    pub nonce: u64,
}

/// One Markdown file at the root of the checkout: a single plain path
/// component ending in `.md`, with no separator or drive character.
pub open spec fn root_markdown_path(s: Seq<char>) -> bool {
    &&& !s.contains('/')
    &&& !s.contains('\\')
    &&& !s.contains(':')
    &&& s.len() >= 3
    &&& s[s.len() - 3] == '.'
    &&& s[s.len() - 2] == 'm'
    &&& s[s.len() - 1] == 'd'
}

/// Whether `value` names one root-level Markdown file.
pub fn is_root_markdown_path(value: &str) -> (r: bool)
    ensures
        r == root_markdown_path(value@),
{
    let chars = text_chars(value);
    let n = chars.len();
    for i in 0..n
        invariant
            chars@ == value@,
            n == chars@.len(),
            forall|k: int|
                0 <= k < i ==> #[trigger] value@[k] != '/' && value@[k] != '\\' && value@[k]
                    != ':',
    {
        let c = chars[i];
        if c == '/' || c == '\\' || c == ':' {
            proof {
                assert(value@[i as int] == c);
            }
            return false;
        }
    }
    n >= 3 && chars[n - 3] == '.' && chars[n - 2] == 'm' && chars[n - 1] == 'd'
}

impl Request {
    pub open spec fn spec_valid(&self, now: u64) -> bool {
        &&& text_ok(self.request_id@, MAX_ID_BYTES as nat)
        &&& self.nonce != 0
        &&& now < self.lease_expires_at
        &&& self.before_bytes@.len() <= MAX_PATCH_BYTES
        &&& self.after_bytes@.len() <= MAX_PATCH_BYTES
        &&& is_digest(self.before_digest@)
        &&& is_digest(self.after_digest@)
        &&& is_digest(self.checkout_baseline_digest@)
        &&& self.before_bytes@ != self.after_bytes@
        &&& self.before_digest@ == sha256_hex(self.before_bytes@)
        &&& self.after_digest@ == sha256_hex(self.after_bytes@)
        &&& root_markdown_path(self.relative_path@)
    }

    /// The canonical encoding, fields in declaration order.
    pub open spec fn bytes(&self) -> Seq<u8> {
        lit("{\"request_id\":") + json_text(self.request_id@) + lit(",\"relative_path\":")
            + json_text(self.relative_path@) + lit(",\"before_bytes\":") + byte_list(
            self.before_bytes@,
        ) + lit(",\"before_digest\":") + json_text(self.before_digest@) + lit(
            ",\"after_bytes\":",
        ) + byte_list(self.after_bytes@) + lit(",\"after_digest\":") + json_text(
            self.after_digest@,
        ) + lit(",\"checkout_baseline_digest\":") + json_text(self.checkout_baseline_digest@)
            + lit(",\"lease_expires_at\":") + json_nat(self.lease_expires_at as nat) + lit(
            ",\"nonce\":",
        ) + json_nat(self.nonce as nat) + lit("}")
    }

    pub open spec fn spec_digest(&self) -> Seq<char> {
        sha256_hex(self.bytes())
    }

    #[verifier::spinoff_prover]
    pub fn push_canonical(&self, out: &mut Vec<u8>)
        ensures
            final(out)@ == old(out)@ + self.bytes(),
    {
        let ghost start = out@;
        push_lit(out, "{\"request_id\":");
        push_text(out, self.request_id.as_str());
        push_lit(out, ",\"relative_path\":");
        push_text(out, self.relative_path.as_str());
        push_lit(out, ",\"before_bytes\":");
        push_byte_list(out, &self.before_bytes);
        push_lit(out, ",\"before_digest\":");
        push_text(out, self.before_digest.as_str());
        push_lit(out, ",\"after_bytes\":");
        push_byte_list(out, &self.after_bytes);
        push_lit(out, ",\"after_digest\":");
        push_text(out, self.after_digest.as_str());
        push_lit(out, ",\"checkout_baseline_digest\":");
        push_text(out, self.checkout_baseline_digest.as_str());
        push_lit(out, ",\"lease_expires_at\":");
        push_nat(out, self.lease_expires_at);
        push_lit(out, ",\"nonce\":");
        push_nat(out, self.nonce);
        push_lit(out, "}");
        assert(out@ =~= start + self.bytes());
    }

    /// The request digest.
    pub fn digest(&self) -> (r: String)
        ensures
            r@ == self.spec_digest(),
            is_digest(r@),
    {
        let mut out: Vec<u8> = Vec::new();
        self.push_canonical(&mut out);
        assert(out@ =~= self.bytes());
        digest_bytes(out.as_slice())
    }
}

/// Why a request is refused at `now`: its target path when everything else
/// holds, its bytes, digests or lease otherwise.
pub open spec fn request_refusal(request: Request, now: u64) -> Seq<char> {
    let r = request;
    if text_ok(r.request_id@, MAX_ID_BYTES as nat) && r.nonce != 0 && now < r.lease_expires_at
        && r.before_bytes@.len() <= MAX_PATCH_BYTES && r.after_bytes@.len() <= MAX_PATCH_BYTES
        && is_digest(r.before_digest@) && is_digest(r.after_digest@) && is_digest(
        r.checkout_baseline_digest@,
    ) && r.before_bytes@ != r.after_bytes@ && r.before_digest@ == sha256_hex(r.before_bytes@)
        && r.after_digest@ == sha256_hex(r.after_bytes@) {
        "target must be one root-level Markdown file"@
    } else {
        "maintenance request bytes or lease are invalid"@
    }
}

/// Checks the request's id, nonce, lease, byte bounds, digests and target
/// path at `now`.
pub fn validate_request(request: &Request, now: u64) -> (r: Result<(), Error>)
    ensures
        r is Ok <==> request.spec_valid(now),
        r matches Err(e) ==> e matches Error::Rejected(m) && m@ == request_refusal(*request, now),
{
    if !valid_text(request.request_id.as_str(), MAX_ID_BYTES) || request.nonce == 0
        || request.lease_expires_at <= now || request.before_bytes.len() > MAX_PATCH_BYTES
        || request.after_bytes.len() > MAX_PATCH_BYTES || !valid_digest(
        request.before_digest.as_str(),
    ) || !valid_digest(request.after_digest.as_str()) || !valid_digest(
        request.checkout_baseline_digest.as_str(),
    ) || bytes_equal(request.before_bytes.as_slice(), request.after_bytes.as_slice()) {
        return Err(rejected("maintenance request bytes or lease are invalid"));
    }
    let before = digest_bytes(request.before_bytes.as_slice());
    let after = digest_bytes(request.after_bytes.as_slice());
    if !text_eq(request.before_digest.as_str(), before.as_str()) || !text_eq(
        request.after_digest.as_str(),
        after.as_str(),
    ) {
        return Err(rejected("maintenance request bytes or lease are invalid"));
    }
    if !is_root_markdown_path(request.relative_path.as_str()) {
        return Err(rejected("target must be one root-level Markdown file"));
    }
    Ok(())
}


// ------------------------------------------------------------ configuration

/// The operator's configuration. Paths are absolute text; the files they
/// name are checked by the process that reads them.
#[derive(Clone, Debug, PartialEq, Eq)]
pub struct Config {
    pub evaluator_path: String,
    pub evaluator_seed_path: String,
    pub evaluator_executable_digest: String,
    /// Lowercase hexadecimal Ed25519 public key.
    pub evaluator_public_key: String,
    pub evaluator_input_digest: String,
    pub evaluator_tests_digest: String,
    pub policy_digest: String,
    pub checkout_root: String,
    pub state_dir: String,
    pub cancellation_file: String,
    pub evaluator_timeout_ms: u64,
}

pub open spec fn absolute(s: Seq<char>) -> bool {
    s.len() > 0 && s[0] == '/'
}

fn is_absolute(s: &str) -> (r: bool)
    ensures
        r == absolute(s@),
{
    let chars = text_chars(s);
    chars.len() > 0 && chars[0] == '/'
}

impl Config {
    /// The configuration is frozen to the fixed operation and bounded:
    /// absolute paths, digests in form, the fixed input, tests and policy,
    /// and a timeout of at most a minute.
    pub open spec fn spec_bounded(&self) -> bool {
        &&& absolute(self.evaluator_path@)
        &&& absolute(self.evaluator_seed_path@)
        &&& absolute(self.checkout_root@)
        &&& absolute(self.state_dir@)
        &&& absolute(self.cancellation_file@)
        &&& is_digest(self.evaluator_executable_digest@)
        &&& is_digest(self.evaluator_public_key@)
        &&& self.evaluator_input_digest@ == sha256_hex(lit(FIXED_INPUT_IDENTITY))
        &&& self.evaluator_tests_digest@ == sha256_hex(lit(FIXED_TEST_ROSTER))
        &&& self.policy_digest@ == sha256_hex(lit(FIXED_POLICY_IDENTITY))
        &&& 0 < self.evaluator_timeout_ms <= MAX_TIMEOUT_MS
    }

    /// Checks what the configuration says of itself; the files it names are
    /// checked where they are read.
    pub fn validate_bounds(&self) -> (r: Result<(), Error>)
        ensures
            r is Ok <==> self.spec_bounded(),
            r matches Err(e) ==> e matches Error::Rejected(m) && m@
                == "maintenance configuration is not frozen and bounded"@,
    {
        let input = fixed_input_digest();
        let tests = fixed_tests_digest();
        let policy = fixed_policy_digest();
        if !is_absolute(self.evaluator_path.as_str()) || !is_absolute(
            self.evaluator_seed_path.as_str(),
        ) || !is_absolute(self.checkout_root.as_str()) || !is_absolute(self.state_dir.as_str())
            || !is_absolute(self.cancellation_file.as_str()) || !valid_digest(
            self.evaluator_executable_digest.as_str(),
        ) || !valid_digest(self.evaluator_public_key.as_str()) || !text_eq(
            self.evaluator_input_digest.as_str(),
            input.as_str(),
        ) || !text_eq(self.evaluator_tests_digest.as_str(), tests.as_str()) || !text_eq(
            self.policy_digest.as_str(),
            policy.as_str(),
        ) || self.evaluator_timeout_ms == 0 || self.evaluator_timeout_ms > MAX_TIMEOUT_MS {
            return Err(rejected("maintenance configuration is not frozen and bounded"));
        }
        Ok(())
    }

    pub open spec fn bytes(&self) -> Seq<u8> {
        lit("{\"evaluator_path\":") + json_text(self.evaluator_path@) + lit(
            ",\"evaluator_seed_path\":",
        ) + json_text(self.evaluator_seed_path@) + lit(",\"evaluator_executable_digest\":")
            + json_text(self.evaluator_executable_digest@) + lit(",\"evaluator_public_key\":")
            + json_text(self.evaluator_public_key@) + lit(",\"evaluator_input_digest\":")
            + json_text(self.evaluator_input_digest@) + lit(",\"evaluator_tests_digest\":")
            + json_text(self.evaluator_tests_digest@) + lit(",\"policy_digest\":") + json_text(
            self.policy_digest@,
        ) + lit(",\"checkout_root\":") + json_text(self.checkout_root@) + lit(",\"state_dir\":")
            + json_text(self.state_dir@) + lit(",\"cancellation_file\":") + json_text(
            self.cancellation_file@,
        ) + lit(",\"evaluator_timeout_ms\":") + json_nat(self.evaluator_timeout_ms as nat) + lit(
            "}",
        )
    }

    /// The digest the durable state is bound to.
    #[verifier::spinoff_prover]
    pub fn digest(&self) -> (r: String)
        ensures
            r@ == sha256_hex(self.bytes()),
            is_digest(r@),
    {
        let mut out: Vec<u8> = Vec::new();
        push_lit(&mut out, "{\"evaluator_path\":");
        push_text(&mut out, self.evaluator_path.as_str());
        push_lit(&mut out, ",\"evaluator_seed_path\":");
        push_text(&mut out, self.evaluator_seed_path.as_str());
        push_lit(&mut out, ",\"evaluator_executable_digest\":");
        push_text(&mut out, self.evaluator_executable_digest.as_str());
        push_lit(&mut out, ",\"evaluator_public_key\":");
        push_text(&mut out, self.evaluator_public_key.as_str());
        push_lit(&mut out, ",\"evaluator_input_digest\":");
        push_text(&mut out, self.evaluator_input_digest.as_str());
        push_lit(&mut out, ",\"evaluator_tests_digest\":");
        push_text(&mut out, self.evaluator_tests_digest.as_str());
        push_lit(&mut out, ",\"policy_digest\":");
        push_text(&mut out, self.policy_digest.as_str());
        push_lit(&mut out, ",\"checkout_root\":");
        push_text(&mut out, self.checkout_root.as_str());
        push_lit(&mut out, ",\"state_dir\":");
        push_text(&mut out, self.state_dir.as_str());
        push_lit(&mut out, ",\"cancellation_file\":");
        push_text(&mut out, self.cancellation_file.as_str());
        push_lit(&mut out, ",\"evaluator_timeout_ms\":");
        push_nat(&mut out, self.evaluator_timeout_ms);
        push_lit(&mut out, "}");
        assert(out@ =~= self.bytes());
        digest_bytes(out.as_slice())
    }
}

// ------------------------------------------------------------ receipts

/// The evaluator's signed result. The signature covers every field but
/// itself, in canonical form.
#[derive(Clone, Debug, PartialEq, Eq)]
pub struct Receipt {
    pub state_slice: String,
    pub request_digest: String,
    pub nonce: u64,
    pub before_digest: String,
    pub after_digest: String,
    pub checkout_baseline_digest: String,
    pub evaluator_executable_digest: String,
    pub evaluator_input_digest: String,
    pub evaluator_tests_digest: String,
    pub policy_digest: String,
    pub evaluated_at: u64,
    pub accepted: bool,
    pub signature: String,
}

/// The signature text verifies over `message` under the public key text:
/// both are hex of the right length and the key accepts the signature.
pub open spec fn hex_signature_verifies(key: Seq<char>, signature: Seq<char>, message: Seq<u8>) -> bool {
    &&& is_hex_of_len(key, 32)
    &&& is_hex_of_len(signature, 64)
    &&& ed25519_accepts(hex_bytes(key), message, hex_bytes(signature))
}

/// Verifies a hex signature over `message` with a hex public key.
pub(crate) fn verify_hex_signature(key: &str, signature: &str, message: &[u8]) -> (r: bool)
    ensures
        r == hex_signature_verifies(key@, signature@, message@),
{
    let key_bytes = match decode_hex(key, 32) {
        Some(b) => b,
        None => {
            return false;
        },
    };
    let signature_bytes = match decode_hex(signature, 64) {
        Some(b) => b,
        None => {
            return false;
        },
    };
    let key_array = key_array(&key_bytes);
    ed25519_verify(&key_array, message, signature_bytes.as_slice())
}

impl Receipt {
    pub open spec fn fields_part0(&self) -> Seq<u8> {
        lit("{\"state_slice\":") + json_text(self.state_slice@) + lit(",\"request_digest\":")
            + json_text(self.request_digest@) + lit(",\"nonce\":") + json_nat(self.nonce as nat)
            + lit(",\"before_digest\":") + json_text(self.before_digest@) + lit(
            ",\"after_digest\":",
        ) + json_text(self.after_digest@) + lit(",\"checkout_baseline_digest\":") + json_text(
            self.checkout_baseline_digest@,
        )
    }

    pub open spec fn fields_part1(&self) -> Seq<u8> {
        lit(",\"evaluator_executable_digest\":") + json_text(self.evaluator_executable_digest@)
            + lit(",\"evaluator_input_digest\":") + json_text(self.evaluator_input_digest@) + lit(
            ",\"evaluator_tests_digest\":",
        ) + json_text(self.evaluator_tests_digest@) + lit(",\"policy_digest\":") + json_text(
            self.policy_digest@,
        ) + lit(",\"evaluated_at\":") + json_nat(self.evaluated_at as nat) + lit(",\"accepted\":")
            + json_bool(self.accepted)
    }

    /// The signed bytes: every field but the signature.
    pub open spec fn spec_unsigned_bytes(&self) -> Seq<u8> {
        self.fields_part0() + self.fields_part1() + lit("}")
    }

    /// The whole receipt, signature included.
    pub open spec fn bytes(&self) -> Seq<u8> {
        self.fields_part0() + self.fields_part1() + lit(",\"signature\":") + json_text(
            self.signature@,
        ) + lit("}")
    }

    pub open spec fn spec_digest(&self) -> Seq<char> {
        sha256_hex(self.bytes())
    }

    /// The receipt's signature verifies under the evaluator key text.
    pub open spec fn spec_verifies(&self, public_key_hex: Seq<char>) -> bool {
        hex_signature_verifies(public_key_hex, self.signature@, self.spec_unsigned_bytes())
    }

    #[verifier::spinoff_prover]
    fn push_part0(&self, out: &mut Vec<u8>)
        ensures
            final(out)@ == old(out)@ + self.fields_part0(),
    {
        let ghost start = out@;
        push_lit(out, "{\"state_slice\":");
        push_text(out, self.state_slice.as_str());
        push_lit(out, ",\"request_digest\":");
        push_text(out, self.request_digest.as_str());
        push_lit(out, ",\"nonce\":");
        push_nat(out, self.nonce);
        push_lit(out, ",\"before_digest\":");
        push_text(out, self.before_digest.as_str());
        push_lit(out, ",\"after_digest\":");
        push_text(out, self.after_digest.as_str());
        push_lit(out, ",\"checkout_baseline_digest\":");
        push_text(out, self.checkout_baseline_digest.as_str());
        assert(out@ =~= start + self.fields_part0());
    }

    #[verifier::spinoff_prover]
    fn push_part1(&self, out: &mut Vec<u8>)
        ensures
            final(out)@ == old(out)@ + self.fields_part1(),
    {
        let ghost mid = out@;
        push_lit(out, ",\"evaluator_executable_digest\":");
        push_text(out, self.evaluator_executable_digest.as_str());
        push_lit(out, ",\"evaluator_input_digest\":");
        push_text(out, self.evaluator_input_digest.as_str());
        push_lit(out, ",\"evaluator_tests_digest\":");
        push_text(out, self.evaluator_tests_digest.as_str());
        push_lit(out, ",\"policy_digest\":");
        push_text(out, self.policy_digest.as_str());
        push_lit(out, ",\"evaluated_at\":");
        push_nat(out, self.evaluated_at);
        push_lit(out, ",\"accepted\":");
        push_bool(out, self.accepted);
        assert(out@ =~= mid + self.fields_part1());
    }

    fn push_fields(&self, out: &mut Vec<u8>)
        ensures
            final(out)@ == old(out)@ + self.fields_part0() + self.fields_part1(),
    {
        let ghost start = out@;
        self.push_part0(out);
        self.push_part1(out);
        assert(out@ =~= start + self.fields_part0() + self.fields_part1());
    }

    /// The bytes the signature covers.
    pub fn unsigned_bytes(&self) -> (r: Result<Vec<u8>, Error>)
        ensures
            r matches Ok(b) && b@ == self.spec_unsigned_bytes(),
    {
        let mut out: Vec<u8> = Vec::new();
        self.push_fields(&mut out);
        push_lit(&mut out, "}");
        assert(out@ =~= self.spec_unsigned_bytes());
        Ok(out)
    }

    /// The digest of the whole receipt.
    pub fn digest(&self) -> (r: String)
        ensures
            r@ == self.spec_digest(),
            is_digest(r@),
    {
        let mut out: Vec<u8> = Vec::new();
        self.push_fields(&mut out);
        push_lit(&mut out, ",\"signature\":");
        push_text(&mut out, self.signature.as_str());
        push_lit(&mut out, "}");
        assert(out@ =~= self.bytes());
        digest_bytes(out.as_slice())
    }

    /// Signs the receipt with the evaluator's seed: the signature becomes the
    /// hex of the seed's signature over the unsigned bytes.
    pub fn sign_with_seed(&mut self, seed: [u8; 32]) -> (r: Result<(), Error>)
        ensures
            r is Ok,
            final(self).spec_unsigned_bytes() == old(self).spec_unsigned_bytes(),
            final(self).signature@ == hex_text(
                ed25519_signature(seed@, old(self).spec_unsigned_bytes()),
            ),
    {
        let unsigned = self.unsigned_bytes()?;
        let signature = ed25519_sign(&seed, unsigned.as_slice());
        self.signature = hex_encode(signature.as_slice());
        Ok(())
    }

    /// Verifies the signature with the evaluator's hex public key.
    pub fn verify(&self, public_key_hex: &str) -> (r: Result<(), Error>)
        ensures
            r is Ok <==> self.spec_verifies(public_key_hex@),
            r matches Err(e) ==> e is Rejected,
    {
        let unsigned = self.unsigned_bytes()?;
        if verify_hex_signature(public_key_hex, self.signature.as_str(), unsigned.as_slice()) {
            Ok(())
        } else {
            Err(rejected("evaluator receipt signature is invalid"))
        }
    }
}

// ------------------------------------------------------------ evaluation

/// What the evaluator is handed: the request and the requirements it must
/// be evaluated against.
#[derive(Clone, Debug, PartialEq, Eq)]
pub struct EvaluatorJob {
    pub request: Request,
    pub evaluator_executable_digest: String,
    pub evaluator_input_digest: String,
    pub evaluator_tests_digest: String,
    pub policy_digest: String,
    pub evaluated_at: u64,
}

/// The evaluator accepts the job at `now`: the request is valid, the job
/// names the fixed requirements, the candidate bytes are exactly the fixed
/// transformation of the original, the path is a plain name not starting
/// with `.`, and the job was issued before the lease ends.
pub open spec fn job_acceptable(job: EvaluatorJob, now: u64) -> bool {
    &&& job.request.spec_valid(now)
    &&& job.evaluator_input_digest@ == sha256_hex(lit(FIXED_INPUT_IDENTITY))
    &&& job.evaluator_tests_digest@ == sha256_hex(lit(FIXED_TEST_ROSTER))
    &&& job.policy_digest@ == sha256_hex(lit(FIXED_POLICY_IDENTITY))
    &&& is_digest(job.evaluator_executable_digest@)
    &&& normalized(job.request.before_bytes@) == job.request.after_bytes@
    &&& !job.request.relative_path@.contains('/')
    &&& !job.request.relative_path@.contains('\\')
    &&& !(job.request.relative_path@.len() > 0 && job.request.relative_path@[0] == '.')
    &&& job.evaluated_at < job.request.lease_expires_at
}

/// Independently evaluates the fixed operation at `now`: every assertion is
/// recomputed from the request bytes, and an accepted job yields an
/// unsigned receipt bound to the request and requirements.
pub fn evaluate_job_at(job: &EvaluatorJob, now: u64) -> (r: Result<Receipt, Error>)
    ensures
        r is Ok <==> job_acceptable(*job, now),
        r matches Err(e) ==> e is Rejected,
        r matches Ok(rc) ==> {
            &&& rc.state_slice@ == STATE_SLICE@
            &&& rc.request_digest@ == job.request.spec_digest()
            &&& rc.nonce == job.request.nonce
            &&& rc.before_digest@ == job.request.before_digest@
            &&& rc.after_digest@ == job.request.after_digest@
            &&& rc.checkout_baseline_digest@ == job.request.checkout_baseline_digest@
            &&& rc.evaluator_executable_digest@ == job.evaluator_executable_digest@
            &&& rc.evaluator_input_digest@ == job.evaluator_input_digest@
            &&& rc.evaluator_tests_digest@ == job.evaluator_tests_digest@
            &&& rc.policy_digest@ == job.policy_digest@
            &&& rc.evaluated_at == now
            &&& rc.accepted
            &&& rc.signature@.len() == 0
        },
{
    validate_request(&job.request, now)?;
    let input = fixed_input_digest();
    let tests = fixed_tests_digest();
    let policy = fixed_policy_digest();
    if !text_eq(job.evaluator_input_digest.as_str(), input.as_str()) || !text_eq(
        job.evaluator_tests_digest.as_str(),
        tests.as_str(),
    ) || !text_eq(job.policy_digest.as_str(), policy.as_str()) || !valid_digest(
        job.evaluator_executable_digest.as_str(),
    ) {
        return Err(rejected("evaluator job is not bound to frozen requirements"));
    }
    let expected = normalize_trailing_ascii_spaces(job.request.before_bytes.as_slice());
    if !bytes_equal(expected.as_slice(), job.request.after_bytes.as_slice()) {
        return Err(rejected("candidate does not equal fixed transformation"));
    }
    let path = text_chars(job.request.relative_path.as_str());
    let mut plain = true;
    for i in 0..path.len()
        invariant
            path@ == job.request.relative_path@,
            plain == forall|k: int|
                0 <= k < i ==> #[trigger] path@[k] != '/' && path@[k] != '\\',
    {
        if path[i] == '/' || path[i] == '\\' {
            plain = false;
        }
    }
    proof {
        if plain {
            assert(!job.request.relative_path@.contains('/'));
            assert(!job.request.relative_path@.contains('\\'));
        } else {
            let k = choose|k: int|
                0 <= k < path@.len() && !(path@[k] != '/' && path@[k] != '\\');
            assert(job.request.relative_path@[k] == '/' || job.request.relative_path@[k] == '\\');
        }
    }
    if !plain || (path.len() > 0 && path[0] == '.') {
        return Err(rejected("fixed evaluator path assertion failed"));
    }
    if job.evaluated_at >= job.request.lease_expires_at {
        return Err(rejected("evaluator lease is expired"));
    }
    Ok(
        Receipt {
            state_slice: STATE_SLICE.to_owned(),
            request_digest: job.request.digest(),
            nonce: job.request.nonce,
            before_digest: job.request.before_digest.clone(),
            after_digest: job.request.after_digest.clone(),
            checkout_baseline_digest: job.request.checkout_baseline_digest.clone(),
            evaluator_executable_digest: job.evaluator_executable_digest.clone(),
            evaluator_input_digest: job.evaluator_input_digest.clone(),
            evaluator_tests_digest: job.evaluator_tests_digest.clone(),
            policy_digest: job.policy_digest.clone(),
            evaluated_at: now,
            accepted: true,
            signature: String::new(),
        },
    )
}

/// The evaluator's receipt is bound to this request and configuration: it
/// accepts, names the state slice, the request's digest, nonce and
/// digests, the configured evaluator and fixed requirements, was evaluated
/// between `started` and `now` and before the lease ends, and carries the
/// configured evaluator key's signature.
pub open spec fn receipt_bound(rc: Receipt, req: Request, config: Config, started: u64, now: u64) -> bool {
    &&& rc.accepted
    &&& rc.state_slice@ == STATE_SLICE@
    &&& rc.request_digest@ == req.spec_digest()
    &&& rc.nonce == req.nonce
    &&& rc.before_digest@ == req.before_digest@
    &&& rc.after_digest@ == req.after_digest@
    &&& rc.checkout_baseline_digest@ == req.checkout_baseline_digest@
    &&& rc.evaluator_executable_digest@ == config.evaluator_executable_digest@
    &&& rc.evaluator_input_digest@ == config.evaluator_input_digest@
    &&& rc.evaluator_tests_digest@ == config.evaluator_tests_digest@
    &&& rc.policy_digest@ == config.policy_digest@
    &&& started <= rc.evaluated_at <= now
    &&& rc.evaluated_at < req.lease_expires_at
    &&& rc.spec_verifies(config.evaluator_public_key@)
}

/// Whether the receipt is bound to the request and configuration.
pub fn receipt_binds(
    receipt: &Receipt,
    request: &Request,
    config: &Config,
    started: u64,
    now: u64,
) -> (r: bool)
    ensures
        r == receipt_bound(*receipt, *request, *config, started, now),
{
    let request_digest = request.digest();
    if !receipt.accepted || !text_eq(receipt.state_slice.as_str(), STATE_SLICE) || !text_eq(
        receipt.request_digest.as_str(),
        request_digest.as_str(),
    ) || receipt.nonce != request.nonce || !text_eq(
        receipt.before_digest.as_str(),
        request.before_digest.as_str(),
    ) || !text_eq(receipt.after_digest.as_str(), request.after_digest.as_str()) || !text_eq(
        receipt.checkout_baseline_digest.as_str(),
        request.checkout_baseline_digest.as_str(),
    ) || !text_eq(
        receipt.evaluator_executable_digest.as_str(),
        config.evaluator_executable_digest.as_str(),
    ) || !text_eq(
        receipt.evaluator_input_digest.as_str(),
        config.evaluator_input_digest.as_str(),
    ) || !text_eq(
        receipt.evaluator_tests_digest.as_str(),
        config.evaluator_tests_digest.as_str(),
    ) || !text_eq(receipt.policy_digest.as_str(), config.policy_digest.as_str())
        || receipt.evaluated_at < started || receipt.evaluated_at > now || receipt.evaluated_at
        >= request.lease_expires_at {
        return false;
    }
    receipt.verify(config.evaluator_public_key.as_str()).is_ok()
}

// ------------------------------------------------------------ outcomes

#[derive(Clone, Copy, Debug, PartialEq, Eq, Structural)]
pub enum OutcomeStatus {
    Applied,
    Quarantined,
    RolledBack,
    Frozen,
}

/// The typed result of one run.
#[derive(Clone, Debug, PartialEq, Eq)]
pub struct Outcome {
    pub state_slice: String,
    pub status: OutcomeStatus,
    pub reason: Option<String>,
    pub request_digest: String,
    pub before_digest: String,
    pub after_digest: String,
    pub receipt_digest: Option<String>,
    pub rolled_back: bool,
}

/// An outcome for `request` with no receipt.
pub fn base_outcome(
    request: &Request,
    status: OutcomeStatus,
    reason: Option<String>,
    rolled_back: bool,
) -> (r: Outcome)
    ensures
        r.state_slice@ == STATE_SLICE@,
        r.status == status,
        r.reason == reason,
        r.request_digest@ == request.spec_digest(),
        r.before_digest@ == request.before_digest@,
        r.after_digest@ == request.after_digest@,
        r.receipt_digest is None,
        r.rolled_back == rolled_back,
{
    Outcome {
        state_slice: STATE_SLICE.to_owned(),
        status,
        reason,
        request_digest: request.digest(),
        before_digest: request.before_digest.clone(),
        after_digest: request.after_digest.clone(),
        receipt_digest: None,
        rolled_back,
    }
}

/// The outcome of an applied request, bound to its receipt.
pub fn applied_outcome(request: &Request, receipt: &Receipt) -> (r: Outcome)
    ensures
        r.state_slice@ == STATE_SLICE@,
        r.status == OutcomeStatus::Applied,
        r.reason is None,
        r.request_digest@ == request.spec_digest(),
        r.before_digest@ == request.before_digest@,
        r.after_digest@ == request.after_digest@,
        r.receipt_digest matches Some(d) && d@ == receipt.spec_digest(),
        !r.rolled_back,
{
    Outcome {
        state_slice: STATE_SLICE.to_owned(),
        status: OutcomeStatus::Applied,
        reason: None,
        request_digest: request.digest(),
        before_digest: request.before_digest.clone(),
        after_digest: request.after_digest.clone(),
        receipt_digest: Some(receipt.digest()),
        rolled_back: false,
    }
}

// ------------------------------------------------------------ recovery

/// What recovery does with an interrupted write.
#[derive(Clone, Copy, Debug, PartialEq, Eq, Structural)]
pub enum RecoveryStep {
    /// The evidence does not add up: freeze and touch nothing.
    Freeze,
    /// The target holds the candidate bytes: restore the original.
    Restore,
    /// The target already holds the original: clear the intent.
    Settle,
}

/// The recovery rule: the backup must hold exactly the recorded original;
/// the target may hold the original or the recorded candidate, anything
/// else is a change from outside, which is preserved and frozen.
pub open spec fn recovery_rule(
    before_bytes: Seq<u8>,
    before_digest: Seq<char>,
    after_digest: Seq<char>,
    backup: Seq<u8>,
    current: Seq<u8>,
) -> RecoveryStep {
    if backup != before_bytes || sha256_hex(backup) != before_digest {
        RecoveryStep::Freeze
    } else if current != backup && sha256_hex(current) != after_digest {
        RecoveryStep::Freeze
    } else if current != backup {
        RecoveryStep::Restore
    } else {
        RecoveryStep::Settle
    }
}

/// Decides recovery of an intent from the backup and the target's bytes.
pub fn recovery_step(
    before_bytes: &[u8],
    before_digest: &str,
    after_digest: &str,
    backup: &[u8],
    current: &[u8],
) -> (r: RecoveryStep)
    ensures
        r == recovery_rule(before_bytes@, before_digest@, after_digest@, backup@, current@),
{
    let backup_digest = digest_bytes(backup);
    if !bytes_equal(backup, before_bytes) || !text_eq(backup_digest.as_str(), before_digest) {
        return RecoveryStep::Freeze;
    }
    let same = bytes_equal(current, backup);
    if !same {
        let current_digest = digest_bytes(current);
        if !text_eq(current_digest.as_str(), after_digest) {
            return RecoveryStep::Freeze;
        }
        return RecoveryStep::Restore;
    }
    RecoveryStep::Settle
}

/// A path component other than the first starts at `i`: it follows a
/// separator and is neither empty nor `.`.
pub open spec fn later_component_at(s: Seq<char>, i: int) -> bool {
    &&& 0 < i < s.len()
    &&& s[i - 1] == '/'
    &&& s[i] != '/'
    &&& !(s[i] == '.' && (i + 1 == s.len() || s[i + 1] == '/'))
}

/// A backup name the process itself could have written: it starts with
/// `maintenance-` and is a single path component.
pub open spec fn backup_name_ok(s: Seq<char>) -> bool {
    &&& (seq!['m', 'a', 'i', 'n', 't', 'e', 'n', 'a', 'n', 'c', 'e', '-']).is_prefix_of(s)
    &&& !(exists|i: int| #[trigger] later_component_at(s, i))
}

/// Whether `name` is a backup name the process could have written.
pub fn is_backup_name(name: &str) -> (r: bool)
    ensures
        r == backup_name_ok(name@),
{
    let chars = text_chars(name);
    let prefix = text_chars("maintenance-");
    proof {
        reveal_strlit("maintenance-");
    }
    if chars.len() < prefix.len() {
        return false;
    }
    for i in 0..prefix.len()
        invariant
            prefix@ == seq!['m', 'a', 'i', 'n', 't', 'e', 'n', 'a', 'n', 'c', 'e', '-'],
            chars@ == name@,
            chars@.len() >= prefix@.len(),
            forall|k: int| 0 <= k < i ==> chars@[k] == prefix@[k],
    {
        if chars[i] != prefix[i] {
            return false;
        }
    }
    let n = chars.len();
    for i in 1..n
        invariant
            chars@ == name@,
            n == chars@.len(),
            forall|k: int| 0 <= k < i ==> !#[trigger] later_component_at(name@, k),
    {
        if chars[i - 1] == '/' && chars[i] != '/' && !(chars[i] == '.' && (i + 1 == n || chars[i
            + 1] == '/')) {
            proof {
                assert(later_component_at(name@, i as int));
            }
            return false;
        }
    }
    proof {
        assert(prefix@ =~= name@.subrange(0, 12));
        assert forall|i: int| !#[trigger] later_component_at(name@, i) by {
            if 0 < i < n {
            }
        }
    }
    true
}

// ------------------------------------------------------------ the run

/// Where one run stands between the process's reads and writes.
#[derive(Debug)]
pub enum RunStage {
    /// Nothing observed yet.
    Opening,
    /// Waiting for the target's bytes and the checkout baseline.
    AwaitingTarget,
    /// Waiting for the evaluator's receipt.
    AwaitingReceipt,
    /// The receipt binds; waiting for the pre-write recheck.
    AwaitingRecheck { receipt: Receipt },
    /// Waiting for the durable intent to be written.
    AwaitingIntent { receipt: Receipt },
    /// Waiting for the replacement to be written and read back.
    AwaitingReplacement { receipt: Receipt },
    /// The run has decided.
    Closed,
}

/// What the process observed since the last step.
#[derive(Debug)]
pub enum RunEvent {
    /// The durable state was opened: the result of checking the files the
    /// configuration names, the result of recovery (`true` when an
    /// interrupted intent was recovered), whether recovery cleared the
    /// intent, and whether the state is frozen, the request's nonce already
    /// consumed, and the run cancelled.
    Opened {
        files: Result<(), Error>,
        recovery: Result<bool, Error>,
        intent_cleared: bool,
        frozen: bool,
        nonce_consumed: bool,
        cancelled: bool,
    },
    /// The target's bytes and the checkout's baseline digest.
    TargetRead { current: Vec<u8>, baseline_digest: String },
    /// The evaluator's answer, whether the run was cancelled, and the time.
    Evaluated { receipt: Result<Receipt, Error>, cancelled: bool, now: u64 },
    /// The recheck before any write: cancellation, baseline digest, time.
    Rechecked { cancelled: bool, baseline_digest: String, now: u64 },
    /// The receipt, backup and intent are durable and the nonce consumed.
    IntentPersisted { cancelled: bool, now: u64 },
    /// The after bytes replaced the target; what it now holds.
    Replaced { cancelled: bool, current: Vec<u8>, now: u64 },
}

/// What the process does next.
#[derive(Debug)]
pub enum RunAction {
    /// Read the target and the checkout baseline.
    ReadTarget,
    /// Run the evaluator on the request.
    InvokeEvaluator,
    /// Check cancellation, the clock and the baseline again.
    RecheckBaseline,
    /// Write the receipt and backup, consume the nonce, record the intent.
    PersistIntent,
    /// Replace the target with the after bytes and read it back.
    Replace,
    /// Restore the target from the backup and report a rollback.
    RollBack { reason: String },
    /// Clear the intent and report the applied outcome.
    Complete(Outcome),
    /// Report the outcome; nothing was written.
    Finish(Outcome),
    /// Freeze the durable state and fail with the error.
    FreezeAndFail(Error),
    /// Fail with the error; nothing was written.
    Fail(Error),
}

/// The lease has ended at `now`.
pub open spec fn lease_over(request: Request, now: u64) -> bool {
    now >= request.lease_expires_at
}

/// `a` reports an outcome of `request` without a receipt.
pub open spec fn finishes(
    a: RunAction,
    request: Request,
    status: OutcomeStatus,
    reason: Seq<char>,
    rolled_back: bool,
) -> bool {
    &&& a matches RunAction::Finish(o)
    &&& a->Finish_0.state_slice@ == STATE_SLICE@
    &&& a->Finish_0.status == status
    &&& a->Finish_0.reason matches Some(m) && m@ == reason
    &&& a->Finish_0.request_digest@ == request.spec_digest()
    &&& a->Finish_0.before_digest@ == request.before_digest@
    &&& a->Finish_0.after_digest@ == request.after_digest@
    &&& a->Finish_0.receipt_digest is None
    &&& a->Finish_0.rolled_back == rolled_back
}

/// `a` quarantines `request` for `reason`.
pub open spec fn quarantines(a: RunAction, request: Request, reason: Seq<char>) -> bool {
    finishes(a, request, OutcomeStatus::Quarantined, reason, false)
}

/// `a` rolls back for `reason`.
pub open spec fn rolls_back_for(a: RunAction, reason: Seq<char>) -> bool {
    a matches RunAction::RollBack { reason: m } && m@ == reason
}

/// The target holds the request's before bytes, they hash to its before
/// digest, and the checkout has the request's baseline.
pub open spec fn baseline_holds(request: Request, current: Seq<u8>, baseline: Seq<char>) -> bool {
    &&& current == request.before_bytes@
    &&& sha256_hex(current) == request.before_digest@
    &&& baseline == request.checkout_baseline_digest@
}

/// The first step: the configuration, the durable state and the request.
pub open spec fn opening_steps(
    config: Config,
    request: Request,
    started: u64,
    files: Result<(), Error>,
    recovery: Result<bool, Error>,
    intent_cleared: bool,
    frozen: bool,
    nonce_consumed: bool,
    cancelled: bool,
    next: RunStage,
    action: RunAction,
) -> bool {
    if !config.spec_bounded() {
        next == RunStage::Closed && quarantines(
            action,
            request,
            "rejected: "@ + "maintenance configuration is not frozen and bounded"@,
        )
    } else if files is Err {
        next == RunStage::Closed && quarantines(action, request, error_text(files->Err_0))
    } else if recovery is Err {
        next == RunStage::Closed && action == RunAction::FreezeAndFail(recovery->Err_0)
    } else if recovery == Ok::<bool, Error>(true) {
        next == RunStage::Closed && finishes(
            action,
            request,
            OutcomeStatus::Frozen,
            "recovered in-flight transaction; process is frozen"@,
            intent_cleared,
        )
    } else if frozen {
        next == RunStage::Closed && finishes(
            action,
            request,
            OutcomeStatus::Frozen,
            "durable maintenance state is frozen"@,
            false,
        )
    } else if !request.spec_valid(started) {
        next == RunStage::Closed && quarantines(
            action,
            request,
            "rejected: "@ + request_refusal(request, started),
        )
    } else if nonce_consumed {
        next == RunStage::Closed && quarantines(action, request, "request nonce was already consumed"@)
    } else if cancelled || lease_over(request, started) {
        next == RunStage::Closed && quarantines(action, request, "request was cancelled or expired"@)
    } else {
        next == RunStage::AwaitingTarget && action == RunAction::ReadTarget
    }
}

/// The step after the target and baseline were read.
pub open spec fn target_steps(
    request: Request,
    current: Seq<u8>,
    baseline: Seq<char>,
    next: RunStage,
    action: RunAction,
) -> bool {
    if !baseline_holds(request, current, baseline) {
        next == RunStage::Closed && quarantines(action, request, "trusted checkout baseline mismatch"@)
    } else {
        next == RunStage::AwaitingReceipt && action == RunAction::InvokeEvaluator
    }
}

/// The step after the evaluator answered.
pub open spec fn receipt_steps(
    config: Config,
    request: Request,
    started: u64,
    receipt: Result<Receipt, Error>,
    cancelled: bool,
    now: u64,
    next: RunStage,
    action: RunAction,
) -> bool {
    match receipt {
        Err(e) => next == RunStage::Closed && quarantines(action, request, error_text(e)),
        Ok(rc) => if cancelled || lease_over(request, now) || !receipt_bound(
            rc,
            request,
            config,
            started,
            now,
        ) {
            next == RunStage::Closed && quarantines(action, request, "evaluator receipt binding failed"@)
        } else {
            next == (RunStage::AwaitingRecheck { receipt: rc }) && action == RunAction::RecheckBaseline
        },
    }
}

/// The step after the pre-write recheck.
pub open spec fn recheck_steps(
    request: Request,
    receipt: Receipt,
    cancelled: bool,
    baseline: Seq<char>,
    now: u64,
    next: RunStage,
    action: RunAction,
) -> bool {
    if cancelled || lease_over(request, now) || baseline != request.checkout_baseline_digest@ {
        next == RunStage::Closed && quarantines(
            action,
            request,
            "request was cancelled or expired before write"@,
        )
    } else {
        next == (RunStage::AwaitingIntent { receipt }) && action == RunAction::PersistIntent
    }
}

/// The step after the intent became durable.
pub open spec fn intent_steps(
    request: Request,
    receipt: Receipt,
    cancelled: bool,
    now: u64,
    next: RunStage,
    action: RunAction,
) -> bool {
    if cancelled || lease_over(request, now) {
        next == RunStage::Closed && rolls_back_for(action, "cancelled or expired before replacement"@)
    } else {
        next == (RunStage::AwaitingReplacement { receipt }) && action == RunAction::Replace
    }
}

/// The step after the replacement was read back.
pub open spec fn replacement_steps(
    request: Request,
    receipt: Receipt,
    cancelled: bool,
    current: Seq<u8>,
    now: u64,
    next: RunStage,
    action: RunAction,
) -> bool {
    if cancelled || lease_over(request, now) || current != request.after_bytes@ {
        next == RunStage::Closed && rolls_back_for(action, "post-replacement check failed"@)
    } else {
        &&& next == RunStage::Closed
        &&& action matches RunAction::Complete(o)
        &&& o.state_slice@ == STATE_SLICE@
        &&& o.status == OutcomeStatus::Applied
        &&& o.reason is None
        &&& o.request_digest@ == request.spec_digest()
        &&& o.before_digest@ == request.before_digest@
        &&& o.after_digest@ == request.after_digest@
        &&& o.receipt_digest matches Some(d) && d@ == receipt.spec_digest()
        &&& !o.rolled_back
    }
}

/// One step of a run started at `started`: from `stage` and `event`, the
/// next stage and the action. Each refusal closes the run; an event that
/// does not belong to the stage fails it.
pub open spec fn run_steps(
    config: Config,
    request: Request,
    started: u64,
    stage: RunStage,
    event: RunEvent,
    next: RunStage,
    action: RunAction,
) -> bool {
    match (stage, event) {
        (
            RunStage::Opening,
            RunEvent::Opened { files, recovery, intent_cleared, frozen, nonce_consumed, cancelled },
        ) => opening_steps(
            config,
            request,
            started,
            files,
            recovery,
            intent_cleared,
            frozen,
            nonce_consumed,
            cancelled,
            next,
            action,
        ),
        (RunStage::AwaitingTarget, RunEvent::TargetRead { current, baseline_digest }) => target_steps(
            request,
            current@,
            baseline_digest@,
            next,
            action,
        ),
        (RunStage::AwaitingReceipt, RunEvent::Evaluated { receipt, cancelled, now }) => receipt_steps(
            config,
            request,
            started,
            receipt,
            cancelled,
            now,
            next,
            action,
        ),
        (
            RunStage::AwaitingRecheck { receipt },
            RunEvent::Rechecked { cancelled, baseline_digest, now },
        ) => recheck_steps(request, receipt, cancelled, baseline_digest@, now, next, action),
        (RunStage::AwaitingIntent { receipt }, RunEvent::IntentPersisted { cancelled, now }) => intent_steps(
            request,
            receipt,
            cancelled,
            now,
            next,
            action,
        ),
        (
            RunStage::AwaitingReplacement { receipt },
            RunEvent::Replaced { cancelled, current, now },
        ) => replacement_steps(request, receipt, cancelled, current@, now, next, action),
        _ => next == RunStage::Closed && (action matches RunAction::Fail(e) && e is Invalid),
    }
}

fn quarantine(request: &Request, reason: String) -> (r: (RunStage, RunAction))
    ensures
        r.0 == RunStage::Closed,
        quarantines(r.1, *request, reason@),
{
    (RunStage::Closed, RunAction::Finish(base_outcome(request, OutcomeStatus::Quarantined, Some(reason), false)))
}

#[verifier::rlimit(80)]
fn opening_step(
    config: &Config,
    request: &Request,
    started: u64,
    files: Result<(), Error>,
    recovery: Result<bool, Error>,
    intent_cleared: bool,
    frozen: bool,
    nonce_consumed: bool,
    cancelled: bool,
) -> (r: (RunStage, RunAction))
    ensures
        opening_steps(
            *config,
            *request,
            started,
            files,
            recovery,
            intent_cleared,
            frozen,
            nonce_consumed,
            cancelled,
            r.0,
            r.1,
        ),
{
    match config.validate_bounds() {
        Ok(()) => {},
        Err(e) => {
            return quarantine(request, e.message());
        },
    }
    match files {
        Ok(()) => {},
        Err(e) => {
            return quarantine(request, e.message());
        },
    }
    let recovered = match recovery {
        Ok(b) => b,
        Err(e) => {
            return (RunStage::Closed, RunAction::FreezeAndFail(e));
        },
    };
    if recovered {
        let reason = "recovered in-flight transaction; process is frozen".to_owned();
        return (
            RunStage::Closed,
            RunAction::Finish(base_outcome(request, OutcomeStatus::Frozen, Some(reason), intent_cleared)),
        );
    }
    if frozen {
        let reason = "durable maintenance state is frozen".to_owned();
        return (
            RunStage::Closed,
            RunAction::Finish(base_outcome(request, OutcomeStatus::Frozen, Some(reason), false)),
        );
    }
    match validate_request(request, started) {
        Ok(()) => {},
        Err(e) => {
            return quarantine(request, e.message());
        },
    }
    if nonce_consumed {
        return quarantine(request, "request nonce was already consumed".to_owned());
    }
    if cancelled || started >= request.lease_expires_at {
        return quarantine(request, "request was cancelled or expired".to_owned());
    }
    (RunStage::AwaitingTarget, RunAction::ReadTarget)
}

fn target_step(request: &Request, current: Vec<u8>, baseline_digest: String) -> (r: (RunStage, RunAction))
    ensures
        target_steps(*request, current@, baseline_digest@, r.0, r.1),
{
    let current_digest = digest_bytes(current.as_slice());
    if !bytes_equal(current.as_slice(), request.before_bytes.as_slice()) || !text_eq(
        current_digest.as_str(),
        request.before_digest.as_str(),
    ) || !text_eq(baseline_digest.as_str(), request.checkout_baseline_digest.as_str()) {
        return quarantine(request, "trusted checkout baseline mismatch".to_owned());
    }
    (RunStage::AwaitingReceipt, RunAction::InvokeEvaluator)
}

fn receipt_step(
    config: &Config,
    request: &Request,
    started: u64,
    receipt: Result<Receipt, Error>,
    cancelled: bool,
    now: u64,
) -> (r: (RunStage, RunAction))
    ensures
        receipt_steps(*config, *request, started, receipt, cancelled, now, r.0, r.1),
{
    let rc = match receipt {
        Ok(rc) => rc,
        Err(e) => {
            return quarantine(request, e.message());
        },
    };
    if cancelled || now >= request.lease_expires_at || !receipt_binds(&rc, request, config, started, now) {
        return quarantine(request, "evaluator receipt binding failed".to_owned());
    }
    (RunStage::AwaitingRecheck { receipt: rc }, RunAction::RecheckBaseline)
}

/// Decides one step of a run that started at `started`; the process
/// performs the returned action and reports what it observed as the next
/// event.
pub fn run_step(
    config: &Config,
    request: &Request,
    started: u64,
    stage: RunStage,
    event: RunEvent,
) -> (r: (RunStage, RunAction))
    ensures
        run_steps(*config, *request, started, stage, event, r.0, r.1),
{
    match (stage, event) {
        (
            RunStage::Opening,
            RunEvent::Opened { files, recovery, intent_cleared, frozen, nonce_consumed, cancelled },
        ) => opening_step(
            config,
            request,
            started,
            files,
            recovery,
            intent_cleared,
            frozen,
            nonce_consumed,
            cancelled,
        ),
        (RunStage::AwaitingTarget, RunEvent::TargetRead { current, baseline_digest }) => target_step(
            request,
            current,
            baseline_digest,
        ),
        (RunStage::AwaitingReceipt, RunEvent::Evaluated { receipt, cancelled, now }) => receipt_step(
            config,
            request,
            started,
            receipt,
            cancelled,
            now,
        ),
        (
            RunStage::AwaitingRecheck { receipt },
            RunEvent::Rechecked { cancelled, baseline_digest, now },
        ) => {
            if cancelled || now >= request.lease_expires_at || !text_eq(
                baseline_digest.as_str(),
                request.checkout_baseline_digest.as_str(),
            ) {
                return quarantine(request, "request was cancelled or expired before write".to_owned());
            }
            (RunStage::AwaitingIntent { receipt }, RunAction::PersistIntent)
        },
        (RunStage::AwaitingIntent { receipt }, RunEvent::IntentPersisted { cancelled, now }) => {
            if cancelled || now >= request.lease_expires_at {
                return (
                    RunStage::Closed,
                    RunAction::RollBack { reason: "cancelled or expired before replacement".to_owned() },
                );
            }
            (RunStage::AwaitingReplacement { receipt }, RunAction::Replace)
        },
        (
            RunStage::AwaitingReplacement { receipt },
            RunEvent::Replaced { cancelled, current, now },
        ) => {
            if cancelled || now >= request.lease_expires_at || !bytes_equal(
                current.as_slice(),
                request.after_bytes.as_slice(),
            ) {
                return (
                    RunStage::Closed,
                    RunAction::RollBack { reason: "post-replacement check failed".to_owned() },
                );
            }
            (RunStage::Closed, RunAction::Complete(applied_outcome(request, &receipt)))
        },
        _ => (RunStage::Closed, RunAction::Fail(invalid("maintenance run step is out of order"))),
    }
}

// ------------------------------------------------------------ baseline

/// A file of the checkout by its relative path and its bytes.
pub open spec fn file_view(e: (String, Vec<u8>)) -> (Seq<char>, Seq<u8>) {
    (e.0@, e.1@)
}

/// The files by their views.
pub open spec fn file_views(files: Seq<(String, Vec<u8>)>) -> Seq<(Seq<char>, Seq<u8>)> {
    files.map_values(|e: (String, Vec<u8>)| file_view(e))
}

/// The files in path order.
pub open spec fn paths_sorted(files: Seq<(Seq<char>, Seq<u8>)>) -> bool {
    forall|i: int, j: int|
        0 <= i < j < files.len() ==> !text_lt(#[trigger] files[j].0, #[trigger] files[i].0)
}

/// `["path",[bytes...]]`, one file of the manifest.
pub open spec fn manifest_entry(file: (Seq<char>, Seq<u8>)) -> Seq<u8> {
    lit("[") + json_text(file.0) + lit(",") + byte_list(file.1) + lit("]")
}

/// The manifest of the checkout: its files in the given order.
pub open spec fn baseline_manifest_bytes(files: Seq<(Seq<char>, Seq<u8>)>) -> Seq<u8> {
    json_list(files.map_values(|f: (Seq<char>, Seq<u8>)| manifest_entry(f)))
}

/// The files in path order, as copies.
fn sort_files(files: &Vec<(String, Vec<u8>)>) -> (r: Vec<(String, Vec<u8>)>)
    ensures
        file_views(r@).to_multiset() == file_views(files@).to_multiset(),
        paths_sorted(file_views(r@)),
{
    let mut out: Vec<(String, Vec<u8>)> = Vec::new();
    let n = files.len();
    proof {
        assert(file_views(out@) =~= file_views(files@.subrange(0, 0)));
    }
    for i in 0..n
        invariant
            n == files@.len(),
            file_views(out@).to_multiset() == file_views(files@.subrange(0, i as int)).to_multiset(),
            paths_sorted(file_views(out@)),
    {
        let path = files[i].0.clone();
        let bytes = files[i].1.clone();
        let ghost x = (path@, bytes@);
        let ghost vs = file_views(out@);
        let mut pos: usize = 0;
        loop
            invariant
                vs == file_views(out@),
                pos <= out@.len(),
                x.0 == path@,
                forall|k: int| 0 <= k < pos ==> !text_lt(x.0, #[trigger] vs[k].0),
            ensures
                pos <= out@.len(),
                forall|k: int| 0 <= k < pos ==> !text_lt(x.0, #[trigger] vs[k].0),
                pos < out@.len() ==> text_lt(x.0, vs[pos as int].0),
            decreases out@.len() - pos,
        {
            if pos == out.len() {
                break;
            }
            assert(vs[pos as int].0 == out@[pos as int].0@);
            if compare_text(path.as_str(), out[pos].0.as_str()) < 0 {
                break;
            }
            pos = pos + 1;
        }
        proof {
            assert forall|a: int, b: int|
                0 <= a < b < vs.len() + 1 implies !text_lt(
                #[trigger] vs.insert(pos as int, x)[b].0,
                #[trigger] vs.insert(pos as int, x)[a].0,
            ) by {
                let w = vs.insert(pos as int, x);
                if b == pos {
                    assert(w[a] == vs[a]);
                } else if a == pos {
                    assert(w[b] == vs[b - 1]);
                    if text_lt(vs[b - 1].0, x.0) {
                        if b - 1 > pos {
                            assert(!text_lt(vs[b - 1].0, vs[pos as int].0));
                        }
                        lemma_text_lt_transitive(vs[b - 1].0, x.0, vs[pos as int].0);
                        lemma_text_lt_irreflexive(vs[pos as int].0);
                    }
                } else if a < pos && b < pos {
                    assert(w[a] == vs[a] && w[b] == vs[b]);
                } else if a < pos {
                    assert(w[a] == vs[a] && w[b] == vs[b - 1]);
                } else {
                    assert(w[a] == vs[a - 1] && w[b] == vs[b - 1]);
                }
            }
        }
        out.insert(pos, (path, bytes));
        proof {
            assert(file_views(out@) =~= vs.insert(pos as int, x));
            assert(files@.subrange(0, i + 1) =~= files@.subrange(0, i as int).push(files@[i as int]));
            assert(x == file_view(files@[i as int]));
            assert(file_views(files@.subrange(0, i + 1)) =~= file_views(files@.subrange(0, i as int)).push(x));
            vstd::seq_lib::to_multiset_insert(vs, pos as int, x);
            vstd::seq_lib::to_multiset_build(file_views(files@.subrange(0, i as int)), x);
            assert(file_views(files@.subrange(0, i as int)).push(x).to_multiset()
                == file_views(files@.subrange(0, i as int)).to_multiset().insert(x));
        }
    }
    proof {
        assert(files@.subrange(0, n as int) =~= files@);
    }
    out
}

/// The digest of the checkout's manifest: its files in path order.
pub fn baseline_digest(files: &Vec<(String, Vec<u8>)>) -> (r: String)
    ensures
        exists|sorted: Seq<(Seq<char>, Seq<u8>)>|
            #[trigger] paths_sorted(sorted) && sorted.to_multiset() == file_views(files@).to_multiset()
                && r@ == sha256_hex(baseline_manifest_bytes(sorted)),
        is_digest(r@),
{
    let sorted = sort_files(files);
    let ghost items = file_views(sorted@).map_values(|f: (Seq<char>, Seq<u8>)| manifest_entry(f));
    let mut out: Vec<u8> = Vec::new();
    out.push(0x5b);
    let ghost start = out@;
    let n = sorted.len();
    for i in 0..n
        invariant
            n == sorted@.len(),
            items == file_views(sorted@).map_values(|f: (Seq<char>, Seq<u8>)| manifest_entry(f)),
            out@ == start + join(items.subrange(0, i as int)),
    {
        let ghost before = out@;
        if i > 0 {
            out.push(0x2c);
        }
        let ghost mid = out@;
        push_lit(&mut out, "[");
        push_text(&mut out, sorted[i].0.as_str());
        push_lit(&mut out, ",");
        push_byte_list(&mut out, &sorted[i].1);
        push_lit(&mut out, "]");
        proof {
            assert(out@ =~= mid + manifest_entry(file_view(sorted@[i as int])));
            assert(items[i as int] == manifest_entry(file_view(sorted@[i as int])));
            lemma_join_push(items.subrange(0, i as int), items[i as int]);
            assert(items.subrange(0, i + 1) =~= items.subrange(0, i as int).push(items[i as int]));
        }
    }
    out.push(0x5d);
    proof {
        assert(items.subrange(0, n as int) =~= items);
        assert(out@ =~= baseline_manifest_bytes(file_views(sorted@)));
        assert(paths_sorted(file_views(sorted@)));
    }
    digest_bytes(out.as_slice())
}

} // verus!


