//! One fixed local compute job class, its receipts, and their verification.
use crate::canon::{json_bool, json_list, json_nat, json_text, lit, push_bool, push_lit, push_nat, push_text};
use crate::collections::TextSet;
use crate::digest::{digest_bytes, sha256_hex};
use crate::error::{invalid, rejected, Error};
use crate::json::JsonValue;
use crate::order::text_eq;
use crate::text::{contains_control, has_control, is_digest, valid_digest};
use vstd::prelude::*;

verus! {

pub const VERIFIER_FORMAT_VERSION: u8 = 1;

/// The largest number of inputs a job may have.
pub const MAX_INPUTS: usize = 1024;

/// The sum of the first `n` inputs.
pub open spec fn sum_of(inputs: Seq<u64>, n: int) -> int
    decreases n,
{
    if n <= 0 {
        0
    } else {
        sum_of(inputs, n - 1) + inputs[n - 1]
    }
}

/// The sum of all inputs.
pub open spec fn total(inputs: Seq<u64>) -> int {
    sum_of(inputs, inputs.len() as int)
}

proof fn lemma_sum_monotone(inputs: Seq<u64>, i: int, j: int)
    requires
        0 <= i <= j <= inputs.len(),
    ensures
        sum_of(inputs, i) <= sum_of(inputs, j),
    decreases j - i,
{
    if i < j {
        lemma_sum_monotone(inputs, i, j - 1);
    }
}

pub(crate) fn checked_sum(inputs: &Vec<u64>) -> (r: Result<u64, Error>)
    ensures
        r is Ok <==> total(inputs@) <= u64::MAX,
        r matches Ok(s) ==> s == total(inputs@),
        r matches Err(e) ==> e is Rejected,
{
    let mut sum: u64 = 0;
    let n = inputs.len();
    for i in 0..n
        invariant
            n == inputs@.len(),
            sum == sum_of(inputs@, i as int),
    {
        match sum.checked_add(inputs[i]) {
            Some(s) => {
                sum = s;
            },
            None => {
                proof {
                    lemma_sum_monotone(inputs@, i + 1, n as int);
                }
                return Err(rejected("fixed sum overflow"));
            },
        }
    }
    Ok(sum)
}

/// `["fixed-integer-sum",1]`, the material of the program digest.
pub open spec fn program_material() -> Seq<u8> {
    lit("[") + json_text("fixed-integer-sum"@) + lit(",") + json_nat(1) + lit("]")
}

fn program_digest() -> (r: String)
    ensures
        r@ == sha256_hex(program_material()),
        is_digest(r@),
{
    let mut out: Vec<u8> = Vec::new();
    push_lit(&mut out, "[");
    push_text(&mut out, "fixed-integer-sum");
    push_lit(&mut out, ",");
    push_nat(&mut out, 1);
    push_lit(&mut out, "]");
    assert(out@ =~= program_material());
    digest_bytes(out.as_slice())
}

/// The JSON list of some integers.
pub open spec fn nat_list(values: Seq<u64>) -> Seq<u8> {
    json_list(values.map_values(|v: u64| json_nat(v as nat)))
}

fn push_nat_list(out: &mut Vec<u8>, values: &Vec<u64>)
    ensures
        final(out)@ == old(out)@ + nat_list(values@),
{
    let ghost items = values@.map_values(|v: u64| json_nat(v as nat));
    out.push(0x5b);
    let ghost start = out@;
    let n = values.len();
    for i in 0..n
        invariant
            n == values@.len(),
            items == values@.map_values(|v: u64| json_nat(v as nat)),
            out@ == start + crate::canon::join(items.subrange(0, i as int)),
    {
        if i > 0 {
            out.push(0x2c);
        }
        push_nat(out, values[i]);
        proof {
            let pre = items.subrange(0, i as int);
            assert(items.subrange(0, i + 1) =~= pre.push(items[i as int]));
            assert(pre.push(items[i as int]).drop_last() =~= pre);
        }
    }
    out.push(0x5d);
    proof {
        assert(items.subrange(0, n as int) =~= items);
        assert(out@ =~= old(out)@ + nat_list(values@));
    }
}

pub(crate) fn inputs_digest(inputs: &Vec<u64>) -> (r: String)
    ensures
        r@ == sha256_hex(nat_list(inputs@)),
        is_digest(r@),
{
    let mut out: Vec<u8> = Vec::new();
    push_nat_list(&mut out, inputs);
    assert(out@ =~= nat_list(inputs@));
    digest_bytes(out.as_slice())
}

/// A request to sum some integers before a deadline.
#[derive(Clone, Debug, PartialEq, Eq)]
pub struct SumJob {
    pub job_id: String,
    pub requester: String,
    pub inputs: Vec<u64>,
    pub deadline: u64,
    pub max_price: u64,
    pub program_digest: String,
}

impl SumJob {
    pub open spec fn spec_valid(&self) -> bool {
        &&& self.job_id@.len() != 0
        &&& !has_control(self.job_id@)
        &&& self.requester@.len() != 0
        &&& !has_control(self.requester@)
        &&& self.inputs@.len() != 0
        &&& self.inputs@.len() <= MAX_INPUTS
        &&& self.deadline != 0
        &&& self.program_digest@ == sha256_hex(program_material())
        &&& total(self.inputs@) <= u64::MAX
    }

    pub open spec fn bytes(&self) -> Seq<u8> {
        lit("{\"job_id\":") + json_text(self.job_id@) + lit(",\"requester\":") + json_text(
            self.requester@,
        ) + lit(",\"inputs\":") + nat_list(self.inputs@) + lit(",\"deadline\":") + json_nat(
            self.deadline as nat,
        ) + lit(",\"max_price\":") + json_nat(self.max_price as nat) + lit(",\"program_digest\":")
            + json_text(self.program_digest@) + lit("}")
    }

    pub open spec fn spec_digest(&self) -> Seq<char> {
        sha256_hex(self.bytes())
    }

    /// A validated job bound to the fixed program.
    pub fn new(job_id: String, requester: String, inputs: Vec<u64>, deadline: u64, max_price: u64) -> (r:
        Result<SumJob, Error>)
        ensures
            r matches Ok(j) ==> j.job_id@ == job_id@ && j.requester@ == requester@ && j.inputs@
                == inputs@ && j.deadline == deadline && j.max_price == max_price && j.spec_valid(),
            r is Ok <==> job_id@.len() != 0 && !has_control(job_id@) && requester@.len() != 0
                && !has_control(requester@) && inputs@.len() != 0 && inputs@.len() <= MAX_INPUTS
                && deadline != 0 && total(inputs@) <= u64::MAX,
            r matches Err(e) ==> e is Invalid || e is Rejected,
    {
        let program_digest = program_digest();
        let job = SumJob { job_id, requester, inputs, deadline, max_price, program_digest };
        job.validate()?;
        Ok(job)
    }

    pub fn validate(&self) -> (r: Result<(), Error>)
        ensures
            r is Ok <==> self.spec_valid(),
            r matches Err(e) ==> e is Invalid || e is Rejected,
            r matches Err(e) && e is Rejected ==> total(self.inputs@) > u64::MAX,
    {
        let expected = program_digest();
        if self.job_id.as_str().is_empty() || contains_control(self.job_id.as_str())
            || self.requester.as_str().is_empty() || contains_control(self.requester.as_str())
            || self.inputs.len() == 0 || self.inputs.len() > MAX_INPUTS || self.deadline == 0
            || !text_eq(self.program_digest.as_str(), expected.as_str()) {
            return Err(invalid("invalid fixed compute job"));
        }
        checked_sum(&self.inputs)?;
        Ok(())
    }

    /// The digest of a valid job.
    pub fn digest(&self) -> (r: Result<String, Error>)
        ensures
            r is Ok <==> self.spec_valid(),
            r matches Err(e) ==> e is Invalid || e is Rejected,
            r matches Ok(d) ==> d@ == self.spec_digest() && is_digest(d@),
    {
        self.validate()?;
        Ok(self.encoding_digest())
    }

    /// The digest of the job's encoding, whether or not the job is valid.
    pub(crate) fn encoding_digest(&self) -> (r: String)
        ensures
            r@ == self.spec_digest(),
            is_digest(r@),
    {
        let mut out: Vec<u8> = Vec::new();
        push_lit(&mut out, "{\"job_id\":");
        push_text(&mut out, self.job_id.as_str());
        push_lit(&mut out, ",\"requester\":");
        push_text(&mut out, self.requester.as_str());
        push_lit(&mut out, ",\"inputs\":");
        push_nat_list(&mut out, &self.inputs);
        push_lit(&mut out, ",\"deadline\":");
        push_nat(&mut out, self.deadline);
        push_lit(&mut out, ",\"max_price\":");
        push_nat(&mut out, self.max_price);
        push_lit(&mut out, ",\"program_digest\":");
        push_text(&mut out, self.program_digest.as_str());
        push_lit(&mut out, "}");
        assert(out@ =~= self.bytes());
        digest_bytes(out.as_slice())
    }
}

/// A provider's receipt for a job.
#[derive(Clone, Debug, PartialEq, Eq)]
pub struct SumReceipt {
    pub job_digest: String,
    pub program_digest: String,
    pub input_digest: String,
    pub provider: String,
    pub output: u64,
    pub completed_at: u64,
    pub price: u64,
    pub succeeded: bool,
}

/// The receipt is a successful, priced, timely result for exactly this job.
pub open spec fn receipt_binds(r: SumReceipt, job: SumJob, now: u64) -> bool {
    &&& job.spec_valid()
    &&& r.provider@.len() != 0
    &&& !has_control(r.provider@)
    &&& r.provider@ != job.requester@
    &&& r.completed_at <= now
    &&& now < job.deadline
    &&& r.job_digest@ == job.spec_digest()
    &&& r.program_digest@ == job.program_digest@
    &&& r.input_digest@ == sha256_hex(nat_list(job.inputs@))
    &&& r.succeeded
    &&& r.output == total(job.inputs@)
    &&& r.price <= job.max_price
    &&& is_digest(r.job_digest@)
    &&& is_digest(r.program_digest@)
    &&& is_digest(r.input_digest@)
}

impl SumReceipt {
    pub open spec fn bytes(&self) -> Seq<u8> {
        lit("{\"job_digest\":") + json_text(self.job_digest@) + lit(",\"program_digest\":") + json_text(
            self.program_digest@,
        ) + lit(",\"input_digest\":") + json_text(self.input_digest@) + lit(",\"provider\":")
            + json_text(self.provider@) + lit(",\"output\":") + json_nat(self.output as nat) + lit(
            ",\"completed_at\":",
        ) + json_nat(self.completed_at as nat) + lit(",\"price\":") + json_nat(self.price as nat)
            + lit(",\"succeeded\":") + json_bool(self.succeeded) + lit("}")
    }

    pub open spec fn spec_digest(&self) -> Seq<char> {
        sha256_hex(self.bytes())
    }

    fn digest(&self) -> (r: String)
        ensures
            r@ == self.spec_digest(),
            is_digest(r@),
    {
        let mut out: Vec<u8> = Vec::new();
        push_lit(&mut out, "{\"job_digest\":");
        push_text(&mut out, self.job_digest.as_str());
        push_lit(&mut out, ",\"program_digest\":");
        push_text(&mut out, self.program_digest.as_str());
        push_lit(&mut out, ",\"input_digest\":");
        push_text(&mut out, self.input_digest.as_str());
        push_lit(&mut out, ",\"provider\":");
        push_text(&mut out, self.provider.as_str());
        push_lit(&mut out, ",\"output\":");
        push_nat(&mut out, self.output);
        push_lit(&mut out, ",\"completed_at\":");
        push_nat(&mut out, self.completed_at);
        push_lit(&mut out, ",\"price\":");
        push_nat(&mut out, self.price);
        push_lit(&mut out, ",\"succeeded\":");
        push_bool(&mut out, self.succeeded);
        push_lit(&mut out, "}");
        assert(out@ =~= self.bytes());
        digest_bytes(out.as_slice())
    }

    /// Checks the receipt against the job at `now`.
    pub fn validate(&self, job: &SumJob, now: u64) -> (r: Result<(), Error>)
        ensures
            r is Ok <==> receipt_binds(*self, *job, now),
            !job.spec_valid() ==> r is Err,
            job.spec_valid() && r is Err ==> (r matches Err(e) && e is Rejected),
    {
        job.validate()?;
        let job_digest = job.digest()?;
        let input_digest = inputs_digest(&job.inputs);
        let output = checked_sum(&job.inputs)?;
        if self.provider.as_str().is_empty() || contains_control(self.provider.as_str()) || text_eq(
            self.provider.as_str(),
            job.requester.as_str(),
        ) || self.completed_at > now || now >= job.deadline || !text_eq(
            self.job_digest.as_str(),
            job_digest.as_str(),
        ) || !text_eq(self.program_digest.as_str(), job.program_digest.as_str()) || !text_eq(
            self.input_digest.as_str(),
            input_digest.as_str(),
        ) || !self.succeeded || self.output != output || self.price > job.max_price
            || !valid_digest(self.job_digest.as_str()) || !valid_digest(
            self.program_digest.as_str(),
        ) || !valid_digest(self.input_digest.as_str()) {
            return Err(rejected("fixed compute receipt is invalid"));
        }
        Ok(())
    }
}

/// Runs a valid, unexpired job locally: the receipt of provider `local-sum`.
pub fn execute_local(job: &SumJob, now: u64) -> (r: Result<SumReceipt, Error>)
    ensures
        r is Ok <==> job.spec_valid() && now < job.deadline,
        r matches Ok(rc) ==> {
            &&& rc.job_digest@ == job.spec_digest()
            &&& rc.program_digest@ == job.program_digest@
            &&& rc.input_digest@ == sha256_hex(nat_list(job.inputs@))
            &&& rc.provider@ == "local-sum"@
            &&& rc.output == total(job.inputs@)
            &&& rc.completed_at == now
            &&& rc.price == 0
            &&& rc.succeeded
        },
        job.spec_valid() && r is Err ==> (r matches Err(e) && e is Rejected),
{
    job.validate()?;
    if now >= job.deadline {
        return Err(rejected("job expired"));
    }
    let output = checked_sum(&job.inputs)?;
    Ok(
        SumReceipt {
            job_digest: job.digest()?,
            program_digest: job.program_digest.clone(),
            input_digest: inputs_digest(&job.inputs),
            provider: "local-sum".to_owned(),
            output,
            completed_at: now,
            price: 0,
            succeeded: true,
        },
    )
}


/// The settlement proposal for a job and a receipt.
pub open spec fn settlement_model(job_digest: Seq<char>, receipt_digest: Seq<char>) -> crate::json::JsonModel {
    crate::json::JsonModel::Object(
        seq![
            ("authorization_required"@, crate::json::JsonModel::Bool(true)),
            ("executed"@, crate::json::JsonModel::Bool(false)),
            ("job_digest"@, crate::json::JsonModel::Text(job_digest)),
            ("receipt_digest"@, crate::json::JsonModel::Text(receipt_digest)),
        ],
    )
}

fn settlement_value(job_digest: String, receipt_digest: String) -> (r: JsonValue)
    ensures
        r@ == settlement_model(job_digest@, receipt_digest@),
{
    let ghost (jd, rd) = (job_digest@, receipt_digest@);
    let mut members: Vec<(String, JsonValue)> = Vec::new();
    members.push(("authorization_required".to_owned(), JsonValue::Bool(true)));
    members.push(("executed".to_owned(), JsonValue::Bool(false)));
    members.push(("job_digest".to_owned(), JsonValue::Text(job_digest)));
    members.push(("receipt_digest".to_owned(), JsonValue::Text(receipt_digest)));
    let ghost ms = members@;
    let v = JsonValue::Object(members);
    proof {
        let a = ("authorization_required"@, crate::json::JsonModel::Bool(true));
        let b = ("executed"@, crate::json::JsonModel::Bool(false));
        let c = ("job_digest"@, crate::json::JsonModel::Text(jd));
        let d = ("receipt_digest"@, crate::json::JsonModel::Text(rd));
        assert(ms.len() == 4);
        assert(ms[0].0@ == "authorization_required"@);
        assert(ms[1].0@ == "executed"@);
        assert(crate::json::model(ms[0].1) == crate::json::JsonModel::Bool(true));
        assert(crate::json::model(ms[1].1) == crate::json::JsonModel::Bool(false));
        assert(crate::json::model(ms[2].1) == crate::json::JsonModel::Text(jd));
        assert(crate::json::model(ms[3].1) == crate::json::JsonModel::Text(rd));
        assert(crate::json::member_models(ms, 0) =~= Seq::empty());
        assert(crate::json::member_models(ms, 1) =~= seq![a]);
        assert(crate::json::member_models(ms, 2) =~= seq![a, b]);
        assert(crate::json::member_models(ms, 3) =~= seq![a, b, c]);
        assert(crate::json::member_models(ms, 4) =~= seq![a, b, c, d]);
    }
    v
}

/// Verified receipt digests and reserved job digests.
pub struct ReceiptVerifier {
    verified: TextSet,
    reserved: TextSet,
}

impl ReceiptVerifier {
    pub closed spec fn verified_set(&self) -> Set<Seq<char>> {
        self.verified@.to_set()
    }

    pub closed spec fn reserved_set(&self) -> Set<Seq<char>> {
        self.reserved@.to_set()
    }

    pub fn new() -> (r: ReceiptVerifier)
        ensures
            r.verified_set().len() == 0 && r.verified_set().finite(),
            r.reserved_set().len() == 0 && r.reserved_set().finite(),
    {
        let r = ReceiptVerifier { verified: TextSet::new(), reserved: TextSet::new() };
        proof {
            assert(r.verified@.to_set() =~= Set::empty());
            assert(r.reserved@.to_set() =~= Set::empty());
        }
        r
    }

    /// Every stored digest is well formed.
    pub open spec fn spec_valid(&self) -> bool {
        &&& forall|x: Seq<char>| #[trigger] self.verified_set().contains(x) ==> is_digest(x)
        &&& forall|x: Seq<char>| #[trigger] self.reserved_set().contains(x) ==> is_digest(x)
    }

    pub fn validate(&self) -> (r: Result<(), Error>)
        ensures
            r is Ok <==> self.spec_valid(),
            r matches Err(e) ==> e is Invalid,
    {
        let n = self.verified.len();
        for i in 0..n
            invariant
                n == self.verified@.len(),
                forall|k: int| 0 <= k < i ==> is_digest(#[trigger] self.verified@[k]),
        {
            if !valid_digest(self.verified.get(i).as_str()) {
                proof {
                    assert(self.verified@.to_set().contains(self.verified@[i as int]));
                    assert(self.verified_set().contains(self.verified@[i as int]));
                }
                return Err(invalid("market verifier state contains malformed digest"));
            }
        }
        let m = self.reserved.len();
        for i in 0..m
            invariant
                m == self.reserved@.len(),
                n == self.verified@.len(),
                forall|k: int| 0 <= k < n ==> is_digest(#[trigger] self.verified@[k]),
                forall|k: int| 0 <= k < i ==> is_digest(#[trigger] self.reserved@[k]),
        {
            if !valid_digest(self.reserved.get(i).as_str()) {
                proof {
                    assert(self.reserved@.to_set().contains(self.reserved@[i as int]));
                    assert(self.reserved_set().contains(self.reserved@[i as int]));
                }
                return Err(invalid("market verifier state contains malformed digest"));
            }
        }
        proof {
            assert forall|x: Seq<char>| #[trigger] self.verified_set().contains(x) implies is_digest(x) by {
                let k = choose|k: int| 0 <= k < self.verified@.len() && self.verified@[k] == x;
            }
            assert forall|x: Seq<char>| #[trigger] self.reserved_set().contains(x) implies is_digest(x) by {
                let k = choose|k: int| 0 <= k < self.reserved@.len() && self.reserved@[k] == x;
            }
        }
        Ok(())
    }

    /// Records a receipt that binds the job; answers whether it is new.
    pub fn verify(&mut self, job: &SumJob, receipt: &SumReceipt, now: u64) -> (r: Result<bool, Error>)
        ensures
            r is Ok,
            !receipt_binds(*receipt, *job, now) ==> r == Ok::<bool, Error>(false)
                && final(self).verified_set() == old(self).verified_set(),
            receipt_binds(*receipt, *job, now) ==> r == Ok::<bool, Error>(
                !old(self).verified_set().contains(receipt.spec_digest()),
            ) && final(self).verified_set() == old(self).verified_set().insert(
                receipt.spec_digest(),
            ),
            final(self).reserved_set() == old(self).reserved_set(),
    {
        if job.validate().is_err() || receipt.validate(job, now).is_err() {
            return Ok(false);
        }
        let d = receipt.digest();
        let mut verified = TextSet::new();
        std::mem::swap(&mut verified, &mut self.verified);
        let fresh = verified.insert(d);
        self.verified = verified;
        Ok(fresh)
    }

    /// Reserves a verified, unexpired receipt's job once, and returns the
    /// settlement proposal; it never executes a settlement.
    pub fn propose_settlement(&mut self, job: &SumJob, receipt: &SumReceipt, now: u64) -> (r:
        Result<JsonValue, Error>)
        ensures
            r is Ok <==> receipt_binds(*receipt, *job, now) && old(self).verified_set().contains(
                receipt.spec_digest(),
            ) && !old(self).reserved_set().contains(job.spec_digest()),
            r matches Err(e) ==> e is Rejected,
            r is Ok ==> final(self).reserved_set() == old(self).reserved_set().insert(job.spec_digest()),
            r is Err ==> final(self).reserved_set() == old(self).reserved_set(),
            final(self).verified_set() == old(self).verified_set(),
            r matches Ok(v) ==> v@ == settlement_model(job.spec_digest(), receipt.spec_digest()),
    {
        let receipt_digest = receipt.digest();
        if receipt.validate(job, now).is_err() || now >= job.deadline || !self.verified.contains(
            receipt_digest.as_str(),
        ) {
            return Err(rejected("receipt is unverified, expired, or replayed"));
        }
        let job_digest = match job.digest() {
            Ok(d) => d,
            Err(_) => {
                return Err(rejected("receipt is unverified, expired, or replayed"));
            },
        };
        if self.reserved.contains(job_digest.as_str()) {
            return Err(rejected("receipt is unverified, expired, or replayed"));
        }
        let mut reserved = TextSet::new();
        std::mem::swap(&mut reserved, &mut self.reserved);
        let _ = reserved.insert(job_digest.clone());
        self.reserved = reserved;
        let v = settlement_value(job_digest, receipt_digest);
        Ok(v)
    }
}

impl Default for ReceiptVerifier {
    fn default() -> (r: ReceiptVerifier)
        ensures
            r.verified_set().len() == 0,
            r.reserved_set().len() == 0,
    {
        ReceiptVerifier::new()
    }
}

} // verus!
