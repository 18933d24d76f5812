//! The local coordinator: evidence, admission, execution and observation in
//! one pass.
//!
//! The coordinator answers with digests and a disposition only. Observation
//! values are the caller's assertions; nothing here inspects a process, a
//! model, a provider, a network or a host boundary.
use crate::artifacts::ArtifactRegistry;
use crate::canon::{json_bool, json_nat, lit, push_bool, push_lit, push_nat};
use crate::contract::{BudgetDecision, FailureKind, LifecycleState};
use crate::digest::{digest_bytes, sha256_hex};
use crate::error::Error;
use crate::evidence::EvidenceRegistry;
use crate::kernel::{admits, applies_event, DecisionKind, Kernel};
use crate::order::text_eq;
use crate::receipts::{CapabilityReceipt, ReceiptVerifier};
use crate::records::Proposal;
use crate::runtime::{executes, rolls_back, written, Runtime};
use crate::text::is_digest;
use vstd::prelude::*;

verus! {

/// How a coordinated proposal ended.
#[derive(Clone, Copy, Debug, PartialEq, Eq, Structural)]
pub enum Disposition {
    Quarantined,
    Rejected,
    Completed,
    RolledBack,
}

/// The caller's assertions about the execution it watched.
#[derive(Clone, Copy, Debug, PartialEq, Eq, Structural)]
pub struct Observation {
    pub at: u64,
    pub healthy: bool,
    pub telemetry_present: bool,
    pub kill_requested: bool,
}

impl Observation {
    /// `{"at":..,"healthy":..,"telemetry_present":..,"kill_requested":..}`.
    pub open spec fn bytes(&self) -> Seq<u8> {
        lit("{\"at\":") + json_nat(self.at as nat) + lit(",\"healthy\":") + json_bool(self.healthy)
            + lit(",\"telemetry_present\":") + json_bool(self.telemetry_present) + lit(
            ",\"kill_requested\":",
        ) + json_bool(self.kill_requested) + lit("}")
    }

    pub open spec fn spec_digest(&self) -> Seq<char> {
        sha256_hex(self.bytes())
    }

    /// Healthy, with telemetry, and no kill asked for.
    pub open spec fn spec_clean(&self) -> bool {
        self.healthy && self.telemetry_present && !self.kill_requested
    }

    /// The digest of the observation's encoding.
    pub fn digest(&self) -> (r: String)
        ensures
            r@ == self.spec_digest(),
            is_digest(r@),
    {
        let mut out: Vec<u8> = Vec::new();
        push_lit(&mut out, "{\"at\":");
        push_nat(&mut out, self.at);
        push_lit(&mut out, ",\"healthy\":");
        push_bool(&mut out, self.healthy);
        push_lit(&mut out, ",\"telemetry_present\":");
        push_bool(&mut out, self.telemetry_present);
        push_lit(&mut out, ",\"kill_requested\":");
        push_bool(&mut out, self.kill_requested);
        push_lit(&mut out, "}");
        assert(out@ =~= self.bytes());
        digest_bytes(out.as_slice())
    }
}

/// The coordinator's answer: a disposition and the digests it is bound to.
#[derive(Clone, Debug, PartialEq, Eq)]
pub struct WorkflowResult {
    pub disposition: Disposition,
    pub subject_digest: String,
    pub decision_digest: Option<String>,
    pub observation_digest: String,
}

/// Evidence and an accepted artifact that must vouch for a proposal.
pub struct EvidenceBinding<'a> {
    pub evidence: &'a EvidenceRegistry,
    pub evidence_id: &'a str,
    pub artifacts: &'a ArtifactRegistry,
    pub artifact_id: &'a str,
}

/// What counting a failure does to the kernel and the runtime.
pub open spec fn failure_counted(
    kb: Kernel,
    ka: Kernel,
    rb: Runtime,
    ra: Runtime,
    r: Result<BudgetDecision, Error>,
) -> bool {
    &&& ka.spec_policy() == kb.spec_policy()
    &&& ka.journal_entries() == kb.journal_entries()
    &&& ka.issuance_entries() == kb.issuance_entries()
    &&& ra.state_entries() == rb.state_entries()
    &&& ra.checkpoint_entries() == rb.checkpoint_entries()
    &&& ra.spec_killed() == rb.spec_killed()
    &&& (rb.spec_frozen() ==> ra.spec_frozen())
    &&& (kb.spec_frozen() ==> ka.spec_frozen())
    &&& (ka.spec_killed() == kb.spec_killed())
    &&& (r is Err ==> (ra.spec_frozen() || ra.spec_killed()) && ka.spec_frozen())
    &&& (r == Ok::<BudgetDecision, Error>(BudgetDecision::FreezeRequired) ==> (ra.spec_frozen()
        || ra.spec_killed()) && ka.spec_frozen())
    &&& (r == Ok::<BudgetDecision, Error>(BudgetDecision::Continue) ==> ra.same_runtime(&rb)
        && ka.lifecycle_entries() == kb.lifecycle_entries() && ka.spec_frozen() == kb.spec_frozen())
    &&& (kb.spec_tracker() is None ==> r == Ok::<BudgetDecision, Error>(BudgetDecision::Continue)
        && ka.unchanged_from(&kb))
    &&& (ka.spec_tracker() matches Some(t) && t.spec_exhausted() && r is Ok ==> ka.spec_frozen()
        && (ra.spec_frozen() || ra.spec_killed()))
}

/// Counts a failure of `kind`; a budget that asks for a freeze, or that is
/// exhausted or inconsistent, freezes the runtime and the kernel.
fn observe_failure(kernel: &mut Kernel, runtime: &mut Runtime, kind: FailureKind) -> (r: Result<
    BudgetDecision,
    Error,
>)
    ensures
        failure_counted(*old(kernel), *final(kernel), *old(runtime), *final(runtime), r),
{
    let observed = kernel.observe_failure(kind);
    match observed {
        Ok(decision) => {
            if decision == BudgetDecision::FreezeRequired {
                runtime.freeze("failure budget exhausted");
            }
            Ok(decision)
        },
        Err(error) => {
            runtime.freeze("failure budget state invalid or exhausted");
            let _ = kernel.freeze_all();
            Err(error)
        },
    }
}

/// What the coordinator promises of one run, whatever the path taken.
pub open spec fn coordinated(
    kb: Kernel,
    ka: Kernel,
    rb: Runtime,
    ra: Runtime,
    evidence_ok: bool,
    p: Proposal,
    obs: Observation,
    r: Result<WorkflowResult, Error>,
) -> bool {
    let subject = p.spec_digest();
    &&& !evidence_ok ==> {
        &&& ka.journal_entries() == kb.journal_entries()
        &&& ra.state_entries() == rb.state_entries()
        &&& (r is Err ==> (ra.spec_frozen() || ra.spec_killed()) && ka.spec_frozen())
    }
    &&& match r {
        Ok(w) => {
            &&& w.subject_digest@ == subject
            &&& w.observation_digest@ == obs.spec_digest()
            &&& (!evidence_ok ==> w.disposition == Disposition::Quarantined && w.decision_digest
                is None)
            &&& (w.disposition == Disposition::Quarantined ==> !evidence_ok)
            &&& (w.disposition == Disposition::Rejected ==> w.decision_digest is Some)
            &&& (w.disposition == Disposition::Completed ==> {
                &&& evidence_ok
                &&& obs.spec_clean()
                &&& w.decision_digest is Some
                &&& ra.state_view() == written(rb.state_view(), p)
                &&& ka.lifecycle_map().contains_key(subject)
                &&& ka.lifecycle_map()[subject].state == LifecycleState::Completed
            })
            &&& (w.disposition == Disposition::RolledBack ==> {
                &&& evidence_ok
                &&& !obs.spec_clean()
                &&& ra.spec_frozen()
                &&& ra.state_view() == rb.state_view()
                &&& (obs.kill_requested ==> ra.spec_killed())
            })
            &&& (evidence_ok && obs.spec_clean() && w.disposition != Disposition::Completed
                ==> w.disposition == Disposition::Rejected && ra.state_entries()
                == rb.state_entries())
        },
        Err(_) => true,
    }
}

/// Executes an accepted proposal in the runtime.
fn execute_accepted(
    kernel: &mut Kernel,
    runtime: &mut Runtime,
    proposal: &Proposal,
    decision: &crate::kernel::Decision,
    now: u64,
) -> (r: Result<(), Error>)
    requires
        decision.kind == DecisionKind::Accepted,
    ensures
        r is Ok ==> {
            &&& final(runtime).state_view() == written(old(runtime).state_view(), *proposal)
            &&& final(runtime).checkpoint_views() == old(runtime).checkpoint_views().push(
                old(runtime).state_view(),
            )
            &&& !final(runtime).spec_frozen()
            &&& !final(runtime).spec_killed()
            &&& final(kernel).lifecycle_map().contains_key(proposal.spec_digest())
            &&& final(kernel).lifecycle_map()[proposal.spec_digest()].state
                == LifecycleState::Executing
        },
{
    let ghost r0 = *runtime;
    let ghost k0 = *kernel;
    let ran = runtime.execute(kernel, proposal, decision, now);
    proof {
        assert(executes(r0, *runtime, k0, *kernel, *proposal, *decision, now, ran));
    }
    match ran {
        Ok(_) => Ok(()),
        Err(e) => Err(e),
    }
}

/// Rolls back, counts the failure and freezes the runtime, or kills it when
/// the observation asks for that. Answers whether a checkpoint was restored.
fn settle_unclean(
    kernel: &mut Kernel,
    runtime: &mut Runtime,
    proposal: &Proposal,
    observation: Observation,
) -> (r: Result<bool, Error>)
    requires
        !old(runtime).spec_frozen(),
        !old(runtime).spec_killed(),
        old(runtime).checkpoint_views().len() > 0,
    ensures
        r matches Ok(rolled) ==> {
            &&& rolled
            &&& final(runtime).spec_frozen()
            &&& final(runtime).state_view() == old(runtime).checkpoint_views().last()
            &&& (observation.kill_requested ==> final(runtime).spec_killed())
        },
{
    let ghost r1 = *runtime;
    let rolled_back = runtime.rollback("unhealthy observation");
    proof {
        assert(rolls_back(r1, *runtime, "unhealthy observation"@, rolled_back));
    }
    if rolled_back {
        kernel.rollback(proposal)?;
    }
    let budget_decision = observe_failure(kernel, runtime, FailureKind::Rollback)?;
    if observation.kill_requested {
        runtime.kill("kill observation");
        kernel.kill(proposal)?;
    } else {
        runtime.freeze("unhealthy observation");
        if budget_decision != BudgetDecision::FreezeRequired {
            kernel.freeze(proposal)?;
        }
    }
    Ok(rolled_back)
}

/// Completes an executing proposal and resets the failure streak.
fn settle_clean(kernel: &mut Kernel, proposal: &Proposal) -> (r: Result<(), Error>)
    requires
        old(kernel).lifecycle_map().contains_key(proposal.spec_digest()),
        old(kernel).lifecycle_map()[proposal.spec_digest()].state == LifecycleState::Executing,
    ensures
        r is Ok ==> final(kernel).lifecycle_map().contains_key(proposal.spec_digest())
            && final(kernel).lifecycle_map()[proposal.spec_digest()].state
            == LifecycleState::Completed,
{
    let ghost k1 = *kernel;
    let completed = kernel.complete(proposal);
    proof {
        assert(applies_event(k1, *kernel, *proposal, crate::contract::LifecycleEvent::Complete, completed));
    }
    completed?;
    kernel.observe_success();
    Ok(())
}

fn complete_admitted(
    kernel: &mut Kernel,
    runtime: &mut Runtime,
    proposal: &Proposal,
    decision: crate::kernel::Decision,
    subject_digest: String,
    observation_digest: String,
    observation: Observation,
) -> (r: Result<WorkflowResult, Error>)
    requires
        decision.kind == DecisionKind::Accepted,
    ensures
        match r {
            Ok(w) => {
                &&& w.subject_digest@ == subject_digest@
                &&& w.observation_digest@ == observation_digest@
                &&& w.decision_digest is Some
                &&& w.disposition != Disposition::Quarantined
                &&& (w.disposition == Disposition::Completed ==> {
                    &&& observation.spec_clean()
                    &&& final(runtime).state_view() == written(old(runtime).state_view(), *proposal)
                    &&& final(kernel).lifecycle_map().contains_key(proposal.spec_digest())
                    &&& final(kernel).lifecycle_map()[proposal.spec_digest()].state
                        == LifecycleState::Completed
                })
                &&& (w.disposition == Disposition::RolledBack ==> {
                    &&& !observation.spec_clean()
                    &&& final(runtime).spec_frozen()
                    &&& final(runtime).state_view() == old(runtime).state_view()
                    &&& (observation.kill_requested ==> final(runtime).spec_killed())
                })
                &&& (observation.spec_clean() ==> w.disposition == Disposition::Completed)
                &&& (w.disposition == Disposition::Rejected ==> !observation.spec_clean())
            },
            Err(_) => true,
        },
{
    execute_accepted(kernel, runtime, proposal, &decision, observation.at)?;
    if observation.kill_requested || !observation.healthy || !observation.telemetry_present {
        let rolled_back = settle_unclean(kernel, runtime, proposal, observation)?;
        return Ok(
            WorkflowResult {
                disposition: if rolled_back {
                    Disposition::RolledBack
                } else {
                    Disposition::Rejected
                },
                subject_digest,
                decision_digest: Some(decision.decision_digest),
                observation_digest,
            },
        );
    }
    settle_clean(kernel, proposal)?;
    Ok(
        WorkflowResult {
            disposition: Disposition::Completed,
            subject_digest,
            decision_digest: Some(decision.decision_digest),
            observation_digest,
        },
    )
}

/// Runs one proposal through the evidence check, admission, execution and
/// the caller's observation. Missing evidence quarantines, a refused
/// admission rejects, an unclean observation rolls back and freezes (or
/// kills), and only a clean one completes; each failure is counted against
/// the kernel's failure budget.
pub fn run(
    kernel: &mut Kernel,
    runtime: &mut Runtime,
    evidence: &EvidenceRegistry,
    evidence_id: &str,
    proposal: &Proposal,
    observation: Observation,
) -> (r: Result<WorkflowResult, Error>)
    ensures
        coordinated(
            *old(kernel),
            *final(kernel),
            *old(runtime),
            *final(runtime),
            evidence.spec_is_valid(evidence_id@, observation.at, proposal.spec_digest()),
            *proposal,
            observation,
            r,
        ),
{
    let subject_digest = proposal.digest_text();
    let observation_digest = observation.digest();
    if !evidence.is_valid(evidence_id, observation.at, subject_digest.as_str()) {
        observe_failure(kernel, runtime, FailureKind::Quarantine)?;
        return Ok(
            WorkflowResult {
                disposition: Disposition::Quarantined,
                subject_digest,
                decision_digest: None,
                observation_digest,
            },
        );
    }
    let ghost k0 = *kernel;
    let admitted = kernel.admit_proposal(proposal, observation.at);
    proof {
        assert(admits(k0, *kernel, *proposal, observation.at, admitted));
    }
    let decision = admitted?;
    if decision.kind != DecisionKind::Accepted {
        observe_failure(kernel, runtime, FailureKind::Rejection)?;
        return Ok(
            WorkflowResult {
                disposition: Disposition::Rejected,
                subject_digest,
                decision_digest: Some(decision.decision_digest),
                observation_digest,
            },
        );
    }
    complete_admitted(
        kernel,
        runtime,
        proposal,
        decision,
        subject_digest,
        observation_digest,
        observation,
    )
}

/// Admits a proposal; an accepted one leaves its record `Admitted`.
fn admit_step(kernel: &mut Kernel, proposal: &Proposal, now: u64) -> (r: Result<
    crate::kernel::Decision,
    Error,
>)
    ensures
        r matches Ok(d) && d.kind == DecisionKind::Accepted ==> in_state(final(kernel).lifecycle_map(), proposal.spec_digest(), LifecycleState::Admitted),
{
    proof {
        reveal(in_state);
    }
    let ghost k0 = *kernel;
    let admitted = kernel.admit_proposal(proposal, now);
    proof {
        assert(admits(k0, *kernel, *proposal, now, admitted));
    }
    admitted
}

/// Record `key` of `m` is in state `s`.
#[verifier::opaque]
pub open spec fn in_state(m: Map<Seq<char>, crate::contract::Lifecycle>, key: Seq<char>, s: LifecycleState) -> bool {
    m.contains_key(key) && m[key].state == s
}

/// Moves an admitted record to `Quarantined`.
fn quarantine_record(kernel: &mut Kernel, proposal: &Proposal) -> (r: Result<(), Error>)
    requires
        in_state(old(kernel).lifecycle_map(), proposal.spec_digest(), LifecycleState::Admitted),
    ensures
        r is Ok ==> in_state(final(kernel).lifecycle_map(), proposal.spec_digest(), LifecycleState::Quarantined),
{
    proof {
        reveal(in_state);
    }
    let ghost k1 = *kernel;
    let quarantined = kernel.quarantine(proposal);
    proof {
        assert(applies_event(k1, *kernel, *proposal, crate::contract::LifecycleEvent::Quarantine, quarantined));
    }
    quarantined?;
    Ok(())
}

/// Quarantines an admitted proposal and counts the failure.
fn quarantine_admitted(kernel: &mut Kernel, runtime: &mut Runtime, proposal: &Proposal) -> (r:
    Result<(), Error>)
    requires
        in_state(old(kernel).lifecycle_map(), proposal.spec_digest(), LifecycleState::Admitted),
    ensures
        final(runtime).state_entries() == old(runtime).state_entries(),
        r is Ok ==> in_state(final(kernel).lifecycle_map(), proposal.spec_digest(), LifecycleState::Quarantined) || final(kernel).spec_frozen(),
{
    quarantine_record(kernel, proposal)?;
    count_quarantine(kernel, runtime)?;
    Ok(())
}

/// Counts a quarantine; an open kernel keeps its records unless frozen.
fn count_quarantine(kernel: &mut Kernel, runtime: &mut Runtime) -> (r: Result<(), Error>)
    ensures
        final(runtime).state_entries() == old(runtime).state_entries(),
        r is Ok ==> final(kernel).lifecycle_map() == old(kernel).lifecycle_map()
            || final(kernel).spec_frozen(),
{
    let decision = observe_failure(kernel, runtime, FailureKind::Quarantine)?;
    proof {
        if decision == BudgetDecision::Continue {
            assert(kernel.lifecycle_entries() == old(kernel).lifecycle_entries());
        }
    }
    Ok(())
}

/// A receipt, its verifier and the subject it must be delegated to.
pub struct ReceiptBinding<'a> {
    pub verifier: &'a mut ReceiptVerifier,
    pub receipt: &'a CapabilityReceipt,
    pub subject: &'a str,
}

/// What the coordinator promises of a run that must also verify a receipt
/// between admission and execution.
pub open spec fn coordinated_with_receipt(
    kb: Kernel,
    ka: Kernel,
    rb: Runtime,
    ra: Runtime,
    vb: ReceiptVerifier,
    va: ReceiptVerifier,
    evidence_ok: bool,
    receipt: CapabilityReceipt,
    p: Proposal,
    obs: Observation,
    r: Result<WorkflowResult, Error>,
) -> bool {
    let subject = p.spec_digest();
    &&& va.key_map() == vb.key_map()
    &&& !evidence_ok ==> {
        &&& ka.journal_entries() == kb.journal_entries()
        &&& ra.state_entries() == rb.state_entries()
        &&& va.verified_set() == vb.verified_set()
        &&& (r is Err ==> (ra.spec_frozen() || ra.spec_killed()) && ka.spec_frozen())
    }
    &&& match r {
        Ok(w) => {
            &&& w.subject_digest@ == subject
            &&& w.observation_digest@ == obs.spec_digest()
            &&& (!evidence_ok ==> w.disposition == Disposition::Quarantined && w.decision_digest
                is None)
            &&& (w.disposition == Disposition::Quarantined ==> ra.state_entries()
                == rb.state_entries() && va.verified_set() == vb.verified_set())
            &&& (w.disposition == Disposition::Quarantined && evidence_ok ==> {
                &&& w.decision_digest is Some
                &&& (in_state(ka.lifecycle_map(), subject, LifecycleState::Quarantined)
                    || ka.spec_frozen())
            })
            &&& (w.disposition == Disposition::Rejected ==> w.decision_digest is Some)
            &&& (w.disposition == Disposition::Completed || w.disposition
                == Disposition::RolledBack ==> evidence_ok && va.verified_set()
                == vb.verified_set().insert(receipt.receipt_id@))
            &&& (w.disposition == Disposition::Completed ==> {
                &&& obs.spec_clean()
                &&& ra.state_view() == written(rb.state_view(), p)
                &&& ka.lifecycle_map().contains_key(subject)
                &&& ka.lifecycle_map()[subject].state == LifecycleState::Completed
            })
            &&& (w.disposition == Disposition::RolledBack ==> {
                &&& !obs.spec_clean()
                &&& ra.spec_frozen()
                &&& ra.state_view() == rb.state_view()
                &&& (obs.kill_requested ==> ra.spec_killed())
            })
        },
        Err(_) => true,
    }
}

/// Runs the coordinator with a capability receipt that must verify after
/// admission and before any runtime change; a receipt that does not verify
/// quarantines the admitted proposal without consuming its capability.
pub fn run_with_receipt(
    kernel: &mut Kernel,
    runtime: &mut Runtime,
    evidence: &EvidenceRegistry,
    evidence_id: &str,
    binding: ReceiptBinding<'_>,
    proposal: &Proposal,
    observation: Observation,
) -> (r: Result<WorkflowResult, Error>)
    ensures
        coordinated_with_receipt(
            *old(kernel),
            *final(kernel),
            *old(runtime),
            *final(runtime),
            *old(binding.verifier),
            *final(binding.verifier),
            evidence.spec_is_valid(evidence_id@, observation.at, proposal.spec_digest()),
            *binding.receipt,
            *proposal,
            observation,
            r,
        ),
{
    let subject_digest = proposal.digest_text();
    let observation_digest = observation.digest();
    if !evidence.is_valid(evidence_id, observation.at, subject_digest.as_str()) {
        observe_failure(kernel, runtime, FailureKind::Quarantine)?;
        return Ok(
            WorkflowResult {
                disposition: Disposition::Quarantined,
                subject_digest,
                decision_digest: None,
                observation_digest,
            },
        );
    }
    let decision = admit_step(kernel, proposal, observation.at)?;
    if decision.kind != DecisionKind::Accepted {
        observe_failure(kernel, runtime, FailureKind::Rejection)?;
        return Ok(
            WorkflowResult {
                disposition: Disposition::Rejected,
                subject_digest,
                decision_digest: Some(decision.decision_digest),
                observation_digest,
            },
        );
    }
    let verified = binding.verifier.verify(
        binding.receipt,
        binding.subject,
        proposal,
        &decision,
        kernel.policy_ref(),
        observation.at,
    );
    if verified.is_err() {
        quarantine_admitted(kernel, runtime, proposal)?;
        return Ok(
            WorkflowResult {
                disposition: Disposition::Quarantined,
                subject_digest,
                decision_digest: Some(decision.decision_digest),
                observation_digest,
            },
        );
    }
    complete_admitted(
        kernel,
        runtime,
        proposal,
        decision,
        subject_digest,
        observation_digest,
        observation,
    )
}

/// Runs `run` only when the binding's artifact is accepted evidence for the
/// proposal's source at the observation time; otherwise quarantines without
/// touching the kernel or the runtime.
pub fn run_with_artifact(
    kernel: &mut Kernel,
    runtime: &mut Runtime,
    binding: EvidenceBinding<'_>,
    proposal: &Proposal,
    observation: Observation,
) -> (r: Result<WorkflowResult, Error>)
    ensures
        !binding.artifacts.spec_is_valid(binding.artifact_id@, proposal.source_digest@, observation.at)
            ==> {
            &&& r matches Ok(w) && w.disposition == Disposition::Quarantined && w.decision_digest
                is None && w.subject_digest@ == proposal.spec_digest() && w.observation_digest@
                == observation.spec_digest()
            &&& final(kernel).unchanged_from(old(kernel))
            &&& final(runtime).same_runtime(old(runtime))
        },
        binding.artifacts.spec_is_valid(binding.artifact_id@, proposal.source_digest@, observation.at)
            ==> coordinated(
            *old(kernel),
            *final(kernel),
            *old(runtime),
            *final(runtime),
            binding.evidence.spec_is_valid(
                binding.evidence_id@,
                observation.at,
                proposal.spec_digest(),
            ),
            *proposal,
            observation,
            r,
        ),
{
    let subject_digest = proposal.digest_text();
    let observation_digest = observation.digest();
    if binding.artifacts.require_valid(
        binding.artifact_id,
        proposal.source_digest.as_str(),
        observation.at,
    ).is_err() {
        return Ok(
            WorkflowResult {
                disposition: Disposition::Quarantined,
                subject_digest,
                decision_digest: None,
                observation_digest,
            },
        );
    }
    run(kernel, runtime, binding.evidence, binding.evidence_id, proposal, observation)
}

} // verus!
