//! Local fault-injection scenarios for the control plane.
//!
//! Each scenario drives only the library's own kernel, runtime and
//! coordinator and answers with digests and a fail-closed disposition. None
//! starts a process, contacts a provider, opens a connection or runs a model.
use crate::canon::{json_text, lit, push_lit, push_text};
use crate::collections::TextMap;
use crate::contract::LifecycleState;
use crate::digest::{digest_bytes, sha256_hex};
use crate::error::Error;
use crate::evidence::EvidenceRegistry;
use crate::integration::{self, coordinated, Disposition, Observation, WorkflowResult};
use crate::kernel::{
    admission_kind, admission_succeeds, admits, capability_expiry, consumes, Decision, DecisionKind, Kernel,
};
use crate::records::{Policy, Proposal};
use crate::runtime::{executes, rolls_back, Runtime};
use crate::text::is_digest;
use vstd::prelude::*;

verus! {

/// The fault a scenario injects.
#[derive(Clone, Copy, Debug, PartialEq, Eq, Structural)]
pub enum FaultScenario {
    Replay,
    StaleClock,
    StalePolicyDigest,
    MalformedJournalBytes,
    PartialWrite,
    KillFreezeObservation,
}

/// How the control plane answered the fault.
#[derive(Clone, Copy, Debug, PartialEq, Eq, Structural)]
pub enum FaultDisposition {
    Rejected,
    Quarantined,
    RolledBack,
    Frozen,
    NotDetected,
}

/// A scenario's answer: its disposition and digests, never raw inputs.
#[derive(Clone, Debug, PartialEq, Eq)]
pub struct FaultOutcome {
    pub scenario: FaultScenario,
    pub disposition: FaultDisposition,
    pub input_digest: String,
    pub detail_digest: String,
}

pub open spec fn scenario_name(s: FaultScenario) -> Seq<char> {
    match s {
        FaultScenario::Replay => "Replay"@,
        FaultScenario::StaleClock => "StaleClock"@,
        FaultScenario::StalePolicyDigest => "StalePolicyDigest"@,
        FaultScenario::MalformedJournalBytes => "MalformedJournalBytes"@,
        FaultScenario::PartialWrite => "PartialWrite"@,
        FaultScenario::KillFreezeObservation => "KillFreezeObservation"@,
    }
}

fn scenario_label(s: FaultScenario) -> (r: &'static str)
    ensures
        r@ == scenario_name(s),
{
    match s {
        FaultScenario::Replay => "Replay",
        FaultScenario::StaleClock => "StaleClock",
        FaultScenario::StalePolicyDigest => "StalePolicyDigest",
        FaultScenario::MalformedJournalBytes => "MalformedJournalBytes",
        FaultScenario::PartialWrite => "PartialWrite",
        FaultScenario::KillFreezeObservation => "KillFreezeObservation",
    }
}

/// `["Scenario","detail"]`, the material of a detail digest.
pub open spec fn detail_material(s: FaultScenario, detail: Seq<char>) -> Seq<u8> {
    lit("[") + json_text(scenario_name(s)) + lit(",") + json_text(detail) + lit("]")
}

/// An outcome of `scenario` bound to `input` and `detail`.
pub open spec fn outcome_of(
    o: FaultOutcome,
    scenario: FaultScenario,
    disposition: FaultDisposition,
    input: Seq<char>,
) -> bool {
    &&& o.scenario == scenario
    &&& o.disposition == disposition
    &&& o.input_digest@ == input
    &&& is_digest(o.detail_digest@)
}

/// Builds an outcome whose detail is known only by its digest.
pub fn outcome(
    scenario: FaultScenario,
    disposition: FaultDisposition,
    input_digest: String,
    detail: &str,
) -> (r: FaultOutcome)
    ensures
        outcome_of(r, scenario, disposition, input_digest@),
        r.detail_digest@ == sha256_hex(detail_material(scenario, detail@)),
{
    let mut out: Vec<u8> = Vec::new();
    push_lit(&mut out, "[");
    push_text(&mut out, scenario_label(scenario));
    push_lit(&mut out, ",");
    push_text(&mut out, detail);
    push_lit(&mut out, "]");
    assert(out@ =~= detail_material(scenario, detail@));
    FaultOutcome {
        scenario,
        disposition,
        input_digest,
        detail_digest: digest_bytes(out.as_slice()),
    }
}

/// The proposal with `-changed` appended to its candidate id: another
/// candidate from the same agent with the same nonce.
fn changed_candidate(proposal: &Proposal) -> (r: Proposal)
    ensures
        r.agent_id@ == proposal.agent_id@,
        r.nonce == proposal.nonce,
        r.candidate_id@ == proposal.candidate_id@ + "-changed"@,
{
    let mut candidate_id = proposal.candidate_id.clone();
    candidate_id.append("-changed");
    Proposal {
        candidate_id,
        agent_id: proposal.agent_id.clone(),
        intent: proposal.intent.clone(),
        action: proposal.action,
        scope: proposal.scope.clone(),
        payload: proposal.payload.copy_map(),
        resource_cost: proposal.resource_cost.copy_map(),
        source_digest: proposal.source_digest.clone(),
        claims: proposal.claims.clone(),
        nonce: proposal.nonce,
        expires_at: proposal.expires_at,
        requests_direct_authority: proposal.requests_direct_authority,
    }
}

/// Admits a proposal, then another candidate from the same agent with the
/// same nonce. The second admission never succeeds: the outcome is
/// `Rejected` when the journal refuses the replayed nonce, `Quarantined` when
/// another check refuses it first.
pub fn replay(kernel: &mut Kernel, proposal: &Proposal, now: u64) -> (r: Result<FaultOutcome, Error>)
    ensures
        r is Ok <==> admission_succeeds(*old(kernel), *proposal, now),
        r matches Ok(o) ==> {
            &&& o.scenario == FaultScenario::Replay
            &&& o.input_digest@ == proposal.spec_digest()
            &&& o.disposition == FaultDisposition::Rejected || o.disposition
                == FaultDisposition::Quarantined
            &&& final(kernel).journal_entries().len() == old(kernel).journal_entries().len() + 1
        },
{
    let input_digest = proposal.digest_text();
    let ghost k0 = *kernel;
    let first = kernel.admit_proposal(proposal, now);
    proof {
        assert(admits(k0, *kernel, *proposal, now, first));
    }
    first?;
    let changed = changed_candidate(proposal);
    let ghost k1 = *kernel;
    let second = kernel.admit_proposal(&changed, now);
    proof {
        assert(admits(k1, *kernel, changed, now, second));
        let j = k1.journal_entries();
        assert(crate::kernel::replay_digest_of(changed) == crate::kernel::replay_digest_of(*proposal));
        assert(j.last().replay_digest@ == crate::kernel::replay_digest_of(*proposal));
        assert(crate::journal::has_replay(j, crate::kernel::replay_digest_of(changed))) by {
            assert(j[j.len() - 1].replay_digest@ == crate::kernel::replay_digest_of(changed));
        }
    }
    match second {
        Err(Error::Journal(_)) => Ok(
            outcome(
                FaultScenario::Replay,
                FaultDisposition::Rejected,
                input_digest,
                "duplicate-agent-nonce-rejected",
            ),
        ),
        Ok(_) => Ok(
            outcome(
                FaultScenario::Replay,
                FaultDisposition::NotDetected,
                input_digest,
                "duplicate-agent-nonce-was-accepted",
            ),
        ),
        Err(_) => Ok(
            outcome(
                FaultScenario::Replay,
                FaultDisposition::Quarantined,
                input_digest,
                "duplicate-agent-nonce-reached-unexpected-error",
            ),
        ),
    }
}

/// Admits a proposal at `admitted_at` and tries to execute it at
/// `stale_now`. An accepted capability used outside its window is refused
/// before any runtime change, and the outcome is `Rejected`.
pub fn stale_clock(
    kernel: &mut Kernel,
    runtime: &mut Runtime,
    proposal: &Proposal,
    admitted_at: u64,
    stale_now: u64,
) -> (r: Result<FaultOutcome, Error>)
    ensures
        r is Ok <==> admission_succeeds(*old(kernel), *proposal, admitted_at),
        r matches Ok(o) ==> {
            &&& o.scenario == FaultScenario::StaleClock
            &&& o.input_digest@ == proposal.spec_digest()
            &&& (o.disposition == FaultDisposition::Rejected || o.disposition
                == FaultDisposition::NotDetected)
            &&& (o.disposition == FaultDisposition::Rejected ==> final(runtime).state_entries()
                == old(runtime).state_entries())
            &&& (admission_kind(old(kernel).spec_policy(), *proposal, admitted_at)
                == DecisionKind::Accepted && !(admitted_at <= stale_now && stale_now
                < capability_expiry(old(kernel).spec_policy(), *proposal, admitted_at))
                ==> o.disposition == FaultDisposition::Rejected)
        },
{
    let input_digest = proposal.digest_text();
    let ghost k0 = *kernel;
    let admitted = kernel.admit_proposal(proposal, admitted_at);
    proof {
        assert(admits(k0, *kernel, *proposal, admitted_at, admitted));
    }
    let decision = admitted?;
    let before_state = runtime.state_digest();
    let before_audit = runtime.audit_len();
    let ghost r1 = *runtime;
    let ghost k1 = *kernel;
    let attempted = runtime.execute(kernel, proposal, &decision, stale_now);
    proof {
        assert(executes(r1, *runtime, k1, *kernel, *proposal, decision, stale_now, attempted));
    }
    let after_state = runtime.state_digest();
    let rejected = attempted.is_err() && crate::order::text_eq(
        before_state.as_str(),
        after_state.as_str(),
    ) && before_audit == runtime.audit_len();
    if rejected {
        proof {
            assert(runtime.same_runtime(&r1));
        }
        Ok(
            outcome(
                FaultScenario::StaleClock,
                FaultDisposition::Rejected,
                input_digest,
                "expired-capability-rejected-before-mutation",
            ),
        )
    } else {
        Ok(
            outcome(
                FaultScenario::StaleClock,
                FaultDisposition::NotDetected,
                input_digest,
                "expired-capability-mutated-or-was-accepted",
            ),
        )
    }
}

/// Tries to consume `decision` under the kernel's current policy; answers
/// whether the decision's policy digest is stale, nothing was consumed and
/// the record ended `Quarantined`.
fn consume_stale(kernel: &mut Kernel, proposal: &Proposal, decision: &crate::kernel::Decision, now: u64, subject: &str) -> (r: Result<bool, Error>)
    requires
        subject@ == proposal.spec_digest(),
    ensures
        final(kernel).spec_policy() == old(kernel).spec_policy(),
        !old(kernel).spec_frozen() && !old(kernel).spec_killed() && old(kernel).spec_policy().spec_valid()
            && old(kernel).lifecycle_map().contains_key(proposal.spec_digest()) && (old(
            kernel,
        ).lifecycle_map()[proposal.spec_digest()].state == LifecycleState::Admitted ==> old(
            kernel,
        ).issuance_map().contains_key(proposal.spec_digest())) ==> r is Ok,
        r matches Ok(true) ==> final(kernel).lifecycle_map().contains_key(proposal.spec_digest())
            && final(kernel).lifecycle_map()[proposal.spec_digest()].state == LifecycleState::Quarantined,
{
    let current = kernel.policy_ref().digest_text();
    let ghost k0 = *kernel;
    let consumed = kernel.consume(proposal, decision, now);
    proof {
        assert(consumes(k0, *kernel, *proposal, *decision, now, consumed));
    }
    let consumed = consumed?;
    let quarantined = match kernel.lifecycle_state(subject) {
        Some(LifecycleState::Quarantined) => true,
        _ => false,
    };
    Ok(!crate::order::text_eq(decision.policy_digest.as_str(), current.as_str()) && !consumed
        && quarantined)
}

/// Changes the kernel's policy after admission and tries to consume the
/// decision; a decision made under another policy must be quarantined, not
/// consumed. The original policy is restored afterwards.
pub fn stale_policy_digest(kernel: &mut Kernel, proposal: &Proposal, now: u64) -> (r: Result<
    FaultOutcome,
    Error,
>)
    ensures
        r is Ok <==> admission_succeeds(*old(kernel), *proposal, now),
        r matches Ok(o) ==> {
            &&& o.scenario == FaultScenario::StalePolicyDigest
            &&& o.input_digest@ == proposal.spec_digest()
            &&& (o.disposition == FaultDisposition::Quarantined || o.disposition
                == FaultDisposition::NotDetected)
            &&& final(kernel).spec_policy() == old(kernel).spec_policy()
            &&& (o.disposition == FaultDisposition::Quarantined ==> final(kernel).lifecycle_map().contains_key(proposal.spec_digest()) && final(kernel).lifecycle_map()[proposal.spec_digest()].state == LifecycleState::Quarantined)
        },
{
    let input_digest = proposal.digest_text();
    let ghost k0 = *kernel;
    let decision = kernel.admit_proposal(proposal, now)?;
    proof {
        assert(admits(k0, *kernel, *proposal, now, Ok::<Decision, Error>(decision)));
        let key = proposal.spec_digest();
        assert(kernel.lifecycle_map().contains_key(key));
    }
    let mut changed = kernel.policy_ref().copy_policy();
    changed.token_ttl = changed.token_ttl.saturating_add(1);
    let restore = kernel.set_policy(changed);
    let stale = consume_stale(kernel, proposal, &decision, now, input_digest.as_str());
    kernel.set_policy(restore);
    let stale = stale?;
    if stale {
        Ok(
            outcome(
                FaultScenario::StalePolicyDigest,
                FaultDisposition::Quarantined,
                input_digest,
                "decision-policy-digest-quarantined",
            ),
        )
    } else {
        Ok(
            outcome(
                FaultScenario::StalePolicyDigest,
                FaultDisposition::NotDetected,
                input_digest,
                "decision-policy-digest-was-not-quarantined",
            ),
        )
    }
}

/// The outcome of presenting journal bytes whose digest is `input_digest`:
/// `Quarantined` when they did not load as a canonical, valid journal,
/// `NotDetected` when they did.
pub fn malformed_journal_bytes_outcome(input_digest: String, loaded: bool) -> (r: FaultOutcome)
    ensures
        outcome_of(
            r,
            FaultScenario::MalformedJournalBytes,
            if loaded {
                FaultDisposition::NotDetected
            } else {
                FaultDisposition::Quarantined
            },
            input_digest@,
        ),
        r.detail_digest@ == sha256_hex(
            detail_material(
                FaultScenario::MalformedJournalBytes,
                if loaded {
                    "journal-bytes-canonical-and-valid"@
                } else {
                    "journal-bytes-quarantined"@
                },
            ),
        ),
{
    if loaded {
        outcome(
            FaultScenario::MalformedJournalBytes,
            FaultDisposition::NotDetected,
            input_digest,
            "journal-bytes-canonical-and-valid",
        )
    } else {
        outcome(
            FaultScenario::MalformedJournalBytes,
            FaultDisposition::Quarantined,
            input_digest,
            "journal-bytes-quarantined",
        )
    }
}

/// The steps of `partial_write`: admission of `p` on `k0` answered `d`
/// leaving `k1`; an admitted decision was executed from `rt0`, answering
/// `er` and leaving `rt1` and `k2`.
#[verifier::opaque]
pub open spec fn partial_write_steps(
    k0: Kernel,
    k1: Kernel,
    d: Result<Decision, Error>,
    rt0: Runtime,
    rt1: Runtime,
    k2: Kernel,
    er: Result<bool, Error>,
    p: Proposal,
    now: u64,
) -> bool {
    &&& admits(k0, k1, p, now, d)
    &&& (d matches Ok(dec) ==> executes(rt0, rt1, k1, k2, p, dec, now, er))
}

/// Executes one write and rolls it back as a partial write would; the
/// outcome is `RolledBack` only when the pre-write state is restored.
pub fn partial_write(kernel: &mut Kernel, runtime: &mut Runtime, proposal: &Proposal, now: u64) -> (r:
    Result<FaultOutcome, Error>)
    ensures
        exists|k1: Kernel, d: Result<Decision, Error>, rt1: Runtime, k2: Kernel, er: Result<bool, Error>|
            #[trigger] partial_write_steps(
                *old(kernel),
                k1,
                d,
                *old(runtime),
                rt1,
                k2,
                er,
                *proposal,
                now,
            ) && (r is Ok <==> d is Ok && er is Ok),
        r matches Ok(o) ==> {
            &&& o.scenario == FaultScenario::PartialWrite
            &&& o.input_digest@ == proposal.spec_digest()
            &&& (o.disposition == FaultDisposition::RolledBack || o.disposition
                == FaultDisposition::Quarantined)
            &&& (o.disposition == FaultDisposition::RolledBack ==> final(runtime).state_view()
                == old(runtime).state_view())
        },
{
    let input_digest = proposal.digest_text();
    let ghost k0 = *kernel;
    let admitted = kernel.admit_proposal(proposal, now);
    let ghost k1 = *kernel;
    let ghost d = admitted;
    let decision = match admitted {
        Ok(dec) => dec,
        Err(e) => {
            proof {
                assert(partial_write_steps(k0, k1, d, *runtime, *runtime, k1, Ok(false), *proposal, now)) by {
                    reveal(partial_write_steps);
                }
            }
            return Err(e);
        },
    };
    let before_state = runtime.state_digest();
    let ghost r1 = *runtime;
    let ran = runtime.execute(kernel, proposal, &decision, now);
    let ghost k2 = *kernel;
    let ghost r2 = *runtime;
    let ghost er = ran;
    proof {
        assert(executes(r1, *runtime, k1, *kernel, *proposal, decision, now, ran));
    }
    let executed = match ran {
        Ok(b) => b,
        Err(e) => {
            proof {
                assert(partial_write_steps(k0, k1, d, r1, r2, k2, er, *proposal, now)) by {
                    reveal(partial_write_steps);
                }
            }
            return Err(e);
        },
    };
    proof {
        assert(partial_write_steps(k0, k1, d, r1, r2, k2, er, *proposal, now)) by {
                    reveal(partial_write_steps);
                }
    }
    let rolled_back = runtime.rollback("fault-injection:partial-write");
    proof {
        assert(rolls_back(r2, *runtime, "fault-injection:partial-write"@, rolled_back));
    }
    let after_state = runtime.state_digest();
    if executed && rolled_back && crate::order::text_eq(before_state.as_str(), after_state.as_str()) {
        Ok(
            outcome(
                FaultScenario::PartialWrite,
                FaultDisposition::RolledBack,
                input_digest,
                "partial-write-restored-checkpoint",
            ),
        )
    } else {
        Ok(
            outcome(
                FaultScenario::PartialWrite,
                FaultDisposition::Quarantined,
                input_digest,
                "partial-write-checkpoint-not-restored",
            ),
        )
    }
}

/// Runs the coordinator with an unclean observation; a rolled-back run whose
/// runtime ends frozen (and killed, when a kill was asked for) is `Frozen`.
pub fn kill_freeze_observation(
    kernel: &mut Kernel,
    runtime: &mut Runtime,
    evidence: &EvidenceRegistry,
    evidence_id: &str,
    proposal: &Proposal,
    observation: Observation,
) -> (r: Result<FaultOutcome, Error>)
    ensures
        exists|k1: Kernel, rt1: Runtime, w: Result<WorkflowResult, Error>|
            #[trigger] coordinated(
                *old(kernel),
                k1,
                *old(runtime),
                rt1,
                evidence.spec_is_valid(evidence_id@, observation.at, proposal.spec_digest()),
                *proposal,
                observation,
                w,
            ) && (r is Ok <==> w is Ok),
        r matches Ok(o) ==> {
            &&& o.scenario == FaultScenario::KillFreezeObservation
            &&& o.input_digest@ == proposal.spec_digest()
            &&& (o.disposition == FaultDisposition::Frozen || o.disposition
                == FaultDisposition::NotDetected)
            &&& (o.disposition == FaultDisposition::Frozen ==> final(runtime).spec_frozen()
                && !observation.spec_clean() && (observation.kill_requested ==> final(runtime).spec_killed()))
        },
{
    let input_digest = proposal.digest_text();
    let kill_requested = observation.kill_requested;
    let freeze_requested = kill_requested || !observation.healthy || !observation.telemetry_present;
    let ran = integration::run(kernel, runtime, evidence, evidence_id, proposal, observation);
    let result = match ran {
        Ok(res) => res,
        Err(e) => {
            return Err(e);
        },
    };
    if kill_requested && result.disposition == Disposition::RolledBack {
        runtime.kill("fault-injection:kill-observation");
    }
    if result.disposition == Disposition::RolledBack && freeze_requested && runtime.is_frozen() && (
    !kill_requested || runtime.is_killed()) {
        Ok(
            outcome(
                FaultScenario::KillFreezeObservation,
                FaultDisposition::Frozen,
                input_digest,
                "kill-observation-rolled-back-and-froze-runtime",
            ),
        )
    } else {
        Ok(
            outcome(
                FaultScenario::KillFreezeObservation,
                FaultDisposition::NotDetected,
                input_digest,
                "kill-observation-did-not-close-runtime",
            ),
        )
    }
}

} // verus!
