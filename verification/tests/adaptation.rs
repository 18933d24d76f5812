use security_alignment_os::adaptation::{
    select_plan, select_work_offer, AdaptationCandidate, AdaptationPlan, EvidenceAnchor,
    EvidenceStatus, PlanDisposition, WorkOffer, EXPLORATORY_CLAIM_CEILING,
};
use security_alignment_os::governance::CandidateUpdate;
use security_alignment_os::Error;

fn candidate(priority: u64, status: EvidenceStatus) -> AdaptationCandidate {
    let base = "a".repeat(64);
    let evidence = "b".repeat(64);
    AdaptationCandidate {
        candidate: CandidateUpdate {
            candidate_id: format!("candidate-{priority}"),
            base_digest: base.clone(),
            candidate_digest: "c".repeat(64),
            rollback_digest: base.clone(),
            evidence_digest: evidence.clone(),
        },
        evidence: EvidenceAnchor {
            evidence_digest: evidence,
            source_digest: "d".repeat(64),
            base_digest: base,
            claim_ceiling: EXPLORATORY_CLAIM_CEILING.into(),
            status,
            observed_at: 1,
            valid_until: 100,
        },
        priority,
        execution_authorized: false,
    }
}

fn offer(plan: &AdaptationPlan, id: &str, provider: &str, price: u64) -> WorkOffer {
    WorkOffer {
        plan_digest: plan.digest().expect("plan digest"),
        offer_id: id.into(),
        provider: provider.into(),
        price,
        submitted_at: 10,
        expires_at: 90,
    }
}

#[test]
fn local_evidence_selects_deterministic_proposal_without_authority() {
    let low = candidate(1, EvidenceStatus::LocalOnly);
    let high = candidate(2, EvidenceStatus::LocalOnly);
    let first = select_plan(&[low.clone(), high.clone()], 10).expect("plan");
    let second = select_plan(&[low, high], 10).expect("plan replay");
    assert_eq!(first, second);
    let PlanDisposition::Candidate(plan) = first else {
        panic!("expected candidate");
    };
    assert!(!plan.execution_authorized);
    assert_eq!(plan.base_digest, plan.rollback_digest);
}

#[test]
fn inconclusive_or_expired_evidence_returns_no_candidate() {
    assert_eq!(
        select_plan(&[candidate(1, EvidenceStatus::Inconclusive)], 10).unwrap(),
        PlanDisposition::NoCandidate("evidence is inconclusive or expired")
    );
    assert_eq!(
        select_plan(&[candidate(1, EvidenceStatus::LocalOnly)], 100).unwrap(),
        PlanDisposition::NoCandidate("evidence is inconclusive or expired")
    );
}

#[test]
fn mismatched_base_or_execution_authority_is_rejected() {
    let mut mismatched = candidate(1, EvidenceStatus::LocalOnly);
    mismatched.candidate.base_digest = "e".repeat(64);
    assert!(select_plan(&[mismatched], 10).is_err());

    let mut authorized = candidate(1, EvidenceStatus::LocalOnly);
    authorized.execution_authorized = true;
    assert!(select_plan(&[authorized], 10).is_err());
}

#[test]
fn work_market_tie_breaks_are_deterministic_and_duplicates_quarantine() {
    let PlanDisposition::Candidate(plan) =
        select_plan(&[candidate(1, EvidenceStatus::LocalOnly)], 10).unwrap()
    else {
        panic!("expected candidate");
    };
    let offers = [
        offer(&plan, "offer-b", "provider-b", 4),
        offer(&plan, "offer-a", "provider-a", 4),
        offer(&plan, "offer-c", "provider-c", 5),
    ];
    assert_eq!(select_work_offer(&plan, &offers, 20).unwrap(), &offers[1]);

    let duplicate = [
        offer(&plan, "same", "provider-a", 1),
        offer(&plan, "same", "provider-b", 2),
    ];
    assert!(matches!(
        select_work_offer(&plan, &duplicate, 20),
        Err(Error::Quarantined(_))
    ));
}

#[test]
fn expired_offer_is_not_selected() {
    let PlanDisposition::Candidate(plan) =
        select_plan(&[candidate(1, EvidenceStatus::LocalOnly)], 10).unwrap()
    else {
        panic!("expected candidate");
    };
    let mut expired = offer(&plan, "expired", "provider", 1);
    expired.expires_at = 20;
    assert!(select_work_offer(&plan, &[expired], 20).is_err());
}

#[test]
fn higher_priority_candidate_is_selected() {
    let low = candidate(1, EvidenceStatus::LocalOnly);
    let high = candidate(2, EvidenceStatus::LocalOnly);
    let expected = high.digest().unwrap();
    let PlanDisposition::Candidate(plan) = select_plan(&[low, high], 10).unwrap() else {
        panic!("expected candidate");
    };
    assert_eq!(plan.candidate_digest, expected);
}

#[test]
fn empty_candidate_list_is_no_candidate() {
    assert!(matches!(
        select_plan(&[], 10),
        Ok(PlanDisposition::NoCandidate(_))
    ));
}
