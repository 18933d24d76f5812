use security_alignment_os::claims::{AggregateReleasePacket, ClaimEnvelope};
use security_alignment_os::collections::TextSet;
use security_alignment_os::{Error, STATE_SLICE};

fn set_of(items: &[&str]) -> TextSet {
    let owned: Vec<String> = items.iter().map(|item| item.to_string()).collect();
    TextSet::from_texts(&owned)
}

fn envelope(id: &str, guarantee: &str, evidence: char) -> ClaimEnvelope {
    let evidence_digest: String = std::iter::repeat(evidence).take(64).collect();
    ClaimEnvelope {
        claim_id: id.into(),
        state_slice: STATE_SLICE.into(),
        claim_ceiling: "LocalControlOnly".into(),
        guarantees: set_of(&[guarantee]),
        assumptions: set_of(&["caller-clock"]),
        excludes: set_of(&["alignment"]),
        evidence_digests: set_of(&[evidence_digest.as_str()]),
        valid_until: 100,
    }
}

#[test]
fn meet_only_composition_narrows_guarantees_and_expiry() {
    let left = envelope("left", "PolicyCompliance", 'a');
    let right = envelope("right", "RuntimeBound", 'b');
    let result = left.meet(&right).expect("meet");
    assert!(result.guarantees.is_empty());
    assert_eq!(result.valid_until, 100);
    assert_eq!(result.evidence_digests.len(), 2);
    assert!(result.is_valid_at(99));
}

#[test]
fn incompatible_or_contradictory_claims_fail_closed() {
    let mut incompatible = envelope("other", "PolicyCompliance", 'a');
    incompatible.claim_ceiling = "BroaderClaim".into();
    assert!(envelope("left", "PolicyCompliance", 'a')
        .meet(&incompatible)
        .is_err());
    let mut contradictory = envelope("contradictory", "PolicyCompliance", 'a');
    contradictory.excludes.clear();
    contradictory.guarantees.insert("PolicyCompliance".into());
    contradictory.excludes.insert("PolicyCompliance".into());
    assert!(contradictory.validate().is_err());
}

#[test]
fn aggregate_packet_excludes_raw_payloads_and_is_digest_bound() {
    let left = envelope("left", "PolicyCompliance", 'a');
    let right = envelope("right", "RuntimeBound", 'b');
    let packet =
        AggregateReleasePacket::from_envelopes("packet-1", &[left, right], 50).expect("packet");
    let first = packet.digest().expect("digest");
    assert_eq!(first, packet.digest().expect("digest"));
    assert!(!packet.raw_payload_included);
    let mut invalid = packet;
    invalid.raw_payload_included = true;
    assert!(invalid.validate().is_err());
}

#[test]
fn meet_keeps_shared_guarantees_and_earlier_expiry() {
    let left = envelope("left", "PolicyCompliance", 'a');
    let mut right = envelope("right", "PolicyCompliance", 'b');
    right.valid_until = 60;
    let result = left.meet(&right).expect("meet");
    assert!(result.guarantees.contains("PolicyCompliance"));
    assert_eq!(result.guarantees.len(), 1);
    assert_eq!(result.valid_until, 60);
    assert!(!result.is_valid_at(60));
}

#[test]
fn packet_requires_compatible_envelopes() {
    let left = envelope("left", "PolicyCompliance", 'a');
    let mut right = envelope("right", "RuntimeBound", 'b');
    right.claim_ceiling = "BroaderClaim".into();
    assert!(matches!(
        AggregateReleasePacket::from_envelopes("packet-1", &[left, right], 50),
        Err(Error::Rejected(_))
    ));
    assert!(matches!(
        AggregateReleasePacket::from_envelopes("packet-1", &[], 50),
        Err(Error::Invalid(_))
    ));
}

#[test]
fn meet_is_commutative() {
    let mut left = envelope("left", "PolicyCompliance", 'b');
    left.guarantees = set_of(&["RuntimeBound", "PolicyCompliance"]);
    left.valid_until = 70;
    let mut right = envelope("right", "PolicyCompliance", 'a');
    right.assumptions = set_of(&["zeta", "alpha"]);
    let one = left.meet(&right).expect("meet");
    let two = right.meet(&left).expect("meet");
    assert_eq!(one.claim_id, two.claim_id);
    assert_eq!(one.valid_until, 70);
    assert_eq!(two.valid_until, 70);
    assert_eq!(one.evidence_digests.len(), 2);
    assert_eq!(one.assumptions.len(), 3);
}
