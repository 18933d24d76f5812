use security_alignment_os::collections::TextSet;
use security_alignment_os::digest_bytes;
use security_alignment_os::json::JsonValue;
use security_alignment_os::memory::{MemoryRecord, PersistentMemory};
use security_alignment_os::specialist::{ConsentGrant, SpecialistIdentity, SpecialistRegistry};

fn setup() -> (SpecialistRegistry, ConsentGrant) {
    let identity = SpecialistIdentity {
        specialist_id: "memory-specialist".into(),
        version: "1".into(),
        code_digest: "c".repeat(64),
        policy_digest: "d".repeat(64),
        issued_at: 0,
    };
    let mut registry = SpecialistRegistry::default();
    registry.register(identity).unwrap();
    let grant = ConsentGrant::new(
        "tenant".into(),
        "memory-specialist".into(),
        TextSet::from_texts(&["note".to_string()]),
        0,
        100,
    )
    .unwrap();
    (registry, grant)
}

fn value() -> JsonValue {
    JsonValue::Object(vec![
        ("kind".to_string(), JsonValue::Text("local".into())),
        ("number".to_string(), JsonValue::PosInt(7)),
    ])
}

#[test]
fn memory_requires_consent_and_gives_back_what_was_put() {
    let (registry, grant) = setup();
    let mut memory = PersistentMemory::new("/tmp/memory.json");
    assert!(memory.is_empty());
    let d = memory.put(&registry, &grant, "note", value(), 1).unwrap();
    assert_eq!(d, digest_bytes(b"{\"kind\":\"local\",\"number\":7}"));
    assert_eq!(memory.len(), 1);
    assert_eq!(memory.retrieve(&registry, &grant, "note", 1).unwrap(), value());
    assert!(memory.retrieve(&registry, &grant, "missing", 1).is_err());
    assert!(memory.retrieve(&registry, &grant, "note", 100).is_err());
    let mut forged = grant.clone();
    forged.grant_id = "f".repeat(64);
    assert!(memory.retrieve(&registry, &forged, "note", 1).is_err());
    assert!(memory.put(&registry, &grant, "other", value(), 1).is_err());
    assert_eq!(memory.len(), 1);
}

#[test]
fn memory_records_round_trip_and_reject_duplicates() {
    let (registry, grant) = setup();
    let mut memory = PersistentMemory::new("/tmp/memory.json");
    memory.put(&registry, &grant, "note", value(), 1).unwrap();
    let records = memory.records();
    assert_eq!(records.len(), 1);
    assert_eq!(records[0].tenant_id, "tenant");
    assert_eq!(records[0].resource_id, "note");
    let reloaded = PersistentMemory::from_records("/tmp/memory.json", records.clone()).unwrap();
    assert_eq!(reloaded.retrieve(&registry, &grant, "note", 1).unwrap(), value());
    let mut twice = records.clone();
    twice.push(records[0].clone());
    assert!(PersistentMemory::from_records("/tmp/memory.json", twice).is_err());
    let mut tampered = records.clone();
    tampered[0].value = JsonValue::PosInt(8);
    assert!(PersistentMemory::from_records("/tmp/memory.json", tampered).is_err());
    let empty_resource = MemoryRecord {
        resource_id: String::new(),
        ..records[0].clone()
    };
    assert!(PersistentMemory::from_records("/tmp/memory.json", vec![empty_resource]).is_err());
}

#[test]
fn restore_undoes_a_write_and_delete_is_bound_to_the_grant() {
    let (registry, grant) = setup();
    let mut memory = PersistentMemory::new("/tmp/memory.json");
    let previous = memory.record("tenant", "note");
    memory.put(&registry, &grant, "note", value(), 1).unwrap();
    memory.restore("tenant", "note", previous);
    assert!(memory.is_empty());
    memory.put(&registry, &grant, "note", value(), 1).unwrap();
    let mut forged = grant.clone();
    forged.grant_id = "f".repeat(64);
    assert!(memory.delete(&registry, &forged, "note", 1).is_err());
    assert_eq!(memory.delete(&registry, &grant, "note", 1).unwrap(), true);
    assert_eq!(memory.delete(&registry, &grant, "note", 1).unwrap(), false);
    assert!(memory.is_empty());
}
