use security_alignment_os::schema::{SchemaDescriptor, SchemaRegistry};

fn descriptor() -> SchemaDescriptor {
    SchemaDescriptor {
        schema_id: "proposal-v1".into(),
        version: 1,
        schema_digest: "a".repeat(64),
    }
}

#[test]
fn exact_schema_identity_is_required() {
    let item = descriptor();
    let mut registry = SchemaRegistry::default();
    registry.register(item.clone()).expect("register");
    assert_eq!(registry.len(), 1);
    assert_eq!(
        registry
            .require("proposal-v1", 1, &item.schema_digest)
            .expect("require"),
        &item
    );
    assert!(registry.require("proposal-v1", 1, &"b".repeat(64)).is_err());
    assert!(registry
        .require("proposal-v1", 2, &item.schema_digest)
        .is_err());
}

#[test]
fn malformed_and_duplicate_descriptors_fail_closed() {
    let mut registry = SchemaRegistry::default();
    let mut malformed = descriptor();
    malformed.version = 0;
    assert!(registry.register(malformed).is_err());
    let item = descriptor();
    registry.register(item.clone()).expect("register");
    assert!(registry.register(item).is_err());
    assert!(registry
        .register(SchemaDescriptor {
            schema_id: "proposal v1".into(),
            version: 2,
            schema_digest: "b".repeat(64),
        })
        .is_err());
}

#[test]
fn a_new_version_of_a_schema_registers_separately() {
    let mut registry = SchemaRegistry::new();
    registry.register(descriptor()).unwrap();
    let mut second = descriptor();
    second.version = 2;
    second.schema_digest = "b".repeat(64);
    registry.register(second).unwrap();
    assert_eq!(registry.len(), 2);
    assert!(registry.get("proposal-v1", 2).is_some());
    assert!(registry.get("proposal-v2", 1).is_none());
}
