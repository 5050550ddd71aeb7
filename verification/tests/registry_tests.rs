use pact_core::builder::InteractionBuilder;
use pact_core::registry::{MockServerRegistry, RegistryError};
use pact_core::value::{DynamicValue, JsonValue};

fn one_interaction_pact() -> pact_core::pact::Pact {
    let mut b = InteractionBuilder::new("C", "P", "0.0.0");
    b.upon_receiving("only");
    b.will_respond_with(200, &DynamicValue::Absent, &DynamicValue::Absent)
        .unwrap();
    b.snapshot_pact()
}

#[test]
fn shutdown_twice_returns_true_then_false() {
    let mut reg = MockServerRegistry::new();
    let pact = one_interaction_pact();
    let handle = reg.start(&pact, Ok(4321)).unwrap();
    assert!(reg.shutdown(&handle.id));
    assert!(!reg.shutdown(&handle.id));
    match reg.get_test_result(&handle.id) {
        Err(RegistryError::NotFound { id }) => assert_eq!(id, handle.id),
        other => panic!("expected not-found after shutdown, got {:?}", other),
    }
    match reg.prepare_write(&handle.id, &DynamicValue::Absent, &DynamicValue::Absent) {
        Err(RegistryError::NotFound { .. }) => {}
        other => panic!("expected not-found after shutdown, got {:?}", other),
    }
}

#[test]
fn shutdown_of_an_unknown_id_returns_false() {
    let mut reg = MockServerRegistry::new();
    assert!(!reg.shutdown(&"never-registered".to_string()));
}

#[test]
fn snapshot_isolation_after_start() {
    let mut reg = MockServerRegistry::new();
    let mut b = InteractionBuilder::new("C", "P", "0.0.0");
    b.upon_receiving("first");
    b.will_respond_with(200, &DynamicValue::Absent, &DynamicValue::Absent)
        .unwrap();
    let handle = b.start_mock_server(&mut reg, Ok(7001)).unwrap();

    // Mutating the builder afterwards must not change what the handle sees.
    b.upon_receiving("second");
    b.will_respond_with(500, &DynamicValue::Absent, &DynamicValue::Absent)
        .unwrap();
    assert_eq!(b.pact.interactions.len(), 2);

    let plan = reg
        .prepare_write(&handle.id, &DynamicValue::Absent, &DynamicValue::Absent)
        .unwrap();
    assert_eq!(plan.pact.interactions.len(), 1);
    assert_eq!(plan.pact.interactions[0].description, "first");
    assert_eq!(reg.get_test_result(&handle.id).unwrap(), None);
}

#[test]
fn bind_failure_registers_nothing() {
    let mut reg = MockServerRegistry::new();
    let pact = one_interaction_pact();
    let err = reg
        .start(&pact, Err("address already in use".to_string()))
        .unwrap_err();
    assert_eq!(err.cause, "address already in use");
    assert_eq!(reg.instance_count(), 0);
}

#[test]
fn handles_carry_port_id_and_url() {
    let mut reg = MockServerRegistry::new();
    let pact = one_interaction_pact();
    let handle = reg.start(&pact, Ok(1234)).unwrap();
    assert_eq!(handle.get_port(), 1234);
    assert_eq!(handle.get_id().len(), 36);
    assert_eq!(handle.get_url(), "http://127.0.0.1:1234");
    let second = reg.start(&pact, Ok(1235)).unwrap();
    assert_ne!(handle.get_id(), second.get_id());
    assert_eq!(reg.instance_count(), 2);
}

#[test]
fn mismatches_come_back_as_dynamic_values() {
    let mut reg = MockServerRegistry::new();
    let pact = one_interaction_pact();
    let handle = reg.start(&pact, Ok(9000)).unwrap();
    assert_eq!(reg.get_test_result(&handle.id).unwrap(), None);

    let record = JsonValue::Object(vec![(
        "mismatch".to_string(),
        JsonValue::Text("status".to_string()),
    )]);
    assert!(reg.record_mismatch(&handle.id, record));
    let report = reg.get_test_result(&handle.id).unwrap().unwrap();
    assert_eq!(
        report,
        vec![DynamicValue::Mapping(vec![(
            "mismatch".to_string(),
            DynamicValue::Text("status".to_string()),
        )])]
    );
    assert!(!reg.record_mismatch(&"unknown".to_string(), JsonValue::Null));
}

#[test]
fn write_plan_resolves_directory_and_overwrite() {
    let mut reg = MockServerRegistry::new();
    let pact = one_interaction_pact();
    let handle = reg.start(&pact, Ok(9001)).unwrap();

    let plan = reg
        .prepare_write(
            &handle.id,
            &DynamicValue::Text("/tmp/pacts".to_string()),
            &DynamicValue::Boolean(true),
        )
        .unwrap();
    assert_eq!(plan.directory.as_deref(), Some("/tmp/pacts"));
    assert!(plan.overwrite);

    let plan = reg
        .prepare_write(
            &handle.id,
            &DynamicValue::Text(String::new()),
            &DynamicValue::Integer(1),
        )
        .unwrap();
    assert!(plan.directory.is_none());
    assert!(!plan.overwrite);
}
