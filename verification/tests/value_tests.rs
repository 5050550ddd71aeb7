use pact_core::value::{from_canonical, to_canonical, DynamicValue, JsonValue};

fn sample_nested_value() -> DynamicValue {
    DynamicValue::Mapping(vec![
        ("flag".to_string(), DynamicValue::Boolean(true)),
        ("count".to_string(), DynamicValue::Integer(-42)),
        (
            "ratio".to_string(),
            DynamicValue::Float(0.5f64.to_bits(), "0.5".to_string()),
        ),
        ("name".to_string(), DynamicValue::Text("señor".to_string())),
        (
            "items".to_string(),
            DynamicValue::Sequence(vec![
                DynamicValue::Integer(1),
                DynamicValue::Absent,
                DynamicValue::Text("two".to_string()),
            ]),
        ),
        (
            "inner".to_string(),
            DynamicValue::Mapping(vec![(
                "deep".to_string(),
                DynamicValue::Sequence(vec![DynamicValue::Boolean(false)]),
            )]),
        ),
    ])
}

#[test]
fn round_trip_preserves_nested_values() {
    let v = sample_nested_value();
    let canonical = to_canonical(&v).expect("convertible value");
    let back = from_canonical(&canonical);
    assert_eq!(back, sample_nested_value());
}

#[test]
fn round_trip_keeps_sequence_order_and_key_order() {
    let v = DynamicValue::Mapping(vec![
        ("z".to_string(), DynamicValue::Integer(1)),
        ("a".to_string(), DynamicValue::Integer(2)),
        ("z".to_string(), DynamicValue::Integer(3)),
    ]);
    let back = from_canonical(&to_canonical(&v).unwrap());
    match back {
        DynamicValue::Mapping(entries) => {
            let keys: Vec<&str> = entries.iter().map(|e| e.0.as_str()).collect();
            assert_eq!(keys, vec!["z", "a", "z"]);
        }
        other => panic!("expected a mapping, got {:?}", other),
    }
}

#[test]
fn integer_and_float_stay_distinct() {
    let int_node = to_canonical(&DynamicValue::Integer(5)).unwrap();
    assert_eq!(int_node, JsonValue::Int(5));
    let float_node =
        to_canonical(&DynamicValue::Float(5.0f64.to_bits(), "5.0".to_string())).unwrap();
    assert_eq!(
        float_node,
        JsonValue::Float(5.0f64.to_bits(), "5.0".to_string())
    );
    assert_eq!(from_canonical(&int_node), DynamicValue::Integer(5));
    assert_eq!(
        from_canonical(&float_node),
        DynamicValue::Float(5.0f64.to_bits(), "5.0".to_string())
    );
}

#[test]
fn opaque_value_reports_its_type_name() {
    let v = DynamicValue::Opaque("module.Widget".to_string());
    let err = to_canonical(&v).unwrap_err();
    assert_eq!(err.offending_type, "module.Widget");
}

#[test]
fn first_offending_value_is_reported() {
    let v = DynamicValue::Sequence(vec![
        DynamicValue::Integer(1),
        DynamicValue::Opaque("first.Bad".to_string()),
        DynamicValue::Opaque("second.Bad".to_string()),
    ]);
    let err = to_canonical(&v).unwrap_err();
    assert_eq!(err.offending_type, "first.Bad");
}

#[test]
fn nested_opaque_in_mapping_fails() {
    let v = DynamicValue::Mapping(vec![(
        "k".to_string(),
        DynamicValue::Opaque("socket.Socket".to_string()),
    )]);
    assert!(to_canonical(&v).is_err());
}

#[test]
fn non_finite_float_collapses_to_null() {
    let v = DynamicValue::Float(f64::NAN.to_bits(), "NaN".to_string());
    assert_eq!(to_canonical(&v).unwrap(), JsonValue::Null);
    let v = DynamicValue::Float(f64::INFINITY.to_bits(), "inf".to_string());
    assert_eq!(to_canonical(&v).unwrap(), JsonValue::Null);
}

#[test]
fn null_comes_back_as_absent() {
    assert_eq!(from_canonical(&JsonValue::Null), DynamicValue::Absent);
}

#[test]
fn shape_names_match_diagnostic_vocabulary() {
    assert_eq!(DynamicValue::Absent.shape_name(), "null");
    assert_eq!(DynamicValue::Boolean(true).shape_name(), "boolean");
    assert_eq!(DynamicValue::Integer(0).shape_name(), "integer");
    assert_eq!(DynamicValue::Text(String::new()).shape_name(), "string");
    assert_eq!(DynamicValue::Sequence(vec![]).shape_name(), "sequence");
    assert_eq!(DynamicValue::Mapping(vec![]).shape_name(), "mapping");
    assert_eq!(
        DynamicValue::Opaque("a.B".to_string()).shape_name(),
        "a.B"
    );
}
