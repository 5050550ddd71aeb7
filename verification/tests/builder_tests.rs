use pact_core::builder::{BuilderError, BuilderState, InteractionBuilder};
use pact_core::pact::{MatchRule, OptionalBody, RuleLogic};
use pact_core::value::DynamicValue;

fn empty_mapping() -> DynamicValue {
    DynamicValue::Mapping(vec![])
}

fn builder() -> InteractionBuilder {
    InteractionBuilder::new("C", "P", "1.2.3")
}

#[test]
fn scenario_one_full_interaction() {
    let mut b = builder();
    b.given("is-authenticated", &empty_mapping()).unwrap();
    b.upon_receiving("a request");
    b.with_request(
        "GET",
        &DynamicValue::Text("/items".to_string()),
        &empty_mapping(),
        &empty_mapping(),
        &DynamicValue::Absent,
    )
    .unwrap();
    b.will_respond_with(
        200,
        &empty_mapping(),
        &DynamicValue::Mapping(vec![("ok".to_string(), DynamicValue::Boolean(true))]),
    )
    .unwrap();

    assert_eq!(b.pact.consumer, "C");
    assert_eq!(b.pact.provider, "P");
    assert_eq!(b.pact.interactions.len(), 1);
    let it = &b.pact.interactions[0];
    assert_eq!(it.description, "a request");
    assert_eq!(it.provider_states.len(), 1);
    assert_eq!(it.provider_states[0].name, "is-authenticated");
    assert!(it.provider_states[0].params.is_empty());
    assert_eq!(it.request.method, "GET");
    assert_eq!(it.request.path, "/items");
    assert_eq!(it.response.status, 200);
    match &it.response.body {
        OptionalBody::Present(bytes, ct) => {
            assert_eq!(bytes, &b"{\"ok\":true}".to_vec());
            assert_eq!(ct.as_deref(), Some("application/json"));
        }
        other => panic!("expected a present body, got {:?}", other),
    }
    let headers = it.response.headers.as_ref().expect("content type header");
    assert_eq!(
        headers,
        &vec![("Content-Type".to_string(), vec!["application/json".to_string()])]
    );
    assert!(matches!(b.state, BuilderState::Idle));
}

#[test]
fn with_request_twice_mutates_the_same_interaction() {
    let mut b = builder();
    b.with_request(
        "GET",
        &DynamicValue::Text("/one".to_string()),
        &DynamicValue::Absent,
        &DynamicValue::Absent,
        &DynamicValue::Absent,
    )
    .unwrap();
    b.with_request(
        "POST",
        &DynamicValue::Text("/two".to_string()),
        &DynamicValue::Absent,
        &DynamicValue::Absent,
        &DynamicValue::Absent,
    )
    .unwrap();
    assert_eq!(b.pact.interactions.len(), 1);
    assert_eq!(b.pact.interactions[0].request.method, "POST");
    assert_eq!(b.pact.interactions[0].request.path, "/two");
}

#[test]
fn responding_closes_and_the_next_verb_appends() {
    let mut b = builder();
    b.upon_receiving("first");
    b.will_respond_with(204, &DynamicValue::Absent, &DynamicValue::Absent)
        .unwrap();
    assert!(matches!(b.state, BuilderState::Idle));
    b.upon_receiving("second");
    assert_eq!(b.pact.interactions.len(), 2);
    assert_eq!(b.pact.interactions[0].description, "first");
    assert_eq!(b.pact.interactions[1].description, "second");
    assert!(matches!(b.state, BuilderState::Building(1)));
}

#[test]
fn query_must_be_a_mapping() {
    let mut b = builder();
    let r = b.with_request(
        "GET",
        &DynamicValue::Absent,
        &DynamicValue::Integer(7),
        &DynamicValue::Absent,
        &DynamicValue::Absent,
    );
    match r {
        Err(BuilderError::InvalidArgumentType {
            parameter,
            expected,
            actual,
        }) => {
            assert_eq!(parameter, "query");
            assert_eq!(expected, "mapping");
            assert_eq!(actual, "integer");
        }
        other => panic!("expected an invalid-argument error, got {:?}", other),
    }
    assert!(b.pact.interactions.is_empty());
}

#[test]
fn string_header_values_become_single_rows_and_others_drop() {
    let mut b = builder();
    b.with_request(
        "GET",
        &DynamicValue::Absent,
        &DynamicValue::Absent,
        &DynamicValue::Mapping(vec![
            ("X-One".to_string(), DynamicValue::Text("1".to_string())),
            ("X-Two".to_string(), DynamicValue::Integer(2)),
        ]),
        &DynamicValue::Absent,
    )
    .unwrap();
    let headers = b.pact.interactions[0].request.headers.as_ref().unwrap();
    assert_eq!(
        headers,
        &vec![
            ("X-One".to_string(), vec!["1".to_string()]),
            ("X-Two".to_string(), vec![]),
        ]
    );
}

#[test]
fn empty_query_mapping_leaves_query_unset() {
    let mut b = builder();
    b.with_request(
        "GET",
        &DynamicValue::Absent,
        &empty_mapping(),
        &DynamicValue::Absent,
        &DynamicValue::Absent,
    )
    .unwrap();
    assert!(b.pact.interactions[0].request.query.is_none());
}

#[test]
fn string_body_is_stored_verbatim() {
    let mut b = builder();
    b.with_request(
        "POST",
        &DynamicValue::Absent,
        &DynamicValue::Absent,
        &DynamicValue::Absent,
        &DynamicValue::Text("plain payload".to_string()),
    )
    .unwrap();
    match &b.pact.interactions[0].request.body {
        OptionalBody::Present(bytes, ct) => {
            assert_eq!(bytes, &b"plain payload".to_vec());
            assert!(ct.is_none());
        }
        other => panic!("expected a present body, got {:?}", other),
    }
}

#[test]
fn boolean_body_is_unsupported() {
    let mut b = builder();
    let r = b.with_request(
        "POST",
        &DynamicValue::Absent,
        &DynamicValue::Absent,
        &DynamicValue::Absent,
        &DynamicValue::Boolean(true),
    );
    match r {
        Err(BuilderError::UnsupportedBodyType { actual }) => assert_eq!(actual, "boolean"),
        other => panic!("expected an unsupported-body error, got {:?}", other),
    }
}

#[test]
fn opaque_inside_body_propagates_conversion_error() {
    let mut b = builder();
    let r = b.will_respond_with(
        500,
        &DynamicValue::Absent,
        &DynamicValue::Mapping(vec![(
            "bad".to_string(),
            DynamicValue::Opaque("module.Thing".to_string()),
        )]),
    );
    match r {
        Err(BuilderError::Conversion(e)) => assert_eq!(e.offending_type, "module.Thing"),
        other => panic!("expected a conversion error, got {:?}", other),
    }
    assert!(matches!(b.state, BuilderState::Idle));
}

#[test]
fn declared_content_type_takes_precedence_over_inference() {
    let mut b = builder();
    b.with_request(
        "POST",
        &DynamicValue::Absent,
        &DynamicValue::Absent,
        &DynamicValue::Mapping(vec![(
            "Content-Type".to_string(),
            DynamicValue::Text("text/plain".to_string()),
        )]),
        &DynamicValue::Mapping(vec![("n".to_string(), DynamicValue::Integer(1))]),
    )
    .unwrap();
    let req = &b.pact.interactions[0].request;
    match &req.body {
        OptionalBody::Present(bytes, ct) => {
            assert_eq!(bytes, &b"{\"n\":1}".to_vec());
            assert_eq!(ct.as_deref(), Some("text/plain"));
        }
        other => panic!("expected a present body, got {:?}", other),
    }
    // The declaration suppresses the inferred value: the header is kept.
    let headers = req.headers.as_ref().unwrap();
    assert_eq!(
        headers,
        &vec![("Content-Type".to_string(), vec!["text/plain".to_string()])]
    );
}

#[test]
fn binary_file_sets_body_rule_and_default_header() {
    let mut b = builder();
    b.add_request_binary_file(
        "image/png",
        "/tmp/cat.png",
        Ok(vec![0x89, 0x50, 0x4e, 0x47]),
        "POST",
        &DynamicValue::Text("/upload".to_string()),
        &DynamicValue::Absent,
        &DynamicValue::Absent,
    )
    .unwrap();
    let req = &b.pact.interactions[0].request;
    match &req.body {
        OptionalBody::Present(bytes, ct) => {
            assert_eq!(bytes, &vec![0x89, 0x50, 0x4e, 0x47]);
            assert!(ct.is_none());
        }
        other => panic!("expected a present body, got {:?}", other),
    }
    let body_category = req
        .matching_rules
        .categories
        .iter()
        .find(|c| c.name == "body")
        .expect("body category");
    assert_eq!(body_category.rules.len(), 1);
    assert_eq!(body_category.rules[0].path, "$");
    assert_eq!(
        body_category.rules[0].rule,
        MatchRule::ContentType("image/png".to_string())
    );
    assert!(matches!(body_category.rules[0].logic, RuleLogic::RequireAll));
    let headers = req.headers.as_ref().unwrap();
    assert_eq!(
        headers,
        &vec![(
            "Content-Type".to_string(),
            vec!["application/octet-stream".to_string()]
        )]
    );
}

#[test]
fn binary_file_keeps_an_explicit_content_type_header() {
    let mut b = builder();
    b.add_request_binary_file(
        "image/png",
        "/tmp/cat.png",
        Ok(vec![1]),
        "POST",
        &DynamicValue::Absent,
        &DynamicValue::Absent,
        &DynamicValue::Mapping(vec![(
            "Content-Type".to_string(),
            DynamicValue::Text("image/png".to_string()),
        )]),
    )
    .unwrap();
    let headers = b.pact.interactions[0].request.headers.as_ref().unwrap();
    assert_eq!(
        headers,
        &vec![("Content-Type".to_string(), vec!["image/png".to_string()])]
    );
}

#[test]
fn unreadable_file_reports_the_cause() {
    let mut b = builder();
    let r = b.add_request_binary_file(
        "image/png",
        "/nowhere/cat.png",
        Err("no such file or directory".to_string()),
        "POST",
        &DynamicValue::Absent,
        &DynamicValue::Absent,
        &DynamicValue::Absent,
    );
    match r {
        Err(BuilderError::FileRead { path, cause }) => {
            assert_eq!(path, "/nowhere/cat.png");
            assert_eq!(cause, "no such file or directory");
        }
        other => panic!("expected a file-read error, got {:?}", other),
    }
    // The field phase was applied; the body stayed untouched.
    assert_eq!(b.pact.interactions.len(), 1);
    assert!(matches!(
        b.pact.interactions[0].request.body,
        OptionalBody::Missing
    ));
}

#[test]
fn given_converts_parameters_to_canonical_json() {
    let mut b = builder();
    b.given(
        "user exists",
        &DynamicValue::Mapping(vec![(
            "id".to_string(),
            DynamicValue::Integer(7),
        )]),
    )
    .unwrap();
    let ps = &b.pact.interactions[0].provider_states[0];
    assert_eq!(ps.name, "user exists");
    assert_eq!(ps.params.len(), 1);
    assert_eq!(ps.params[0].0, "id");
    assert_eq!(ps.params[0].1, pact_core::value::JsonValue::Int(7));
}

#[test]
fn given_rejects_non_mapping_parameters() {
    let mut b = builder();
    let r = b.given("state", &DynamicValue::Text("oops".to_string()));
    match r {
        Err(BuilderError::InvalidArgumentType { parameter, actual, .. }) => {
            assert_eq!(parameter, "params");
            assert_eq!(actual, "string");
        }
        other => panic!("expected an invalid-argument error, got {:?}", other),
    }
    assert!(b.pact.interactions.is_empty());
}
