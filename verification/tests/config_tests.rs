use pact_core::config::{
    classify_source, generate_datetime_string, is_url_source, setup_provider_config, ConfigError,
    FilterSpec, NoopProviderStateExecutor, PactSource,
};
use pact_core::pact::ProviderState;
use pact_core::value::DynamicValue;

#[test]
fn an_invalid_base_url_is_rejected() {
    let r = setup_provider_config("provider", "not a url", &DynamicValue::Mapping(vec![]));
    match r {
        Err(ConfigError::InvalidBaseUrl { cause }) => assert!(!cause.is_empty()),
        other => panic!("expected an invalid-base-url error, got {:?}", other),
    }
}

#[test]
fn provider_coordinates_come_from_the_url() {
    let (req, warnings) = setup_provider_config(
        "orders",
        "http://broker.example:8080/api",
        &DynamicValue::Mapping(vec![]),
    )
    .unwrap();
    assert_eq!(req.provider.name, "orders");
    assert_eq!(req.provider.protocol, "http");
    assert_eq!(req.provider.host, "broker.example");
    assert_eq!(req.provider.port, Some(8080));
    assert_eq!(req.provider.path, "/api");
    assert!(matches!(req.filter, FilterSpec::NoFilter));
    assert!(req.consumers.is_empty());
    assert!(req.sources.is_empty());
    assert!(warnings.is_empty());
    assert!(!req.options.publish);
    assert_eq!(req.options.callback_timeout_ms, 5000);
}

#[test]
fn an_absent_host_defaults_to_localhost() {
    let (req, _) = setup_provider_config(
        "p",
        "mailto:someone@example.org",
        &DynamicValue::Mapping(vec![]),
    )
    .unwrap();
    assert_eq!(req.provider.host, "localhost");
    assert!(req.provider.port.is_none());
}

#[test]
fn source_strings_classify_by_scheme_prefix() {
    assert!(is_url_source("https://broker.example/pacts/1"));
    assert!(!is_url_source("./pacts/consumer-provider.json"));
    assert_eq!(
        classify_source("https://broker.example/pacts/1"),
        PactSource::Url("https://broker.example/pacts/1".to_string(), None)
    );
    assert_eq!(
        classify_source("./pacts/consumer-provider.json"),
        PactSource::File("./pacts/consumer-provider.json".to_string())
    );
    assert!(is_url_source("s3://bucket/key"));
    assert!(!is_url_source("://no-scheme"));
    assert!(!is_url_source("plain-file.json"));
}

#[test]
fn sources_are_classified_and_non_strings_warned() {
    let bag = DynamicValue::Mapping(vec![(
        "sources".to_string(),
        DynamicValue::Sequence(vec![
            DynamicValue::Text("https://broker.example/pacts/1".to_string()),
            DynamicValue::Integer(3),
            DynamicValue::Text("./pacts/a-b.json".to_string()),
        ]),
    )]);
    let (req, warnings) = setup_provider_config("p", "http://localhost", &bag).unwrap();
    assert_eq!(
        req.sources,
        vec![
            PactSource::Url("https://broker.example/pacts/1".to_string(), None),
            PactSource::File("./pacts/a-b.json".to_string()),
        ]
    );
    assert_eq!(warnings.len(), 1);
}

#[test]
fn a_malformed_sources_entry_yields_no_sources_and_one_warning() {
    let bag = DynamicValue::Mapping(vec![(
        "sources".to_string(),
        DynamicValue::Integer(1),
    )]);
    let (req, warnings) = setup_provider_config("p", "http://localhost", &bag).unwrap();
    assert!(req.sources.is_empty());
    assert_eq!(warnings.len(), 1);
}

#[test]
fn a_non_mapping_bag_yields_no_sources() {
    let (req, warnings) =
        setup_provider_config("p", "http://localhost", &DynamicValue::Absent).unwrap();
    assert!(req.sources.is_empty());
    assert!(warnings.is_empty());
}

#[test]
fn datetime_generation_accepts_a_pattern_and_rejects_garbage() {
    let generated = generate_datetime_string("yyyy-MM-dd").unwrap();
    assert_eq!(generated.len(), 10);
    assert!(generate_datetime_string("HHHH").is_err());
}

#[test]
fn the_default_provider_state_collaborator_acknowledges_with_nothing() {
    let executor = NoopProviderStateExecutor::new();
    let state = ProviderState {
        name: "any".to_string(),
        params: vec![],
    };
    let result = executor.call(&None, &state, true).unwrap();
    assert!(result.is_empty());
}
