use oas3_gen::ast::{
    EnumDef, OperationInfo, OperationKind, OperationParameter, ParameterLocation, RustType,
};
use oas3_gen::report::GenerationWarning;
use oas3_gen::statistics::{
    collect_stats, count_client, count_orphaned, count_types, count_unique_headers, count_webhooks,
};

fn parameter(name: Option<&str>, location: Option<ParameterLocation>) -> OperationParameter {
    OperationParameter {
        original_name: name.map(str::to_owned),
        parameter_location: location,
    }
}

fn operation(kind: OperationKind, parameters: Vec<OperationParameter>) -> OperationInfo<()> {
    OperationInfo {
        operation_id: "op".to_owned(),
        kind,
        parameters,
        warnings: Vec::new(),
        detail: (),
    }
}

fn plain_enum(methods: &[&str]) -> RustType<u8> {
    RustType::Enum(EnumDef {
        definition: 0,
        methods: methods.iter().map(|name| name.to_string()).collect(),
    })
}

fn schema_failed() -> GenerationWarning {
    GenerationWarning::SchemaConversionFailed {
        schema_name: "Pet".to_owned(),
        error: "no type".to_owned(),
    }
}

fn operation_failed() -> GenerationWarning {
    GenerationWarning::OperationConversionFailed {
        method: "GET".to_owned(),
        path: "/pets".to_owned(),
        error: "no response".to_owned(),
    }
}

fn operation_specific() -> GenerationWarning {
    GenerationWarning::OperationSpecific {
        operation_id: "list_pets".to_owned(),
        message: "no examples".to_owned(),
    }
}

#[test]
fn failed_conversions_are_skipped_items() {
    assert!(schema_failed().is_skipped_item());
    assert!(operation_failed().is_skipped_item());
    assert!(!operation_specific().is_skipped_item());
}

#[test]
fn warnings_in_words() {
    assert_eq!(schema_failed().to_string(), "Failed to convert schema 'Pet': no type");
    assert_eq!(
        operation_failed().to_string(),
        "Failed to convert operation 'GET /pets': no response"
    );
    assert_eq!(operation_specific().to_string(), "[list_pets] no examples");
}

#[test]
fn types_are_counted_by_sort() {
    let types = vec![
        RustType::Struct(1),
        plain_enum(&[]),
        plain_enum(&["new_cat", "new_dog"]),
        RustType::DiscriminatedEnum(2),
        RustType::ResponseEnum(3),
        RustType::TypeAlias(4),
        RustType::Struct(5),
    ];
    let counts = count_types(&types);
    assert_eq!(counts.structs, 2);
    assert_eq!(counts.enums, 4);
    assert_eq!(counts.enums_with_helpers, 1);
    assert_eq!(counts.type_aliases, 1);
}

#[test]
fn no_types_no_counts() {
    let counts = count_types::<u8>(&Vec::new());
    assert_eq!(
        (counts.structs, counts.enums, counts.enums_with_helpers, counts.type_aliases),
        (0, 0, 0, 0)
    );
}

#[test]
fn webhooks_are_counted() {
    let operations = vec![
        operation(OperationKind::Http, Vec::new()),
        operation(OperationKind::Webhook, Vec::new()),
        operation(OperationKind::Webhook, Vec::new()),
    ];
    assert_eq!(count_webhooks(&operations), 2);
    assert_eq!(count_webhooks::<()>(&Vec::new()), 0);
}

#[test]
fn headers_are_counted_once_whatever_their_case() {
    let header = Some(ParameterLocation::Header);
    let operations = vec![
        operation(
            OperationKind::Http,
            vec![
                parameter(Some("X-Request-Id"), header),
                parameter(Some("X-REQUEST-ID"), header),
                parameter(Some("limit"), Some(ParameterLocation::Query)),
            ],
        ),
        operation(
            OperationKind::Http,
            vec![
                parameter(Some("x-request-id"), header),
                parameter(Some("X-Trace"), header),
                parameter(None, header),
                parameter(Some("X-Other"), None),
                parameter(Some("id"), Some(ParameterLocation::Path)),
                parameter(Some("session"), Some(ParameterLocation::Cookie)),
            ],
        ),
    ];
    assert_eq!(count_unique_headers(&operations), 2);
}

#[test]
fn headers_ignore_the_case_of_ascii_letters_alone() {
    let header = Some(ParameterLocation::Header);
    let operations = vec![operation(
        OperationKind::Http,
        vec![
            parameter(Some("X-\u{c4}"), header),
            parameter(Some("x-\u{e4}"), header),
            parameter(Some("x-\u{c4}"), header),
        ],
    )];
    assert_eq!(count_unique_headers(&operations), 2);
}

#[test]
fn no_operations_no_headers() {
    assert_eq!(count_unique_headers::<()>(&[]), 0);
}

#[test]
fn orphaned_schemas_are_those_not_reached() {
    assert_eq!(count_orphaned(10, Some(4)), 6);
    assert_eq!(count_orphaned(4, Some(4)), 0);
    assert_eq!(count_orphaned(4, Some(10)), 0);
    assert_eq!(count_orphaned(10, None), 0);
    assert_eq!(count_orphaned(10, Some(0)), 10);
}

#[test]
fn statistics_describe_a_run() {
    let types = vec![RustType::Struct(1), plain_enum(&["new"]), RustType::TypeAlias(2)];
    let operations = vec![
        operation(OperationKind::Http, Vec::new()),
        operation(OperationKind::Webhook, Vec::new()),
    ];
    let cycles = vec![vec!["A".to_owned(), "B".to_owned()]];
    let stats = collect_stats(&types, &operations, cycles.clone(), vec![schema_failed()], 3);
    assert_eq!(stats.types_generated, 3);
    assert_eq!(stats.structs_generated, 1);
    assert_eq!(stats.enums_generated, 1);
    assert_eq!(stats.enums_with_helpers_generated, 1);
    assert_eq!(stats.type_aliases_generated, 1);
    assert_eq!(stats.operations_converted, 2);
    assert_eq!(stats.webhooks_converted, 1);
    assert_eq!(stats.cycles_detected, 1);
    assert_eq!(stats.cycle_details, cycles);
    assert_eq!(stats.warnings.len(), 1);
    assert!(stats.warnings[0].is_skipped_item());
    assert_eq!(stats.orphaned_schemas_count, 3);
    assert_eq!(stats.client_methods_generated, None);
    assert_eq!(stats.client_headers_generated, None);
    assert_eq!(
        stats.types_generated,
        stats.structs_generated + stats.enums_generated + stats.type_aliases_generated
    );
}

#[test]
fn client_counts_are_added() {
    let types = vec![RustType::Struct(1)];
    let operations = vec![operation(
        OperationKind::Http,
        vec![
            parameter(Some("A"), Some(ParameterLocation::Header)),
            parameter(Some("b"), Some(ParameterLocation::Header)),
        ],
    )];
    let stats = collect_stats(&types, &operations, Vec::new(), vec![operation_specific()], 7);
    let counted = count_client(stats, &operations);
    assert_eq!(counted.client_methods_generated, Some(1));
    assert_eq!(counted.client_headers_generated, Some(2));
    assert_eq!(counted.types_generated, 1);
    assert_eq!(counted.orphaned_schemas_count, 7);
    assert_eq!(counted.warnings.len(), 1);
}
