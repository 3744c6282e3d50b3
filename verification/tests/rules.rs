use openapi_lint::casing::Convention;
use openapi_lint::document::{
    AnySchema, Category, Components, Document, MediaType, ObjectType, Operation, Parameter,
    ParameterLocation, ParameterSchemaOrContent, RefOr, Response, Responses, Schema, SchemaKind,
    StatusCode, StringType, Type,
};
use openapi_lint::outcome::InputError;
use openapi_lint::registry::Registry;
use openapi_lint::rules::{
    check_doc_findings, check_doc_string, check_enum_value, check_operation_id,
    check_parameter_name, check_property_name, check_schema_name, check_segment,
    check_uuid_suffix, is_plain_uuid, is_trivial_null, Validator,
};

const NAMING: &str = "For more info, see https://github.com/oxidecomputer/openapi-lint#naming";
const MEMBER_NAMING: &str = "For more info see https://github.com/oxidecomputer/openapi-lint#naming";

fn snake() -> Validator {
    Validator::default()
}

fn camel() -> Validator {
    Validator { convention: Convention::CamelCase }
}

fn schema(kind: SchemaKind) -> Schema {
    Schema { title: None, description: None, kind }
}

fn reference<T>(target: &str) -> RefOr<T> {
    RefOr::Reference { reference: target.to_string() }
}

fn plain_string() -> StringType {
    StringType {
        format: None,
        pattern: None,
        enumeration: vec![],
        min_length: None,
        max_length: None,
    }
}

fn string() -> RefOr<Schema> {
    RefOr::Item(schema(SchemaKind::Type(Type::String(plain_string()))))
}

fn integer() -> RefOr<Schema> {
    RefOr::Item(schema(SchemaKind::Type(Type::Integer)))
}

fn uuid() -> RefOr<Schema> {
    RefOr::Item(schema(SchemaKind::Type(Type::String(StringType {
        format: Some("uuid".to_string()),
        ..plain_string()
    }))))
}

fn enumeration(values: Vec<Option<&str>>) -> Schema {
    schema(SchemaKind::Type(Type::String(StringType {
        enumeration: values.into_iter().map(|value| value.map(|v| v.to_string())).collect(),
        ..plain_string()
    })))
}

fn object(properties: Vec<(&str, RefOr<Schema>)>) -> Schema {
    schema(SchemaKind::Type(Type::Object(ObjectType {
        properties: properties.into_iter().map(|(name, value)| (name.to_string(), value)).collect(),
        additional_properties: None,
    })))
}

fn one_of(members: Vec<RefOr<Schema>>) -> Schema {
    schema(SchemaKind::OneOf { one_of: members })
}

fn registry<T>(entries: Vec<(&str, RefOr<T>)>) -> Registry<RefOr<T>> {
    let mut registry = Registry::new();
    for (name, value) in entries {
        registry.insert(name.to_string(), value);
    }
    registry
}

fn document(schemas: Vec<(&str, RefOr<Schema>)>) -> Document {
    Document {
        paths: vec![],
        components: Some(Components {
            schemas: registry(schemas),
            responses: registry(vec![(
                "Empty",
                RefOr::Item(Response {
                    content: vec![(
                        "application/json".to_string(),
                        MediaType { schema: Some(reference("#/components/schemas/Null")) },
                    )],
                }),
            )]),
            parameters: registry(vec![
                ("Limit", parameter("pageLimit")),
                ("Token", parameter("page_token")),
            ]),
            request_bodies: Registry::new(),
        }),
    }
}

fn bare() -> Document {
    Document { paths: vec![], components: None }
}

fn parameter(name: &str) -> RefOr<Parameter> {
    RefOr::Item(Parameter {
        name: name.to_string(),
        location: ParameterLocation::Query,
        format: ParameterSchemaOrContent::Schema(string()),
    })
}

fn operation(id: Option<&str>) -> Operation {
    Operation {
        operation_id: id.map(|id| id.to_string()),
        description: None,
        parameters: vec![],
        request_body: None,
        responses: Responses { default: None, responses: vec![] },
    }
}

fn json(schema: RefOr<Schema>) -> RefOr<Response> {
    RefOr::Item(Response {
        content: vec![("application/json".to_string(), MediaType { schema: Some(schema) })],
    })
}

fn unconstrained() -> AnySchema {
    AnySchema {
        typ: None,
        pattern: None,
        multiple_of: false,
        exclusive_minimum: None,
        exclusive_maximum: None,
        minimum: false,
        maximum: false,
        properties: vec![],
        required: vec![],
        additional_properties: None,
        min_properties: None,
        max_properties: None,
        items: None,
        min_items: None,
        max_items: None,
        unique_items: None,
        enumeration: vec![],
        format: None,
        min_length: None,
        max_length: None,
        one_of: vec![],
        all_of: vec![],
        any_of: vec![],
        not: None,
    }
}

fn mismatch(first: &str, other: &str) -> String {
    format!(
        "Mismatched types between subschemas; this is often due to enums with different data \
         payloads and can be resolved using serde adjacent tagging.\nthis schema's \
         type\n{}\ndiffers from this\n{}\n\nFor more info, see \
         https://github.com/oxidecomputer/openapi-lint#type-mismatch",
        first, other
    )
}

#[test]
fn the_leaves_of_a_composition_are_its_concrete_types() {
    let nested = one_of(vec![
        string(),
        RefOr::Item(schema(SchemaKind::AllOf {
            all_of: vec![
                RefOr::Item(schema(SchemaKind::Type(Type::Boolean))),
                RefOr::Item(schema(SchemaKind::AnyOf {
                    any_of: vec![
                        RefOr::Item(schema(SchemaKind::Type(Type::Number))),
                        RefOr::Item(schema(SchemaKind::Any(unconstrained()))),
                        RefOr::Item(object(vec![("ignored", integer())])),
                    ],
                })),
            ],
        })),
        reference("#/components/schemas/List"),
        integer(),
    ]);
    let list = schema(SchemaKind::Type(Type::Array(openapi_lint::document::ArrayType {
        items: None,
    })));
    let document = document(vec![("List", RefOr::Item(list))]);
    assert_eq!(
        snake().subschemas(&document, &nested),
        Ok(vec![
            Category::String,
            Category::Boolean,
            Category::Number,
            Category::Object,
            Category::Array,
            Category::Integer,
        ])
    );
}

#[test]
fn a_concrete_type_is_its_own_leaf() {
    let text = schema(SchemaKind::Type(Type::String(plain_string())));
    assert_eq!(snake().subschemas(&bare(), &text), Ok(vec![Category::String]));
    assert_eq!(snake().validate_subschemas(&bare(), &text), Ok(None));
}

#[test]
fn a_composition_of_one_category_is_accepted() {
    let same = one_of(vec![integer(), integer(), reference("#/components/schemas/Count")]);
    let document = document(vec![("Count", integer())]);
    assert_eq!(snake().validate_subschemas(&document, &same), Ok(None));
    assert_eq!(snake().validate_subschemas(&bare(), &one_of(vec![])), Ok(None));
    assert_eq!(snake().validate_subschemas(&bare(), &one_of(vec![string()])), Ok(None));
}

#[test]
fn the_first_leaf_and_the_first_that_differs_are_cited() {
    let mixed = one_of(vec![integer(), integer(), string(), RefOr::Item(object(vec![]))]);
    assert_eq!(
        snake().validate_subschemas(&bare(), &mixed),
        Ok(Some(mismatch("integer", "string")))
    );
}

#[test]
fn a_mismatch_behind_a_reference_is_found() {
    let mixed = schema(SchemaKind::AnyOf {
        any_of: vec![reference("#/components/schemas/Flag"), reference("#/components/schemas/Id")],
    });
    let document = document(vec![
        ("Id", integer()),
        ("Flag", RefOr::Item(schema(SchemaKind::Type(Type::Boolean)))),
    ]);
    assert_eq!(
        snake().validate_subschemas(&document, &mixed),
        Ok(Some(mismatch("boolean", "integer")))
    );
}

#[test]
fn a_composition_that_holds_itself_is_taken_apart_once() {
    let tree = one_of(vec![string(), reference("#/components/schemas/Tree"), integer()]);
    let document = document(vec![(
        "Tree",
        RefOr::Item(one_of(vec![string(), reference("#/components/schemas/Tree"), integer()])),
    )]);
    assert_eq!(
        snake().subschemas(&document, &tree),
        Ok(vec![
            Category::String,
            Category::String,
            Category::Integer,
            Category::Integer,
        ])
    );
}

#[test]
fn a_negation_cannot_be_taken_apart() {
    let negated = schema(SchemaKind::Not { not: Box::new(string()) });
    assert_eq!(snake().subschemas(&bare(), &negated), Err(InputError::Negation));
    let holder = one_of(vec![string(), RefOr::Item(negated)]);
    assert_eq!(snake().validate_subschemas(&bare(), &holder), Err(InputError::Negation));
}

#[test]
fn a_constrained_free_form_schema_cannot_be_taken_apart() {
    let free = schema(SchemaKind::Any(AnySchema { minimum: true, ..unconstrained() }));
    assert_eq!(snake().subschemas(&bare(), &free), Err(InputError::ConstrainedFreeForm));
}

#[test]
fn a_member_that_cannot_be_resolved_stops_the_rule() {
    let union = one_of(vec![reference("#/components/schemas/Missing")]);
    assert_eq!(
        snake().validate_subschemas(&document(vec![]), &union),
        Err(InputError::DanglingReference)
    );
    assert_eq!(
        snake().validate_subschemas(&bare(), &union),
        Err(InputError::MissingComponents)
    );
}

#[test]
fn property_names_are_checked_before_suffixes() {
    let account = object(vec![
        ("account_uuid", uuid()),
        ("homeAddress", string()),
        ("display_name", string()),
        ("OwnerUuid", uuid()),
        ("parent_uuid", uuid()),
    ]);
    let expected = vec![
        format!(
            "An object contains a property 'homeAddress' which is not snake_case.\nAdd \
             #[serde(rename = \"home_address\")] to the member or #[serde(rename_all = \
             \"snake_case\")] to the struct.\n{}",
            MEMBER_NAMING
        ),
        format!(
            "An object contains a property 'OwnerUuid' which is not snake_case.\nAdd \
             #[serde(rename = \"owner_uuid\")] to the member or #[serde(rename_all = \
             \"snake_case\")] to the struct.\n{}",
            MEMBER_NAMING
        ),
        "An object contains a property 'account_uuid' that is a uuid and redundantly ends with \
         `_uuid`'; rename this property to `account_id`.\nFor more info see \
         https://github.com/oxidecomputer/openapi-lint#uuids"
            .to_string(),
        "An object contains a property 'parent_uuid' that is a uuid and redundantly ends with \
         `_uuid`'; rename this property to `parent_id`.\nFor more info see \
         https://github.com/oxidecomputer/openapi-lint#uuids"
            .to_string(),
    ];
    assert_eq!(snake().validate_object(&account), expected);
}

#[test]
fn the_convention_for_properties_can_be_camel_case() {
    let account = object(vec![("homeAddress", string()), ("display_name", string())]);
    let expected = vec![format!(
        "An object contains a property 'display_name' which is not camelCase.\nAdd \
         #[serde(rename = \"displayName\")] to the member or #[serde(rename_all = \
         \"camelCase\")] to the struct.\n{}",
        MEMBER_NAMING
    )];
    assert_eq!(camel().validate_object(&account), expected);
}

#[test]
fn only_objects_have_properties_to_check() {
    assert_eq!(snake().validate_object(&enumeration(vec![Some("NotChecked")])), Vec::<String>::new());
    assert_eq!(snake().validate_object(&one_of(vec![])), Vec::<String>::new());
    assert_eq!(snake().validate_object(&object(vec![])), Vec::<String>::new());
}

#[test]
fn a_uuid_with_any_other_constraint_may_keep_its_suffix() {
    let with_pattern = RefOr::Item(schema(SchemaKind::Type(Type::String(StringType {
        format: Some("uuid".to_string()),
        pattern: Some("^[0-9a-f-]+$".to_string()),
        ..plain_string()
    }))));
    let with_values = RefOr::Item(schema(SchemaKind::Type(Type::String(StringType {
        format: Some("uuid".to_string()),
        enumeration: vec![None],
        ..plain_string()
    }))));
    let with_minimum = RefOr::Item(schema(SchemaKind::Type(Type::String(StringType {
        format: Some("uuid".to_string()),
        min_length: Some(36),
        ..plain_string()
    }))));
    let with_maximum = RefOr::Item(schema(SchemaKind::Type(Type::String(StringType {
        format: Some("uuid".to_string()),
        max_length: Some(36),
        ..plain_string()
    }))));
    let other_format = RefOr::Item(schema(SchemaKind::Type(Type::String(StringType {
        format: Some("date".to_string()),
        ..plain_string()
    }))));
    assert!(is_plain_uuid(&uuid()));
    assert!(!is_plain_uuid(&with_pattern));
    assert!(!is_plain_uuid(&with_values));
    assert!(!is_plain_uuid(&with_minimum));
    assert!(!is_plain_uuid(&with_maximum));
    assert!(!is_plain_uuid(&other_format));
    assert!(!is_plain_uuid(&string()));
    assert!(!is_plain_uuid(&integer()));
    assert!(!is_plain_uuid(&reference("#/components/schemas/Uuid")));
    assert_eq!(check_uuid_suffix("resource_uuid", &with_pattern), None);
    assert_eq!(check_uuid_suffix("resource_uuid", &reference("#/components/schemas/Uuid")), None);
    assert_eq!(check_uuid_suffix("resource", &uuid()), None);
    assert_eq!(check_uuid_suffix("uuid", &uuid()), None);
}

#[test]
fn only_the_last_suffix_is_replaced() {
    assert_eq!(
        check_uuid_suffix("a_uuid_uuid", &uuid()),
        Some(
            "An object contains a property 'a_uuid_uuid' that is a uuid and redundantly ends \
             with `_uuid`'; rename this property to `a_uuid_id`.\nFor more info see \
             https://github.com/oxidecomputer/openapi-lint#uuids"
                .to_string()
        )
    );
    assert_eq!(
        check_uuid_suffix("_uuid", &uuid()),
        Some(
            "An object contains a property '_uuid' that is a uuid and redundantly ends with \
             `_uuid`'; rename this property to `_id`.\nFor more info see \
             https://github.com/oxidecomputer/openapi-lint#uuids"
                .to_string()
        )
    );
}

#[test]
fn enumerated_values_are_snake_case_or_upper_case() {
    let values = enumeration(vec![
        Some("in_progress"),
        Some("IN_PROGRESS"),
        None,
        Some("inProgress"),
        Some("In_Progress"),
        Some("done"),
    ]);
    let expected = vec![
        format!(
            "An enumerated string contains a value 'inProgress' that is neither snake_case nor \
             SCREAMING_SNAKE_CASE.\nAdd #[serde(rename = \"in_progress\")] to the variant or \
             #[serde(rename_all = \"snake_case\")] to the enum.\n{}",
            MEMBER_NAMING
        ),
        format!(
            "An enumerated string contains a value 'In_Progress' that is neither snake_case nor \
             SCREAMING_SNAKE_CASE.\nAdd #[serde(rename = \"in_progress\")] to the variant or \
             #[serde(rename_all = \"snake_case\")] to the enum.\n{}",
            MEMBER_NAMING
        ),
    ];
    assert_eq!(snake().validate_enumeration_value(&values), expected);
    assert_eq!(camel().validate_enumeration_value(&values), expected);
}

#[test]
fn only_strings_have_values_to_check() {
    assert_eq!(
        snake().validate_enumeration_value(&object(vec![("NotChecked", string())])),
        Vec::<String>::new()
    );
    assert_eq!(snake().validate_enumeration_value(&enumeration(vec![])), Vec::<String>::new());
    assert_eq!(snake().validate_enumeration_value(&enumeration(vec![None])), Vec::<String>::new());
}

#[test]
fn path_segments_are_kebab_case() {
    let flagged = |path: &str| {
        Some(format!(
            "The path {} doesn't use kebab-case\nFor more info, see \
             https://github.com/oxidecomputer/openapi-lint#paths",
            path
        ))
    };
    assert_eq!(snake().validate_path("/foo_bar/{id}"), flagged("/foo_bar/{id}"));
    assert_eq!(snake().validate_path("/fooBar"), flagged("/fooBar"));
    assert_eq!(snake().validate_path("/widgets/Large"), flagged("/widgets/Large"));
    assert_eq!(snake().validate_path("/widgets/{id}/sub parts"), flagged("/widgets/{id}/sub parts"));
    assert_eq!(snake().validate_path("/widgets/x{id}"), flagged("/widgets/x{id}"));
    assert_eq!(snake().validate_path("/foo-bar/{id}"), None);
    assert_eq!(snake().validate_path("/{Widget_Id}/{other}"), None);
    assert_eq!(snake().validate_path("/widgets/"), None);
    assert_eq!(snake().validate_path("/"), None);
    assert_eq!(snake().validate_path(""), None);
    assert_eq!(snake().validate_path("/v1/widgets"), None);
}

#[test]
fn a_segment_fits_as_a_placeholder_or_in_kebab_case() {
    assert!(check_segment("{Anything At All}", "anything-at-all"));
    assert!(check_segment("foo-bar", "foo-bar"));
    assert!(check_segment("", ""));
    assert!(!check_segment("foo_bar", "foo-bar"));
    assert!(!check_segment("}{", ""));
}

#[test]
fn an_operation_has_a_name_in_snake_case() {
    let named = operation(Some("widget_list"));
    let shouting = operation(Some("widgetList"));
    let nameless = operation(None);
    assert_eq!(snake().validate_operation_id(("/widgets", "get", &named)), None);
    assert_eq!(
        snake().validate_operation_id(("/widgets", "get", &shouting)),
        Some(format!(
            "The operation for /widgets get is named \"widgetList\" which is not snake_case; \
             rename it to \"widget_list\"\n{}",
            NAMING
        ))
    );
    assert_eq!(
        snake().validate_operation_id(("/widgets/{id}", "delete", &nameless)),
        Some(format!(
            "The operation for /widgets/{{id}} delete does not have an operation_id\n{}",
            NAMING
        ))
    );
    assert_eq!(
        camel().validate_operation_id(("/widgets", "get", &shouting)),
        snake().validate_operation_id(("/widgets", "get", &shouting))
    );
}

#[test]
fn parameters_follow_the_convention() {
    let mut op = operation(Some("widget_list"));
    op.parameters = vec![
        parameter("page_token"),
        parameter("sortBy"),
        reference("#/components/parameters/Limit"),
        reference("#/components/parameters/Token"),
    ];
    let document = document(vec![]);
    assert_eq!(
        snake().validate_operation_parameters(&document, &op),
        Ok(vec![
            format!(
                "The parameter \"sortBy\" to widget_list should be snake_case.\n{}",
                NAMING
            ),
            format!(
                "The parameter \"pageLimit\" to widget_list should be snake_case.\n{}",
                NAMING
            ),
        ])
    );
    assert_eq!(
        camel().validate_operation_parameters(&document, &op),
        Ok(vec![
            format!(
                "The parameter \"page_token\" to widget_list should be camelCase.\n{}",
                NAMING
            ),
            format!(
                "The parameter \"page_token\" to widget_list should be camelCase.\n{}",
                NAMING
            ),
        ])
    );
}

#[test]
fn parameters_of_a_nameless_operation_are_reported_under_a_placeholder() {
    let mut op = operation(None);
    op.parameters = vec![parameter("SortBy")];
    assert_eq!(
        snake().validate_operation_parameters(&bare(), &op),
        Ok(vec![format!(
            "The parameter \"SortBy\" to <unknown> should be snake_case.\n{}",
            NAMING
        )])
    );
}

#[test]
fn only_the_parameters_that_break_the_convention_are_reported() {
    let mut op = operation(None);
    op.parameters = vec![parameter("pageToken"), parameter("limit")];
    assert_eq!(
        snake().validate_operation_parameters(&bare(), &op),
        Ok(vec![
            "The parameter \"pageToken\" to <unknown> should be snake_case.\nFor more info, see \
             https://github.com/oxidecomputer/openapi-lint#naming"
                .to_string()
        ])
    );
}

#[test]
fn a_parameter_that_cannot_be_resolved_stops_the_rule() {
    let mut op = operation(Some("widget_list"));
    op.parameters = vec![parameter("SortBy"), reference("#/components/parameters/Missing")];
    assert_eq!(
        snake().validate_operation_parameters(&document(vec![]), &op),
        Err(InputError::DanglingReference)
    );
    assert_eq!(
        snake().validate_operation_parameters(&bare(), &op),
        Err(InputError::MissingComponents)
    );
}

#[test]
fn a_response_that_can_only_be_null_is_reported() {
    let null_only = enumeration(vec![None]);
    let document = document(vec![
        ("Null", RefOr::Item(enumeration(vec![None]))),
        ("Word", RefOr::Item(enumeration(vec![Some("word")]))),
    ]);
    let mut op = operation(Some("widget_delete"));
    op.responses.default = Some(json(RefOr::Item(enumeration(vec![None]))));
    op.responses.responses = vec![
        (StatusCode::Code(200), json(RefOr::Item(null_only))),
        (StatusCode::Code(201), json(reference("#/components/schemas/Word"))),
        (StatusCode::Code(202), reference("#/components/responses/Empty")),
        (
            StatusCode::Range(4),
            RefOr::Item(Response {
                content: vec![
                    ("text/plain".to_string(), MediaType { schema: None }),
                    (
                        "application/json".to_string(),
                        MediaType { schema: Some(reference("#/components/schemas/Null")) },
                    ),
                    (
                        "application/xml".to_string(),
                        MediaType { schema: Some(RefOr::Item(enumeration(vec![None, None]))) },
                    ),
                ],
            }),
        ),
    ];
    let message = "The return type for widget_delete was a trivial null.\nFor more info, see \
                   https://github.com/oxidecomputer/openapi-lint#trivial-null-response"
        .to_string();
    assert_eq!(
        snake().validate_operation_response(&document, &op),
        Ok(vec![message.clone(), message.clone(), message.clone(), message])
    );
}

#[test]
fn a_default_response_that_can_only_be_null_is_reported() {
    let mut op = operation(Some("thing_get"));
    op.responses.default = Some(json(RefOr::Item(enumeration(vec![None]))));
    assert_eq!(
        snake().validate_operation_response(&bare(), &op),
        Ok(vec![
            "The return type for thing_get was a trivial null.\nFor more info, see \
             https://github.com/oxidecomputer/openapi-lint#trivial-null-response"
                .to_string()
        ])
    );
    op.responses.default = Some(reference("#/components/responses/Empty"));
    assert_eq!(snake().validate_operation_response(&document(vec![
        ("Null", RefOr::Item(enumeration(vec![None]))),
    ]), &op).map(|found| found.len()), Ok(1));
    op.responses.default = Some(json(RefOr::Item(enumeration(vec![Some("word")]))));
    assert_eq!(snake().validate_operation_response(&bare(), &op), Ok(vec![]));
}

#[test]
fn the_default_response_is_looked_at_before_those_by_status() {
    let mut op = operation(Some("thing_get"));
    op.responses.default = Some(reference("#/components/responses/Missing"));
    op.responses.responses = vec![(StatusCode::Code(200), reference("Empty"))];
    assert_eq!(
        snake().validate_operation_response(&document(vec![]), &op),
        Err(InputError::DanglingReference)
    );
    op.responses.default = Some(json(RefOr::Item(enumeration(vec![None]))));
    assert_eq!(
        snake().validate_operation_response(&document(vec![]), &op),
        Err(InputError::MalformedReference)
    );
}

#[test]
fn a_schema_is_a_trivial_null_only_as_an_enumeration_of_null() {
    assert!(is_trivial_null(&enumeration(vec![None])));
    assert!(!is_trivial_null(&enumeration(vec![])));
    assert!(!is_trivial_null(&enumeration(vec![Some("null")])));
    assert!(!is_trivial_null(&enumeration(vec![None, None])));
    assert!(!is_trivial_null(&object(vec![])));
}

#[test]
fn a_response_that_cannot_be_resolved_stops_the_rule() {
    let mut op = operation(None);
    op.responses.responses = vec![(StatusCode::Code(200), reference("#/components/responses/Missing"))];
    assert_eq!(
        snake().validate_operation_response(&document(vec![]), &op),
        Err(InputError::DanglingReference)
    );
    op.responses.responses = vec![(StatusCode::Code(200), json(reference("Null")))];
    assert_eq!(
        snake().validate_operation_response(&document(vec![]), &op),
        Err(InputError::MalformedReference)
    );
}

#[test]
fn schema_names_are_pascal_case() {
    assert_eq!(snake().validate_named_schema("UserId"), None);
    assert_eq!(snake().validate_named_schema("Widget"), None);
    assert_eq!(
        snake().validate_named_schema("user_id"),
        Some(format!(
            "The type \"user_id\" has a name that is not PascalCase; to rename it add \
             #[serde(rename = \"UserId\")]\n{}",
            NAMING
        ))
    );
    assert_eq!(
        camel().validate_named_schema("userId"),
        Some(format!(
            "The type \"userId\" has a name that is not PascalCase; to rename it add \
             #[serde(rename = \"UserId\")]\n{}",
            NAMING
        ))
    );
}

#[test]
fn documentation_with_a_qualified_path_or_a_loose_link_is_reported() {
    let flagged = |text: &str| {
        Some(format!(
            "Rust documentation found in external interface: {}\nFor more info, see \
             https://github.com/oxidecomputer/openapi-lint#rust-documentation",
            text
        ))
    };
    assert_eq!(check_doc_string("See Widget::new for details."), flagged("See Widget::new for details."));
    assert_eq!(check_doc_string("uses std::vec"), flagged("uses std::vec"));
    assert_eq!(check_doc_string("a [Widget] is made"), flagged("a [Widget] is made"));
    assert_eq!(check_doc_string("see [Widget][other]"), flagged("see [Widget][other]"));
    assert_eq!(check_doc_string("x]\ny"), flagged("x]\ny"));
    assert_eq!(check_doc_string("A plain sentence."), None);
    assert_eq!(check_doc_string("see [the guide](https://example.org)"), None);
    assert_eq!(check_doc_string("ends with a bracket]"), None);
    assert_eq!(check_doc_string("::new"), None);
    assert_eq!(check_doc_string("ratio 1::2"), None);
    assert_eq!(check_doc_string("a: :b"), None);
    assert_eq!(check_doc_string(""), None);
}

#[test]
fn the_title_of_a_schema_is_checked_before_its_description() {
    let documented = Schema {
        title: Some("The [Widget] type".to_string()),
        description: Some("Made by Widget::new".to_string()),
        kind: SchemaKind::Type(Type::Boolean),
    };
    let info = "For more info, see https://github.com/oxidecomputer/openapi-lint#rust-documentation";
    assert_eq!(
        snake().validate_schema_docs(&documented),
        vec![
            format!("Rust documentation found in external interface: The [Widget] type\n{}", info),
            format!("Rust documentation found in external interface: Made by Widget::new\n{}", info),
        ]
    );
    let half = Schema {
        title: None,
        description: Some("Made by Widget::new".to_string()),
        kind: SchemaKind::Type(Type::Boolean),
    };
    assert_eq!(snake().validate_schema_docs(&half).len(), 1);
    assert_eq!(snake().validate_schema_docs(&schema(SchemaKind::Type(Type::Boolean))).len(), 0);
}

#[test]
fn a_rule_on_a_name_decides_from_the_name_and_its_spelling() {
    assert_eq!(check_property_name(Convention::SnakeCase, "same", "same"), None);
    assert_eq!(
        check_property_name(Convention::CamelCase, "given", "wanted"),
        Some(format!(
            "An object contains a property 'given' which is not camelCase.\nAdd #[serde(rename \
             = \"wanted\")] to the member or #[serde(rename_all = \"camelCase\")] to the \
             struct.\n{}",
            MEMBER_NAMING
        ))
    );
    assert_eq!(check_enum_value("value", "value", "VALUE"), None);
    assert_eq!(check_enum_value("VALUE", "value", "VALUE"), None);
    assert_eq!(
        check_enum_value("Value", "value", "VALUE"),
        Some(format!(
            "An enumerated string contains a value 'Value' that is neither snake_case nor \
             SCREAMING_SNAKE_CASE.\nAdd #[serde(rename = \"value\")] to the variant or \
             #[serde(rename_all = \"snake_case\")] to the enum.\n{}",
            MEMBER_NAMING
        ))
    );
    assert_eq!(check_operation_id("/p", "get", "same", "same"), None);
    assert_eq!(
        check_operation_id("/p", "get", "given", "wanted"),
        Some(format!(
            "The operation for /p get is named \"given\" which is not snake_case; rename it to \
             \"wanted\"\n{}",
            NAMING
        ))
    );
    assert_eq!(check_parameter_name(Convention::SnakeCase, "same", "same", "op"), None);
    assert_eq!(
        check_parameter_name(Convention::SnakeCase, "given", "wanted", "op"),
        Some(format!(
            "The parameter \"given\" to op should be snake_case.\n{}",
            NAMING
        ))
    );
    assert_eq!(check_schema_name("Same", "Same"), None);
    assert_eq!(
        check_schema_name("given", "Wanted"),
        Some(format!(
            "The type \"given\" has a name that is not PascalCase; to rename it add \
             #[serde(rename = \"Wanted\")]\n{}",
            NAMING
        ))
    );
}

#[test]
fn the_rule_on_documentation_decides_from_the_two_searches() {
    let message = Some(
        "Rust documentation found in external interface: text\nFor more info, see \
         https://github.com/oxidecomputer/openapi-lint#rust-documentation"
            .to_string(),
    );
    assert_eq!(check_doc_findings("text", Some(true), Some(false)), message);
    assert_eq!(check_doc_findings("text", Some(false), Some(true)), message);
    assert_eq!(check_doc_findings("text", Some(true), Some(true)), message);
    assert_eq!(check_doc_findings("text", None, Some(true)), message);
    assert_eq!(check_doc_findings("text", Some(true), None), message);
    assert_eq!(check_doc_findings("text", Some(false), Some(false)), None);
    assert_eq!(check_doc_findings("text", None, Some(false)), None);
    assert_eq!(check_doc_findings("text", Some(false), None), None);
    assert_eq!(check_doc_findings("text", None, None), None);
}
