use openapi_lint::casing::Convention;
use openapi_lint::document::{
    AnySchema, Components, Document, MediaType, ObjectType, Operation, Parameter,
    ParameterLocation, ParameterSchemaOrContent, PathItem, RefOr, Response, Responses, Schema,
    SchemaKind, StatusCode, StringType, Type,
};
use openapi_lint::outcome::InputError;
use openapi_lint::registry::Registry;
use openapi_lint::rules::Validator;
use openapi_lint::{validate, validate_external};

fn schema(kind: SchemaKind) -> Schema {
    Schema { title: None, description: None, kind }
}

fn reference<T>(target: &str) -> RefOr<T> {
    RefOr::Reference { reference: target.to_string() }
}

fn plain_string() -> StringType {
    StringType {
        format: None,
        pattern: None,
        enumeration: vec![],
        min_length: None,
        max_length: None,
    }
}

fn string() -> RefOr<Schema> {
    RefOr::Item(schema(SchemaKind::Type(Type::String(plain_string()))))
}

fn integer() -> RefOr<Schema> {
    RefOr::Item(schema(SchemaKind::Type(Type::Integer)))
}

fn enumeration(values: Vec<Option<&str>>) -> RefOr<Schema> {
    RefOr::Item(schema(SchemaKind::Type(Type::String(StringType {
        enumeration: values.into_iter().map(|value| value.map(|v| v.to_string())).collect(),
        ..plain_string()
    }))))
}

fn object(properties: Vec<(&str, RefOr<Schema>)>) -> Schema {
    schema(SchemaKind::Type(Type::Object(ObjectType {
        properties: properties.into_iter().map(|(name, value)| (name.to_string(), value)).collect(),
        additional_properties: None,
    })))
}

fn registry<T>(entries: Vec<(&str, RefOr<T>)>) -> Registry<RefOr<T>> {
    let mut registry = Registry::new();
    for (name, value) in entries {
        registry.insert(name.to_string(), value);
    }
    registry
}

fn components(schemas: Vec<(&str, RefOr<Schema>)>) -> Option<Components> {
    Some(Components {
        schemas: registry(schemas),
        responses: Registry::new(),
        parameters: Registry::new(),
        request_bodies: Registry::new(),
    })
}

fn parameter(name: &str, schema: RefOr<Schema>) -> RefOr<Parameter> {
    RefOr::Item(Parameter {
        name: name.to_string(),
        location: ParameterLocation::Query,
        format: ParameterSchemaOrContent::Schema(schema),
    })
}

fn operation(id: Option<&str>) -> Operation {
    Operation {
        operation_id: id.map(|id| id.to_string()),
        description: None,
        parameters: vec![],
        request_body: None,
        responses: Responses { default: None, responses: vec![] },
    }
}

fn empty_item() -> PathItem {
    PathItem {
        get: None,
        put: None,
        post: None,
        delete: None,
        options: None,
        head: None,
        patch: None,
        trace: None,
        parameters: vec![],
    }
}

fn json(schema: RefOr<Schema>) -> RefOr<Response> {
    RefOr::Item(Response {
        content: vec![("application/json".to_string(), MediaType { schema: Some(schema) })],
    })
}

fn unconstrained() -> AnySchema {
    AnySchema {
        typ: None,
        pattern: None,
        multiple_of: false,
        exclusive_minimum: None,
        exclusive_maximum: None,
        minimum: false,
        maximum: false,
        properties: vec![],
        required: vec![],
        additional_properties: None,
        min_properties: None,
        max_properties: None,
        items: None,
        min_items: None,
        max_items: None,
        unique_items: None,
        enumeration: vec![],
        format: None,
        min_length: None,
        max_length: None,
        one_of: vec![],
        all_of: vec![],
        any_of: vec![],
        not: None,
    }
}

fn flawed() -> Document {
    let mut first = operation(None);
    first.description = Some("Calls Widget::list to do it.".to_string());
    first.parameters = vec![parameter("BadParam", string()), parameter("good_param", string())];
    first.responses.responses = vec![(StatusCode::Code(200), json(enumeration(vec![None])))];
    let mut listing = empty_item();
    listing.get = Some(first);

    let mut second = operation(Some("createThing"));
    second.description = Some("Creates a thing.".to_string());
    let mut creating = empty_item();
    creating.post = Some(second);

    let mut union = schema(SchemaKind::OneOf { one_of: vec![string(), integer()] });
    union.title = Some("A [choice] of two".to_string());
    let account = object(vec![
        ("BadProp", integer()),
        ("thing_uuid", RefOr::Item(schema(SchemaKind::Type(Type::String(StringType {
            format: Some("uuid".to_string()),
            ..plain_string()
        }))))),
        ("status", enumeration(vec![Some("active"), Some("BadValue")])),
    ]);

    Document {
        paths: vec![
            ("/Bad_Path/{id}".to_string(), RefOr::Item(listing)),
            ("/good-path".to_string(), RefOr::Item(creating)),
        ],
        components: components(vec![
            ("bad_name", RefOr::Item(union)),
            ("GoodName", RefOr::Item(account)),
        ]),
    }
}

const MISMATCH: &str = "Problem with type bad_name: Mismatched types between subschemas; this is \
    often due to enums with different data payloads and can be resolved using serde adjacent \
    tagging.\nthis schema's type\nstring\ndiffers from this\ninteger\n\nFor more info, see \
    https://github.com/oxidecomputer/openapi-lint#type-mismatch";

const TITLE: &str = "Rust documentation found in external interface: A [choice] of two\nFor \
    more info, see https://github.com/oxidecomputer/openapi-lint#rust-documentation";

const VALUE: &str = "An enumerated string contains a value 'BadValue' that is neither \
    snake_case nor SCREAMING_SNAKE_CASE.\nAdd #[serde(rename = \"bad_value\")] to the variant \
    or #[serde(rename_all = \"snake_case\")] to the enum.\nFor more info see \
    https://github.com/oxidecomputer/openapi-lint#naming";

const PROPERTY: &str = "An object contains a property 'BadProp' which is not snake_case.\nAdd \
    #[serde(rename = \"bad_prop\")] to the member or #[serde(rename_all = \"snake_case\")] to \
    the struct.\nFor more info see https://github.com/oxidecomputer/openapi-lint#naming";

const SUFFIX: &str = "An object contains a property 'thing_uuid' that is a uuid and \
    redundantly ends with `_uuid`'; rename this property to `thing_id`.\nFor more info see \
    https://github.com/oxidecomputer/openapi-lint#uuids";

const PATH: &str = "The path /Bad_Path/{id} doesn't use kebab-case\nFor more info, see \
    https://github.com/oxidecomputer/openapi-lint#paths";

const NAMELESS: &str = "The operation for /Bad_Path/{id} get does not have an \
    operation_id\nFor more info, see https://github.com/oxidecomputer/openapi-lint#naming";

const MISNAMED: &str = "The operation for /good-path post is named \"createThing\" which is \
    not snake_case; rename it to \"create_thing\"\nFor more info, see \
    https://github.com/oxidecomputer/openapi-lint#naming";

const PARAMETER: &str = "The parameter \"BadParam\" to <unknown> should be snake_case.\nFor \
    more info, see https://github.com/oxidecomputer/openapi-lint#naming";

const NULL: &str = "The return type for <unknown> was a trivial null.\nFor more info, see \
    https://github.com/oxidecomputer/openapi-lint#trivial-null-response";

const SCHEMA_NAME: &str = "The type \"bad_name\" has a name that is not PascalCase; to rename \
    it add #[serde(rename = \"BadName\")]\nFor more info, see \
    https://github.com/oxidecomputer/openapi-lint#naming";

const DESCRIPTION: &str = "Rust documentation found in external interface: Calls Widget::list \
    to do it.\nFor more info, see \
    https://github.com/oxidecomputer/openapi-lint#rust-documentation";

#[test]
fn bad_schema() {
    let openapi = flawed();

    let actual = validate_external(&openapi).join("\n\n");
    let expected = vec![
        MISMATCH,
        TITLE,
        VALUE,
        PROPERTY,
        SUFFIX,
        PATH,
        NAMELESS,
        MISNAMED,
        PARAMETER,
        NULL,
        SCHEMA_NAME,
        DESCRIPTION,
    ]
    .join("\n\n");
    assert_eq!(actual, expected);
}

#[test]
fn documentation_is_checked_in_the_external_mode_only() {
    let document = flawed();
    assert_eq!(
        validate(&document),
        vec![
            MISMATCH, VALUE, PROPERTY, SUFFIX, PATH, NAMELESS, MISNAMED, PARAMETER, NULL,
            SCHEMA_NAME,
        ]
    );
    assert_eq!(
        Validator::default().validate_impl(&document, false),
        Ok(validate(&document))
    );
    assert_eq!(
        Validator::default().validate_impl(&document, true),
        Ok(validate_external(&document))
    );
}

#[test]
fn the_convention_is_a_setting_of_the_run() {
    let document = Document {
        paths: vec![],
        components: components(vec![(
            "Account",
            RefOr::Item(object(vec![("home_address", string()), ("homeAddress", string())])),
        )]),
    };
    let snake = Validator { convention: Convention::SnakeCase };
    let camel = Validator { convention: Convention::CamelCase };
    assert_eq!(
        snake.validate_impl(&document, false),
        Ok(vec![
            "An object contains a property 'homeAddress' which is not snake_case.\nAdd \
             #[serde(rename = \"home_address\")] to the member or #[serde(rename_all = \
             \"snake_case\")] to the struct.\nFor more info see \
             https://github.com/oxidecomputer/openapi-lint#naming"
                .to_string()
        ])
    );
    assert_eq!(
        camel.validate_impl(&document, false),
        Ok(vec![
            "An object contains a property 'home_address' which is not camelCase.\nAdd \
             #[serde(rename = \"homeAddress\")] to the member or #[serde(rename_all = \
             \"camelCase\")] to the struct.\nFor more info see \
             https://github.com/oxidecomputer/openapi-lint#naming"
                .to_string()
        ])
    );
}

#[test]
fn an_empty_document_has_no_diagnostics() {
    let document = Document { paths: vec![], components: None };
    assert_eq!(validate(&document), Vec::<String>::new());
    assert_eq!(validate_external(&document), Vec::<String>::new());
    let hollow = Document { paths: vec![], components: components(vec![]) };
    assert_eq!(validate_external(&hollow), Vec::<String>::new());
}

#[test]
fn a_schema_used_twice_is_reported_wherever_it_is_walked() {
    let holder = object(vec![
        ("first", reference("#/components/schemas/Status")),
        ("second", reference("#/components/schemas/Status")),
    ]);
    let document = Document {
        paths: vec![],
        components: components(vec![
            ("Holder", RefOr::Item(holder)),
            ("Status", enumeration(vec![Some("BadValue")])),
        ]),
    };
    assert_eq!(validate(&document), vec![VALUE, VALUE, VALUE]);
}

#[test]
fn a_negation_stops_the_run() {
    let negated = schema(SchemaKind::Not { not: Box::new(string()) });
    let document =
        Document { paths: vec![], components: components(vec![("Negated", RefOr::Item(negated))]) };
    assert_eq!(
        Validator::default().validate_impl(&document, false),
        Err(InputError::Negation)
    );
    assert_eq!(
        Validator::default().validate_impl(&document, true),
        Err(InputError::Negation)
    );
}

#[test]
fn a_constrained_free_form_schema_stops_the_run() {
    let free = schema(SchemaKind::Any(AnySchema {
        required: vec!["name".to_string()],
        ..unconstrained()
    }));
    let mut op = operation(Some("widget_list"));
    op.parameters = vec![parameter("filter", RefOr::Item(free))];
    let mut item = empty_item();
    item.get = Some(op);
    let document =
        Document { paths: vec![("/widgets".to_string(), RefOr::Item(item))], components: None };
    assert_eq!(
        Validator::default().validate_impl(&document, false),
        Err(InputError::ConstrainedFreeForm)
    );
}

#[test]
fn a_reference_that_cannot_be_resolved_stops_the_run() {
    let mut op = operation(Some("widget_list"));
    op.parameters = vec![reference("#/components/parameters/Missing")];
    let mut item = empty_item();
    item.get = Some(op);
    let with_components = Document {
        paths: vec![("/widgets".to_string(), RefOr::Item(item))],
        components: components(vec![("bad_name", integer())]),
    };
    assert_eq!(
        Validator::default().validate_impl(&with_components, false),
        Err(InputError::DanglingReference)
    );

    let mut op = operation(Some("widget_list"));
    op.responses.responses = vec![(StatusCode::Code(200), json(reference("#/components/schemas/Widget")))];
    let mut item = empty_item();
    item.get = Some(op);
    let without_components =
        Document { paths: vec![("/widgets".to_string(), RefOr::Item(item))], components: None };
    assert_eq!(
        Validator::default().validate_impl(&without_components, false),
        Err(InputError::MissingComponents)
    );

    let looping = Document {
        paths: vec![],
        components: components(vec![
            ("Holder", RefOr::Item(object(vec![("inner", reference("#/components/schemas/Loop"))]))),
            ("Loop", reference("#/components/schemas/Loop")),
        ]),
    };
    assert_eq!(
        Validator::default().validate_impl(&looping, false),
        Err(InputError::EndlessReference)
    );

    let malformed = Document {
        paths: vec![],
        components: components(vec![(
            "Holder",
            RefOr::Item(schema(SchemaKind::AllOf { all_of: vec![reference("Loop")] })),
        )]),
    };
    assert_eq!(
        Validator::default().validate_impl(&malformed, false),
        Err(InputError::MalformedReference)
    );
}

#[test]
fn a_recursive_schema_is_analyzed() {
    let tree = object(vec![
        ("label", string()),
        ("leftChild", reference("#/components/schemas/Tree")),
        ("right_child", reference("#/components/schemas/Tree")),
    ]);
    let document =
        Document { paths: vec![], components: components(vec![("Tree", RefOr::Item(tree))]) };
    assert_eq!(
        validate(&document),
        vec![
            "An object contains a property 'leftChild' which is not snake_case.\nAdd \
             #[serde(rename = \"left_child\")] to the member or #[serde(rename_all = \
             \"snake_case\")] to the struct.\nFor more info see \
             https://github.com/oxidecomputer/openapi-lint#naming"
        ]
    );
}

#[test]
fn operations_are_listed_by_path_and_then_by_method() {
    let mut first = empty_item();
    first.trace = Some(operation(Some("a")));
    first.patch = Some(operation(Some("b")));
    first.head = Some(operation(Some("c")));
    first.options = Some(operation(Some("d")));
    first.delete = Some(operation(Some("e")));
    first.post = Some(operation(Some("f")));
    first.put = Some(operation(Some("g")));
    first.get = Some(operation(Some("h")));
    let mut second = empty_item();
    second.post = Some(operation(Some("i")));
    let document = Document {
        paths: vec![
            ("/first".to_string(), RefOr::Item(first)),
            ("/skipped".to_string(), reference("#/components/pathItems/Skipped")),
            ("/second".to_string(), RefOr::Item(second)),
        ],
        components: None,
    };
    let listed: Vec<(String, String, String)> = document
        .operations()
        .into_iter()
        .map(|(path, method, operation)| {
            (path.to_string(), method.to_string(), operation.operation_id.clone().unwrap())
        })
        .collect();
    let expected: Vec<(String, String, String)> = vec![
        ("/first", "get", "h"),
        ("/first", "put", "g"),
        ("/first", "post", "f"),
        ("/first", "delete", "e"),
        ("/first", "options", "d"),
        ("/first", "head", "c"),
        ("/first", "patch", "b"),
        ("/first", "trace", "a"),
        ("/second", "post", "i"),
    ]
    .into_iter()
    .map(|(path, method, id)| (path.to_string(), method.to_string(), id.to_string()))
    .collect();
    assert_eq!(listed, expected);
}
