use openapi_lint::document::{
    ArrayType, Components, Document, MediaType, ObjectType, Operation, Parameter,
    ParameterLocation, ParameterSchemaOrContent, PathItem, RefOr, Response, Responses, Schema,
    SchemaKind, StatusCode, StringType, Type,
};
use openapi_lint::registry::Registry;
use openapi_lint::{validate, validate_external};

fn schema(kind: SchemaKind) -> Schema {
    Schema { title: None, description: None, kind }
}

fn plain_string() -> StringType {
    StringType {
        format: None,
        pattern: None,
        enumeration: vec![],
        min_length: None,
        max_length: None,
    }
}

fn string_schema() -> Schema {
    schema(SchemaKind::Type(Type::String(plain_string())))
}

fn integer_schema() -> Schema {
    schema(SchemaKind::Type(Type::Integer))
}

fn object_schema(properties: Vec<(&str, RefOr<Schema>)>) -> Schema {
    schema(SchemaKind::Type(Type::Object(ObjectType {
        properties: properties.into_iter().map(|(name, value)| (name.to_string(), value)).collect(),
        additional_properties: None,
    })))
}

fn components(schemas: Vec<(&str, RefOr<Schema>)>) -> Components {
    let mut registry = Registry::new();
    for (name, value) in schemas {
        registry.insert(name.to_string(), value);
    }
    Components {
        schemas: registry,
        responses: Registry::new(),
        parameters: Registry::new(),
        request_bodies: Registry::new(),
    }
}

fn operation(id: Option<&str>) -> Operation {
    Operation {
        operation_id: id.map(|id| id.to_string()),
        description: None,
        parameters: vec![],
        request_body: None,
        responses: Responses { default: None, responses: vec![] },
    }
}

fn path_item() -> PathItem {
    PathItem {
        get: None,
        put: None,
        post: None,
        delete: None,
        options: None,
        head: None,
        patch: None,
        trace: None,
        parameters: vec![],
    }
}

fn with_schemas(schemas: Vec<(&str, RefOr<Schema>)>) -> Document {
    Document { paths: vec![], components: Some(components(schemas)) }
}

fn with_path(path: &str, item: PathItem) -> Document {
    Document { paths: vec![(path.to_string(), RefOr::Item(item))], components: None }
}

#[test]
fn mixed_union_is_reported_once() {
    let mixed = schema(SchemaKind::OneOf {
        one_of: vec![RefOr::Item(string_schema()), RefOr::Item(integer_schema())],
    });
    let document = with_schemas(vec![("Mixed", RefOr::Item(mixed))]);
    let expected = "Problem with type Mixed: Mismatched types between subschemas; this is often \
        due to enums with different data payloads and can be resolved using serde adjacent \
        tagging.\nthis schema's type\nstring\ndiffers from this\ninteger\n\nFor more info, see \
        https://github.com/oxidecomputer/openapi-lint#type-mismatch";
    assert_eq!(validate(&document), vec![expected.to_string()]);
}

#[test]
fn property_in_pascal_case_is_reported_once() {
    let object = object_schema(vec![("UserId", RefOr::Item(integer_schema()))]);
    let document = with_schemas(vec![("Account", RefOr::Item(object))]);
    let expected = "An object contains a property 'UserId' which is not snake_case.\nAdd \
        #[serde(rename = \"user_id\")] to the member or #[serde(rename_all = \"snake_case\")] to \
        the struct.\nFor more info see https://github.com/oxidecomputer/openapi-lint#naming";
    assert_eq!(validate(&document), vec![expected.to_string()]);
}

#[test]
fn schema_name_in_snake_case_is_reported_once() {
    let document = with_schemas(vec![("user_id", RefOr::Item(integer_schema()))]);
    let expected = "The type \"user_id\" has a name that is not PascalCase; to rename it add \
        #[serde(rename = \"UserId\")]\nFor more info, see \
        https://github.com/oxidecomputer/openapi-lint#naming";
    assert_eq!(validate(&document), vec![expected.to_string()]);
}

#[test]
fn operation_without_a_name_is_reported_once() {
    let mut item = path_item();
    item.post = Some(operation(None));
    let document = with_path("/widgets", item);
    let expected = "The operation for /widgets post does not have an operation_id\nFor more \
        info, see https://github.com/oxidecomputer/openapi-lint#naming";
    assert_eq!(validate(&document), vec![expected.to_string()]);
}

#[test]
fn path_segment_in_snake_case_is_reported() {
    let mut item = path_item();
    item.get = Some(operation(Some("foo_bar_view")));
    let document = with_path("/foo_bar/{id}", item);
    let expected = "The path /foo_bar/{id} doesn't use kebab-case\nFor more info, see \
        https://github.com/oxidecomputer/openapi-lint#paths";
    assert_eq!(validate(&document), vec![expected.to_string()]);
}

#[test]
fn placeholder_segment_is_not_reported() {
    let mut item = path_item();
    item.get = Some(operation(Some("foo_bar_view")));
    let document = with_path("/foo-bar/{id}", item);
    assert_eq!(validate(&document), Vec::<String>::new());
}

#[test]
fn null_response_is_reported_once() {
    let null_only = schema(SchemaKind::Type(Type::String(StringType {
        enumeration: vec![None],
        ..plain_string()
    })));
    let response = Response {
        content: vec![(
            "application/json".to_string(),
            MediaType { schema: Some(RefOr::Item(null_only)) },
        )],
    };
    let mut op = operation(Some("widget_delete"));
    op.responses.responses = vec![(StatusCode::Code(200), RefOr::Item(response))];
    let mut item = path_item();
    item.delete = Some(op);
    let document = with_path("/widgets", item);
    let expected = "The return type for widget_delete was a trivial null.\nFor more info, see \
        https://github.com/oxidecomputer/openapi-lint#trivial-null-response";
    assert_eq!(validate(&document), vec![expected.to_string()]);
}

#[test]
fn null_default_response_is_reported_once() {
    let null_only = schema(SchemaKind::Type(Type::String(StringType {
        enumeration: vec![None],
        ..plain_string()
    })));
    let response = Response {
        content: vec![(
            "application/json".to_string(),
            MediaType { schema: Some(RefOr::Item(null_only)) },
        )],
    };
    let mut op = operation(Some("thing_get"));
    op.responses.default = Some(RefOr::Item(response));
    let mut item = path_item();
    item.get = Some(op);
    let document = with_path("/things", item);
    let expected = "The return type for thing_get was a trivial null.\nFor more info, see \
        https://github.com/oxidecomputer/openapi-lint#trivial-null-response";
    assert_eq!(validate(&document), vec![expected.to_string()]);
}

#[test]
fn uuid_suffix_is_reported_once() {
    let uuid = schema(SchemaKind::Type(Type::String(StringType {
        format: Some("uuid".to_string()),
        ..plain_string()
    })));
    let object = object_schema(vec![("resource_uuid", RefOr::Item(uuid))]);
    let document = with_schemas(vec![("Resource", RefOr::Item(object))]);
    let expected = "An object contains a property 'resource_uuid' that is a uuid and redundantly \
        ends with `_uuid`'; rename this property to `resource_id`.\nFor more info see \
        https://github.com/oxidecomputer/openapi-lint#uuids";
    assert_eq!(validate(&document), vec![expected.to_string()]);
}

#[test]
fn clean_document_has_no_diagnostics() {
    let item_schema = object_schema(vec![
        ("id", RefOr::Item(integer_schema())),
        ("display_name", RefOr::Item(string_schema())),
        ("tags", RefOr::Item(schema(SchemaKind::Type(Type::Array(ArrayType {
            items: Some(Box::new(RefOr::Item(string_schema()))),
        }))))),
    ]);
    let mut op = operation(Some("widget_list"));
    op.parameters = vec![RefOr::Item(Parameter {
        name: "page_token".to_string(),
        location: ParameterLocation::Query,
        format: ParameterSchemaOrContent::Schema(RefOr::Item(string_schema())),
    })];
    op.description = Some("Lists the widgets.".to_string());
    let mut item = path_item();
    item.get = Some(op);
    let document = Document {
        paths: vec![("/widgets/{widget-id}/parts".to_string(), RefOr::Item(item))],
        components: Some(components(vec![("Widget", RefOr::Item(item_schema))])),
    };
    assert_eq!(validate(&document), Vec::<String>::new());
    assert_eq!(validate_external(&document), Vec::<String>::new());
}

#[test]
fn two_runs_give_the_same_diagnostics() {
    let object = object_schema(vec![
        ("UserId", RefOr::Item(integer_schema())),
        ("homeAddress", RefOr::Item(string_schema())),
    ]);
    let document = with_schemas(vec![("account", RefOr::Item(object))]);
    let first = validate_external(&document);
    let second = validate_external(&document);
    assert_eq!(first.len(), 3);
    assert_eq!(first, second);
}
