//! The parsed API description that the linter reads.

use crate::registry::Registry;
use vstd::prelude::*;

verus! {

/// A value that is either given inline or named by a reference into the
/// components of the document.
#[derive(Debug)]
pub enum RefOr<T> {
    Reference { reference: String },
    Item(T),
}

/// The root of an API description.
#[derive(Debug)]
pub struct Document {
    /// Path templates with their items, in document order.
    pub paths: Vec<(String, RefOr<PathItem>)>,
    /// The reusable definitions, if the document has any.
    pub components: Option<Components>,
}

/// The operations of one path, by HTTP method, and the parameters they share.
#[derive(Debug)]
pub struct PathItem {
    pub get: Option<Operation>,
    pub put: Option<Operation>,
    pub post: Option<Operation>,
    pub delete: Option<Operation>,
    pub options: Option<Operation>,
    pub head: Option<Operation>,
    pub patch: Option<Operation>,
    pub trace: Option<Operation>,
    pub parameters: Vec<RefOr<Parameter>>,
}

/// One HTTP method handler on a path.
#[derive(Debug)]
pub struct Operation {
    pub operation_id: Option<String>,
    pub description: Option<String>,
    pub parameters: Vec<RefOr<Parameter>>,
    pub request_body: Option<RefOr<RequestBody>>,
    pub responses: Responses,
}

/// The responses of an operation: a default and one per status code.
#[derive(Debug)]
pub struct Responses {
    pub default: Option<RefOr<Response>>,
    pub responses: Vec<(StatusCode, RefOr<Response>)>,
}

/// A status code, or a range of them given by its first digit.
#[derive(Clone, Copy, Debug, PartialEq, Eq)]
pub enum StatusCode {
    Code(u16),
    Range(u16),
}

/// Where a parameter is carried.
#[derive(Clone, Copy, Debug, PartialEq, Eq)]
pub enum ParameterLocation {
    Query,
    Header,
    Path,
    Cookie,
}

/// A named input of an operation.
#[derive(Debug)]
pub struct Parameter {
    pub name: String,
    pub location: ParameterLocation,
    pub format: ParameterSchemaOrContent,
}

/// The shape of a parameter: one schema, or one media entry per content type.
#[derive(Debug)]
pub enum ParameterSchemaOrContent {
    Schema(RefOr<Schema>),
    Content(Vec<(String, MediaType)>),
}

/// One representation of a body.
#[derive(Debug)]
pub struct MediaType {
    pub schema: Option<RefOr<Schema>>,
}

/// The body of a request, by content type.
#[derive(Debug)]
pub struct RequestBody {
    pub content: Vec<(String, MediaType)>,
}

/// The body of a response, by content type.
#[derive(Debug)]
pub struct Response {
    pub content: Vec<(String, MediaType)>,
}

/// The reusable definitions of a document.
#[derive(Debug)]
pub struct Components {
    pub schemas: Registry<RefOr<Schema>>,
    pub responses: Registry<RefOr<Response>>,
    pub parameters: Registry<RefOr<Parameter>>,
    pub request_bodies: Registry<RefOr<RequestBody>>,
}

/// One type or constraint definition.
#[derive(Debug)]
pub struct Schema {
    pub title: Option<String>,
    pub description: Option<String>,
    pub kind: SchemaKind,
}

/// What a schema is made of.
#[derive(Debug)]
pub enum SchemaKind {
    Type(Type),
    OneOf { one_of: Vec<RefOr<Schema>> },
    AllOf { all_of: Vec<RefOr<Schema>> },
    AnyOf { any_of: Vec<RefOr<Schema>> },
    Not { not: Box<RefOr<Schema>> },
    Any(AnySchema),
}

/// A concrete type with its own constraints.
#[derive(Debug)]
pub enum Type {
    String(StringType),
    Number,
    Integer,
    Object(ObjectType),
    Array(ArrayType),
    Boolean,
}

/// The constraints of a string.
#[derive(Debug)]
pub struct StringType {
    pub format: Option<String>,
    pub pattern: Option<String>,
    /// The allowed values; `None` stands for the null value.
    pub enumeration: Vec<Option<String>>,
    pub min_length: Option<usize>,
    pub max_length: Option<usize>,
}

/// The constraints of an object.
#[derive(Debug)]
pub struct ObjectType {
    /// The declared properties, in declaration order.
    pub properties: Vec<(String, RefOr<Schema>)>,
    pub additional_properties: Option<AdditionalProperties>,
}

/// What an object allows besides its declared properties.
#[derive(Debug)]
pub enum AdditionalProperties {
    Any(bool),
    Schema(Box<RefOr<Schema>>),
}

/// The constraints of an array.
#[derive(Debug)]
pub struct ArrayType {
    pub items: Option<Box<RefOr<Schema>>>,
}

/// A schema that fits none of the other kinds, with whatever constraints it
/// carries.
#[derive(Debug)]
pub struct AnySchema {
    pub typ: Option<String>,
    pub pattern: Option<String>,
    /// Whether a `multipleOf` is given.
    pub multiple_of: bool,
    pub exclusive_minimum: Option<bool>,
    pub exclusive_maximum: Option<bool>,
    /// Whether a `minimum` is given.
    pub minimum: bool,
    /// Whether a `maximum` is given.
    pub maximum: bool,
    pub properties: Vec<(String, RefOr<Schema>)>,
    pub required: Vec<String>,
    pub additional_properties: Option<AdditionalProperties>,
    pub min_properties: Option<usize>,
    pub max_properties: Option<usize>,
    pub items: Option<Box<RefOr<Schema>>>,
    pub min_items: Option<usize>,
    pub max_items: Option<usize>,
    pub unique_items: Option<bool>,
    /// The allowed values, each as JSON text.
    pub enumeration: Vec<String>,
    pub format: Option<String>,
    pub min_length: Option<usize>,
    pub max_length: Option<usize>,
    pub one_of: Vec<RefOr<Schema>>,
    pub all_of: Vec<RefOr<Schema>>,
    pub any_of: Vec<RefOr<Schema>>,
    pub not: Option<Box<RefOr<Schema>>>,
}

/// Whether a free-form schema carries no constraint at all.
pub open spec fn permissive(any: AnySchema) -> bool {
    &&& any.typ is None
    &&& any.pattern is None
    &&& !any.multiple_of
    &&& any.exclusive_minimum is None
    &&& any.exclusive_maximum is None
    &&& !any.minimum
    &&& !any.maximum
    &&& any.properties@.len() == 0
    &&& any.required@.len() == 0
    &&& any.additional_properties is None
    &&& any.min_properties is None
    &&& any.max_properties is None
    &&& any.items is None
    &&& any.min_items is None
    &&& any.max_items is None
    &&& any.unique_items is None
    &&& any.enumeration@.len() == 0
    &&& any.format is None
    &&& any.min_length is None
    &&& any.max_length is None
    &&& any.one_of@.len() == 0
    &&& any.all_of@.len() == 0
    &&& any.any_of@.len() == 0
    &&& any.not is None
}

/// Whether a free-form schema carries no constraint at all.
pub fn is_permissive(any: &AnySchema) -> (r: bool)
    ensures
        r == permissive(*any),
{
    any.typ.is_none() && any.pattern.is_none() && !any.multiple_of
        && any.exclusive_minimum.is_none() && any.exclusive_maximum.is_none() && !any.minimum
        && !any.maximum && any.properties.len() == 0 && any.required.len() == 0
        && any.additional_properties.is_none() && any.min_properties.is_none()
        && any.max_properties.is_none() && any.items.is_none() && any.min_items.is_none()
        && any.max_items.is_none() && any.unique_items.is_none() && any.enumeration.len() == 0
        && any.format.is_none() && any.min_length.is_none() && any.max_length.is_none()
        && any.one_of.len() == 0 && any.all_of.len() == 0 && any.any_of.len() == 0
        && any.not.is_none()
}

/// The category of a concrete type, without its constraints.
#[derive(Clone, Copy, Debug, PartialEq, Eq, Structural)]
pub enum Category {
    String,
    Number,
    Integer,
    Object,
    Array,
    Boolean,
}

impl Type {
    /// The category of this type.
    pub open spec fn spec_category(&self) -> Category {
        match self {
            Type::String(_) => Category::String,
            Type::Number => Category::Number,
            Type::Integer => Category::Integer,
            Type::Object(_) => Category::Object,
            Type::Array(_) => Category::Array,
            Type::Boolean => Category::Boolean,
        }
    }

    /// The category of this type.
    #[verifier::when_used_as_spec(spec_category)]
    pub fn category(&self) -> (r: Category)
        ensures
            r == self.spec_category(),
    {
        match self {
            Type::String(_) => Category::String,
            Type::Number => Category::Number,
            Type::Integer => Category::Integer,
            Type::Object(_) => Category::Object,
            Type::Array(_) => Category::Array,
            Type::Boolean => Category::Boolean,
        }
    }
}

impl Category {
    /// The name of the category as documents write it.
    pub open spec fn label(self) -> Seq<char> {
        match self {
            Category::String => "string"@,
            Category::Number => "number"@,
            Category::Integer => "integer"@,
            Category::Object => "object"@,
            Category::Array => "array"@,
            Category::Boolean => "boolean"@,
        }
    }

    /// The name of the category as documents write it.
    pub fn name(&self) -> (r: &'static str)
        ensures
            r@ == self.label(),
    {
        match self {
            Category::String => "string",
            Category::Number => "number",
            Category::Integer => "integer",
            Category::Object => "object",
            Category::Array => "array",
            Category::Boolean => "boolean",
        }
    }
}

} // verus!
