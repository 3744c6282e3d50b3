//! The rules of the linter, one function per rule.
//!
//! A rule looks at one site of the document (a schema, a path, an operation,
//! a name in the components) and returns what it found there. A rule that
//! compares a name with its spelling in some case comes in two parts: the
//! `check_*` function decides from the name and the spelling, and the method
//! of [`Validator`] gets the spelling and applies it.

use crate::casing::{
    kebab_case_of, pascal_case_of, shouty_snake_case_of, snake_case_of, to_kebab_case,
    to_pascal_case, to_shouty_snake_case, to_snake_case, Convention,
};
use crate::composition::{find_mismatch, leaf_categories, mismatch, schema_leaves};
use crate::document::{
    Category, Components, Document, MediaType, Operation, Parameter, RefOr, Response, Schema,
    SchemaKind, StatusCode, Type,
};
use crate::message::{
    documentation_message, documentation_text, enum_value_message, enum_value_text,
    mismatch_message, mismatch_text, missing_operation_id_message, missing_operation_id_text,
    null_response_message, null_response_text, operation_id_message, operation_id_text,
    or_unknown, parameter_name_message, parameter_name_text, path_message, path_text,
    property_name_message, property_name_text, schema_name_message, schema_name_text,
    uuid_suffix_message, uuid_suffix_text, UNKNOWN,
};
use crate::outcome::{
    append_texts, followed_by, gathered, just, lemma_gathered_step, lemma_listed_end,
    lemma_listed_step, lemma_nothing, listed, no_texts, nothing, push_finding, push_text, reports,
    stops, text_of, text_or_none, texts_of, yields, InputError,
};
use crate::pattern::{regex_search, search};
use crate::reference::resolved;
use crate::text::{
    begins_with, pieces, same_text, slices, split, starts_with_char, strip_suffix, stripped,
};
use crate::walker::fresh_marks;
use vstd::prelude::*;

verus! {

/// The linter with its configuration.
#[derive(Clone, Copy, Debug)]
pub struct Validator {
    /// The convention that the names of properties and parameters follow.
    pub convention: Convention,
}

impl Default for Validator {
    /// The linter for snake_case names.
    fn default() -> (r: Self)
        ensures
            r.convention == Convention::SnakeCase,
    {
        Validator { convention: Convention::SnakeCase }
    }
}

/// What the rule on the types of a composition finds for `schema`: the
/// categories of its first leaf and of the first leaf that differs, if its
/// leaves are not of one category.
pub open spec fn type_mismatch(components: Option<Components>, schema: Schema) -> Result<
    Option<Seq<char>>,
    InputError,
> {
    match leaf_categories(components, schema) {
        Err(e) => Err(e),
        Ok(leaves) => Ok(
            match mismatch(leaves) {
                Some((first, other)) => Some(mismatch_message(first, other)),
                None => None,
            },
        ),
    }
}

/// What the rule on property names finds for `name`, whose spelling under
/// `convention` is `form`.
pub open spec fn property_name_finding(
    convention: Convention,
    name: Seq<char>,
    form: Seq<char>,
) -> Option<Seq<char>> {
    if name == form {
        None
    } else {
        Some(property_name_message(convention, name, form))
    }
}

/// The rule on property names, for the property `name` whose spelling under
/// `convention` is `form`.
pub fn check_property_name(convention: Convention, name: &str, form: &str) -> (r: Option<String>)
    ensures
        text_of(r) == property_name_finding(convention, name@, form@),
{
    if same_text(name, form) {
        None
    } else {
        Some(property_name_text(convention, name, form))
    }
}

/// The suffix that says of a property that it holds a uuid.
pub const UUID_SUFFIX: &'static str = "_uuid";

/// The format of a string that holds a uuid.
pub const UUID_FORMAT: &'static str = "uuid";

/// Whether `value` is an inline string that has the format `uuid` and no
/// other constraint.
pub open spec fn plain_uuid(value: RefOr<Schema>) -> bool {
    match value {
        RefOr::Item(schema) => match schema.kind {
            SchemaKind::Type(Type::String(string)) => {
                &&& string.format matches Some(format) && format@ == UUID_FORMAT@
                &&& string.pattern is None
                &&& string.enumeration@.len() == 0
                &&& string.min_length is None
                &&& string.max_length is None
            },
            _ => false,
        },
        RefOr::Reference { .. } => false,
    }
}

/// Whether `value` is an inline string that has the format `uuid` and no
/// other constraint.
pub fn is_plain_uuid(value: &RefOr<Schema>) -> (r: bool)
    ensures
        r == plain_uuid(*value),
{
    match value {
        RefOr::Item(schema) => match &schema.kind {
            SchemaKind::Type(Type::String(string)) => {
                let format_fits = match &string.format {
                    Some(format) => same_text(format.as_str(), UUID_FORMAT),
                    None => false,
                };
                format_fits && string.pattern.is_none() && string.enumeration.len() == 0
                    && string.min_length.is_none() && string.max_length.is_none()
            },
            _ => false,
        },
        RefOr::Reference { .. } => false,
    }
}

/// What the rule on redundant suffixes finds for the property `name` with the
/// schema `value`: a name that ends with the suffix, on a plain uuid, is
/// reported with the name that it would have without that suffix.
pub open spec fn uuid_suffix_finding(name: Seq<char>, value: RefOr<Schema>) -> Option<Seq<char>> {
    match stripped(name, UUID_SUFFIX@) {
        Some(stem) => if plain_uuid(value) {
            Some(uuid_suffix_message(name, stem))
        } else {
            None
        },
        None => None,
    }
}

/// The rule on redundant suffixes, for the property `name` with the schema
/// `value`.
pub fn check_uuid_suffix(name: &str, value: &RefOr<Schema>) -> (r: Option<String>)
    ensures
        text_of(r) == uuid_suffix_finding(name@, *value),
{
    match strip_suffix(name, UUID_SUFFIX) {
        Some(stem) => if is_plain_uuid(value) {
            Some(uuid_suffix_text(name, stem))
        } else {
            None
        },
        None => None,
    }
}

/// What the rule on property names lists for one property.
pub open spec fn each_property_name(
    convention: Convention,
) -> spec_fn((String, RefOr<Schema>)) -> Seq<Seq<char>> {
    |property: (String, RefOr<Schema>)|
        text_or_none(
            property_name_finding(convention, property.0@, convention.form_of(property.0@)),
        )
}

/// What the rule on redundant suffixes lists for one property.
pub open spec fn each_uuid_suffix() -> spec_fn((String, RefOr<Schema>)) -> Seq<Seq<char>> {
    |property: (String, RefOr<Schema>)| text_or_none(uuid_suffix_finding(property.0@, property.1))
}

/// What the rules on properties find for `schema`: for an object, first the
/// names that do not follow `convention`, then the redundant suffixes, each
/// in the order of the properties.
pub open spec fn object_findings(convention: Convention, schema: Schema) -> Seq<Seq<char>> {
    match schema.kind {
        SchemaKind::Type(Type::Object(object)) => listed(
            object.properties@,
            each_property_name(convention),
            0,
        ) + listed(object.properties@, each_uuid_suffix(), 0),
        _ => Seq::empty(),
    }
}

/// What the rule on enumerated values finds for `value`, whose snake_case
/// form is `lower` and whose upper-case form is `upper`.
pub open spec fn enum_value_finding(value: Seq<char>, lower: Seq<char>, upper: Seq<char>) -> Option<
    Seq<char>,
> {
    if value == lower || value == upper {
        None
    } else {
        Some(enum_value_message(value, lower))
    }
}

/// The rule on enumerated values, for `value` whose snake_case form is
/// `lower` and whose upper-case form is `upper`.
pub fn check_enum_value(value: &str, lower: &str, upper: &str) -> (r: Option<String>)
    ensures
        text_of(r) == enum_value_finding(value@, lower@, upper@),
{
    if same_text(value, lower) || same_text(value, upper) {
        None
    } else {
        Some(enum_value_text(value, lower))
    }
}

/// What the rule on enumerated values lists for one value; the null value is
/// passed over.
pub open spec fn each_enum_value() -> spec_fn(Option<String>) -> Seq<Seq<char>> {
    |value: Option<String>|
        match value {
            Some(label) => text_or_none(
                enum_value_finding(label@, snake_case_of(label@), shouty_snake_case_of(label@)),
            ),
            None => Seq::empty(),
        }
}

/// What the rule on enumerated values finds for `schema`: for a string, the
/// values that are neither snake_case nor its upper-case form, in their
/// order.
pub open spec fn enumeration_findings(schema: Schema) -> Seq<Seq<char>> {
    match schema.kind {
        SchemaKind::Type(Type::String(string)) => listed(string.enumeration@, each_enum_value(), 0),
        _ => Seq::empty(),
    }
}

impl Validator {
    /// The categories of the concrete types at the leaves of `schema`.
    pub fn subschemas(&self, document: &Document, schema: &Schema) -> (r: Result<
        Vec<Category>,
        InputError,
    >)
        ensures
            match r {
                Ok(list) => yields(leaf_categories(document.components, *schema), list@),
                Err(e) => stops(leaf_categories(document.components, *schema), e),
            },
    {
        let mut marks = fresh_marks(&document.components);
        schema_leaves(schema, &document.components, &mut marks)
    }

    /// The rule on the types of a composition: a schema whose leaves are of
    /// different categories is reported once.
    pub fn validate_subschemas(&self, document: &Document, schema: &Schema) -> (r: Result<
        Option<String>,
        InputError,
    >)
        ensures
            match r {
                Ok(finding) => yields(
                    type_mismatch(document.components, *schema),
                    text_of(finding),
                ),
                Err(e) => stops(type_mismatch(document.components, *schema), e),
            },
    {
        let leaves = self.subschemas(document, schema)?;
        match find_mismatch(&leaves) {
            Some((first, other)) => Ok(Some(mismatch_text(first, other))),
            None => Ok(None),
        }
    }

    /// The rules on the properties of an object.
    pub fn validate_object(&self, schema: &Schema) -> (r: Vec<String>)
        ensures
            texts_of(r@) == object_findings(self.convention, *schema),
    {
        let mut ret = no_texts();
        match &schema.kind {
            SchemaKind::Type(Type::Object(object)) => {
                let ghost names = each_property_name(self.convention);
                let ghost suffixes = each_uuid_suffix();
                let mut i: usize = 0;
                proof {
                    lemma_listed_end(object.properties@, names, texts_of(ret@));
                }
                while i < object.properties.len()
                    invariant
                        i <= object.properties@.len(),
                        names == each_property_name(self.convention),
                        listed(object.properties@, names, 0) == texts_of(ret@) + listed(
                            object.properties@,
                            names,
                            i as int,
                        ),
                    decreases object.properties@.len() - i,
                {
                    proof {
                        lemma_listed_step(object.properties@, names, texts_of(ret@), i as int);
                    }
                    let name = object.properties[i].0.as_str();
                    let form = self.convention.convert(name);
                    push_finding(
                        &mut ret,
                        check_property_name(self.convention, name, form.as_str()),
                    );
                    i = i + 1;
                }
                proof {
                    lemma_listed_end(object.properties@, names, texts_of(ret@));
                    lemma_listed_end(object.properties@, suffixes, texts_of(ret@));
                }
                let ghost first = texts_of(ret@);
                let mut j: usize = 0;
                assert(first + listed(object.properties@, suffixes, 0) == texts_of(ret@) + listed(
                    object.properties@,
                    suffixes,
                    0,
                ));
                while j < object.properties.len()
                    invariant
                        j <= object.properties@.len(),
                        suffixes == each_uuid_suffix(),
                        first + listed(object.properties@, suffixes, 0) == texts_of(ret@) + listed(
                            object.properties@,
                            suffixes,
                            j as int,
                        ),
                    decreases object.properties@.len() - j,
                {
                    proof {
                        lemma_listed_step(object.properties@, suffixes, texts_of(ret@), j as int);
                    }
                    push_finding(
                        &mut ret,
                        check_uuid_suffix(
                            object.properties[j].0.as_str(),
                            &object.properties[j].1,
                        ),
                    );
                    j = j + 1;
                }
                proof {
                    lemma_listed_end(object.properties@, suffixes, texts_of(ret@));
                }
            },
            _ => {},
        }
        ret
    }

    /// The rule on the values of a string enumeration.
    pub fn validate_enumeration_value(&self, schema: &Schema) -> (r: Vec<String>)
        ensures
            texts_of(r@) == enumeration_findings(*schema),
    {
        let mut ret = no_texts();
        match &schema.kind {
            SchemaKind::Type(Type::String(string)) => {
                let ghost values = each_enum_value();
                let mut i: usize = 0;
                proof {
                    lemma_listed_end(string.enumeration@, values, texts_of(ret@));
                }
                while i < string.enumeration.len()
                    invariant
                        i <= string.enumeration@.len(),
                        values == each_enum_value(),
                        listed(string.enumeration@, values, 0) == texts_of(ret@) + listed(
                            string.enumeration@,
                            values,
                            i as int,
                        ),
                    decreases string.enumeration@.len() - i,
                {
                    proof {
                        lemma_listed_step(string.enumeration@, values, texts_of(ret@), i as int);
                    }
                    let finding = match &string.enumeration[i] {
                        Some(label) => {
                            let lower = to_snake_case(label.as_str());
                            let upper = to_shouty_snake_case(label.as_str());
                            check_enum_value(label.as_str(), lower.as_str(), upper.as_str())
                        },
                        None => None,
                    };
                    push_finding(&mut ret, finding);
                    i = i + 1;
                }
                proof {
                    lemma_listed_end(string.enumeration@, values, texts_of(ret@));
                }
            },
            _ => {},
        }
        ret
    }
}

/// Whether the segment `segment` of a path template, whose kebab-case form is
/// `kebab`, is acceptable: a placeholder in braces is, and so is a segment
/// that is its own kebab-case form.
pub open spec fn segment_fits(segment: Seq<char>, kebab: Seq<char>) -> bool {
    begins_with(segment, '{') || segment == kebab
}

/// Whether the segment `segment` of a path template, whose kebab-case form is
/// `kebab`, is acceptable.
pub fn check_segment(segment: &str, kebab: &str) -> (r: bool)
    ensures
        r == segment_fits(segment@, kebab@),
{
    starts_with_char(segment, '{') || same_text(segment, kebab)
}

/// Whether every segment of the path template `path` is acceptable.
pub open spec fn path_fits(path: Seq<char>) -> bool {
    forall|i: int|
        0 <= i < pieces(path, '/').len() ==> segment_fits(
            #[trigger] pieces(path, '/')[i],
            kebab_case_of(pieces(path, '/')[i]),
        )
}

/// What the rule on paths finds for `path`.
pub open spec fn path_finding(path: Seq<char>) -> Option<Seq<char>> {
    if path_fits(path) {
        None
    } else {
        Some(path_message(path))
    }
}

/// What the rule on operation names finds for an operation named `id`, whose
/// snake_case form is `snake`.
pub open spec fn operation_id_finding(
    path: Seq<char>,
    method: Seq<char>,
    id: Seq<char>,
    snake: Seq<char>,
) -> Option<Seq<char>> {
    if id == snake {
        None
    } else {
        Some(operation_id_message(path, method, id, snake))
    }
}

/// The rule on operation names, for an operation named `id` whose snake_case
/// form is `snake`.
pub fn check_operation_id(path: &str, method: &str, id: &str, snake: &str) -> (r: Option<String>)
    ensures
        text_of(r) == operation_id_finding(path@, method@, id@, snake@),
{
    if same_text(id, snake) {
        None
    } else {
        Some(operation_id_text(path, method, id, snake))
    }
}

/// What the rule on operation names finds for the operation for `method` on
/// `path`: that it has no name, or that its name is not snake_case.
pub open spec fn operation_finding(
    path: Seq<char>,
    method: Seq<char>,
    operation: Operation,
) -> Option<Seq<char>> {
    match operation.operation_id {
        Some(id) => operation_id_finding(path, method, id@, snake_case_of(id@)),
        None => Some(missing_operation_id_message(path, method)),
    }
}

/// The name by which diagnostics call `operation`.
pub open spec fn operation_name(operation: Operation) -> Seq<char> {
    or_unknown(text_of(operation.operation_id))
}

/// The name by which diagnostics call `operation`.
pub fn name_of_operation(operation: &Operation) -> (r: &str)
    ensures
        r@ == operation_name(*operation),
{
    match &operation.operation_id {
        Some(id) => id.as_str(),
        None => UNKNOWN,
    }
}

/// What the rule on parameter names finds for the parameter `name` of the
/// operation called `operation`, where the spelling of `name` under
/// `convention` is `form`.
pub open spec fn parameter_name_finding(
    convention: Convention,
    name: Seq<char>,
    form: Seq<char>,
    operation: Seq<char>,
) -> Option<Seq<char>> {
    if name == form {
        None
    } else {
        Some(parameter_name_message(convention, name, operation))
    }
}

/// The rule on parameter names, for the parameter `name` of the operation
/// called `operation`, where the spelling of `name` under `convention` is
/// `form`.
pub fn check_parameter_name(convention: Convention, name: &str, form: &str, operation: &str) -> (r:
    Option<String>)
    ensures
        text_of(r) == parameter_name_finding(convention, name@, form@, operation@),
{
    if same_text(name, form) {
        None
    } else {
        Some(parameter_name_text(convention, name, operation))
    }
}

/// What the rule on parameter names yields for one parameter of the operation
/// called `operation`; the parameter is resolved first.
pub open spec fn each_parameter_name(
    convention: Convention,
    components: Option<Components>,
    operation: Seq<char>,
) -> spec_fn(RefOr<Parameter>) -> Result<Seq<Seq<char>>, InputError> {
    |parameter: RefOr<Parameter>|
        match resolved(parameter, components) {
            Err(e) => Err(e),
            Ok(item) => just(
                text_or_none(
                    parameter_name_finding(
                        convention,
                        item.name@,
                        convention.form_of(item.name@),
                        operation,
                    ),
                ),
            ),
        }
}

/// What the rule on parameter names finds for `operation`: its parameters
/// that do not follow `convention`, in declaration order.
pub open spec fn parameter_findings(
    convention: Convention,
    components: Option<Components>,
    operation: Operation,
) -> Result<Seq<Seq<char>>, InputError> {
    gathered(
        operation.parameters@,
        each_parameter_name(convention, components, operation_name(operation)),
        0,
    )
}

/// Whether `schema` is a string that can only be null: an enumeration of one
/// value, the null value.
pub open spec fn trivial_null(schema: Schema) -> bool {
    match schema.kind {
        SchemaKind::Type(Type::String(string)) => string.enumeration@.len() == 1
            && string.enumeration@[0] is None,
        _ => false,
    }
}

/// Whether `schema` is a string that can only be null.
pub fn is_trivial_null(schema: &Schema) -> (r: bool)
    ensures
        r == trivial_null(*schema),
{
    match &schema.kind {
        SchemaKind::Type(Type::String(string)) => string.enumeration.len() == 1
            && string.enumeration[0].is_none(),
        _ => false,
    }
}

/// What the rule on null responses yields for one media type of a response of
/// the operation called `operation`; the schema is resolved first.
pub open spec fn each_null_media(components: Option<Components>, operation: Seq<char>) -> spec_fn(
    (String, MediaType),
) -> Result<Seq<Seq<char>>, InputError> {
    |media: (String, MediaType)|
        match media.1.schema {
            None => nothing(),
            Some(child) => match resolved(child, components) {
                Err(e) => Err(e),
                Ok(schema) => if trivial_null(schema) {
                    just(seq![null_response_message(operation)])
                } else {
                    nothing()
                },
            },
        }
}

/// What the rule on null responses finds for one response of the operation
/// called `operation`: one diagnostic for each media type whose schema can
/// only be null. The response is resolved first.
pub open spec fn null_response_findings(
    components: Option<Components>,
    operation: Seq<char>,
    response: RefOr<Response>,
) -> Result<Seq<Seq<char>>, InputError> {
    match resolved(response, components) {
        Err(e) => Err(e),
        Ok(item) => gathered(item.content@, each_null_media(components, operation), 0),
    }
}

/// What the rule on null responses yields for the response for one status
/// code.
pub open spec fn each_null_response(
    components: Option<Components>,
    operation: Seq<char>,
) -> spec_fn((StatusCode, RefOr<Response>)) -> Result<Seq<Seq<char>>, InputError> {
    |response: (StatusCode, RefOr<Response>)|
        null_response_findings(components, operation, response.1)
}

/// What the rule on null responses finds for the default response of
/// `operation`, if it has one.
pub open spec fn default_response_findings(
    components: Option<Components>,
    operation: Operation,
) -> Result<Seq<Seq<char>>, InputError> {
    match operation.responses.default {
        Some(response) => null_response_findings(
            components,
            operation_name(operation),
            response,
        ),
        None => nothing(),
    }
}

/// What the rule on null responses finds for `operation`: one diagnostic for
/// each media type whose schema can only be null, first of the default
/// response, then of each response by status code in declaration order.
pub open spec fn response_findings(components: Option<Components>, operation: Operation) -> Result<
    Seq<Seq<char>>,
    InputError,
> {
    followed_by(
        default_response_findings(components, operation),
        gathered(
            operation.responses.responses@,
            each_null_response(components, operation_name(operation)),
            0,
        ),
    )
}

/// What the rule on schema names finds for the schema named `name`, whose
/// PascalCase form is `pascal`.
pub open spec fn schema_name_finding(name: Seq<char>, pascal: Seq<char>) -> Option<Seq<char>> {
    if name == pascal {
        None
    } else {
        Some(schema_name_message(name, pascal))
    }
}

/// The rule on schema names, for the schema named `name` whose PascalCase
/// form is `pascal`.
pub fn check_schema_name(name: &str, pascal: &str) -> (r: Option<String>)
    ensures
        text_of(r) == schema_name_finding(name@, pascal@),
{
    if same_text(name, pascal) {
        None
    } else {
        Some(schema_name_text(name, pascal))
    }
}

/// An alphanumeric character, `::`, then a letter: a path of an
/// implementation language.
pub const QUALIFIED_PATH: &'static str = "[[:alnum:]]::[[:alpha:]]";

/// A closing bracket that no parenthesis follows: a link without a target.
pub const LOOSE_LINK: &'static str = "\\][^(]";

/// What the rule on documentation finds for `text`, where `qualified` and
/// `loose` are the outcomes of searching it for a qualified path and for a
/// loose link. A search that could not be made has found nothing.
pub open spec fn doc_string_finding(
    text: Seq<char>,
    qualified: Option<bool>,
    loose: Option<bool>,
) -> Option<Seq<char>> {
    if qualified == Some(true) || loose == Some(true) {
        Some(documentation_message(text))
    } else {
        None
    }
}

/// The rule on documentation, for `text` where `qualified` and `loose` are
/// the outcomes of searching it for a qualified path and for a loose link.
pub fn check_doc_findings(text: &str, qualified: Option<bool>, loose: Option<bool>) -> (r: Option<
    String,
>)
    ensures
        text_of(r) == doc_string_finding(text@, qualified, loose),
{
    let found_path = match qualified {
        Some(found) => found,
        None => false,
    };
    let found_link = match loose {
        Some(found) => found,
        None => false,
    };
    if found_path || found_link {
        Some(documentation_text(text))
    } else {
        None
    }
}

/// What the rule on documentation finds for `text`.
pub open spec fn doc_finding(text: Seq<char>) -> Option<Seq<char>> {
    doc_string_finding(
        text,
        regex_search(QUALIFIED_PATH@, text),
        regex_search(LOOSE_LINK@, text),
    )
}

/// The rule on documentation: a text that holds a qualified path or a loose
/// link is reported.
pub fn check_doc_string(s: &str) -> (r: Option<String>)
    ensures
        text_of(r) == doc_finding(s@),
{
    check_doc_findings(s, search(QUALIFIED_PATH, s), search(LOOSE_LINK, s))
}

/// What the rule on documentation finds for a text that may be absent.
pub open spec fn optional_doc_finding(text: Option<String>) -> Seq<Seq<char>> {
    match text {
        Some(text) => text_or_none(doc_finding(text@)),
        None => Seq::empty(),
    }
}

/// What the rule on documentation finds for `schema`: first for its title,
/// then for its description.
pub open spec fn schema_docs_findings(schema: Schema) -> Seq<Seq<char>> {
    optional_doc_finding(schema.title) + optional_doc_finding(schema.description)
}

/// The rule on documentation, for a text that may be absent.
pub fn check_optional_doc(text: &Option<String>) -> (r: Option<String>)
    ensures
        text_or_none(text_of(r)) == optional_doc_finding(*text),
{
    match text {
        Some(text) => check_doc_string(text.as_str()),
        None => None,
    }
}

impl Validator {
    /// The rule on paths: every segment of a path template that is not a
    /// placeholder is kebab-case.
    pub fn validate_path(&self, path: &str) -> (r: Option<String>)
        ensures
            text_of(r) == path_finding(path@),
    {
        let segments = split(path, '/');
        let mut fits = true;
        let mut i: usize = 0;
        while i < segments.len()
            invariant
                i <= segments@.len(),
                slices(segments@) == pieces(path@, '/'),
                fits <==> forall|k: int|
                    0 <= k < i ==> segment_fits(
                        #[trigger] pieces(path@, '/')[k],
                        kebab_case_of(pieces(path@, '/')[k]),
                    ),
            decreases segments@.len() - i,
        {
            assert(slices(segments@)[i as int] == segments@[i as int]@);
            let kebab = to_kebab_case(segments[i]);
            if !check_segment(segments[i], kebab.as_str()) {
                fits = false;
            }
            i = i + 1;
        }
        if fits {
            None
        } else {
            Some(path_text(path))
        }
    }

    /// The rule on operation names: every operation has a name, and the name
    /// is snake_case.
    pub fn validate_operation_id(&self, path_method_op: (&str, &str, &Operation)) -> (r: Option<
        String,
    >)
        ensures
            text_of(r) == operation_finding(
                path_method_op.0@,
                path_method_op.1@,
                *path_method_op.2,
            ),
    {
        let (path, method, op) = path_method_op;
        match &op.operation_id {
            Some(id) => {
                let snake = to_snake_case(id.as_str());
                check_operation_id(path, method, id.as_str(), snake.as_str())
            },
            None => Some(missing_operation_id_text(path, method)),
        }
    }

    /// The rule on parameter names: every parameter of an operation follows
    /// the convention.
    pub fn validate_operation_parameters(&self, document: &Document, op: &Operation) -> (r: Result<
        Vec<String>,
        InputError,
    >)
        ensures
            reports(r, parameter_findings(self.convention, document.components, *op)),
    {
        let operation_id = name_of_operation(op);
        let ghost each = each_parameter_name(self.convention, document.components, operation_id@);
        let mut ret = no_texts();
        let mut i: usize = 0;
        proof {
            lemma_nothing(gathered(op.parameters@, each, 0));
        }
        while i < op.parameters.len()
            invariant
                i <= op.parameters@.len(),
                operation_id@ == operation_name(*op),
                each == each_parameter_name(self.convention, document.components, operation_id@),
                gathered(op.parameters@, each, 0) == followed_by(
                    just(texts_of(ret@)),
                    gathered(op.parameters@, each, i as int),
                ),
            decreases op.parameters@.len() - i,
        {
            proof {
                lemma_gathered_step(op.parameters@, each, texts_of(ret@), i as int);
            }
            let param = op.parameters[i].item(&document.components)?;
            let form = self.convention.convert(param.name.as_str());
            push_finding(
                &mut ret,
                check_parameter_name(
                    self.convention,
                    param.name.as_str(),
                    form.as_str(),
                    operation_id,
                ),
            );
            i = i + 1;
        }
        proof {
            lemma_nothing(just(texts_of(ret@)));
        }
        Ok(ret)
    }

    /// The rule on null responses, for the media types of one response.
    fn validate_response_content(
        &self,
        document: &Document,
        content: &Vec<(String, MediaType)>,
        operation_id: &str,
    ) -> (r: Result<Vec<String>, InputError>)
        ensures
            reports(
                r,
                gathered(content@, each_null_media(document.components, operation_id@), 0),
            ),
    {
        let ghost each = each_null_media(document.components, operation_id@);
        let mut ret = no_texts();
        let mut i: usize = 0;
        proof {
            lemma_nothing(gathered(content@, each, 0));
        }
        while i < content.len()
            invariant
                i <= content@.len(),
                each == each_null_media(document.components, operation_id@),
                gathered(content@, each, 0) == followed_by(
                    just(texts_of(ret@)),
                    gathered(content@, each, i as int),
                ),
            decreases content@.len() - i,
        {
            proof {
                lemma_gathered_step(content@, each, texts_of(ret@), i as int);
            }
            match &content[i].1.schema {
                Some(child) => {
                    let schema = child.item(&document.components)?;
                    if is_trivial_null(schema) {
                        push_text(&mut ret, null_response_text(operation_id));
                    } else {
                        assert(texts_of(ret@) + Seq::<Seq<char>>::empty() =~= texts_of(ret@));
                    }
                },
                None => {
                    assert(texts_of(ret@) + Seq::<Seq<char>>::empty() =~= texts_of(ret@));
                },
            }
            i = i + 1;
        }
        proof {
            lemma_nothing(just(texts_of(ret@)));
        }
        Ok(ret)
    }

    /// The rule on null responses, for one response.
    fn validate_response(
        &self,
        document: &Document,
        response: &RefOr<Response>,
        operation_id: &str,
    ) -> (r: Result<Vec<String>, InputError>)
        ensures
            reports(r, null_response_findings(document.components, operation_id@, *response)),
    {
        let item = response.item(&document.components)?;
        self.validate_response_content(document, &item.content, operation_id)
    }

    /// The rule on null responses: no response of an operation, the default
    /// one or one by status code, has a schema that can only be null.
    pub fn validate_operation_response(&self, document: &Document, op: &Operation) -> (r: Result<
        Vec<String>,
        InputError,
    >)
        ensures
            reports(r, response_findings(document.components, *op)),
    {
        let operation_id = name_of_operation(op);
        let ghost each = each_null_response(document.components, operation_id@);
        let mut ret = match &op.responses.default {
            Some(response) => self.validate_response(document, response, operation_id)?,
            None => no_texts(),
        };
        let mut i: usize = 0;
        while i < op.responses.responses.len()
            invariant
                i <= op.responses.responses@.len(),
                operation_id@ == operation_name(*op),
                each == each_null_response(document.components, operation_id@),
                response_findings(document.components, *op) == followed_by(
                    just(texts_of(ret@)),
                    gathered(op.responses.responses@, each, i as int),
                ),
            decreases op.responses.responses@.len() - i,
        {
            proof {
                lemma_gathered_step(op.responses.responses@, each, texts_of(ret@), i as int);
            }
            let response = &op.responses.responses[i].1;
            let more = self.validate_response(document, response, operation_id)?;
            append_texts(&mut ret, more);
            i = i + 1;
        }
        proof {
            lemma_nothing(just(texts_of(ret@)));
        }
        Ok(ret)
    }

    /// The rule on schema names: every name in the components is PascalCase.
    pub fn validate_named_schema(&self, name: &str) -> (r: Option<String>)
        ensures
            text_of(r) == schema_name_finding(name@, pascal_case_of(name@)),
    {
        let pascal = to_pascal_case(name);
        check_schema_name(name, pascal.as_str())
    }

    /// The rule on documentation, for the title and the description of a
    /// schema.
    pub fn validate_schema_docs(&self, schema: &Schema) -> (r: Vec<String>)
        ensures
            texts_of(r@) == schema_docs_findings(*schema),
    {
        let mut ret = no_texts();
        push_finding(&mut ret, check_optional_doc(&schema.title));
        push_finding(&mut ret, check_optional_doc(&schema.description));
        assert(Seq::<Seq<char>>::empty() + optional_doc_finding(schema.title)
            =~= optional_doc_finding(schema.title));
        ret
    }
}

} // verus!
