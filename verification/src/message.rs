//! The texts of the diagnostics.
//!
//! Each diagnostic says what is wrong, names the offending value and where it
//! was found, and ends with the address of the documentation of its rule.

use crate::casing::Convention;
use crate::document::Category;
use vstd::prelude::*;
use vstd::string::StringExecFns;

verus! {

pub const TYPE_MISMATCH_INFO: &'static str =
    "For more info, see https://github.com/oxidecomputer/openapi-lint#type-mismatch";

pub const NAMING_INFO: &'static str =
    "For more info, see https://github.com/oxidecomputer/openapi-lint#naming";

pub const MEMBER_NAMING_INFO: &'static str =
    "For more info see https://github.com/oxidecomputer/openapi-lint#naming";

pub const UUIDS_INFO: &'static str =
    "For more info see https://github.com/oxidecomputer/openapi-lint#uuids";

pub const PATHS_INFO: &'static str =
    "For more info, see https://github.com/oxidecomputer/openapi-lint#paths";

pub const NULL_RESPONSE_INFO: &'static str =
    "For more info, see https://github.com/oxidecomputer/openapi-lint#trivial-null-response";

pub const DOCUMENTATION_INFO: &'static str =
    "For more info, see https://github.com/oxidecomputer/openapi-lint#rust-documentation";

/// Why a composition of unlike types is reported.
pub const MISMATCH: &'static str =
    "Mismatched types between subschemas; this is often due to enums with different data \
     payloads and can be resolved using serde adjacent tagging.";

/// What stands for a name that is not known.
pub const UNKNOWN: &'static str = "<unknown>";

/// The text of a name, or the placeholder where there is none.
pub open spec fn or_unknown(name: Option<Seq<char>>) -> Seq<char> {
    match name {
        Some(name) => name,
        None => UNKNOWN@,
    }
}

/// The leaves of a composition are of different categories: `first` is the
/// category of the first leaf, `other` that of the first leaf that differs.
pub open spec fn mismatch_message(first: Category, other: Category) -> Seq<char> {
    MISMATCH@ + "\nthis schema's type\n"@ + first.label() + "\ndiffers from this\n"@ + other.label()
        + "\n\n"@ + TYPE_MISMATCH_INFO@
}

/// The text of `mismatch_message`.
pub fn mismatch_text(first: Category, other: Category) -> (m: String)
    ensures
        m@ == mismatch_message(first, other),
{
    let mut m = String::from_str(MISMATCH);
    m.append("\nthis schema's type\n");
    m.append(first.name());
    m.append("\ndiffers from this\n");
    m.append(other.name());
    m.append("\n\n");
    m.append(TYPE_MISMATCH_INFO);
    m
}

/// A finding about the schema called `name`, or about one without a name.
pub open spec fn type_problem_message(name: Option<Seq<char>>, finding: Seq<char>) -> Seq<char> {
    "Problem with type "@ + or_unknown(name) + ": "@ + finding
}

/// The text of `type_problem_message`.
pub fn type_problem_text(name: &Option<String>, finding: &str) -> (m: String)
    ensures
        m@ == type_problem_message(
            match *name {
                Some(name) => Some(name@),
                None => None,
            },
            finding@,
        ),
{
    let mut m = String::from_str("Problem with type ");
    match name {
        Some(name) => m.append(name.as_str()),
        None => m.append(UNKNOWN),
    }
    m.append(": ");
    m.append(finding);
    m
}

/// The property `property` does not follow `convention`, under which it
/// would be spelled `suggestion`.
pub open spec fn property_name_message(
    convention: Convention,
    property: Seq<char>,
    suggestion: Seq<char>,
) -> Seq<char> {
    "An object contains a property '"@ + property + "' which is not "@ + convention.label()
        + ".\nAdd #[serde(rename = \""@ + suggestion
        + "\")] to the member or #[serde(rename_all = \""@ + convention.label()
        + "\")] to the struct.\n"@ + MEMBER_NAMING_INFO@
}

/// The text of `property_name_message`.
pub fn property_name_text(convention: Convention, property: &str, suggestion: &str) -> (m: String)
    ensures
        m@ == property_name_message(convention, property@, suggestion@),
{
    let mut m = String::from_str("An object contains a property '");
    m.append(property);
    m.append("' which is not ");
    m.append(convention.name());
    m.append(".\nAdd #[serde(rename = \"");
    m.append(suggestion);
    m.append("\")] to the member or #[serde(rename_all = \"");
    m.append(convention.name());
    m.append("\")] to the struct.\n");
    m.append(MEMBER_NAMING_INFO);
    m
}

/// The property `property` holds a uuid and says so again in its name;
/// `stem` is the name without that suffix.
pub open spec fn uuid_suffix_message(property: Seq<char>, stem: Seq<char>) -> Seq<char> {
    "An object contains a property '"@ + property
        + "' that is a uuid and redundantly ends with `_uuid`'; rename this property to `"@ + stem
        + "_id`.\n"@ + UUIDS_INFO@
}

/// The text of `uuid_suffix_message`.
pub fn uuid_suffix_text(property: &str, stem: &str) -> (m: String)
    ensures
        m@ == uuid_suffix_message(property@, stem@),
{
    let mut m = String::from_str("An object contains a property '");
    m.append(property);
    m.append("' that is a uuid and redundantly ends with `_uuid`'; rename this property to `");
    m.append(stem);
    m.append("_id`.\n");
    m.append(UUIDS_INFO);
    m
}

/// The enumerated value `value` is neither snake_case, which would be
/// `suggestion`, nor the upper-case form of it.
pub open spec fn enum_value_message(value: Seq<char>, suggestion: Seq<char>) -> Seq<char> {
    "An enumerated string contains a value '"@ + value
        + "' that is neither snake_case nor SCREAMING_SNAKE_CASE.\nAdd #[serde(rename = \""@
        + suggestion
        + "\")] to the variant or #[serde(rename_all = \"snake_case\")] to the enum.\n"@
        + MEMBER_NAMING_INFO@
}

/// The text of `enum_value_message`.
pub fn enum_value_text(value: &str, suggestion: &str) -> (m: String)
    ensures
        m@ == enum_value_message(value@, suggestion@),
{
    let mut m = String::from_str("An enumerated string contains a value '");
    m.append(value);
    m.append("' that is neither snake_case nor SCREAMING_SNAKE_CASE.\nAdd #[serde(rename = \"");
    m.append(suggestion);
    m.append("\")] to the variant or #[serde(rename_all = \"snake_case\")] to the enum.\n");
    m.append(MEMBER_NAMING_INFO);
    m
}

/// A segment of the path template `path` is not kebab-case.
pub open spec fn path_message(path: Seq<char>) -> Seq<char> {
    "The path "@ + path + " doesn't use kebab-case\n"@ + PATHS_INFO@
}

/// The text of `path_message`.
pub fn path_text(path: &str) -> (m: String)
    ensures
        m@ == path_message(path@),
{
    let mut m = String::from_str("The path ");
    m.append(path);
    m.append(" doesn't use kebab-case\n");
    m.append(PATHS_INFO);
    m
}

/// The operation for `method` on `path` has no identifying name.
pub open spec fn missing_operation_id_message(path: Seq<char>, method: Seq<char>) -> Seq<char> {
    "The operation for "@ + path + " "@ + method + " does not have an operation_id\n"@
        + NAMING_INFO@
}

/// The text of `missing_operation_id_message`.
pub fn missing_operation_id_text(path: &str, method: &str) -> (m: String)
    ensures
        m@ == missing_operation_id_message(path@, method@),
{
    let mut m = String::from_str("The operation for ");
    m.append(path);
    m.append(" ");
    m.append(method);
    m.append(" does not have an operation_id\n");
    m.append(NAMING_INFO);
    m
}

/// The operation for `method` on `path` is named `id`, which is not
/// snake_case; that would be `suggestion`.
pub open spec fn operation_id_message(
    path: Seq<char>,
    method: Seq<char>,
    id: Seq<char>,
    suggestion: Seq<char>,
) -> Seq<char> {
    "The operation for "@ + path + " "@ + method + " is named \""@ + id
        + "\" which is not snake_case; rename it to \""@ + suggestion + "\"\n"@ + NAMING_INFO@
}

/// The text of `operation_id_message`.
pub fn operation_id_text(path: &str, method: &str, id: &str, suggestion: &str) -> (m: String)
    ensures
        m@ == operation_id_message(path@, method@, id@, suggestion@),
{
    let mut m = String::from_str("The operation for ");
    m.append(path);
    m.append(" ");
    m.append(method);
    m.append(" is named \"");
    m.append(id);
    m.append("\" which is not snake_case; rename it to \"");
    m.append(suggestion);
    m.append("\"\n");
    m.append(NAMING_INFO);
    m
}

/// The parameter `parameter` of the operation `operation` does not follow
/// `convention`.
pub open spec fn parameter_name_message(
    convention: Convention,
    parameter: Seq<char>,
    operation: Seq<char>,
) -> Seq<char> {
    "The parameter \""@ + parameter + "\" to "@ + operation + " should be "@ + convention.label()
        + ".\n"@ + NAMING_INFO@
}

/// The text of `parameter_name_message`.
pub fn parameter_name_text(convention: Convention, parameter: &str, operation: &str) -> (m: String)
    ensures
        m@ == parameter_name_message(convention, parameter@, operation@),
{
    let mut m = String::from_str("The parameter \"");
    m.append(parameter);
    m.append("\" to ");
    m.append(operation);
    m.append(" should be ");
    m.append(convention.name());
    m.append(".\n");
    m.append(NAMING_INFO);
    m
}

/// A response of the operation `operation` can only be null.
pub open spec fn null_response_message(operation: Seq<char>) -> Seq<char> {
    "The return type for "@ + operation + " was a trivial null.\n"@ + NULL_RESPONSE_INFO@
}

/// The text of `null_response_message`.
pub fn null_response_text(operation: &str) -> (m: String)
    ensures
        m@ == null_response_message(operation@),
{
    let mut m = String::from_str("The return type for ");
    m.append(operation);
    m.append(" was a trivial null.\n");
    m.append(NULL_RESPONSE_INFO);
    m
}

/// The schema named `name` is not PascalCase; that would be `suggestion`.
pub open spec fn schema_name_message(name: Seq<char>, suggestion: Seq<char>) -> Seq<char> {
    "The type \""@ + name
        + "\" has a name that is not PascalCase; to rename it add #[serde(rename = \""@
        + suggestion + "\")]\n"@ + NAMING_INFO@
}

/// The text of `schema_name_message`.
pub fn schema_name_text(name: &str, suggestion: &str) -> (m: String)
    ensures
        m@ == schema_name_message(name@, suggestion@),
{
    let mut m = String::from_str("The type \"");
    m.append(name);
    m.append("\" has a name that is not PascalCase; to rename it add #[serde(rename = \"");
    m.append(suggestion);
    m.append("\")]\n");
    m.append(NAMING_INFO);
    m
}

/// The documentation `text` uses notation of one implementation language.
pub open spec fn documentation_message(text: Seq<char>) -> Seq<char> {
    "Rust documentation found in external interface: "@ + text + "\n"@ + DOCUMENTATION_INFO@
}

/// The text of `documentation_message`.
pub fn documentation_text(text: &str) -> (m: String)
    ensures
        m@ == documentation_message(text@),
{
    let mut m = String::from_str("Rust documentation found in external interface: ");
    m.append(text);
    m.append("\n");
    m.append(DOCUMENTATION_INFO);
    m
}

} // verus!
