//! Case conversions, as the `heck` crate makes them.
//!
//! Each conversion is a function of the text alone and takes pages to state,
//! so each is known to the proofs by name only: two calls on the same text
//! give the same result, and nothing more is claimed of it.

use heck::{ToKebabCase, ToLowerCamelCase, ToPascalCase, ToShoutySnakeCase, ToSnakeCase};
use vstd::prelude::*;

verus! {

/// The snake_case form of a text.
pub uninterp spec fn snake_case_of(s: Seq<char>) -> Seq<char>;

/// The SHOUTY_SNAKE_CASE form of a text.
pub uninterp spec fn shouty_snake_case_of(s: Seq<char>) -> Seq<char>;

/// The kebab-case form of a text.
pub uninterp spec fn kebab_case_of(s: Seq<char>) -> Seq<char>;

/// The PascalCase form of a text.
pub uninterp spec fn pascal_case_of(s: Seq<char>) -> Seq<char>;

/// The lowerCamelCase form of a text.
pub uninterp spec fn lower_camel_case_of(s: Seq<char>) -> Seq<char>;

/// `heck::ToSnakeCase::to_snake_case` on a string slice: the result is the
/// snake_case form of `s`.
#[verifier::external_body]
pub(crate) fn to_snake_case(s: &str) -> (r: String)
    ensures
        r@ == snake_case_of(s@),
{
    s.to_snake_case()
}

/// `heck::ToShoutySnakeCase::to_shouty_snake_case` on a string slice: the
/// result is the SHOUTY_SNAKE_CASE form of `s`.
#[verifier::external_body]
pub(crate) fn to_shouty_snake_case(s: &str) -> (r: String)
    ensures
        r@ == shouty_snake_case_of(s@),
{
    s.to_shouty_snake_case()
}

/// `heck::ToKebabCase::to_kebab_case` on a string slice: the result is the
/// kebab-case form of `s`.
#[verifier::external_body]
pub(crate) fn to_kebab_case(s: &str) -> (r: String)
    ensures
        r@ == kebab_case_of(s@),
{
    s.to_kebab_case()
}

/// `heck::ToPascalCase::to_pascal_case` on a string slice: the result is the
/// PascalCase form of `s`.
#[verifier::external_body]
pub(crate) fn to_pascal_case(s: &str) -> (r: String)
    ensures
        r@ == pascal_case_of(s@),
{
    s.to_pascal_case()
}

/// `heck::ToLowerCamelCase::to_lower_camel_case` on a string slice: the result
/// is the lowerCamelCase form of `s`.
#[verifier::external_body]
pub(crate) fn to_lower_camel_case(s: &str) -> (r: String)
    ensures
        r@ == lower_camel_case_of(s@),
{
    s.to_lower_camel_case()
}

/// A naming convention for properties and parameters.
#[derive(Clone, Copy, Debug, PartialEq, Eq)]
pub enum Convention {
    SnakeCase,
    CamelCase,
}

impl Convention {
    /// The spelling of `name` under this convention.
    pub open spec fn form_of(self, name: Seq<char>) -> Seq<char> {
        match self {
            Convention::SnakeCase => snake_case_of(name),
            Convention::CamelCase => lower_camel_case_of(name),
        }
    }

    /// The name of the convention as it is written in diagnostics.
    pub open spec fn label(self) -> Seq<char> {
        match self {
            Convention::SnakeCase => "snake_case"@,
            Convention::CamelCase => "camelCase"@,
        }
    }

    /// The spelling of `name` under this convention.
    pub fn convert(&self, name: &str) -> (r: String)
        ensures
            r@ == self.form_of(name@),
    {
        match self {
            Convention::SnakeCase => to_snake_case(name),
            Convention::CamelCase => to_lower_camel_case(name),
        }
    }

    /// The name of the convention as it is written in diagnostics.
    pub fn name(&self) -> (r: &'static str)
        ensures
            r@ == self.label(),
    {
        match self {
            Convention::SnakeCase => "snake_case",
            Convention::CamelCase => "camelCase",
        }
    }
}

} // verus!
