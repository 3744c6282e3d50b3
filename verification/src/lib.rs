//! A linter for API descriptions.
//!
//! It reads a parsed description of an HTTP API and reports what would make
//! generated client code awkward: compositions of unlike types, names in the
//! wrong case, redundant suffixes, responses that can only be null, and
//! documentation that leaks the notation of one implementation language.

use vstd::prelude::*;

pub mod casing;
pub mod chain;
pub mod composition;
pub mod document;
pub mod endpoint;
pub mod laws;
pub mod message;
pub mod outcome;
pub mod pattern;
pub mod reference;
pub mod registry;
pub mod rules;
pub mod text;
pub mod validator;
pub mod walker;

use crate::casing::Convention;
use crate::document::Document;
use crate::laws::defect_free;
use crate::outcome::texts_of;
use crate::rules::Validator;
use crate::validator::findings;

verus! {

/// The diagnostics for `document` under the snake_case convention, without the
/// rules on documentation. The document must be one that can be analyzed;
/// [`Validator::validate_impl`] tells of any document whether it is.
pub fn validate(document: &Document) -> (r: Vec<String>)
    requires
        findings(Convention::SnakeCase, *document, false) is Ok,
    ensures
        texts_of(r@) == findings(Convention::SnakeCase, *document, false)->Ok_0,
        r@.len() == 0 <==> defect_free(Convention::SnakeCase, *document, false),
{
    match Validator::default().validate_impl(document, false) {
        Ok(diagnostics) => diagnostics,
        Err(_) => Vec::new(),
    }
}

/// The diagnostics for `document` under the snake_case convention, with the
/// rules on documentation. The document must be one that can be analyzed;
/// [`Validator::validate_impl`] tells of any document whether it is.
pub fn validate_external(document: &Document) -> (r: Vec<String>)
    requires
        findings(Convention::SnakeCase, *document, true) is Ok,
    ensures
        texts_of(r@) == findings(Convention::SnakeCase, *document, true)->Ok_0,
        r@.len() == 0 <==> defect_free(Convention::SnakeCase, *document, true),
{
    match Validator::default().validate_impl(document, true) {
        Ok(diagnostics) => diagnostics,
        Err(_) => Vec::new(),
    }
}

} // verus!
