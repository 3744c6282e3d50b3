//! Running every rule over a document.
//!
//! The diagnostics come in a fixed order: first those of the schemas, in the
//! order of the walk and for each schema in the order of the rules; then
//! those of the paths, of the names of the operations, of their parameters,
//! of their responses, of the names of the schemas in the components, and, in
//! the external mode, of the descriptions of the operations.

use crate::casing::{pascal_case_of, Convention};
use crate::document::{Components, Document, Operation, PathItem, RefOr, Schema};
use crate::endpoint::{endpoints, endpoints_of, Endpoint};
use crate::laws::{defect_free, lemma_silent_when_defect_free};
use crate::message::{type_problem_message, type_problem_text};
use crate::outcome::{
    append_texts, followed_by, gathered, just, lemma_gathered_step, lemma_listed_end,
    lemma_listed_step, lemma_nothing, listed, no_texts, nothing, push_finding, push_text, reports,
    text_or_none, texts_of, InputError,
};
use crate::rules::{
    check_optional_doc, enumeration_findings, object_findings, operation_finding,
    optional_doc_finding, parameter_findings, path_finding, response_findings,
    schema_docs_findings, schema_name_finding, type_mismatch, Validator,
};
use crate::walker::{document_walked, nodes_of, Node, Visit};
use vstd::prelude::*;

verus! {

/// What the rule on the types of a composition finds at one visit.
pub open spec fn node_mismatch(components: Option<Components>, node: Node) -> Result<
    Seq<Seq<char>>,
    InputError,
> {
    match type_mismatch(components, node.schema) {
        Err(e) => Err(e),
        Ok(Some(finding)) => just(seq![type_problem_message(node.name, finding)]),
        Ok(None) => nothing(),
    }
}

/// What the rules on documentation find for `schema` in the mode given.
pub open spec fn node_docs(external: bool, schema: Schema) -> Seq<Seq<char>> {
    if external {
        schema_docs_findings(schema)
    } else {
        Seq::empty()
    }
}

/// What the rules find at one visit of the walk: the types of a composition,
/// the names of properties and their suffixes, the enumerated values, and, in
/// the external mode, the documentation.
pub open spec fn node_findings(
    convention: Convention,
    components: Option<Components>,
    external: bool,
    node: Node,
) -> Result<Seq<Seq<char>>, InputError> {
    let steps = node_mismatch(components, node);
    let steps = followed_by(steps, just(object_findings(convention, node.schema)));
    let steps = followed_by(steps, just(enumeration_findings(node.schema)));
    followed_by(steps, just(node_docs(external, node.schema)))
}

/// The findings at one visit, as a step of the run.
pub open spec fn each_node(
    convention: Convention,
    components: Option<Components>,
    external: bool,
) -> spec_fn(Node, ) -> Result<Seq<Seq<char>>, InputError> {
    |node: Node| node_findings(convention, components, external, node)
}

/// The finding of the rule on paths for one entry of the paths.
pub open spec fn each_path_finding() -> spec_fn((String, RefOr<PathItem>)) -> Seq<Seq<char>> {
    |entry: (String, RefOr<PathItem>)| text_or_none(path_finding(entry.0@))
}

/// The finding of the rule on operation names for one endpoint.
pub open spec fn each_operation_finding() -> spec_fn(Endpoint) -> Seq<Seq<char>> {
    |endpoint: Endpoint| text_or_none(operation_finding(endpoint.0, endpoint.1, endpoint.2))
}

/// The findings of the rule on parameter names for one endpoint.
pub open spec fn each_parameter_findings(
    convention: Convention,
    components: Option<Components>,
) -> spec_fn(Endpoint, ) -> Result<Seq<Seq<char>>, InputError> {
    |endpoint: Endpoint| parameter_findings(convention, components, endpoint.2)
}

/// The findings of the rule on null responses for one endpoint.
pub open spec fn each_response_findings(
    components: Option<Components>,
) -> spec_fn(Endpoint) -> Result<Seq<Seq<char>>, InputError> {
    |endpoint: Endpoint| response_findings(components, endpoint.2)
}

/// The finding of the rule on schema names for one entry of the components.
pub open spec fn each_schema_name() -> spec_fn((String, RefOr<Schema>)) -> Seq<Seq<char>> {
    |entry: (String, RefOr<Schema>)|
        text_or_none(schema_name_finding(entry.0@, pascal_case_of(entry.0@)))
}

/// The findings of the rule on schema names for the components.
pub open spec fn schema_name_findings(components: Option<Components>) -> Seq<Seq<char>> {
    match components {
        Some(c) => listed(c.schemas.entries(), each_schema_name(), 0),
        None => Seq::empty(),
    }
}

/// The finding of the rule on documentation for the description of one
/// endpoint.
pub open spec fn each_operation_doc() -> spec_fn(Endpoint) -> Seq<Seq<char>> {
    |endpoint: Endpoint| optional_doc_finding(endpoint.2.description)
}

/// The findings of the rule on documentation for the descriptions of the
/// operations, in the mode given.
pub open spec fn operation_doc_findings(external: bool, document: Document) -> Seq<Seq<char>> {
    if external {
        listed(endpoints(document), each_operation_doc(), 0)
    } else {
        Seq::empty()
    }
}

/// The diagnostics of a run over `document`, or the condition of the input
/// at which the run stops.
pub open spec fn findings(convention: Convention, document: Document, external: bool) -> Result<
    Seq<Seq<char>>,
    InputError,
> {
    match document_walked(document) {
        Err(e) => Err(e),
        Ok(nodes) => {
            let components = document.components;
            let steps = gathered(nodes, each_node(convention, components, external), 0);
            let steps = followed_by(steps, just(listed(document.paths@, each_path_finding(), 0)));
            let steps = followed_by(
                steps,
                just(listed(endpoints(document), each_operation_finding(), 0)),
            );
            let steps = followed_by(
                steps,
                gathered(endpoints(document), each_parameter_findings(convention, components), 0),
            );
            let steps = followed_by(
                steps,
                gathered(endpoints(document), each_response_findings(components), 0),
            );
            let steps = followed_by(steps, just(schema_name_findings(components)));
            followed_by(steps, just(operation_doc_findings(external, document)))
        },
    }
}

impl Validator {
    /// The findings of the rules on schemas at one visit.
    fn validate_visit(&self, document: &Document, visit: &Visit, external: bool) -> (r: Result<
        Vec<String>,
        InputError,
    >)
        ensures
            reports(r, node_findings(self.convention, document.components, external, visit@)),
    {
        let mut ret = no_texts();
        match self.validate_subschemas(document, visit.schema)? {
            Some(finding) => {
                push_text(&mut ret, type_problem_text(&visit.name, finding.as_str()));
                assert(texts_of(ret@) =~= seq![type_problem_message(visit@.name, finding@)]);
            },
            None => {},
        }
        append_texts(&mut ret, self.validate_object(visit.schema));
        append_texts(&mut ret, self.validate_enumeration_value(visit.schema));
        if external {
            append_texts(&mut ret, self.validate_schema_docs(visit.schema));
        } else {
            assert(texts_of(ret@) + Seq::<Seq<char>>::empty() =~= texts_of(ret@));
        }
        Ok(ret)
    }

    /// The findings of the rules on schemas at every visit of a walk.
    fn validate_visits(
        &self,
        document: &Document,
        visits: &Vec<Visit>,
        external: bool,
    ) -> (r: Result<Vec<String>, InputError>)
        ensures
            reports(
                r,
                gathered(
                    nodes_of(visits@),
                    each_node(self.convention, document.components, external),
                    0,
                ),
            ),
    {
        let ghost each = each_node(self.convention, document.components, external);
        let ghost nodes = nodes_of(visits@);
        let mut ret = no_texts();
        let mut i: usize = 0;
        proof {
            lemma_nothing(gathered(nodes, each, 0));
        }
        while i < visits.len()
            invariant
                i <= visits@.len(),
                nodes == nodes_of(visits@),
                each == each_node(self.convention, document.components, external),
                gathered(nodes, each, 0) == followed_by(
                    just(texts_of(ret@)),
                    gathered(nodes, each, i as int),
                ),
            decreases visits@.len() - i,
        {
            proof {
                lemma_gathered_step(nodes, each, texts_of(ret@), i as int);
            }
            let more = self.validate_visit(document, &visits[i], external)?;
            append_texts(&mut ret, more);
            i = i + 1;
        }
        proof {
            lemma_nothing(just(texts_of(ret@)));
        }
        Ok(ret)
    }

    /// The findings of the rule on paths for every path of the document.
    fn validate_paths(&self, document: &Document) -> (r: Vec<String>)
        ensures
            texts_of(r@) == listed(document.paths@, each_path_finding(), 0),
    {
        let mut ret = no_texts();
        let mut i: usize = 0;
        proof {
            lemma_listed_end(document.paths@, each_path_finding(), texts_of(ret@));
        }
        while i < document.paths.len()
            invariant
                i <= document.paths@.len(),
                listed(document.paths@, each_path_finding(), 0) == texts_of(ret@) + listed(
                    document.paths@,
                    each_path_finding(),
                    i as int,
                ),
            decreases document.paths@.len() - i,
        {
            proof {
                lemma_listed_step(document.paths@, each_path_finding(), texts_of(ret@), i as int);
            }
            push_finding(&mut ret, self.validate_path(document.paths[i].0.as_str()));
            i = i + 1;
        }
        proof {
            lemma_listed_end(document.paths@, each_path_finding(), texts_of(ret@));
        }
        ret
    }

    /// The findings of the rule on operation names for every endpoint.
    fn validate_operation_ids(&self, operations: &Vec<(&str, &str, &Operation)>) -> (r: Vec<String>)
        ensures
            texts_of(r@) == listed(endpoints_of(operations@), each_operation_finding(), 0),
    {
        let ghost list = endpoints_of(operations@);
        let mut ret = no_texts();
        let mut i: usize = 0;
        proof {
            lemma_listed_end(list, each_operation_finding(), texts_of(ret@));
        }
        while i < operations.len()
            invariant
                i <= operations@.len(),
                list == endpoints_of(operations@),
                listed(list, each_operation_finding(), 0) == texts_of(ret@) + listed(
                    list,
                    each_operation_finding(),
                    i as int,
                ),
            decreases operations@.len() - i,
        {
            proof {
                lemma_listed_step(list, each_operation_finding(), texts_of(ret@), i as int);
            }
            push_finding(&mut ret, self.validate_operation_id(operations[i]));
            i = i + 1;
        }
        proof {
            lemma_listed_end(list, each_operation_finding(), texts_of(ret@));
        }
        ret
    }

    /// The findings of the rule on parameter names for every endpoint.
    fn validate_parameters(
        &self,
        document: &Document,
        operations: &Vec<(&str, &str, &Operation)>,
    ) -> (r: Result<Vec<String>, InputError>)
        ensures
            reports(
                r,
                gathered(
                    endpoints_of(operations@),
                    each_parameter_findings(self.convention, document.components),
                    0,
                ),
            ),
    {
        let ghost each = each_parameter_findings(self.convention, document.components);
        let ghost list = endpoints_of(operations@);
        let mut ret = no_texts();
        let mut i: usize = 0;
        proof {
            lemma_nothing(gathered(list, each, 0));
        }
        while i < operations.len()
            invariant
                i <= operations@.len(),
                list == endpoints_of(operations@),
                each == each_parameter_findings(self.convention, document.components),
                gathered(list, each, 0) == followed_by(
                    just(texts_of(ret@)),
                    gathered(list, each, i as int),
                ),
            decreases operations@.len() - i,
        {
            proof {
                lemma_gathered_step(list, each, texts_of(ret@), i as int);
            }
            let more = self.validate_operation_parameters(document, operations[i].2)?;
            append_texts(&mut ret, more);
            i = i + 1;
        }
        proof {
            lemma_nothing(just(texts_of(ret@)));
        }
        Ok(ret)
    }

    /// The findings of the rule on null responses for every endpoint.
    fn validate_responses(
        &self,
        document: &Document,
        operations: &Vec<(&str, &str, &Operation)>,
    ) -> (r: Result<Vec<String>, InputError>)
        ensures
            reports(
                r,
                gathered(endpoints_of(operations@), each_response_findings(document.components), 0),
            ),
    {
        let ghost each = each_response_findings(document.components);
        let ghost list = endpoints_of(operations@);
        let mut ret = no_texts();
        let mut i: usize = 0;
        proof {
            lemma_nothing(gathered(list, each, 0));
        }
        while i < operations.len()
            invariant
                i <= operations@.len(),
                list == endpoints_of(operations@),
                each == each_response_findings(document.components),
                gathered(list, each, 0) == followed_by(
                    just(texts_of(ret@)),
                    gathered(list, each, i as int),
                ),
            decreases operations@.len() - i,
        {
            proof {
                lemma_gathered_step(list, each, texts_of(ret@), i as int);
            }
            let more = self.validate_operation_response(document, operations[i].2)?;
            append_texts(&mut ret, more);
            i = i + 1;
        }
        proof {
            lemma_nothing(just(texts_of(ret@)));
        }
        Ok(ret)
    }

    /// The findings of the rule on schema names for the components.
    fn validate_schema_names(&self, document: &Document) -> (r: Vec<String>)
        ensures
            texts_of(r@) == schema_name_findings(document.components),
    {
        let mut ret = no_texts();
        match &document.components {
            Some(c) => {
                let ghost list = c.schemas.entries();
                let mut i: usize = 0;
                proof {
                    lemma_listed_end(list, each_schema_name(), texts_of(ret@));
                }
                while i < c.schemas.len()
                    invariant
                        i <= c.schemas.entries().len(),
                        list == c.schemas.entries(),
                        listed(list, each_schema_name(), 0) == texts_of(ret@) + listed(
                            list,
                            each_schema_name(),
                            i as int,
                        ),
                    decreases c.schemas.entries().len() - i,
                {
                    proof {
                        lemma_listed_step(list, each_schema_name(), texts_of(ret@), i as int);
                    }
                    push_finding(&mut ret, self.validate_named_schema(c.schemas.key_at(i).as_str()));
                    i = i + 1;
                }
                proof {
                    lemma_listed_end(list, each_schema_name(), texts_of(ret@));
                }
            },
            None => {},
        }
        ret
    }

    /// The findings of the rule on documentation for the descriptions of the
    /// operations.
    fn validate_operation_docs(
        &self,
        operations: &Vec<(&str, &str, &Operation)>,
    ) -> (r: Vec<String>)
        ensures
            texts_of(r@) == listed(endpoints_of(operations@), each_operation_doc(), 0),
    {
        let ghost list = endpoints_of(operations@);
        let mut ret = no_texts();
        let mut i: usize = 0;
        proof {
            lemma_listed_end(list, each_operation_doc(), texts_of(ret@));
        }
        while i < operations.len()
            invariant
                i <= operations@.len(),
                list == endpoints_of(operations@),
                listed(list, each_operation_doc(), 0) == texts_of(ret@) + listed(
                    list,
                    each_operation_doc(),
                    i as int,
                ),
            decreases operations@.len() - i,
        {
            proof {
                lemma_listed_step(list, each_operation_doc(), texts_of(ret@), i as int);
            }
            push_finding(&mut ret, check_optional_doc(&operations[i].2.description));
            i = i + 1;
        }
        proof {
            lemma_listed_end(list, each_operation_doc(), texts_of(ret@));
        }
        ret
    }

    /// Runs every rule over `document` and returns the diagnostics in their
    /// order, or the condition of the input at which the run stops. The rules
    /// on documentation run in the external mode only.
    pub fn validate_impl(&self, document: &Document, external: bool) -> (r: Result<
        Vec<String>,
        InputError,
    >)
        ensures
            reports(r, findings(self.convention, *document, external)),
            r matches Ok(diagnostics) ==> (diagnostics@.len() == 0 <==> defect_free(
                self.convention,
                *document,
                external,
            )),
    {
        let visits = document.walk()?;
        let mut ret = self.validate_visits(document, &visits, external)?;
        let operations = document.operations();
        append_texts(&mut ret, self.validate_paths(document));
        append_texts(&mut ret, self.validate_operation_ids(&operations));
        let parameters = self.validate_parameters(document, &operations)?;
        append_texts(&mut ret, parameters);
        let responses = self.validate_responses(document, &operations)?;
        append_texts(&mut ret, responses);
        append_texts(&mut ret, self.validate_schema_names(document));
        if external {
            append_texts(&mut ret, self.validate_operation_docs(&operations));
        } else {
            assert(texts_of(ret@) + Seq::<Seq<char>>::empty() =~= texts_of(ret@));
        }
        proof {
            lemma_silent_when_defect_free(self.convention, *document, external);
            if ret@.len() == 0 {
                assert(texts_of(ret@) =~= Seq::<Seq<char>>::empty());
            }
        }
        Ok(ret)
    }
}

} // verus!
