//! What holds of every run of the linter.

use crate::casing::{pascal_case_of, shouty_snake_case_of, snake_case_of, Convention};
use crate::composition::{first_other, leaf_categories, lemma_first_other, mismatch};
use crate::document::{
    Components, Document, Operation, PathItem, RefOr, Response, Schema, SchemaKind, Type,
};
use crate::endpoint::{endpoints, Endpoint};
use crate::outcome::{
    followed_by, gathered, just, lemma_followed_by_throughout, lemma_gathered_nothing,
    lemma_gathered_throughout, lemma_listed_nothing, listed, nothing, reports, stops, texts_of,
    throughout, InputError,
};
use crate::reference::{entries_of, resolved};
use crate::rules::{
    default_response_findings, doc_finding, each_enum_value, each_null_media, each_null_response,
    each_parameter_name, each_property_name, each_uuid_suffix, enumeration_findings,
    null_response_findings, object_findings, operation_name, optional_doc_finding,
    parameter_findings, path_fits, plain_uuid, response_findings, trivial_null, type_mismatch,
    Validator, UUID_SUFFIX,
};
use crate::text::has_suffix;
use crate::validator::{
    each_node, each_operation_doc, each_operation_finding, each_parameter_findings,
    each_path_finding, each_response_findings, each_schema_name, findings, node_docs,
    node_findings, node_mismatch, operation_doc_findings, schema_name_findings,
};
use crate::walker::{
    components_walked, document_walked, each_named_schema, lemma_walked_nameless, named,
    named_schemas_walked, nameless, positions, unmarked, walked_below, Node, SchemaWalker,
};
use vstd::prelude::*;

verus! {

/// Whether the leaves of `schema`, where they can be told, are all of one
/// category.
pub open spec fn uniform(components: Option<Components>, schema: Schema) -> bool {
    leaf_categories(components, schema) matches Ok(leaves) ==> forall|i: int|
        0 <= i < leaves.len() ==> #[trigger] leaves[i] == leaves[0]
}

/// Whether every property of `schema` is spelled as `convention` asks.
pub open spec fn properties_follow(convention: Convention, schema: Schema) -> bool {
    schema.kind matches SchemaKind::Type(Type::Object(object)) ==> forall|i: int|
        0 <= i < object.properties@.len() ==> convention.form_of(
            (#[trigger] object.properties@[i]).0@,
        ) == object.properties@[i].0@
}

/// Whether no property of `schema` that is a plain uuid says so in its name.
pub open spec fn no_redundant_suffix(schema: Schema) -> bool {
    schema.kind matches SchemaKind::Type(Type::Object(object)) ==> forall|i: int|
        0 <= i < object.properties@.len() ==> !(has_suffix(
            (#[trigger] object.properties@[i]).0@,
            UUID_SUFFIX@,
        ) && plain_uuid(object.properties@[i].1))
}

/// Whether every enumerated value of `schema`, but for the null value, is
/// snake_case or the upper-case form of it.
pub open spec fn values_follow(schema: Schema) -> bool {
    schema.kind matches SchemaKind::Type(Type::String(string)) ==> forall|i: int|
        0 <= i < string.enumeration@.len() ==> (#[trigger] string.enumeration@[i] matches Some(
            label,
        ) ==> label@ == snake_case_of(label@) || label@ == shouty_snake_case_of(label@))
}

/// Whether a text that may be absent is free of the notation that the rule on
/// documentation looks for.
pub open spec fn neutral(text: Option<String>) -> bool {
    text matches Some(text) ==> doc_finding(text@) is None
}

/// Whether the rules on schemas have nothing to report at `node`.
pub open spec fn node_clean(
    convention: Convention,
    components: Option<Components>,
    external: bool,
    node: Node,
) -> bool {
    &&& uniform(components, node.schema)
    &&& properties_follow(convention, node.schema)
    &&& no_redundant_suffix(node.schema)
    &&& values_follow(node.schema)
    &&& external ==> neutral(node.schema.title) && neutral(node.schema.description)
}

/// Whether `operation` has a name and the name is snake_case.
pub open spec fn well_named(operation: Operation) -> bool {
    operation.operation_id matches Some(id) && id@ == snake_case_of(id@)
}

/// Whether every parameter of `operation` that can be resolved is spelled as
/// `convention` asks.
pub open spec fn parameters_follow(
    convention: Convention,
    components: Option<Components>,
    operation: Operation,
) -> bool {
    forall|i: int|
        0 <= i < operation.parameters@.len() ==> (resolved(
            #[trigger] operation.parameters@[i],
            components,
        ) matches Ok(item) ==> convention.form_of(item.name@) == item.name@)
}

/// Whether no media type of `response` has a schema that can be resolved and
/// can only be null.
pub open spec fn response_meaningful(components: Option<Components>, response: Response) -> bool {
    forall|j: int|
        0 <= j < response.content@.len() ==> ((#[trigger] response.content@[j]).1.schema matches Some(
            child,
        ) ==> (resolved(child, components) matches Ok(schema) ==> !trivial_null(schema)))
}

/// Whether `response`, where it can be resolved, has no schema that can only
/// be null.
pub open spec fn response_passes(components: Option<Components>, response: RefOr<Response>) -> bool {
    resolved(response, components) matches Ok(item) ==> response_meaningful(components, item)
}

/// Whether no response of `operation` that can be resolved, the default one
/// or one by status code, has a schema that can only be null.
pub open spec fn responses_meaningful(
    components: Option<Components>,
    operation: Operation,
) -> bool {
    &&& operation.responses.default matches Some(response) ==> response_passes(
        components,
        response,
    )
    &&& forall|i: int|
        0 <= i < operation.responses.responses@.len() ==> response_passes(
            components,
            (#[trigger] operation.responses.responses@[i]).1,
        )
}

/// Whether every schema of the components has a PascalCase name.
pub open spec fn schemas_well_named(components: Option<Components>) -> bool {
    components matches Some(c) ==> forall|i: int|
        0 <= i < c.schemas.entries().len() ==> pascal_case_of(
            (#[trigger] c.schemas.entries()[i]).0@,
        ) == c.schemas.entries()[i].0@
}

/// Whether `document` holds no instance of a defect that the rules look for:
/// at every visit of the walk, at every path, at every operation and at every
/// name of a schema. Documentation counts in the external mode only.
pub open spec fn defect_free(convention: Convention, document: Document, external: bool) -> bool {
    let components = document.components;
    &&& document_walked(document) matches Ok(nodes) ==> forall|i: int|
        0 <= i < nodes.len() ==> node_clean(convention, components, external, #[trigger] nodes[i])
    &&& forall|i: int|
        0 <= i < document.paths@.len() ==> path_fits((#[trigger] document.paths@[i]).0@)
    &&& forall|i: int|
        0 <= i < endpoints(document).len() ==> {
            let operation = (#[trigger] endpoints(document)[i]).2;
            &&& well_named(operation)
            &&& parameters_follow(convention, components, operation)
            &&& responses_meaningful(components, operation)
            &&& external ==> neutral(operation.description)
        }
    &&& schemas_well_named(components)
}

/// The rule on the types of a composition is silent at `node` exactly when
/// the leaves of its schema are of one category.
pub proof fn lemma_mismatch_silent(components: Option<Components>, node: Node)
    requires
        node_mismatch(components, node) is Ok,
    ensures
        node_mismatch(components, node) == nothing::<Seq<char>>() <==> uniform(
            components,
            node.schema,
        ),
{
    let leaves = leaf_categories(components, node.schema)->Ok_0;
    lemma_first_other(leaves, 1);
    if node_mismatch(components, node) == nothing::<Seq<char>>() {
        if let Ok(Some(finding)) = type_mismatch(components, node.schema) {
            assert(node_mismatch(components, node)->Ok_0.len() == 1);
        }
        assert(mismatch(leaves) is None);
    }
    if uniform(components, node.schema) {
        assert(first_other(leaves, 1) is None);
    }
}

/// The rules on properties are silent for `schema` exactly when its
/// properties follow the convention and none has a redundant suffix.
pub proof fn lemma_object_silent(convention: Convention, schema: Schema)
    ensures
        object_findings(convention, schema).len() == 0 <==> properties_follow(convention, schema)
            && no_redundant_suffix(schema),
{
    if let SchemaKind::Type(Type::Object(object)) = schema.kind {
        let properties = object.properties@;
        lemma_listed_nothing(properties, each_property_name(convention), 0);
        lemma_listed_nothing(properties, each_uuid_suffix(), 0);
        if object_findings(convention, schema).len() == 0 {
            assert forall|i: int| 0 <= i < properties.len() implies convention.form_of(
                (#[trigger] properties[i]).0@,
            ) == properties[i].0@ by {
                assert(each_property_name(convention)(properties[i]).len() == 0);
            }
            assert forall|i: int| 0 <= i < properties.len() implies !(has_suffix(
                (#[trigger] properties[i]).0@,
                UUID_SUFFIX@,
            ) && plain_uuid(properties[i].1)) by {
                assert(each_uuid_suffix()(properties[i]).len() == 0);
            }
        }
        if properties_follow(convention, schema) && no_redundant_suffix(schema) {
            assert forall|i: int| 0 <= i < properties.len() implies (#[trigger] each_property_name(
                convention,
            )(properties[i])).len() == 0 by {
                assert(convention.form_of(properties[i].0@) == properties[i].0@);
            }
            assert forall|i: int| 0 <= i < properties.len() implies (#[trigger] each_uuid_suffix()(
                properties[i],
            )).len() == 0 by {
                assert(!(has_suffix(properties[i].0@, UUID_SUFFIX@) && plain_uuid(
                    properties[i].1,
                )));
            }
        }
    }
}

/// The rule on enumerated values is silent for `schema` exactly when its
/// values follow the rule.
pub proof fn lemma_enumeration_silent(schema: Schema)
    ensures
        enumeration_findings(schema).len() == 0 <==> values_follow(schema),
{
    if let SchemaKind::Type(Type::String(string)) = schema.kind {
        let values = string.enumeration@;
        lemma_listed_nothing(values, each_enum_value(), 0);
        if enumeration_findings(schema).len() == 0 {
            assert forall|i: int| 0 <= i < values.len() implies (#[trigger] values[i] matches Some(
                label,
            ) ==> label@ == snake_case_of(label@) || label@ == shouty_snake_case_of(label@)) by {
                assert(each_enum_value()(values[i]).len() == 0);
            }
        }
        if values_follow(schema) {
            assert forall|i: int| 0 <= i < values.len() implies (#[trigger] each_enum_value()(
                values[i],
            )).len() == 0 by {
                assert(values[i] matches Some(label) ==> label@ == snake_case_of(label@) || label@
                    == shouty_snake_case_of(label@));
            }
        }
    }
}

/// The rules are silent at a visit exactly when the visit is clean.
pub proof fn lemma_node_silent(
    convention: Convention,
    components: Option<Components>,
    external: bool,
    node: Node,
)
    requires
        node_findings(convention, components, external, node) is Ok,
    ensures
        node_findings(convention, components, external, node) == nothing::<Seq<char>>()
            <==> node_clean(convention, components, external, node),
{
    lemma_mismatch_silent(components, node);
    lemma_object_silent(convention, node.schema);
    lemma_enumeration_silent(node.schema);
    let a = node_mismatch(components, node)->Ok_0;
    let b = object_findings(convention, node.schema);
    let c = enumeration_findings(node.schema);
    let d = node_docs(external, node.schema);
    assert(node_findings(convention, components, external, node) == just(((a + b) + c) + d));
    assert((((a + b) + c) + d).len() == a.len() + b.len() + c.len() + d.len());
    assert(a.len() == 0 <==> node_mismatch(components, node) == nothing::<Seq<char>>()) by {
        if a.len() == 0 {
            assert(a =~= Seq::<Seq<char>>::empty());
        }
    }
    if external {
        assert(d.len() == optional_doc_finding(node.schema.title).len() + optional_doc_finding(
            node.schema.description,
        ).len());
    }
    if node_clean(convention, components, external, node) {
        assert(((a + b) + c) + d =~= Seq::<Seq<char>>::empty());
    }
}

/// The rule on parameter names is silent for `operation` exactly when its
/// parameters follow the convention.
pub proof fn lemma_parameters_silent(
    convention: Convention,
    components: Option<Components>,
    operation: Operation,
)
    requires
        parameter_findings(convention, components, operation) is Ok,
    ensures
        parameter_findings(convention, components, operation) == nothing::<Seq<char>>()
            <==> parameters_follow(convention, components, operation),
{
    let list = operation.parameters@;
    let each = each_parameter_name(convention, components, operation_name(operation));
    lemma_gathered_nothing(list, each, 0);
    lemma_gathered_ok(list, each, 0);
    if parameter_findings(convention, components, operation) == nothing::<Seq<char>>() {
        assert forall|i: int| 0 <= i < list.len() implies (resolved(
            #[trigger] list[i],
            components,
        ) matches Ok(item) ==> convention.form_of(item.name@) == item.name@) by {
            assert(each(list[i]) == nothing::<Seq<char>>());
            if let Ok(item) = resolved(list[i], components) {
                if convention.form_of(item.name@) != item.name@ {
                    assert(each(list[i])->Ok_0.len() == 1);
                }
            }
        }
    }
    if parameters_follow(convention, components, operation) {
        assert forall|i: int| 0 <= i < list.len() implies #[trigger] each(list[i]) == nothing::<
            Seq<char>,
        >() by {
            assert(each(list[i]) is Ok);
            assert(resolved(list[i], components) matches Ok(item) ==> convention.form_of(
                item.name@,
            ) == item.name@);
        }
    }
}

/// Where gathering succeeds, every step from `from` on succeeds.
pub proof fn lemma_gathered_ok<T, A>(
    list: Seq<T>,
    each: spec_fn(T) -> Result<Seq<A>, InputError>,
    from: int,
)
    requires
        0 <= from,
        gathered(list, each, from) is Ok,
    ensures
        forall|i: int| from <= i < list.len() ==> #[trigger] each(list[i]) is Ok,
    decreases list.len() - from,
{
    if from < list.len() {
        lemma_gathered_ok(list, each, from + 1);
        assert forall|i: int| from <= i < list.len() implies #[trigger] each(list[i]) is Ok by {
            if i > from {
            }
        }
    }
}

/// The rule on null responses is silent for one response exactly when the
/// response passes.
pub proof fn lemma_response_silent(
    components: Option<Components>,
    operation: Seq<char>,
    response: RefOr<Response>,
)
    requires
        null_response_findings(components, operation, response) is Ok,
    ensures
        null_response_findings(components, operation, response) == nothing::<Seq<char>>()
            <==> response_passes(components, response),
{
    let inner = each_null_media(components, operation);
    let item = resolved(response, components)->Ok_0;
    let content = item.content@;
    lemma_gathered_nothing(content, inner, 0);
    lemma_gathered_ok(content, inner, 0);
    if gathered(content, inner, 0) == nothing::<Seq<char>>() {
        assert forall|j: int| 0 <= j < content.len() implies ((#[trigger] content[j]).1.schema matches Some(
            child,
        ) ==> (resolved(child, components) matches Ok(schema) ==> !trivial_null(schema))) by {
            assert(inner(content[j]) == nothing::<Seq<char>>());
            if let Some(child) = content[j].1.schema {
                if let Ok(schema) = resolved(child, components) {
                    if trivial_null(schema) {
                        assert(inner(content[j])->Ok_0.len() == 1);
                    }
                }
            }
        }
    }
    if response_meaningful(components, item) {
        assert forall|j: int| 0 <= j < content.len() implies #[trigger] inner(content[j])
            == nothing::<Seq<char>>() by {
            assert(inner(content[j]) is Ok);
            assert(content[j].1.schema matches Some(child) ==> (resolved(
                child,
                components,
            ) matches Ok(schema) ==> !trivial_null(schema)));
        }
    }
}

/// The rule on null responses is silent for `operation` exactly when its
/// responses are meaningful.
pub proof fn lemma_responses_silent(components: Option<Components>, operation: Operation)
    requires
        response_findings(components, operation) is Ok,
    ensures
        response_findings(components, operation) == nothing::<Seq<char>>()
            <==> responses_meaningful(components, operation),
{
    let name = operation_name(operation);
    let list = operation.responses.responses@;
    let each = each_null_response(components, name);
    let first = default_response_findings(components, operation);
    let rest = gathered(list, each, 0);
    assert(first is Ok && rest is Ok);
    assert(response_findings(components, operation) == nothing::<Seq<char>>() <==> first
        == nothing::<Seq<char>>() && rest == nothing::<Seq<char>>()) by {
        let a = first->Ok_0;
        let b = rest->Ok_0;
        if a + b =~= Seq::<Seq<char>>::empty() {
            assert(a =~= Seq::<Seq<char>>::empty());
            assert(b =~= Seq::<Seq<char>>::empty());
        }
        if a =~= Seq::<Seq<char>>::empty() && b =~= Seq::<Seq<char>>::empty() {
            assert(a + b =~= Seq::<Seq<char>>::empty());
        }
    }
    if let Some(response) = operation.responses.default {
        lemma_response_silent(components, name, response);
    }
    lemma_gathered_nothing(list, each, 0);
    lemma_gathered_ok(list, each, 0);
    assert forall|i: int| 0 <= i < list.len() implies (#[trigger] each(list[i]) == nothing::<
        Seq<char>,
    >() <==> response_passes(components, list[i].1)) by {
        assert(each(list[i]) is Ok);
        lemma_response_silent(components, name, list[i].1);
    }
    if responses_meaningful(components, operation) {
        assert forall|i: int| 0 <= i < list.len() implies #[trigger] each(list[i]) == nothing::<
            Seq<char>,
        >() by {
            assert(response_passes(components, list[i].1));
        }
    }
    if rest == nothing::<Seq<char>>() {
        assert forall|i: int| 0 <= i < list.len() implies response_passes(
            components,
            (#[trigger] list[i]).1,
        ) by {
            assert(each(list[i]) == nothing::<Seq<char>>());
        }
    }
}

/// The rules on schemas are silent over a walk exactly when every visit is
/// clean.
pub proof fn lemma_nodes_silent(
    convention: Convention,
    components: Option<Components>,
    external: bool,
    nodes: Seq<Node>,
)
    requires
        gathered(nodes, each_node(convention, components, external), 0) is Ok,
    ensures
        gathered(nodes, each_node(convention, components, external), 0) == nothing::<Seq<char>>()
            <==> forall|i: int|
            0 <= i < nodes.len() ==> node_clean(convention, components, external, #[trigger] nodes[i]),
{
    let each = each_node(convention, components, external);
    lemma_gathered_nothing(nodes, each, 0);
    lemma_gathered_ok(nodes, each, 0);
    assert forall|i: int| 0 <= i < nodes.len() implies (#[trigger] each(nodes[i]) == nothing::<
        Seq<char>,
    >() <==> node_clean(convention, components, external, nodes[i])) by {
        assert(each(nodes[i]) is Ok);
        lemma_node_silent(convention, components, external, nodes[i]);
    }
    if gathered(nodes, each, 0) == nothing::<Seq<char>>() {
        assert forall|i: int| 0 <= i < nodes.len() implies node_clean(
            convention,
            components,
            external,
            #[trigger] nodes[i],
        ) by {
            assert(each(nodes[i]) == nothing::<Seq<char>>());
        }
    }
}

/// The rule on paths is silent exactly when every path fits.
pub proof fn lemma_paths_silent(paths: Seq<(String, RefOr<PathItem>)>)
    ensures
        listed(paths, each_path_finding(), 0).len() == 0 <==> forall|i: int|
            0 <= i < paths.len() ==> path_fits((#[trigger] paths[i]).0@),
{
    let each = each_path_finding();
    lemma_listed_nothing(paths, each, 0);
    assert forall|i: int| 0 <= i < paths.len() implies ((#[trigger] each(paths[i])).len() == 0
        <==> path_fits(paths[i].0@)) by {}
    if listed(paths, each, 0).len() == 0 {
        assert forall|i: int| 0 <= i < paths.len() implies path_fits((#[trigger] paths[i]).0@) by {
            assert(each(paths[i]).len() == 0);
        }
    }
}

/// The rule on operation names is silent exactly when every operation is
/// well named.
pub proof fn lemma_operation_names_silent(list: Seq<Endpoint>)
    ensures
        listed(list, each_operation_finding(), 0).len() == 0 <==> forall|i: int|
            0 <= i < list.len() ==> well_named((#[trigger] list[i]).2),
{
    let each = each_operation_finding();
    lemma_listed_nothing(list, each, 0);
    assert forall|i: int| 0 <= i < list.len() implies ((#[trigger] each(list[i])).len() == 0
        <==> well_named(list[i].2)) by {}
    if listed(list, each, 0).len() == 0 {
        assert forall|i: int| 0 <= i < list.len() implies well_named((#[trigger] list[i]).2) by {
            assert(each(list[i]).len() == 0);
        }
    }
}

/// The rule on parameter names is silent over the endpoints exactly when the
/// parameters of every operation follow the convention.
pub proof fn lemma_all_parameters_silent(
    convention: Convention,
    components: Option<Components>,
    list: Seq<Endpoint>,
)
    requires
        gathered(list, each_parameter_findings(convention, components), 0) is Ok,
    ensures
        gathered(list, each_parameter_findings(convention, components), 0) == nothing::<Seq<char>>()
            <==> forall|i: int|
            0 <= i < list.len() ==> parameters_follow(
                convention,
                components,
                (#[trigger] list[i]).2,
            ),
{
    let each = each_parameter_findings(convention, components);
    lemma_gathered_nothing(list, each, 0);
    lemma_gathered_ok(list, each, 0);
    assert forall|i: int| 0 <= i < list.len() implies (#[trigger] each(list[i]) == nothing::<
        Seq<char>,
    >() <==> parameters_follow(convention, components, list[i].2)) by {
        assert(each(list[i]) is Ok);
        lemma_parameters_silent(convention, components, list[i].2);
    }
    if gathered(list, each, 0) == nothing::<Seq<char>>() {
        assert forall|i: int| 0 <= i < list.len() implies parameters_follow(
            convention,
            components,
            (#[trigger] list[i]).2,
        ) by {
            assert(each(list[i]) == nothing::<Seq<char>>());
        }
    }
}

/// The rule on null responses is silent over the endpoints exactly when the
/// responses of every operation are meaningful.
pub proof fn lemma_all_responses_silent(components: Option<Components>, list: Seq<Endpoint>)
    requires
        gathered(list, each_response_findings(components), 0) is Ok,
    ensures
        gathered(list, each_response_findings(components), 0) == nothing::<Seq<char>>()
            <==> forall|i: int|
            0 <= i < list.len() ==> responses_meaningful(components, (#[trigger] list[i]).2),
{
    let each = each_response_findings(components);
    lemma_gathered_nothing(list, each, 0);
    lemma_gathered_ok(list, each, 0);
    assert forall|i: int| 0 <= i < list.len() implies (#[trigger] each(list[i]) == nothing::<
        Seq<char>,
    >() <==> responses_meaningful(components, list[i].2)) by {
        assert(each(list[i]) is Ok);
        lemma_responses_silent(components, list[i].2);
    }
    if gathered(list, each, 0) == nothing::<Seq<char>>() {
        assert forall|i: int| 0 <= i < list.len() implies responses_meaningful(
            components,
            (#[trigger] list[i]).2,
        ) by {
            assert(each(list[i]) == nothing::<Seq<char>>());
        }
    }
}

/// The rule on schema names is silent exactly when every schema of the
/// components is well named.
pub proof fn lemma_schema_names_silent(components: Option<Components>)
    ensures
        schema_name_findings(components).len() == 0 <==> schemas_well_named(components),
{
    if let Some(c) = components {
        let list = c.schemas.entries();
        let each = each_schema_name();
        lemma_listed_nothing(list, each, 0);
        assert forall|i: int| 0 <= i < list.len() implies ((#[trigger] each(list[i])).len() == 0
            <==> pascal_case_of(list[i].0@) == list[i].0@) by {}
        if schema_name_findings(components).len() == 0 {
            assert forall|i: int| 0 <= i < list.len() implies pascal_case_of(
                (#[trigger] list[i]).0@,
            ) == list[i].0@ by {
                assert(each(list[i]).len() == 0);
            }
        }
    }
}

/// The rule on documentation is silent over the endpoints exactly when every
/// description is neutral.
pub proof fn lemma_operation_docs_silent(list: Seq<Endpoint>)
    ensures
        listed(list, each_operation_doc(), 0).len() == 0 <==> forall|i: int|
            0 <= i < list.len() ==> neutral((#[trigger] list[i]).2.description),
{
    let each = each_operation_doc();
    lemma_listed_nothing(list, each, 0);
    assert forall|i: int| 0 <= i < list.len() implies ((#[trigger] each(list[i])).len() == 0
        <==> neutral(list[i].2.description)) by {}
    if listed(list, each, 0).len() == 0 {
        assert forall|i: int| 0 <= i < list.len() implies neutral(
            (#[trigger] list[i]).2.description,
        ) by {
            assert(each(list[i]).len() == 0);
        }
    }
}

/// A run over a document that can be analyzed returns no diagnostic exactly
/// when the document holds no instance of a defect that the rules look for.
pub proof fn lemma_silent_when_defect_free(
    convention: Convention,
    document: Document,
    external: bool,
)
    requires
        findings(convention, document, external) is Ok,
    ensures
        findings(convention, document, external) == nothing::<Seq<char>>() <==> defect_free(
            convention,
            document,
            external,
        ),
{
    let components = document.components;
    let nodes = document_walked(document)->Ok_0;
    let list = endpoints(document);
    let schemas = gathered(nodes, each_node(convention, components, external), 0);
    let paths = listed(document.paths@, each_path_finding(), 0);
    let names = listed(list, each_operation_finding(), 0);
    let parameters = gathered(list, each_parameter_findings(convention, components), 0);
    let responses = gathered(list, each_response_findings(components), 0);
    let types = schema_name_findings(components);
    let docs = operation_doc_findings(external, document);
    assert(schemas is Ok && parameters is Ok && responses is Ok);
    let total = schemas->Ok_0 + paths + names + parameters->Ok_0 + responses->Ok_0 + types + docs;
    assert(findings(convention, document, external) == just(total));
    assert(total.len() == schemas->Ok_0.len() + paths.len() + names.len() + parameters->Ok_0.len()
        + responses->Ok_0.len() + types.len() + docs.len());
    lemma_nodes_silent(convention, components, external, nodes);
    lemma_paths_silent(document.paths@);
    lemma_operation_names_silent(list);
    lemma_all_parameters_silent(convention, components, list);
    lemma_all_responses_silent(components, list);
    lemma_schema_names_silent(components);
    lemma_operation_docs_silent(list);
    assert(schemas == nothing::<Seq<char>>() <==> schemas->Ok_0.len() == 0) by {
        if schemas->Ok_0.len() == 0 {
            assert(schemas->Ok_0 =~= Seq::<Seq<char>>::empty());
        }
    }
    assert(parameters == nothing::<Seq<char>>() <==> parameters->Ok_0.len() == 0) by {
        if parameters->Ok_0.len() == 0 {
            assert(parameters->Ok_0 =~= Seq::<Seq<char>>::empty());
        }
    }
    assert(responses == nothing::<Seq<char>>() <==> responses->Ok_0.len() == 0) by {
        if responses->Ok_0.len() == 0 {
            assert(responses->Ok_0 =~= Seq::<Seq<char>>::empty());
        }
    }
    if total.len() == 0 {
        assert(total =~= Seq::<Seq<char>>::empty());
        assert forall|i: int| 0 <= i < list.len() implies {
            let operation = (#[trigger] list[i]).2;
            &&& well_named(operation)
            &&& parameters_follow(convention, components, operation)
            &&& responses_meaningful(components, operation)
            &&& external ==> neutral(operation.description)
        } by {}
    }
    if defect_free(convention, document, external) {
        assert forall|i: int| 0 <= i < list.len() implies well_named((#[trigger] list[i]).2) by {}
        assert forall|i: int| 0 <= i < list.len() implies parameters_follow(
            convention,
            components,
            (#[trigger] list[i]).2,
        ) by {}
        assert forall|i: int| 0 <= i < list.len() implies responses_meaningful(
            components,
            (#[trigger] list[i]).2,
        ) by {}
        if external {
            assert forall|i: int| 0 <= i < list.len() implies neutral(
                (#[trigger] list[i]).2.description,
            ) by {}
        }
        assert(total.len() == 0);
        assert(total =~= Seq::<Seq<char>>::empty());
    }
}

/// Two runs over the same document, in the same mode, end alike: both stop
/// at the same condition of the input, or both return the same diagnostics in
/// the same order.
pub proof fn lemma_runs_agree(
    validator: Validator,
    document: Document,
    external: bool,
    first: Result<Vec<String>, InputError>,
    second: Result<Vec<String>, InputError>,
)
    requires
        reports(first, findings(validator.convention, document, external)),
        reports(second, findings(validator.convention, document, external)),
    ensures
        match first {
            Ok(diagnostics) => second is Ok && texts_of(second->Ok_0@) == texts_of(diagnostics@),
            Err(e) => stops(second, e),
        },
{
}

/// Whether a visit has no name, or the name and the schema of an inline
/// entry of the schemas of the components.
pub open spec fn named_as_entry(components: Option<Components>) -> spec_fn(Node) -> bool {
    |node: Node|
        node.name matches Some(name) ==> exists|at: int|
            0 <= at < entries_of::<Schema>(components).len() && (#[trigger] entries_of::<Schema>(
                components,
            )[at]).0@ == name && entries_of::<Schema>(components)[at].1 == RefOr::Item(node.schema)
}

/// A visit that has no name is named as an entry.
proof fn lemma_nameless_is_named_as_entry(components: Option<Components>, step: Result<
    Seq<Node>,
    InputError,
>)
    requires
        throughout(step, nameless()),
    ensures
        throughout(step, named_as_entry(components)),
{
    if let Ok(nodes) = step {
        assert forall|i: int| 0 <= i < nodes.len() implies named_as_entry(components)(
            #[trigger] nodes[i],
        ) by {
            assert(nameless()(nodes[i]));
        }
    }
}

/// In the walk of a document, a visit has a name only where the schema is an
/// entry of the schemas of the components, visited as that entry; the name is
/// that of the entry.
pub proof fn lemma_names_are_entries(document: Document)
    ensures
        throughout(document_walked(document), named_as_entry(document.components)),
{
    let components = document.components;
    let holds = named_as_entry(components);
    document.paths.lemma_nameless(components);
    lemma_nameless_is_named_as_entry(components, document.paths.walked(components));
    if let Some(c) = components {
        c.responses.lemma_nameless(components);
        c.parameters.lemma_nameless(components);
        c.request_bodies.lemma_nameless(components);
        lemma_nameless_is_named_as_entry(components, c.responses.walked(components));
        lemma_nameless_is_named_as_entry(components, c.parameters.walked(components));
        lemma_nameless_is_named_as_entry(components, c.request_bodies.walked(components));
        let entries = c.schemas.entries();
        let list = positions(entries.len());
        let each = each_named_schema(components);
        assert forall|k: int| 0 <= k < list.len() implies throughout(
            #[trigger] each(list[k]),
            holds,
        ) by {
            if let RefOr::Item(schema) = entries[k].1 {
                let marks = unmarked(components).update(k, true);
                lemma_walked_nameless(components, schema, marks);
                lemma_nameless_is_named_as_entry(
                    components,
                    walked_below(components, schema, marks),
                );
                if let Ok(below) = walked_below(components, schema, marks) {
                    let nodes = below.push(named(entries[k].0@, schema));
                    assert forall|i: int| 0 <= i < nodes.len() implies holds(
                        #[trigger] nodes[i],
                    ) by {
                        if i < below.len() {
                            assert(holds(below[i]));
                        } else {
                            assert(entries_of::<Schema>(components)[k].0@ == entries[k].0@);
                        }
                    }
                }
            }
        }
        lemma_gathered_throughout(list, each, 0, holds);
        let steps = c.responses.walked(components);
        lemma_followed_by_throughout(steps, c.parameters.walked(components), holds);
        let steps = followed_by(steps, c.parameters.walked(components));
        lemma_followed_by_throughout(steps, c.request_bodies.walked(components), holds);
        let steps = followed_by(steps, c.request_bodies.walked(components));
        lemma_followed_by_throughout(steps, named_schemas_walked(components), holds);
    }
    lemma_followed_by_throughout(
        document.paths.walked(components),
        components_walked(components),
        holds,
    );
}

} // verus!
