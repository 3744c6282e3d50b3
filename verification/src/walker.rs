//! Enumerating the schemas of a document.
//!
//! A walk visits every schema that can be reached from its starting point and
//! lists the visits in the order of the document: what lies below a schema
//! comes before the schema itself.
//!
//! A property of an object or a member of a composition that is a reference
//! is resolved, and the schema that it leads to is walked in its place. While
//! that schema is being walked, a reference that leads back to it adds
//! nothing, so that a schema which holds itself is walked to its end. A
//! reference in any other place (the items of an array, the additional
//! properties of an object, a negated schema, the schema of a parameter or of
//! a media type, an entry of the components) is passed over: what it names is
//! walked where it is defined.

use crate::document::{
    is_permissive, permissive, AdditionalProperties, Components, Document, MediaType, Operation,
    Parameter, ParameterSchemaOrContent, PathItem, RefOr, RequestBody, Response, Schema,
    SchemaKind, Type,
};
use crate::outcome::{
    followed_by, gathered, just, lemma_gathered_step, lemma_gathered_throughout, lemma_nothing,
    nothing, stops, throughout, yields, InputError,
};
use crate::registry::Registry;
use crate::reference::{entries_of, resolve_position, resolved_position};
use vstd::prelude::*;

verus! {

/// One visit of a walk, as contracts speak of it.
pub struct Node {
    /// The name under which the components hold the schema, for a schema that
    /// is visited as that entry.
    pub name: Option<Seq<char>>,
    pub schema: Schema,
}

/// One visit of a walk.
#[derive(Debug)]
pub struct Visit<'a> {
    /// The name under which the components hold the schema, for a schema that
    /// is visited as that entry.
    pub name: Option<String>,
    pub schema: &'a Schema,
}

impl<'a> View for Visit<'a> {
    type V = Node;

    open spec fn view(&self) -> Node {
        Node {
            name: match self.name {
                Some(name) => Some(name@),
                None => None,
            },
            schema: *self.schema,
        }
    }
}

/// The visits that a list holds.
pub open spec fn nodes_of(visits: Seq<Visit>) -> Seq<Node> {
    visits.map_values(|visit: Visit| visit@)
}

/// The visit of a schema that is not reached as a named entry.
pub open spec fn unnamed(schema: Schema) -> Node {
    Node { name: None, schema }
}

/// The number of entries that are not marked in `flags`.
pub open spec fn unvisited(flags: Seq<bool>) -> nat
    decreases flags.len(),
{
    if flags.len() == 0 {
        0
    } else {
        unvisited(flags.drop_last()) + if flags.last() {
            0nat
        } else {
            1nat
        }
    }
}

/// Marking an entry leaves one entry fewer unmarked.
pub proof fn lemma_mark(flags: Seq<bool>, at: int)
    requires
        0 <= at < flags.len(),
        !flags[at],
    ensures
        unvisited(flags.update(at, true)) + 1 == unvisited(flags),
    decreases flags.len(),
{
    if at == flags.len() - 1 {
        assert(flags.update(at, true).drop_last() =~= flags.drop_last());
    } else {
        lemma_mark(flags.drop_last(), at);
        assert(flags.update(at, true).drop_last() =~= flags.drop_last().update(at, true));
    }
}

/// The visits of a walk that starts at `schema`, while the named schemas
/// marked in `flags` are being walked.
pub open spec fn walked_from(
    components: Option<Components>,
    schema: Schema,
    flags: Seq<bool>,
) -> Result<Seq<Node>, InputError>
    decreases unvisited(flags), schema, 1nat,
{
    match walked_below(components, schema, flags) {
        Ok(below) => Ok(below.push(unnamed(schema))),
        Err(e) => Err(e),
    }
}

/// The visits of all that lies below `schema`.
pub open spec fn walked_below(
    components: Option<Components>,
    schema: Schema,
    flags: Seq<bool>,
) -> Result<Seq<Node>, InputError>
    decreases unvisited(flags), schema, 0nat,
{
    match schema.kind {
        SchemaKind::Type(Type::Object(object)) => followed_by(
            walked_properties(components, object.properties@, 0, flags),
            match object.additional_properties {
                Some(AdditionalProperties::Schema(extra)) => walked_inline(components, *extra, flags),
                _ => Ok(Seq::empty()),
            },
        ),
        SchemaKind::Type(Type::Array(array)) => match array.items {
            Some(items) => walked_inline(components, *items, flags),
            None => Ok(Seq::empty()),
        },
        SchemaKind::Type(_) => Ok(Seq::empty()),
        SchemaKind::OneOf { one_of } => walked_members(components, one_of@, 0, flags),
        SchemaKind::AllOf { all_of } => walked_members(components, all_of@, 0, flags),
        SchemaKind::AnyOf { any_of } => walked_members(components, any_of@, 0, flags),
        SchemaKind::Not { not } => walked_inline(components, *not, flags),
        SchemaKind::Any(any) => if permissive(any) {
            Ok(Seq::empty())
        } else {
            Err(InputError::ConstrainedFreeForm)
        },
    }
}

/// The visits of the properties of an object from position `from` on.
pub open spec fn walked_properties(
    components: Option<Components>,
    properties: Seq<(String, RefOr<Schema>)>,
    from: int,
    flags: Seq<bool>,
) -> Result<Seq<Node>, InputError>
    decreases unvisited(flags), properties, properties.len() - from,
{
    if 0 <= from < properties.len() {
        followed_by(
            walked_resolved(components, properties[from].1, flags),
            walked_properties(components, properties, from + 1, flags),
        )
    } else {
        Ok(Seq::empty())
    }
}

/// The visits of the members of a composition from position `from` on.
pub open spec fn walked_members(
    components: Option<Components>,
    members: Seq<RefOr<Schema>>,
    from: int,
    flags: Seq<bool>,
) -> Result<Seq<Node>, InputError>
    decreases unvisited(flags), members, members.len() - from,
{
    if 0 <= from < members.len() {
        followed_by(
            walked_resolved(components, members[from], flags),
            walked_members(components, members, from + 1, flags),
        )
    } else {
        Ok(Seq::empty())
    }
}

/// The visits of a child that is walked where it is inline and passed over
/// where it is a reference.
pub open spec fn walked_inline(
    components: Option<Components>,
    child: RefOr<Schema>,
    flags: Seq<bool>,
) -> Result<Seq<Node>, InputError>
    decreases unvisited(flags), child, 0nat,
{
    match child {
        RefOr::Item(schema) => walked_from(components, schema, flags),
        RefOr::Reference { .. } => Ok(Seq::empty()),
    }
}

/// The visits of a child that is resolved first where it is a reference. A
/// reference to a named schema that is being walked adds nothing.
pub open spec fn walked_resolved(
    components: Option<Components>,
    child: RefOr<Schema>,
    flags: Seq<bool>,
) -> Result<Seq<Node>, InputError>
    decreases unvisited(flags), child, 0nat,
{
    match child {
        RefOr::Item(schema) => walked_from(components, schema, flags),
        RefOr::Reference { reference } => match resolved_position::<Schema>(components, reference@) {
            Err(e) => Err(e),
            Ok(at) => if 0 <= at < flags.len() && !flags[at] {
                proof {
                    lemma_mark(flags, at);
                }
                walked_from(
                    components,
                    entries_of::<Schema>(components)[at].1->Item_0,
                    flags.update(at, true),
                )
            } else {
                Ok(Seq::empty())
            },
        },
    }
}

/// Whether a visit has no name.
pub open spec fn nameless() -> spec_fn(Node) -> bool {
    |node: Node| node.name is None
}

/// No visit of a walk that starts at a schema has a name.
pub proof fn lemma_walked_nameless(components: Option<Components>, schema: Schema, flags: Seq<bool>)
    ensures
        throughout(walked_from(components, schema, flags), nameless()),
        throughout(walked_below(components, schema, flags), nameless()),
    decreases unvisited(flags), schema, 0nat,
{
    match schema.kind {
        SchemaKind::Type(Type::Object(object)) => {
            lemma_properties_nameless(components, object.properties@, 0, flags);
            if let Some(AdditionalProperties::Schema(extra)) = object.additional_properties {
                lemma_child_nameless(components, *extra, flags);
            }
        },
        SchemaKind::Type(Type::Array(array)) => {
            if let Some(items) = array.items {
                lemma_child_nameless(components, *items, flags);
            }
        },
        SchemaKind::Type(_) => {},
        SchemaKind::OneOf { one_of } => {
            lemma_members_nameless(components, one_of@, 0, flags);
        },
        SchemaKind::AllOf { all_of } => {
            lemma_members_nameless(components, all_of@, 0, flags);
        },
        SchemaKind::AnyOf { any_of } => {
            lemma_members_nameless(components, any_of@, 0, flags);
        },
        SchemaKind::Not { not } => {
            lemma_child_nameless(components, *not, flags);
        },
        SchemaKind::Any(_) => {},
    }
}

/// No visit of the properties of an object has a name.
pub proof fn lemma_properties_nameless(
    components: Option<Components>,
    properties: Seq<(String, RefOr<Schema>)>,
    from: int,
    flags: Seq<bool>,
)
    ensures
        throughout(walked_properties(components, properties, from, flags), nameless()),
    decreases unvisited(flags), properties, properties.len() - from,
{
    if 0 <= from < properties.len() {
        lemma_child_nameless(components, properties[from].1, flags);
        lemma_properties_nameless(components, properties, from + 1, flags);
    }
}

/// No visit of the members of a composition has a name.
pub proof fn lemma_members_nameless(
    components: Option<Components>,
    members: Seq<RefOr<Schema>>,
    from: int,
    flags: Seq<bool>,
)
    ensures
        throughout(walked_members(components, members, from, flags), nameless()),
    decreases unvisited(flags), members, members.len() - from,
{
    if 0 <= from < members.len() {
        lemma_child_nameless(components, members[from], flags);
        lemma_members_nameless(components, members, from + 1, flags);
    }
}

/// No visit of a child has a name, whether references are resolved or not.
pub proof fn lemma_child_nameless(
    components: Option<Components>,
    child: RefOr<Schema>,
    flags: Seq<bool>,
)
    ensures
        throughout(walked_inline(components, child, flags), nameless()),
        throughout(walked_resolved(components, child, flags), nameless()),
    decreases unvisited(flags), child, 0nat,
{
    match child {
        RefOr::Item(schema) => {
            lemma_walked_nameless(components, schema, flags);
        },
        RefOr::Reference { reference } => {
            if let Ok(at) = resolved_position::<Schema>(components, reference@) {
                if 0 <= at < flags.len() && !flags[at] {
                    lemma_mark(flags, at);
                    lemma_walked_nameless(
                        components,
                        entries_of::<Schema>(components)[at].1->Item_0,
                        flags.update(at, true),
                    );
                }
            }
        },
    }
}

/// Whether `outcome` is the outcome `expected`: the same failure, or a list
/// that holds the expected visits.
pub open spec fn agrees(
    outcome: Result<Vec<Visit>, InputError>,
    expected: Result<Seq<Node>, InputError>,
) -> bool {
    match outcome {
        Ok(visits) => yields(expected, nodes_of(visits@)),
        Err(e) => stops(expected, e),
    }
}

/// Moves the visits of `more` to the end of `out`.
fn append_visits<'a>(out: &mut Vec<Visit<'a>>, more: Vec<Visit<'a>>)
    ensures
        nodes_of(final(out)@) == nodes_of(old(out)@) + nodes_of(more@),
{
    let ghost moved = more@;
    let mut more = more;
    out.append(&mut more);
    assert(nodes_of(out@) =~= nodes_of(old(out)@) + nodes_of(moved));
}

/// Adds the visit of `schema`, without a name, to the end of `out`.
fn push_unnamed<'a>(out: &mut Vec<Visit<'a>>, schema: &'a Schema)
    ensures
        nodes_of(final(out)@) == nodes_of(old(out)@).push(unnamed(*schema)),
{
    out.push(Visit { name: None, schema });
    assert(nodes_of(out@) =~= nodes_of(old(out)@).push(unnamed(*schema)));
}

/// Walks from `schema`, which is visited last.
fn walk_schema<'a>(
    schema: &'a Schema,
    components: &'a Option<Components>,
    visiting: &mut Vec<bool>,
) -> (r: Result<Vec<Visit<'a>>, InputError>)
    requires
        old(visiting)@.len() == entries_of::<Schema>(*components).len(),
    ensures
        final(visiting)@ == old(visiting)@,
        agrees(r, walked_from(*components, *schema, old(visiting)@)),
    decreases unvisited(old(visiting)@), schema, 1nat,
{
    let mut out = walk_below(schema, components, visiting)?;
    push_unnamed(&mut out, schema);
    Ok(out)
}

/// Walks all that lies below `schema`.
fn walk_below<'a>(
    schema: &'a Schema,
    components: &'a Option<Components>,
    visiting: &mut Vec<bool>,
) -> (r: Result<Vec<Visit<'a>>, InputError>)
    requires
        old(visiting)@.len() == entries_of::<Schema>(*components).len(),
    ensures
        final(visiting)@ == old(visiting)@,
        agrees(r, walked_below(*components, *schema, old(visiting)@)),
    decreases unvisited(old(visiting)@), schema, 0nat,
{
    match &schema.kind {
        SchemaKind::Type(Type::Object(object)) => {
            let mut out = walk_properties(&object.properties, components, visiting)?;
            match &object.additional_properties {
                Some(AdditionalProperties::Schema(extra)) => {
                    let more = walk_inline(&**extra, components, visiting)?;
                    append_visits(&mut out, more);
                },
                _ => {
                    assert(nodes_of(out@) + Seq::<Node>::empty() =~= nodes_of(out@));
                },
            }
            Ok(out)
        },
        SchemaKind::Type(Type::Array(array)) => match &array.items {
            Some(items) => walk_inline(&**items, components, visiting),
            None => Ok(no_visits()),
        },
        SchemaKind::Type(_) => Ok(no_visits()),
        SchemaKind::OneOf { one_of } => walk_members(one_of, components, visiting),
        SchemaKind::AllOf { all_of } => walk_members(all_of, components, visiting),
        SchemaKind::AnyOf { any_of } => walk_members(any_of, components, visiting),
        SchemaKind::Not { not } => walk_inline(&**not, components, visiting),
        SchemaKind::Any(any) => if is_permissive(any) {
            Ok(no_visits())
        } else {
            Err(InputError::ConstrainedFreeForm)
        },
    }
}

/// A list without visits.
fn no_visits<'a>() -> (out: Vec<Visit<'a>>)
    ensures
        nodes_of(out@) == Seq::<Node>::empty(),
{
    let out: Vec<Visit<'a>> = Vec::new();
    assert(nodes_of(out@) =~= Seq::<Node>::empty());
    out
}

/// Walks the properties of an object in declaration order.
fn walk_properties<'a>(
    properties: &'a Vec<(String, RefOr<Schema>)>,
    components: &'a Option<Components>,
    visiting: &mut Vec<bool>,
) -> (r: Result<Vec<Visit<'a>>, InputError>)
    requires
        old(visiting)@.len() == entries_of::<Schema>(*components).len(),
    ensures
        final(visiting)@ == old(visiting)@,
        agrees(r, walked_properties(*components, properties@, 0, old(visiting)@)),
    decreases unvisited(old(visiting)@), properties@, properties@.len(),
{
    let mut out = no_visits();
    let mut i: usize = 0;
    while i < properties.len()
        invariant
            i <= properties@.len(),
            visiting@ == old(visiting)@,
            visiting@.len() == entries_of::<Schema>(*components).len(),
            walked_properties(*components, properties@, 0, visiting@) == followed_by(
                Ok(nodes_of(out@)),
                walked_properties(*components, properties@, i as int, visiting@),
            ),
        decreases properties@.len() - i,
    {
        let more = walk_resolved(&properties[i].1, components, visiting)?;
        let ghost before = nodes_of(out@);
        append_visits(&mut out, more);
        proof {
            let rest = walked_properties(*components, properties@, i + 1, visiting@);
            if let Ok(tail) = rest {
                assert((before + nodes_of(more@)) + tail =~= before + (nodes_of(more@) + tail));
            }
        }
        i = i + 1;
    }
    assert(nodes_of(out@) + Seq::<Node>::empty() =~= nodes_of(out@));
    Ok(out)
}

/// Walks the members of a composition in declaration order.
fn walk_members<'a>(
    members: &'a Vec<RefOr<Schema>>,
    components: &'a Option<Components>,
    visiting: &mut Vec<bool>,
) -> (r: Result<Vec<Visit<'a>>, InputError>)
    requires
        old(visiting)@.len() == entries_of::<Schema>(*components).len(),
    ensures
        final(visiting)@ == old(visiting)@,
        agrees(r, walked_members(*components, members@, 0, old(visiting)@)),
    decreases unvisited(old(visiting)@), members@, members@.len(),
{
    let mut out = no_visits();
    let mut i: usize = 0;
    while i < members.len()
        invariant
            i <= members@.len(),
            visiting@ == old(visiting)@,
            visiting@.len() == entries_of::<Schema>(*components).len(),
            walked_members(*components, members@, 0, visiting@) == followed_by(
                Ok(nodes_of(out@)),
                walked_members(*components, members@, i as int, visiting@),
            ),
        decreases members@.len() - i,
    {
        let more = walk_resolved(&members[i], components, visiting)?;
        let ghost before = nodes_of(out@);
        append_visits(&mut out, more);
        proof {
            let rest = walked_members(*components, members@, i + 1, visiting@);
            if let Ok(tail) = rest {
                assert((before + nodes_of(more@)) + tail =~= before + (nodes_of(more@) + tail));
            }
        }
        i = i + 1;
    }
    assert(nodes_of(out@) + Seq::<Node>::empty() =~= nodes_of(out@));
    Ok(out)
}

/// Walks a child where it is inline and passes over it where it is a
/// reference.
fn walk_inline<'a>(
    child: &'a RefOr<Schema>,
    components: &'a Option<Components>,
    visiting: &mut Vec<bool>,
) -> (r: Result<Vec<Visit<'a>>, InputError>)
    requires
        old(visiting)@.len() == entries_of::<Schema>(*components).len(),
    ensures
        final(visiting)@ == old(visiting)@,
        agrees(r, walked_inline(*components, *child, old(visiting)@)),
    decreases unvisited(old(visiting)@), child, 0nat,
{
    match child {
        RefOr::Item(schema) => walk_schema(schema, components, visiting),
        RefOr::Reference { .. } => Ok(no_visits()),
    }
}

/// Walks a child, which is resolved first where it is a reference.
fn walk_resolved<'a>(
    child: &'a RefOr<Schema>,
    components: &'a Option<Components>,
    visiting: &mut Vec<bool>,
) -> (r: Result<Vec<Visit<'a>>, InputError>)
    requires
        old(visiting)@.len() == entries_of::<Schema>(*components).len(),
    ensures
        final(visiting)@ == old(visiting)@,
        agrees(r, walked_resolved(*components, *child, old(visiting)@)),
    decreases unvisited(old(visiting)@), child, 0nat,
{
    match child {
        RefOr::Item(schema) => walk_schema(schema, components, visiting),
        RefOr::Reference { reference } => {
            let at = resolve_position::<Schema>(components, reference.as_str())?;
            if visiting[at] {
                return Ok(no_visits());
            }
            match components {
                Some(c) => match c.schemas.value_at(at) {
                    RefOr::Item(schema) => {
                        proof {
                            lemma_mark(visiting@, at as int);
                        }
                        visiting.set(at, true);
                        let r = walk_schema(schema, components, visiting);
                        visiting.set(at, false);
                        assert(visiting@ =~= old(visiting)@);
                        r
                    },
                    RefOr::Reference { .. } => Err(InputError::EndlessReference),
                },
                None => Err(InputError::MissingComponents),
            }
        },
    }
}

/// The marks at the start of a walk: no named schema is being walked.
pub open spec fn unmarked(components: Option<Components>) -> Seq<bool> {
    Seq::new(entries_of::<Schema>(components).len(), |i: int| false)
}

/// Marks for a walk of a document with these components, none of them set.
pub(crate) fn fresh_marks(components: &Option<Components>) -> (marks: Vec<bool>)
    ensures
        marks@ == unmarked(*components),
{
    let count: usize = match components {
        Some(c) => c.schemas.len(),
        None => 0,
    };
    let mut marks: Vec<bool> = Vec::new();
    while marks.len() < count
        invariant
            count == entries_of::<Schema>(*components).len(),
            marks@.len() <= count,
            forall|i: int| 0 <= i < marks@.len() ==> !marks@[i],
        decreases count - marks@.len(),
    {
        marks.push(false);
    }
    assert(marks@ =~= unmarked(*components));
    marks
}

/// The parts of a document that hold schemas.
pub trait SchemaWalker: Sized {
    /// The visits of the schemas that this part holds, in the order of the
    /// document, where `components` are those of the document.
    spec fn walked(self, components: Option<Components>) -> Result<Seq<Node>, InputError>;

    /// Walks the schemas that this part holds.
    fn walk<'a>(&'a self, components: &'a Option<Components>) -> (r: Result<
        Vec<Visit<'a>>,
        InputError,
    >)
        ensures
            agrees(r, self.walked(*components)),
    ;

    /// No visit of such a part has a name.
    proof fn lemma_nameless(self, components: Option<Components>)
        ensures
            throughout(self.walked(components), nameless()),
    ;
}

/// The walk of one element of a list.
pub open spec fn each_walked<T: SchemaWalker>(
    components: Option<Components>,
) -> spec_fn(T) -> Result<Seq<Node>, InputError> {
    |part: T| part.walked(components)
}

impl SchemaWalker for Schema {
    /// The schemas that can be reached from this one, each before the schema
    /// that holds it, and this one last; none of them has a name.
    open spec fn walked(self, components: Option<Components>) -> Result<Seq<Node>, InputError> {
        walked_from(components, self, unmarked(components))
    }

    fn walk<'a>(&'a self, components: &'a Option<Components>) -> (r: Result<
        Vec<Visit<'a>>,
        InputError,
    >) {
        let mut marks = fresh_marks(components);
        walk_schema(self, components, &mut marks)
    }

    proof fn lemma_nameless(self, components: Option<Components>) {
        lemma_walked_nameless(components, self, unmarked(components));
    }
}

impl<T: SchemaWalker> SchemaWalker for RefOr<T> {
    /// An inline item is walked; a reference is passed over.
    open spec fn walked(self, components: Option<Components>) -> Result<Seq<Node>, InputError> {
        match self {
            RefOr::Item(item) => item.walked(components),
            RefOr::Reference { .. } => nothing(),
        }
    }

    fn walk<'a>(&'a self, components: &'a Option<Components>) -> (r: Result<
        Vec<Visit<'a>>,
        InputError,
    >) {
        match self {
            RefOr::Item(item) => item.walk(components),
            RefOr::Reference { .. } => Ok(no_visits()),
        }
    }

    proof fn lemma_nameless(self, components: Option<Components>) {
        if let RefOr::Item(item) = self {
            item.lemma_nameless(components);
        }
    }
}

impl<T: SchemaWalker> SchemaWalker for Option<T> {
    /// What is absent holds no schema.
    open spec fn walked(self, components: Option<Components>) -> Result<Seq<Node>, InputError> {
        match self {
            Some(part) => part.walked(components),
            None => nothing(),
        }
    }

    fn walk<'a>(&'a self, components: &'a Option<Components>) -> (r: Result<
        Vec<Visit<'a>>,
        InputError,
    >) {
        match self {
            Some(part) => part.walk(components),
            None => Ok(no_visits()),
        }
    }

    proof fn lemma_nameless(self, components: Option<Components>) {
        if let Some(part) = self {
            part.lemma_nameless(components);
        }
    }
}

impl<K, T: SchemaWalker> SchemaWalker for (K, T) {
    /// An entry of a map is walked through its value.
    open spec fn walked(self, components: Option<Components>) -> Result<Seq<Node>, InputError> {
        self.1.walked(components)
    }

    fn walk<'a>(&'a self, components: &'a Option<Components>) -> (r: Result<
        Vec<Visit<'a>>,
        InputError,
    >) {
        self.1.walk(components)
    }

    proof fn lemma_nameless(self, components: Option<Components>) {
        self.1.lemma_nameless(components);
    }
}

impl<T: SchemaWalker> SchemaWalker for Vec<T> {
    /// A list is walked element by element, in its order.
    open spec fn walked(self, components: Option<Components>) -> Result<Seq<Node>, InputError> {
        gathered(self@, each_walked::<T>(components), 0)
    }

    fn walk<'a>(&'a self, components: &'a Option<Components>) -> (r: Result<
        Vec<Visit<'a>>,
        InputError,
    >) {
        let ghost each = each_walked::<T>(*components);
        let mut out = no_visits();
        let mut i: usize = 0;
        proof {
            lemma_nothing(gathered(self@, each, 0));
        }
        while i < self.len()
            invariant
                i <= self@.len(),
                each == each_walked::<T>(*components),
                gathered(self@, each, 0) == followed_by(
                    just(nodes_of(out@)),
                    gathered(self@, each, i as int),
                ),
            decreases self@.len() - i,
        {
            proof {
                lemma_gathered_step(self@, each, nodes_of(out@), i as int);
            }
            let more = self[i].walk(components)?;
            append_visits(&mut out, more);
            i = i + 1;
        }
        proof {
            lemma_nothing(just(nodes_of(out@)));
        }
        Ok(out)
    }

    proof fn lemma_nameless(self, components: Option<Components>) {
        let each = each_walked::<T>(components);
        assert forall|i: int| 0 <= i < self@.len() implies throughout(
            #[trigger] each(self@[i]),
            nameless(),
        ) by {
            self@[i].lemma_nameless(components);
        }
        lemma_gathered_throughout(self@, each, 0, nameless());
    }
}

impl<T: SchemaWalker> SchemaWalker for Registry<T> {
    /// A collection is walked entry by entry, in declaration order.
    open spec fn walked(self, components: Option<Components>) -> Result<Seq<Node>, InputError> {
        gathered(self.entries(), each_walked::<(String, T)>(components), 0)
    }

    fn walk<'a>(&'a self, components: &'a Option<Components>) -> (r: Result<
        Vec<Visit<'a>>,
        InputError,
    >) {
        let ghost each = each_walked::<(String, T)>(*components);
        let mut out = no_visits();
        let mut i: usize = 0;
        proof {
            lemma_nothing(gathered(self.entries(), each, 0));
        }
        while i < self.len()
            invariant
                i <= self.entries().len(),
                each == each_walked::<(String, T)>(*components),
                gathered(self.entries(), each, 0) == followed_by(
                    just(nodes_of(out@)),
                    gathered(self.entries(), each, i as int),
                ),
            decreases self.entries().len() - i,
        {
            proof {
                lemma_gathered_step(self.entries(), each, nodes_of(out@), i as int);
            }
            let more = self.value_at(i).walk(components)?;
            append_visits(&mut out, more);
            i = i + 1;
        }
        proof {
            lemma_nothing(just(nodes_of(out@)));
        }
        Ok(out)
    }

    proof fn lemma_nameless(self, components: Option<Components>) {
        let each = each_walked::<(String, T)>(components);
        assert forall|i: int| 0 <= i < self.entries().len() implies throughout(
            #[trigger] each(self.entries()[i]),
            nameless(),
        ) by {
            self.entries()[i].lemma_nameless(components);
        }
        lemma_gathered_throughout(self.entries(), each, 0, nameless());
    }
}

impl SchemaWalker for MediaType {
    /// A media type holds its schema.
    open spec fn walked(self, components: Option<Components>) -> Result<Seq<Node>, InputError> {
        self.schema.walked(components)
    }

    fn walk<'a>(&'a self, components: &'a Option<Components>) -> (r: Result<
        Vec<Visit<'a>>,
        InputError,
    >) {
        self.schema.walk(components)
    }

    proof fn lemma_nameless(self, components: Option<Components>) {
        self.schema.lemma_nameless(components);
    }
}

impl SchemaWalker for ParameterSchemaOrContent {
    /// The shape of a parameter holds its schema, or those of its content.
    open spec fn walked(self, components: Option<Components>) -> Result<Seq<Node>, InputError> {
        match self {
            ParameterSchemaOrContent::Schema(schema) => schema.walked(components),
            ParameterSchemaOrContent::Content(content) => content.walked(components),
        }
    }

    fn walk<'a>(&'a self, components: &'a Option<Components>) -> (r: Result<
        Vec<Visit<'a>>,
        InputError,
    >) {
        match self {
            ParameterSchemaOrContent::Schema(schema) => schema.walk(components),
            ParameterSchemaOrContent::Content(content) => content.walk(components),
        }
    }

    proof fn lemma_nameless(self, components: Option<Components>) {
        match self {
            ParameterSchemaOrContent::Schema(schema) => schema.lemma_nameless(components),
            ParameterSchemaOrContent::Content(content) => content.lemma_nameless(components),
        }
    }
}

impl SchemaWalker for Parameter {
    /// A parameter holds the schemas of its shape.
    open spec fn walked(self, components: Option<Components>) -> Result<Seq<Node>, InputError> {
        self.format.walked(components)
    }

    fn walk<'a>(&'a self, components: &'a Option<Components>) -> (r: Result<
        Vec<Visit<'a>>,
        InputError,
    >) {
        self.format.walk(components)
    }

    proof fn lemma_nameless(self, components: Option<Components>) {
        self.format.lemma_nameless(components);
    }
}

impl SchemaWalker for RequestBody {
    /// A request body holds the schemas of its content.
    open spec fn walked(self, components: Option<Components>) -> Result<Seq<Node>, InputError> {
        self.content.walked(components)
    }

    fn walk<'a>(&'a self, components: &'a Option<Components>) -> (r: Result<
        Vec<Visit<'a>>,
        InputError,
    >) {
        self.content.walk(components)
    }

    proof fn lemma_nameless(self, components: Option<Components>) {
        self.content.lemma_nameless(components);
    }
}

impl SchemaWalker for Response {
    /// A response holds the schemas of its content.
    open spec fn walked(self, components: Option<Components>) -> Result<Seq<Node>, InputError> {
        self.content.walked(components)
    }

    fn walk<'a>(&'a self, components: &'a Option<Components>) -> (r: Result<
        Vec<Visit<'a>>,
        InputError,
    >) {
        self.content.walk(components)
    }

    proof fn lemma_nameless(self, components: Option<Components>) {
        self.content.lemma_nameless(components);
    }
}

impl SchemaWalker for Operation {
    /// An operation holds the schemas of its parameters, of its request body,
    /// of its default response, and of its responses by status code.
    open spec fn walked(self, components: Option<Components>) -> Result<Seq<Node>, InputError> {
        let steps = self.parameters.walked(components);
        let steps = followed_by(steps, self.request_body.walked(components));
        let steps = followed_by(steps, self.responses.default.walked(components));
        followed_by(steps, self.responses.responses.walked(components))
    }

    fn walk<'a>(&'a self, components: &'a Option<Components>) -> (r: Result<
        Vec<Visit<'a>>,
        InputError,
    >) {
        let mut out = self.parameters.walk(components)?;
        let body = self.request_body.walk(components)?;
        append_visits(&mut out, body);
        let fallback = self.responses.default.walk(components)?;
        append_visits(&mut out, fallback);
        let by_status = self.responses.responses.walk(components)?;
        append_visits(&mut out, by_status);
        Ok(out)
    }

    proof fn lemma_nameless(self, components: Option<Components>) {
        self.parameters.lemma_nameless(components);
        self.request_body.lemma_nameless(components);
        self.responses.default.lemma_nameless(components);
        self.responses.responses.lemma_nameless(components);
    }
}

impl SchemaWalker for PathItem {
    /// A path item holds the schemas of its operations, in the order get,
    /// put, post, delete, options, head, patch, trace, then those of the
    /// parameters that the operations share.
    open spec fn walked(self, components: Option<Components>) -> Result<Seq<Node>, InputError> {
        let steps = self.get.walked(components);
        let steps = followed_by(steps, self.put.walked(components));
        let steps = followed_by(steps, self.post.walked(components));
        let steps = followed_by(steps, self.delete.walked(components));
        let steps = followed_by(steps, self.options.walked(components));
        let steps = followed_by(steps, self.head.walked(components));
        let steps = followed_by(steps, self.patch.walked(components));
        let steps = followed_by(steps, self.trace.walked(components));
        followed_by(steps, self.parameters.walked(components))
    }

    fn walk<'a>(&'a self, components: &'a Option<Components>) -> (r: Result<
        Vec<Visit<'a>>,
        InputError,
    >) {
        let mut out = self.get.walk(components)?;
        let put = self.put.walk(components)?;
        append_visits(&mut out, put);
        let post = self.post.walk(components)?;
        append_visits(&mut out, post);
        let delete = self.delete.walk(components)?;
        append_visits(&mut out, delete);
        let options = self.options.walk(components)?;
        append_visits(&mut out, options);
        let head = self.head.walk(components)?;
        append_visits(&mut out, head);
        let patch = self.patch.walk(components)?;
        append_visits(&mut out, patch);
        let trace = self.trace.walk(components)?;
        append_visits(&mut out, trace);
        let shared = self.parameters.walk(components)?;
        append_visits(&mut out, shared);
        Ok(out)
    }

    proof fn lemma_nameless(self, components: Option<Components>) {
        self.get.lemma_nameless(components);
        self.put.lemma_nameless(components);
        self.post.lemma_nameless(components);
        self.delete.lemma_nameless(components);
        self.options.lemma_nameless(components);
        self.head.lemma_nameless(components);
        self.patch.lemma_nameless(components);
        self.trace.lemma_nameless(components);
        self.parameters.lemma_nameless(components);
    }
}

/// The visit of a schema as the entry `name` of the components.
pub open spec fn named(name: Seq<char>, schema: Schema) -> Node {
    Node { name: Some(name), schema }
}

/// The visits of the schema at position `at` of the components: what lies
/// below it, without names, then the schema under its name. An entry that is
/// a reference is passed over.
pub open spec fn named_schema_walked(components: Option<Components>, at: int) -> Result<
    Seq<Node>,
    InputError,
> {
    let entry = entries_of::<Schema>(components)[at];
    match entry.1 {
        RefOr::Item(schema) => match walked_below(
            components,
            schema,
            unmarked(components).update(at, true),
        ) {
            Ok(below) => Ok(below.push(named(entry.0@, schema))),
            Err(e) => Err(e),
        },
        RefOr::Reference { .. } => nothing(),
    }
}

/// The positions `0` to `n - 1`.
pub open spec fn positions(n: nat) -> Seq<int> {
    Seq::new(n, |i: int| i)
}

/// The walk of the schema at one position of the components.
pub open spec fn each_named_schema(components: Option<Components>) -> spec_fn(int) -> Result<
    Seq<Node>,
    InputError,
> {
    |at: int| named_schema_walked(components, at)
}

/// The visits of the schemas of the components, in declaration order.
pub open spec fn named_schemas_walked(components: Option<Components>) -> Result<
    Seq<Node>,
    InputError,
> {
    gathered(
        positions(entries_of::<Schema>(components).len()),
        each_named_schema(components),
        0,
    )
}

/// The visits of the components: responses, parameters, request bodies, then
/// schemas, each collection in declaration order.
pub open spec fn components_walked(
    components: Option<Components>,
) -> Result<Seq<Node>, InputError> {
    match components {
        None => nothing(),
        Some(c) => {
            let steps = c.responses.walked(components);
            let steps = followed_by(steps, c.parameters.walked(components));
            let steps = followed_by(steps, c.request_bodies.walked(components));
            followed_by(steps, named_schemas_walked(components))
        },
    }
}

/// The visits of a whole document: its paths in document order, then its
/// components.
pub open spec fn document_walked(document: Document) -> Result<Seq<Node>, InputError> {
    followed_by(
        document.paths.walked(document.components),
        components_walked(document.components),
    )
}

/// Walks the schema at position `at` of the components, which is visited
/// last and under its name.
fn walk_named_schema<'a>(at: usize, components: &'a Option<Components>) -> (r: Result<
    Vec<Visit<'a>>,
    InputError,
>)
    requires
        at < entries_of::<Schema>(*components).len(),
    ensures
        agrees(r, named_schema_walked(*components, at as int)),
{
    match components {
        Some(c) => match c.schemas.value_at(at) {
            RefOr::Item(schema) => {
                let mut marks = fresh_marks(components);
                marks.set(at, true);
                let mut out = walk_below(schema, components, &mut marks)?;
                let ghost below = nodes_of(out@);
                let name = c.schemas.key_at(at).clone();
                out.push(Visit { name: Some(name), schema });
                assert(nodes_of(out@) =~= below.push(
                    named(c.schemas.entries()[at as int].0@, *schema),
                ));
                Ok(out)
            },
            RefOr::Reference { .. } => Ok(no_visits()),
        },
        None => Ok(no_visits()),
    }
}

/// Walks the schemas of the components in declaration order.
fn walk_named_schemas<'a>(components: &'a Option<Components>) -> (r: Result<
    Vec<Visit<'a>>,
    InputError,
>)
    ensures
        agrees(r, named_schemas_walked(*components)),
{
    let count: usize = match components {
        Some(c) => c.schemas.len(),
        None => 0,
    };
    let ghost each = each_named_schema(*components);
    let ghost list = positions(count as nat);
    let mut out = no_visits();
    let mut i: usize = 0;
    proof {
        lemma_nothing(gathered(list, each, 0));
    }
    while i < count
        invariant
            i <= count,
            count == entries_of::<Schema>(*components).len(),
            list == positions(count as nat),
            each == each_named_schema(*components),
            gathered(list, each, 0) == followed_by(
                just(nodes_of(out@)),
                gathered(list, each, i as int),
            ),
        decreases count - i,
    {
        proof {
            lemma_gathered_step(list, each, nodes_of(out@), i as int);
        }
        let more = walk_named_schema(i, components)?;
        append_visits(&mut out, more);
        i = i + 1;
    }
    proof {
        lemma_nothing(just(nodes_of(out@)));
    }
    Ok(out)
}

/// Walks the components: responses, parameters, request bodies, then schemas.
fn walk_components<'a>(components: &'a Option<Components>) -> (r: Result<
    Vec<Visit<'a>>,
    InputError,
>)
    ensures
        agrees(r, components_walked(*components)),
{
    match components {
        None => Ok(no_visits()),
        Some(c) => {
            let mut out = c.responses.walk(components)?;
            let parameters = c.parameters.walk(components)?;
            append_visits(&mut out, parameters);
            let bodies = c.request_bodies.walk(components)?;
            append_visits(&mut out, bodies);
            let schemas = walk_named_schemas(components)?;
            append_visits(&mut out, schemas);
            Ok(out)
        },
    }
}

impl Document {
    /// Every schema of the document: those of the paths in document order,
    /// then those of the components.
    pub fn walk<'a>(&'a self) -> (r: Result<Vec<Visit<'a>>, InputError>)
        ensures
            agrees(r, document_walked(*self)),
    {
        let mut out = self.paths.walk(&self.components)?;
        let more = walk_components(&self.components)?;
        append_visits(&mut out, more);
        Ok(out)
    }
}

} // verus!
