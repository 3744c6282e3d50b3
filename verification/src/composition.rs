//! The concrete types that a composition is made of.
//!
//! The members of a `oneOf`, `allOf` or `anyOf` are taken apart, references
//! resolved, down to the concrete types at their leaves. A composition whose
//! leaves are of different categories is hard to represent in a client.

use crate::document::{
    is_permissive, permissive, Category, Components, RefOr, Schema, SchemaKind,
};
use crate::outcome::{followed_by, just, nothing, stops, InputError};
use crate::reference::{entries_of, resolve_position, resolved_position};
use crate::walker::{lemma_mark, unmarked, unvisited};
use vstd::prelude::*;

verus! {

/// The categories of the concrete types at the leaves of `schema`, in
/// declaration order, while the named schemas marked in `flags` are being
/// taken apart. A negation or a constrained free-form schema has no leaves
/// that could be told.
pub open spec fn leaves(components: Option<Components>, schema: Schema, flags: Seq<bool>) -> Result<
    Seq<Category>,
    InputError,
>
    decreases unvisited(flags), schema, 0nat,
{
    match schema.kind {
        SchemaKind::OneOf { one_of } => member_leaves(components, one_of@, 0, flags),
        SchemaKind::AllOf { all_of } => member_leaves(components, all_of@, 0, flags),
        SchemaKind::AnyOf { any_of } => member_leaves(components, any_of@, 0, flags),
        SchemaKind::Not { .. } => Err(InputError::Negation),
        SchemaKind::Type(t) => just(seq![t.category()]),
        SchemaKind::Any(any) => if permissive(any) {
            nothing()
        } else {
            Err(InputError::ConstrainedFreeForm)
        },
    }
}

/// The leaves of the members of a composition from position `from` on.
pub open spec fn member_leaves(
    components: Option<Components>,
    members: Seq<RefOr<Schema>>,
    from: int,
    flags: Seq<bool>,
) -> Result<Seq<Category>, InputError>
    decreases unvisited(flags), members, members.len() - from,
{
    if 0 <= from < members.len() {
        followed_by(
            child_leaves(components, members[from], flags),
            member_leaves(components, members, from + 1, flags),
        )
    } else {
        nothing()
    }
}

/// The leaves of one member, which is resolved first where it is a reference.
/// A reference to a named schema that is being taken apart adds nothing.
pub open spec fn child_leaves(
    components: Option<Components>,
    child: RefOr<Schema>,
    flags: Seq<bool>,
) -> Result<Seq<Category>, InputError>
    decreases unvisited(flags), child, 0nat,
{
    match child {
        RefOr::Item(schema) => leaves(components, schema, flags),
        RefOr::Reference { reference } => match resolved_position::<Schema>(components, reference@) {
            Err(e) => Err(e),
            Ok(at) => if 0 <= at < flags.len() && !flags[at] {
                proof {
                    lemma_mark(flags, at);
                }
                leaves(
                    components,
                    entries_of::<Schema>(components)[at].1->Item_0,
                    flags.update(at, true),
                )
            } else {
                nothing()
            },
        },
    }
}

/// The category of the first leaf at or after `from` that differs from the
/// first leaf of all.
pub open spec fn first_other(leaves: Seq<Category>, from: int) -> Option<Category>
    decreases leaves.len() - from,
{
    if 1 <= from < leaves.len() {
        if leaves[from] != leaves[0] {
            Some(leaves[from])
        } else {
            first_other(leaves, from + 1)
        }
    } else {
        None
    }
}

/// No leaf differs from the first exactly when all leaves are of one
/// category.
pub proof fn lemma_first_other(leaves: Seq<Category>, from: int)
    requires
        1 <= from,
    ensures
        first_other(leaves, from) is None <==> forall|i: int|
            from <= i < leaves.len() ==> #[trigger] leaves[i] == leaves[0],
    decreases leaves.len() - from,
{
    if from < leaves.len() {
        lemma_first_other(leaves, from + 1);
    }
}

/// Whether `outcome` is the outcome `expected`.
pub open spec fn tells(outcome: Result<Vec<Category>, InputError>, expected: Result<
    Seq<Category>,
    InputError,
>) -> bool {
    match outcome {
        Ok(list) => expected == just(list@),
        Err(e) => stops(expected, e),
    }
}

/// The leaves of `schema`, while the named schemas marked in `visiting` are
/// being taken apart.
pub(crate) fn schema_leaves(
    schema: &Schema,
    components: &Option<Components>,
    visiting: &mut Vec<bool>,
) -> (r: Result<Vec<Category>, InputError>)
    requires
        old(visiting)@.len() == entries_of::<Schema>(*components).len(),
    ensures
        final(visiting)@ == old(visiting)@,
        tells(r, leaves(*components, *schema, old(visiting)@)),
    decreases unvisited(old(visiting)@), schema, 0nat,
{
    match &schema.kind {
        SchemaKind::OneOf { one_of } => members_leaves(one_of, components, visiting),
        SchemaKind::AllOf { all_of } => members_leaves(all_of, components, visiting),
        SchemaKind::AnyOf { any_of } => members_leaves(any_of, components, visiting),
        SchemaKind::Not { .. } => Err(InputError::Negation),
        SchemaKind::Type(t) => {
            let mut out: Vec<Category> = Vec::new();
            out.push(t.category());
            assert(out@ =~= seq![t.category()]);
            Ok(out)
        },
        SchemaKind::Any(any) => if is_permissive(any) {
            Ok(Vec::new())
        } else {
            Err(InputError::ConstrainedFreeForm)
        },
    }
}

/// The leaves of the members of a composition.
fn members_leaves(
    members: &Vec<RefOr<Schema>>,
    components: &Option<Components>,
    visiting: &mut Vec<bool>,
) -> (r: Result<Vec<Category>, InputError>)
    requires
        old(visiting)@.len() == entries_of::<Schema>(*components).len(),
    ensures
        final(visiting)@ == old(visiting)@,
        tells(r, member_leaves(*components, members@, 0, old(visiting)@)),
    decreases unvisited(old(visiting)@), members@, members@.len(),
{
    let mut out: Vec<Category> = Vec::new();
    let mut i: usize = 0;
    assert(Seq::<Category>::empty() + member_leaves(*components, members@, 0, visiting@)->Ok_0
        =~= member_leaves(*components, members@, 0, visiting@)->Ok_0);
    while i < members.len()
        invariant
            i <= members@.len(),
            visiting@ == old(visiting)@,
            visiting@.len() == entries_of::<Schema>(*components).len(),
            member_leaves(*components, members@, 0, visiting@) == followed_by(
                just(out@),
                member_leaves(*components, members@, i as int, visiting@),
            ),
        decreases members@.len() - i,
    {
        let mut more = member_leaves_of(&members[i], components, visiting)?;
        let ghost before = out@;
        let ghost added = more@;
        out.append(&mut more);
        proof {
            let rest = member_leaves(*components, members@, i + 1, visiting@);
            if let Ok(tail) = rest {
                assert((before + added) + tail =~= before + (added + tail));
            }
        }
        i = i + 1;
    }
    assert(out@ + Seq::<Category>::empty() =~= out@);
    Ok(out)
}

/// The leaves of one member of a composition.
fn member_leaves_of(
    child: &RefOr<Schema>,
    components: &Option<Components>,
    visiting: &mut Vec<bool>,
) -> (r: Result<Vec<Category>, InputError>)
    requires
        old(visiting)@.len() == entries_of::<Schema>(*components).len(),
    ensures
        final(visiting)@ == old(visiting)@,
        tells(r, child_leaves(*components, *child, old(visiting)@)),
    decreases unvisited(old(visiting)@), child, 0nat,
{
    match child {
        RefOr::Item(schema) => schema_leaves(schema, components, visiting),
        RefOr::Reference { reference } => {
            let at = resolve_position::<Schema>(components, reference.as_str())?;
            if visiting[at] {
                return Ok(Vec::new());
            }
            match components {
                Some(c) => match c.schemas.value_at(at) {
                    RefOr::Item(schema) => {
                        proof {
                            lemma_mark(visiting@, at as int);
                        }
                        visiting.set(at, true);
                        let r = schema_leaves(schema, components, visiting);
                        visiting.set(at, false);
                        assert(visiting@ =~= old(visiting)@);
                        r
                    },
                    RefOr::Reference { .. } => Err(InputError::EndlessReference),
                },
                None => Err(InputError::MissingComponents),
            }
        },
    }
}

/// The categories of the concrete types at the leaves of `schema`.
pub open spec fn leaf_categories(components: Option<Components>, schema: Schema) -> Result<
    Seq<Category>,
    InputError,
> {
    leaves(components, schema, unmarked(components))
}

/// The first leaf of `leaves` and the first that differs from it, if the
/// leaves are not all of one category.
pub open spec fn mismatch(leaves: Seq<Category>) -> Option<(Category, Category)> {
    match first_other(leaves, 1) {
        Some(other) => Some((leaves[0], other)),
        None => None,
    }
}

/// The first leaf of `leaves` and the first that differs from it.
pub fn find_mismatch(leaves: &Vec<Category>) -> (r: Option<(Category, Category)>)
    ensures
        r == mismatch(leaves@),
{
    if leaves.len() == 0 {
        return None;
    }
    let first = leaves[0];
    let mut i: usize = 1;
    while i < leaves.len()
        invariant
            1 <= i,
            leaves@.len() > 0,
            first == leaves@[0],
            first_other(leaves@, 1) == first_other(leaves@, i as int),
        decreases leaves@.len() - i,
    {
        if leaves[i] != first {
            return Some((first, leaves[i]));
        }
        i = i + 1;
    }
    None
}

} // verus!
