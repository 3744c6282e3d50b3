//! Resolving references into the components of a document.
//!
//! A reference is a local pointer of the form
//! `#/components/<collection>/<name>`, where the collection is that of the
//! kind of definition looked for (`schemas`, `parameters`, `responses`,
//! `requestBodies`) and the name, which holds no `/`, is that of an entry of
//! the collection. Any other text is malformed. The entry may itself be a
//! reference; the chain is followed until an inline item is reached.

use crate::document::{Components, Parameter, RefOr, RequestBody, Response, Schema};
use crate::outcome::{stops, yields, InputError};
use crate::registry::{find_key, lemma_find_key, Registry};
use crate::text::{contains_char, strip_prefix, unprefixed};
use vstd::string::StringExecFns;
use vstd::prelude::*;

verus! {

/// What every local pointer into the components starts with.
pub const POINTER_ROOT: &'static str = "#/components/";

/// What a local pointer into the collection `section` starts with.
pub open spec fn pointer_prefix(section: Seq<char>) -> Seq<char> {
    POINTER_ROOT@ + section + "/"@
}

/// The name of the entry of the collection `section` that `reference` points
/// at: what follows the prefix of the collection, where the reference starts
/// with it and no `/` follows it.
pub open spec fn reference_key(section: Seq<char>, reference: Seq<char>) -> Option<Seq<char>> {
    match unprefixed(reference, pointer_prefix(section)) {
        Some(key) => if key.contains('/') {
            None
        } else {
            Some(key)
        },
        None => None,
    }
}

/// The name of the entry of the collection `section` that `reference` points
/// at.
pub fn key_of<'a>(section: &str, reference: &'a str) -> (r: Option<&'a str>)
    ensures
        match r {
            Some(key) => reference_key(section@, reference@) == Some(key@),
            None => reference_key(section@, reference@) is None,
        },
{
    let mut prefix = String::from_str(POINTER_ROOT);
    prefix.append(section);
    prefix.append("/");
    match strip_prefix(reference, prefix.as_str()) {
        Some(key) => if contains_char(key, '/') {
            None
        } else {
            Some(key)
        },
        None => None,
    }
}

/// The position, among the `entries` of the collection `section`, of the
/// inline item that `reference` leads to, where at most `hops` entries on the
/// way are references themselves.
pub open spec fn target<T>(
    entries: Seq<(String, RefOr<T>)>,
    section: Seq<char>,
    reference: Seq<char>,
    hops: nat,
) -> Result<int, InputError>
    decreases hops,
{
    match reference_key(section, reference) {
        None => Err(InputError::MalformedReference),
        Some(key) => match find_key(entries, key, 0) {
            None => Err(InputError::DanglingReference),
            Some(at) => match entries[at].1 {
                RefOr::Item(_) => Ok(at),
                RefOr::Reference { reference: next } => if hops == 0 {
                    Err(InputError::EndlessReference)
                } else {
                    target(entries, section, next@, (hops - 1) as nat)
                },
            },
        },
    }
}

/// A position that `target` returns is that of an inline item.
pub proof fn lemma_target_is_item<T>(
    entries: Seq<(String, RefOr<T>)>,
    section: Seq<char>,
    reference: Seq<char>,
    hops: nat,
)
    ensures
        target(entries, section, reference, hops) matches Ok(at) ==> 0 <= at < entries.len()
            && entries[at].1 is Item,
    decreases hops,
{
    if let Some(key) = reference_key(section, reference) {
        lemma_find_key(entries, key, 0);
        if let Some(at) = find_key(entries, key, 0) {
            if let RefOr::Reference { reference: next } = entries[at].1 {
                if hops > 0 {
                    lemma_target_is_item(entries, section, next@, (hops - 1) as nat);
                }
            }
        }
    }
}

/// The position, among the `entries` of the collection `section`, of the
/// inline item that `reference` leads to. A chain of references without
/// repetition passes through each entry at most once, so as many hops as
/// there are entries are allowed.
pub open spec fn located<T>(
    entries: Seq<(String, RefOr<T>)>,
    section: Seq<char>,
    reference: Seq<char>,
) -> Result<int, InputError> {
    target(entries, section, reference, entries.len())
}

/// The position in `registry`, which holds the collection `section`, of the
/// inline item that `reference` leads to.
pub fn locate<T>(registry: &Registry<RefOr<T>>, section: &str, reference: &str) -> (r: Result<
    usize,
    InputError,
>)
    ensures
        match r {
            Ok(at) => yields(located(registry.entries(), section@, reference@), at as int),
            Err(e) => stops(located(registry.entries(), section@, reference@), e),
        },
{
    let mut hops: usize = registry.len();
    let mut current: &str = reference;
    loop
        invariant
            hops <= registry.entries().len(),
            located(registry.entries(), section@, reference@) == target(
                registry.entries(),
                section@,
                current@,
                hops as nat,
            ),
        decreases hops,
    {
        let key = match key_of(section, current) {
            Some(key) => key,
            None => {
                return Err(InputError::MalformedReference);
            },
        };
        let at = match registry.position(key) {
            Some(at) => at,
            None => {
                return Err(InputError::DanglingReference);
            },
        };
        proof {
            lemma_find_key(registry.entries(), key@, 0);
        }
        match registry.value_at(at) {
            RefOr::Item(_) => {
                return Ok(at);
            },
            RefOr::Reference { reference: next } => {
                if hops == 0 {
                    return Err(InputError::EndlessReference);
                }
                hops = hops - 1;
                current = next.as_str();
            },
        }
    }
}

/// The kinds of definition that the components hold a collection of.
pub trait ComponentLookup: Sized {
    /// The collection of the components that holds definitions of this kind.
    spec fn collection(components: Components) -> Registry<RefOr<Self>>;

    /// The collection of the components that holds definitions of this kind.
    fn get_components(components: &Components) -> (r: &Registry<RefOr<Self>>)
        ensures
            *r == Self::collection(*components),
    ;

    /// The name of that collection in a reference.
    spec fn section() -> Seq<char>;

    /// The name of that collection in a reference.
    fn section_name() -> (r: &'static str)
        ensures
            r@ == Self::section(),
    ;
}

impl ComponentLookup for Schema {
    open spec fn collection(components: Components) -> Registry<RefOr<Self>> {
        components.schemas
    }

    fn get_components(components: &Components) -> (r: &Registry<RefOr<Self>>) {
        &components.schemas
    }

    open spec fn section() -> Seq<char> {
        "schemas"@
    }

    fn section_name() -> (r: &'static str) {
        "schemas"
    }
}

impl ComponentLookup for Parameter {
    open spec fn collection(components: Components) -> Registry<RefOr<Self>> {
        components.parameters
    }

    fn get_components(components: &Components) -> (r: &Registry<RefOr<Self>>) {
        &components.parameters
    }

    open spec fn section() -> Seq<char> {
        "parameters"@
    }

    fn section_name() -> (r: &'static str) {
        "parameters"
    }
}

impl ComponentLookup for Response {
    open spec fn collection(components: Components) -> Registry<RefOr<Self>> {
        components.responses
    }

    fn get_components(components: &Components) -> (r: &Registry<RefOr<Self>>) {
        &components.responses
    }

    open spec fn section() -> Seq<char> {
        "responses"@
    }

    fn section_name() -> (r: &'static str) {
        "responses"
    }
}

impl ComponentLookup for RequestBody {
    open spec fn collection(components: Components) -> Registry<RefOr<Self>> {
        components.request_bodies
    }

    fn get_components(components: &Components) -> (r: &Registry<RefOr<Self>>) {
        &components.request_bodies
    }

    open spec fn section() -> Seq<char> {
        "requestBodies"@
    }

    fn section_name() -> (r: &'static str) {
        "requestBodies"
    }
}

/// The entries among which references to definitions of kind `T` are looked
/// up: those of its collection, or none where the document has no components.
pub open spec fn entries_of<T: ComponentLookup>(components: Option<Components>) -> Seq<
    (String, RefOr<T>),
> {
    match components {
        Some(c) => T::collection(c).entries(),
        None => Seq::empty(),
    }
}

/// The position, in the collection for kind `T`, of the item that `reference`
/// leads to. The reference is read first, then the components are looked for,
/// then the entry.
pub open spec fn resolved_position<T: ComponentLookup>(
    components: Option<Components>,
    reference: Seq<char>,
) -> Result<int, InputError> {
    if reference_key(T::section(), reference) is None {
        Err(InputError::MalformedReference)
    } else if components is None {
        Err(InputError::MissingComponents)
    } else {
        located(entries_of::<T>(components), T::section(), reference)
    }
}

/// The concrete item that `value` denotes.
pub open spec fn resolved<T: ComponentLookup>(
    value: RefOr<T>,
    components: Option<Components>,
) -> Result<T, InputError> {
    match value {
        RefOr::Item(item) => Ok(item),
        RefOr::Reference { reference } => match resolved_position::<T>(components, reference@) {
            Ok(at) => Ok(entries_of::<T>(components)[at].1->Item_0),
            Err(e) => Err(e),
        },
    }
}

/// The position, in the collection for kind `T`, of the item that `reference`
/// leads to.
pub fn resolve_position<T: ComponentLookup>(components: &Option<Components>, reference: &str) -> (r:
    Result<usize, InputError>)
    ensures
        match r {
            Ok(at) => yields(resolved_position::<T>(*components, reference@), at as int)
                && at < entries_of::<T>(*components).len() && entries_of::<T>(
                *components,
            )[at as int].1 is Item,
            Err(e) => stops(resolved_position::<T>(*components, reference@), e),
        },
{
    if key_of(T::section_name(), reference).is_none() {
        return Err(InputError::MalformedReference);
    }
    match components {
        None => Err(InputError::MissingComponents),
        Some(c) => {
            let registry = T::get_components(c);
            proof {
                lemma_target_is_item(
                    registry.entries(),
                    T::section(),
                    reference@,
                    registry.entries().len(),
                );
            }
            locate(registry, T::section_name(), reference)
        },
    }
}

impl<T: ComponentLookup> RefOr<T> {
    /// The concrete item that this value denotes: itself where it is inline,
    /// else the item that its reference leads to.
    pub fn item<'a>(&'a self, components: &'a Option<Components>) -> (r: Result<&'a T, InputError>)
        ensures
            match r {
                Ok(item) => yields(resolved(*self, *components), *item),
                Err(e) => stops(resolved(*self, *components), e),
            },
    {
        match self {
            RefOr::Item(item) => Ok(item),
            RefOr::Reference { reference } => {
                let at = resolve_position::<T>(components, reference.as_str())?;
                match components {
                    Some(c) => match T::get_components(c).value_at(at) {
                        RefOr::Item(item) => Ok(item),
                        RefOr::Reference { .. } => Err(InputError::EndlessReference),
                    },
                    None => Err(InputError::MissingComponents),
                }
            },
        }
    }
}

} // verus!
