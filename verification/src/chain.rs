//! Why a bounded number of hops loses nothing.
//!
//! A chain of references that reaches an inline item passes through no entry
//! twice, so it is never longer than the collection that it runs in. The
//! bound on the hops in [`located`] therefore stops only chains that would
//! never end.

use crate::document::RefOr;
use crate::outcome::InputError;
use crate::reference::{located, reference_key, target};
use crate::registry::{find_key, lemma_find_key};
use vstd::prelude::*;
use vstd::set_lib::{lemma_int_range, lemma_len_subset, set_int_range};

verus! {

/// The position of the entry that `reference` names.
pub open spec fn named_position<T>(
    entries: Seq<(String, RefOr<T>)>,
    section: Seq<char>,
    reference: Seq<char>,
) -> Result<int, InputError> {
    match reference_key(section, reference) {
        None => Err(InputError::MalformedReference),
        Some(key) => match find_key(entries, key, 0) {
            None => Err(InputError::DanglingReference),
            Some(at) => Ok(at),
        },
    }
}

/// The position of the inline item that the entry at `at` leads to within
/// `hops` hops.
pub open spec fn settled<T>(
    entries: Seq<(String, RefOr<T>)>,
    section: Seq<char>,
    at: int,
    hops: nat,
) -> Result<int, InputError>
    decreases hops,
{
    match entries[at].1 {
        RefOr::Item(_) => Ok(at),
        RefOr::Reference { reference } => if hops == 0 {
            Err(InputError::EndlessReference)
        } else {
            match named_position(entries, section, reference@) {
                Err(e) => Err(e),
                Ok(next) => settled(entries, section, next, (hops - 1) as nat),
            }
        },
    }
}

/// Following a reference is finding the entry that it names, then settling
/// from there.
pub proof fn lemma_target_settles<T>(
    entries: Seq<(String, RefOr<T>)>,
    section: Seq<char>,
    reference: Seq<char>,
    hops: nat,
)
    ensures
        target(entries, section, reference, hops) == (match named_position(
            entries,
            section,
            reference,
        ) {
            Err(e) => Err(e),
            Ok(at) => settled(entries, section, at, hops),
        }),
    decreases hops,
{
    if let Ok(at) = named_position(entries, section, reference) {
        if let RefOr::Reference { reference: next } = entries[at].1 {
            if hops > 0 {
                lemma_target_settles(entries, section, next@, (hops - 1) as nat);
            }
        }
    }
}

/// The number of hops from the entry at `at` to the inline item that it
/// leads to, where it leads to one within `hops` hops.
pub open spec fn distance<T>(
    entries: Seq<(String, RefOr<T>)>,
    section: Seq<char>,
    at: int,
    hops: nat,
) -> nat
    decreases hops,
{
    match entries[at].1 {
        RefOr::Item(_) => 0,
        RefOr::Reference { reference } => if hops == 0 {
            0
        } else {
            match named_position(entries, section, reference@) {
                Err(_) => 0,
                Ok(next) => 1 + distance(entries, section, next, (hops - 1) as nat),
            }
        },
    }
}

/// The positions that the chain from the entry at `at` passes through.
pub open spec fn trail<T>(
    entries: Seq<(String, RefOr<T>)>,
    section: Seq<char>,
    at: int,
    hops: nat,
) -> Seq<int>
    decreases hops,
{
    match entries[at].1 {
        RefOr::Item(_) => seq![at],
        RefOr::Reference { reference } => if hops == 0 {
            seq![at]
        } else {
            match named_position(entries, section, reference@) {
                Err(_) => seq![at],
                Ok(next) => seq![at] + trail(entries, section, next, (hops - 1) as nat),
            }
        },
    }
}

/// A chain that ends within some number of hops ends alike within any other
/// number of hops within which it ends, and at the same distance.
pub proof fn lemma_settled_alike<T>(
    entries: Seq<(String, RefOr<T>)>,
    section: Seq<char>,
    at: int,
    one: nat,
    other: nat,
)
    requires
        settled(entries, section, at, one) is Ok,
        settled(entries, section, at, other) is Ok,
    ensures
        settled(entries, section, at, one) == settled(entries, section, at, other),
        distance(entries, section, at, one) == distance(entries, section, at, other),
    decreases one,
{
    if let RefOr::Reference { reference } = entries[at].1 {
        let next = named_position(entries, section, reference@)->Ok_0;
        lemma_settled_alike(entries, section, next, (one - 1) as nat, (other - 1) as nat);
    }
}

/// A chain that ends within some number of hops is no longer than that.
pub proof fn lemma_distance_within<T>(
    entries: Seq<(String, RefOr<T>)>,
    section: Seq<char>,
    at: int,
    hops: nat,
)
    requires
        settled(entries, section, at, hops) is Ok,
    ensures
        distance(entries, section, at, hops) <= hops,
    decreases hops,
{
    if let RefOr::Reference { reference } = entries[at].1 {
        let next = named_position(entries, section, reference@)->Ok_0;
        lemma_distance_within(entries, section, next, (hops - 1) as nat);
    }
}

/// A chain that ends within some number of hops ends within any number of
/// hops that is not below its distance.
pub proof fn lemma_distance_suffices<T>(
    entries: Seq<(String, RefOr<T>)>,
    section: Seq<char>,
    at: int,
    hops: nat,
    more: nat,
)
    requires
        settled(entries, section, at, hops) is Ok,
        distance(entries, section, at, hops) <= more,
    ensures
        settled(entries, section, at, more) == settled(entries, section, at, hops),
    decreases hops,
{
    if let RefOr::Reference { reference } = entries[at].1 {
        let next = named_position(entries, section, reference@)->Ok_0;
        lemma_distance_suffices(entries, section, next, (hops - 1) as nat, (more - 1) as nat);
    }
}

/// Every position on the trail of a chain that ends is a position of the
/// collection from which the chain ends too, at no greater distance.
pub proof fn lemma_trail_members<T>(
    entries: Seq<(String, RefOr<T>)>,
    section: Seq<char>,
    at: int,
    hops: nat,
)
    requires
        0 <= at < entries.len(),
        settled(entries, section, at, hops) is Ok,
    ensures
        trail(entries, section, at, hops).len() == distance(entries, section, at, hops) + 1,
        forall|i: int|
            0 <= i < trail(entries, section, at, hops).len() ==> {
                let position = #[trigger] trail(entries, section, at, hops)[i];
                &&& 0 <= position < entries.len()
                &&& settled(entries, section, position, hops) is Ok
                &&& distance(entries, section, position, hops) + i == distance(entries, section, at, hops)
            },
    decreases hops,
{
    if let RefOr::Reference { reference } = entries[at].1 {
        let key = reference_key(section, reference@)->0;
        lemma_find_key(entries, key, 0);
        let next = named_position(entries, section, reference@)->Ok_0;
        let less = (hops - 1) as nat;
        lemma_trail_members(entries, section, next, less);
        assert forall|i: int| 0 <= i < trail(entries, section, at, hops).len() implies {
            let position = #[trigger] trail(entries, section, at, hops)[i];
            &&& 0 <= position < entries.len()
            &&& settled(entries, section, position, hops) is Ok
            &&& distance(entries, section, position, hops) + i == distance(entries, section, at, hops)
        } by {
            if i > 0 {
                let position = trail(entries, section, next, less)[i - 1];
                assert(trail(entries, section, at, hops)[i] == position);
                lemma_distance_within(entries, section, position, less);
                lemma_distance_suffices(entries, section, position, less, hops);
                lemma_settled_alike(entries, section, position, less, hops);
            }
        }
    }
}

/// A chain that ends is shorter than the collection that it runs in.
pub proof fn lemma_distance_is_bounded<T>(
    entries: Seq<(String, RefOr<T>)>,
    section: Seq<char>,
    at: int,
    hops: nat,
)
    requires
        0 <= at < entries.len(),
        settled(entries, section, at, hops) is Ok,
    ensures
        distance(entries, section, at, hops) < entries.len(),
{
    let path = trail(entries, section, at, hops);
    lemma_trail_members(entries, section, at, hops);
    assert(path.no_duplicates()) by {
        assert forall|i: int, j: int| 0 <= i < path.len() && 0 <= j < path.len() && i != j implies path[i]
            != path[j] by {
            assert(distance(entries, section, path[i], hops) + i == distance(entries, section, at, hops));
            assert(distance(entries, section, path[j], hops) + j == distance(entries, section, at, hops));
        }
    }
    path.unique_seq_to_set();
    lemma_int_range(0, entries.len() as int);
    assert(path.to_set().subset_of(set_int_range(0, entries.len() as int))) by {
        assert forall|position: int| path.to_set().contains(position) implies set_int_range(
            0,
            entries.len() as int,
        ).contains(position) by {
            let i = choose|i: int| 0 <= i < path.len() && path[i] == position;
            assert(0 <= path[i] < entries.len());
        }
    }
    lemma_len_subset(path.to_set(), set_int_range(0, entries.len() as int));
}

/// A reference that leads to an inline item within any number of hops leads
/// to it within as many hops as the collection has entries: the bound stops
/// only chains that never end.
pub proof fn lemma_bound_loses_nothing<T>(
    entries: Seq<(String, RefOr<T>)>,
    section: Seq<char>,
    reference: Seq<char>,
    hops: nat,
)
    requires
        target(entries, section, reference, hops) is Ok,
    ensures
        located(entries, section, reference) == target(entries, section, reference, hops),
{
    lemma_target_settles(entries, section, reference, hops);
    lemma_target_settles(entries, section, reference, entries.len());
    let key = reference_key(section, reference)->0;
    lemma_find_key(entries, key, 0);
    let at = named_position(entries, section, reference)->Ok_0;
    lemma_distance_is_bounded(entries, section, at, hops);
    lemma_distance_suffices(entries, section, at, hops, entries.len());
}

} // verus!
