//! Outcomes of an analysis that may stop at an unrecoverable input condition:
//! putting them in sequence, and gathering them over a list.

use vstd::prelude::*;

verus! {

/// A condition of the input under which a document cannot be analyzed.
#[derive(Clone, Copy, Debug, PartialEq, Eq, Structural)]
pub enum InputError {
    /// A reference is not a local pointer into the collection of its kind.
    MalformedReference,
    /// A reference is used in a document that has no components.
    MissingComponents,
    /// A reference names an entry that its collection does not hold.
    DanglingReference,
    /// A chain of references never reaches an inline item.
    EndlessReference,
    /// A schema is the negation of another.
    Negation,
    /// A schema of no definite kind carries constraints.
    ConstrainedFreeForm,
}

/// One step after another: the items of both in that order, or the first
/// failure.
pub open spec fn followed_by<A>(first: Result<Seq<A>, InputError>, second: Result<
    Seq<A>,
    InputError,
>) -> Result<Seq<A>, InputError> {
    match first {
        Err(e) => Err(e),
        Ok(head) => match second {
            Err(e) => Err(e),
            Ok(tail) => Ok(head + tail),
        },
    }
}

/// Whether `outcome` is the success that holds `value`.
pub open spec fn yields<A>(outcome: Result<A, InputError>, value: A) -> bool {
    outcome matches Ok(held) && held == value
}

/// Whether `outcome` is the failure for the condition `e`.
pub open spec fn stops<A>(outcome: Result<A, InputError>, e: InputError) -> bool {
    outcome matches Err(cause) && cause == e
}

/// The step that yields nothing.
pub open spec fn nothing<A>() -> Result<Seq<A>, InputError> {
    Ok(Seq::empty())
}

/// The step that yields `items`.
pub open spec fn just<A>(items: Seq<A>) -> Result<Seq<A>, InputError> {
    Ok(items)
}

/// What `each` yields for the elements of `list` from position `from` on, one
/// after another.
pub open spec fn gathered<T, A>(
    list: Seq<T>,
    each: spec_fn(T) -> Result<Seq<A>, InputError>,
    from: int,
) -> Result<Seq<A>, InputError>
    decreases list.len() - from,
{
    if 0 <= from < list.len() {
        followed_by(each(list[from]), gathered(list, each, from + 1))
    } else {
        nothing()
    }
}

/// Nothing in front of a step, or behind it, changes it.
pub proof fn lemma_nothing<A>(step: Result<Seq<A>, InputError>)
    ensures
        followed_by(nothing(), step) == step,
        followed_by(step, nothing()) == step,
{
    if let Ok(items) = step {
        assert(Seq::<A>::empty() + items =~= items);
        assert(items + Seq::<A>::empty() =~= items);
    }
}

/// Steps in sequence may be grouped either way.
pub proof fn lemma_followed_by_associative<A>(
    a: Result<Seq<A>, InputError>,
    b: Result<Seq<A>, InputError>,
    c: Result<Seq<A>, InputError>,
)
    ensures
        followed_by(followed_by(a, b), c) == followed_by(a, followed_by(b, c)),
{
    if let Ok(x) = a {
        if let Ok(y) = b {
            if let Ok(z) = c {
                assert((x + y) + z =~= x + (y + z));
            }
        }
    }
}

/// Gathering from `at` is the step for the element at `at`, then gathering
/// from the next position; with `done` in front, either the failure of that
/// step or the rest with the step's items added to `done`.
pub proof fn lemma_gathered_step<T, A>(
    list: Seq<T>,
    each: spec_fn(T) -> Result<Seq<A>, InputError>,
    done: Seq<A>,
    at: int,
)
    requires
        0 <= at < list.len(),
    ensures
        followed_by(just(done), gathered(list, each, at)) == (match each(list[at]) {
            Err(e) => Err(e),
            Ok(more) => followed_by(just(done + more), gathered(list, each, at + 1)),
        }),
{
    lemma_followed_by_associative(just(done), each(list[at]), gathered(list, each, at + 1));
}

/// Gathering yields nothing exactly when every step yields nothing.
pub proof fn lemma_gathered_nothing<T, A>(
    list: Seq<T>,
    each: spec_fn(T) -> Result<Seq<A>, InputError>,
    from: int,
)
    requires
        0 <= from,
    ensures
        gathered(list, each, from) == nothing::<A>() <==> forall|i: int|
            from <= i < list.len() ==> #[trigger] each(list[i]) == nothing::<A>(),
    decreases list.len() - from,
{
    if from < list.len() {
        lemma_gathered_nothing(list, each, from + 1);
        let head = each(list[from]);
        let tail = gathered(list, each, from + 1);
        if let Ok(x) = head {
            if let Ok(y) = tail {
                if x + y =~= Seq::<A>::empty() {
                    assert(x =~= Seq::<A>::empty());
                    assert(y =~= Seq::<A>::empty());
                }
                if x =~= Seq::<A>::empty() && y =~= Seq::<A>::empty() {
                    assert(x + y =~= Seq::<A>::empty());
                }
            }
        }
        if gathered(list, each, from) == nothing::<A>() {
            assert forall|i: int| from <= i < list.len() implies #[trigger] each(list[i])
                == nothing::<A>() by {
                if i > from {
                }
            }
        }
    }
}

/// Whether `holds` is true of every item that `step` yields.
pub open spec fn throughout<A>(
    step: Result<Seq<A>, InputError>,
    holds: spec_fn(A) -> bool,
) -> bool {
    step matches Ok(items) ==> forall|i: int| 0 <= i < items.len() ==> holds(#[trigger] items[i])
}

/// What is true of every item of two steps is true of every item of the one
/// after the other.
pub proof fn lemma_followed_by_throughout<A>(
    first: Result<Seq<A>, InputError>,
    second: Result<Seq<A>, InputError>,
    holds: spec_fn(A) -> bool,
)
    requires
        throughout(first, holds),
        throughout(second, holds),
    ensures
        throughout(followed_by(first, second), holds),
{
}

/// What is true of every item of every step is true of every item gathered.
pub proof fn lemma_gathered_throughout<T, A>(
    list: Seq<T>,
    each: spec_fn(T) -> Result<Seq<A>, InputError>,
    from: int,
    holds: spec_fn(A) -> bool,
)
    requires
        0 <= from,
        forall|i: int| from <= i < list.len() ==> throughout(#[trigger] each(list[i]), holds),
    ensures
        throughout(gathered(list, each, from), holds),
    decreases list.len() - from,
{
    if from < list.len() {
        lemma_gathered_throughout(list, each, from + 1, holds);
        lemma_followed_by_throughout(each(list[from]), gathered(list, each, from + 1), holds);
    }
}

/// What `each` lists for the elements of `list` from position `from` on, one
/// after another.
pub open spec fn listed<T, A>(list: Seq<T>, each: spec_fn(T) -> Seq<A>, from: int) -> Seq<A>
    decreases list.len() - from,
{
    if 0 <= from < list.len() {
        each(list[from]) + listed(list, each, from + 1)
    } else {
        Seq::empty()
    }
}

/// Listing from `at` is what the element at `at` lists, then the listing from
/// the next position.
pub proof fn lemma_listed_step<T, A>(
    list: Seq<T>,
    each: spec_fn(T) -> Seq<A>, done: Seq<A>, at: int,
)
    requires
        0 <= at < list.len(),
    ensures
        done + listed(list, each, at) == (done + each(list[at])) + listed(list, each, at + 1),
{
    assert(done + (each(list[at]) + listed(list, each, at + 1)) =~= (done + each(list[at]))
        + listed(list, each, at + 1));
}

/// Listing from the end on lists nothing.
pub proof fn lemma_listed_end<T, A>(list: Seq<T>, each: spec_fn(T) -> Seq<A>, done: Seq<A>)
    ensures
        done + listed(list, each, list.len() as int) == done,
        listed(list, each, 0) == Seq::<A>::empty() + listed(list, each, 0),
{
    assert(done + Seq::<A>::empty() =~= done);
    assert(Seq::<A>::empty() + listed(list, each, 0) =~= listed(list, each, 0));
}

/// A listing is empty exactly when every element lists nothing.
pub proof fn lemma_listed_nothing<T, A>(list: Seq<T>, each: spec_fn(T) -> Seq<A>, from: int)
    requires
        0 <= from,
    ensures
        listed(list, each, from).len() == 0 <==> forall|i: int|
            from <= i < list.len() ==> (#[trigger] each(list[i])).len() == 0,
    decreases list.len() - from,
{
    if from < list.len() {
        lemma_listed_nothing(list, each, from + 1);
        if listed(list, each, from).len() == 0 {
            assert forall|i: int| from <= i < list.len() implies (#[trigger] each(list[i])).len()
                == 0 by {
                if i > from {
                }
            }
        }
    }
}

/// The texts that a list of strings holds.
pub open spec fn texts_of(list: Seq<String>) -> Seq<Seq<char>> {
    list.map_values(|text: String| text@)
}

/// Whether `outcome` is the outcome `expected`: the same failure, or a list
/// that holds the expected texts.
pub open spec fn reports(outcome: Result<Vec<String>, InputError>, expected: Result<
    Seq<Seq<char>>,
    InputError,
>) -> bool {
    match outcome {
        Ok(list) => expected == just(texts_of(list@)),
        Err(e) => stops(expected, e),
    }
}

/// A list without texts.
pub fn no_texts() -> (out: Vec<String>)
    ensures
        texts_of(out@) == Seq::<Seq<char>>::empty(),
{
    let out: Vec<String> = Vec::new();
    assert(texts_of(out@) =~= Seq::<Seq<char>>::empty());
    out
}

/// Adds `text` to the end of `out`.
pub fn push_text(out: &mut Vec<String>, text: String)
    ensures
        texts_of(final(out)@) == texts_of(old(out)@).push(text@),
        texts_of(final(out)@) == texts_of(old(out)@) + seq![text@],
{
    out.push(text);
    assert(texts_of(out@) =~= texts_of(old(out)@).push(text@));
    assert(texts_of(out@) =~= texts_of(old(out)@) + seq![text@]);
}

/// Moves the texts of `more` to the end of `out`.
pub fn append_texts(out: &mut Vec<String>, more: Vec<String>)
    ensures
        texts_of(final(out)@) == texts_of(old(out)@) + texts_of(more@),
{
    let ghost moved = more@;
    let mut more = more;
    out.append(&mut more);
    assert(texts_of(out@) =~= texts_of(old(out)@) + texts_of(moved));
}

/// The list of the text that `finding` holds, if it holds one.
pub open spec fn text_or_none(finding: Option<Seq<char>>) -> Seq<Seq<char>> {
    match finding {
        Some(text) => seq![text],
        None => Seq::empty(),
    }
}

/// The text of a string that may be absent.
pub open spec fn text_of(finding: Option<String>) -> Option<Seq<char>> {
    match finding {
        Some(text) => Some(text@),
        None => None,
    }
}

/// Adds the text that `finding` holds, if it holds one, to the end of `out`.
pub fn push_finding(out: &mut Vec<String>, finding: Option<String>)
    ensures
        texts_of(final(out)@) == texts_of(old(out)@) + text_or_none(text_of(finding)),
{
    match finding {
        Some(text) => push_text(out, text),
        None => {
            assert(texts_of(out@) + Seq::<Seq<char>>::empty() =~= texts_of(out@));
        },
    }
}

} // verus!
