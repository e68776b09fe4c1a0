//! The mathematical model of a selection and of an edit to it.
//!
//! An id is a sequence of characters, a selection a sequence of ids. The
//! functions here say what merging an edit means; the lemmas below them are
//! the facts about these functions that the executable code and the laws
//! rest on.

use vstd::prelude::*;

verus! {

/// The text of an option id.
pub type Id = Seq<char>;

/// `base`, followed by the elements of `extra` that it does not hold yet:
/// each of them once, where it first occurs in `extra`.
pub open spec fn append_new<A>(base: Seq<A>, extra: Seq<A>) -> Seq<A>
    decreases extra.len(),
{
    if extra.len() == 0 {
        base
    } else {
        let before = append_new(base, extra.drop_last());
        if before.contains(extra.last()) {
            before
        } else {
            before.push(extra.last())
        }
    }
}

/// `s` with every element after its first occurrence taken out.
pub open spec fn unique<A>(s: Seq<A>) -> Seq<A> {
    append_new(Seq::empty(), s)
}

/// The predicate "is one of `valid`".
pub open spec fn known(valid: Set<Id>) -> spec_fn(Id) -> bool {
    |id: Id| valid.contains(id)
}

/// The predicate "does not occur in `deleted`".
pub open spec fn kept(deleted: Seq<Id>) -> spec_fn(Id) -> bool {
    |id: Id| !deleted.contains(id)
}

/// The selection that an edit leaves behind.
///
/// Of the ids to insert only those in `valid` count. Without a prior
/// selection the result is that list with repetitions removed. With one,
/// the ids that it lacks are appended to it in the order given, and then
/// every id of `delete` is taken out, whether it was there before or has
/// just been inserted.
pub open spec fn merge(prior: Option<Seq<Id>>, insert: Seq<Id>, delete: Seq<Id>, valid: Set<Id>) -> Seq<Id> {
    let accepted = insert.filter(known(valid));
    match prior {
        None => unique(accepted),
        Some(ids) => append_new(ids, accepted).filter(kept(delete)),
    }
}

/// One step of `append_new`: what a further element of `extra` adds.
pub proof fn lemma_append_new_push<A>(base: Seq<A>, extra: Seq<A>, x: A)
    ensures
        append_new(base, extra.push(x)) == if append_new(base, extra).contains(x) {
            append_new(base, extra)
        } else {
            append_new(base, extra).push(x)
        },
{
    assert(extra.push(x).drop_last() =~= extra);
}

/// `append_new` holds exactly what its two arguments hold.
pub proof fn lemma_append_new_contains<A>(base: Seq<A>, extra: Seq<A>, x: A)
    ensures
        append_new(base, extra).contains(x) <==> base.contains(x) || extra.contains(x),
    decreases extra.len(),
{
    broadcast use vstd::seq_lib::group_seq_properties;

    if extra.len() > 0 {
        let front = extra.drop_last();
        lemma_append_new_contains(base, front, x);
    }
}

/// `append_new` only ever appends: `base` stays in front, untouched.
pub proof fn lemma_append_new_prefix<A>(base: Seq<A>, extra: Seq<A>)
    ensures
        base.is_prefix_of(append_new(base, extra)),
    decreases extra.len(),
{
    if extra.len() > 0 {
        lemma_append_new_prefix(base, extra.drop_last());
    }
}

/// `append_new` adds no repetition to a list that has none.
pub proof fn lemma_append_new_no_duplicates<A>(base: Seq<A>, extra: Seq<A>)
    requires
        base.no_duplicates(),
    ensures
        append_new(base, extra).no_duplicates(),
    decreases extra.len(),
{
    if extra.len() > 0 {
        lemma_append_new_no_duplicates(base, extra.drop_last());
    }
}

/// Appending elements that are all there already changes nothing.
pub proof fn lemma_append_new_present<A>(base: Seq<A>, extra: Seq<A>)
    requires
        forall|i: int| 0 <= i < extra.len() ==> base.contains(#[trigger] extra[i]),
    ensures
        append_new(base, extra) == base,
    decreases extra.len(),
{
    if extra.len() > 0 {
        lemma_append_new_present(base, extra.drop_last());
    }
}

/// A list without repetitions is its own `unique`.
pub proof fn lemma_unique_of_no_duplicates<A>(s: Seq<A>)
    requires
        s.no_duplicates(),
    ensures
        unique(s) == s,
    decreases s.len(),
{
    if s.len() > 0 {
        let front = s.drop_last();
        lemma_unique_of_no_duplicates(front);
    }
}

/// Filtering keeps exactly the elements that satisfy the predicate.
pub proof fn lemma_filter_contains<A>(s: Seq<A>, pred: spec_fn(A) -> bool, x: A)
    ensures
        s.filter(pred).contains(x) <==> s.contains(x) && pred(x),
    decreases s.len(),
{
    broadcast use vstd::seq_lib::group_seq_properties;

    reveal(Seq::filter);
    if s.len() > 0 {
        let front = s.drop_last();
        lemma_filter_contains(front, pred, x);
    }
}

/// Filtering adds no repetition to a list that has none.
pub proof fn lemma_filter_no_duplicates<A>(s: Seq<A>, pred: spec_fn(A) -> bool)
    requires
        s.no_duplicates(),
    ensures
        s.filter(pred).no_duplicates(),
    decreases s.len(),
{
    reveal(Seq::filter);
    if s.len() > 0 {
        let front = s.drop_last();
        lemma_filter_no_duplicates(front, pred);
        lemma_filter_contains(front, pred, s.last());
    }
}

/// Filtering by a predicate that every element satisfies changes nothing.
pub proof fn lemma_filter_all<A>(s: Seq<A>, pred: spec_fn(A) -> bool)
    requires
        forall|i: int| 0 <= i < s.len() ==> pred(#[trigger] s[i]),
    ensures
        s.filter(pred) == s,
    decreases s.len(),
{
    reveal(Seq::filter);
    if s.len() > 0 {
        let front = s.drop_last();
        lemma_filter_all(front, pred);
    }
}

/// Filtering by a predicate that no element satisfies leaves nothing.
pub proof fn lemma_filter_none<A>(s: Seq<A>, pred: spec_fn(A) -> bool)
    requires
        forall|i: int| 0 <= i < s.len() ==> !pred(#[trigger] s[i]),
    ensures
        s.filter(pred) == Seq::<A>::empty(),
    decreases s.len(),
{
    reveal(Seq::filter);
    if s.len() > 0 {
        lemma_filter_none(s.drop_last(), pred);
    }
}

} // verus!
