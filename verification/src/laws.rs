//! Laws of merging, of the stored text and of the filter, proved of the
//! model.
//!
//! Each law is stated over the functions that the contracts of the
//! executable code use, so it holds of what that code returns.

use vstd::prelude::*;
use crate::model::{Id, append_new, kept, known, merge, unique, lemma_append_new_contains,
    lemma_append_new_no_duplicates, lemma_append_new_prefix, lemma_append_new_present, lemma_append_new_push,
    lemma_filter_all, lemma_filter_contains, lemma_filter_no_duplicates, lemma_filter_none,
    lemma_unique_of_no_duplicates};
use crate::filter::{ChecklistFilterConditionPB, passes};
use crate::select_option::{SelectOptionView, distinct_ids, ids_of, lemma_selected_ids, option_ids,
    selected_options};
use crate::storage::{SELECTION_IDS_SEPARATOR, decode, encode, join, non_empty, split, storable, lemma_split_join,
    lemma_split_len, lemma_split_pieces};

verus! {

/// A changeset that deletes nothing leaves what was appended as it is.
proof fn lemma_nothing_deleted(ids: Seq<Id>)
    ensures
        ids.filter(kept(Seq::empty())) == ids,
{
    lemma_filter_all(ids, kept(Seq::empty()));
}

/// A merge never yields an id twice, given a prior selection that holds
/// none twice.
pub proof fn merge_yields_no_repetition(prior: Option<Seq<Id>>, insert: Seq<Id>, delete: Seq<Id>, valid: Set<Id>)
    requires
        prior matches Some(ids) ==> ids.no_duplicates(),
    ensures
        merge(prior, insert, delete, valid).no_duplicates(),
{
    let accepted = insert.filter(known(valid));
    match prior {
        None => {
            lemma_append_new_no_duplicates(Seq::empty(), accepted);
        },
        Some(ids) => {
            lemma_append_new_no_duplicates(ids, accepted);
            lemma_filter_no_duplicates(append_new(ids, accepted), kept(delete));
        },
    }
}

/// Inserting twice is inserting once: a changeset that only inserts,
/// applied again to its own result, changes nothing. This holds with and
/// without a prior selection, and whether or not the ids are valid.
pub proof fn insert_is_idempotent(prior: Option<Seq<Id>>, insert: Seq<Id>, valid: Set<Id>)
    ensures
        merge(Some(merge(prior, insert, Seq::empty(), valid)), insert, Seq::empty(), valid) == merge(
            prior,
            insert,
            Seq::empty(),
            valid,
        ),
{
    let accepted = insert.filter(known(valid));
    let base = match prior {
        None => Seq::empty(),
        Some(ids) => ids,
    };
    let once = append_new(base, accepted);
    lemma_nothing_deleted(once);
    assert(merge(prior, insert, Seq::empty(), valid) == once);
    assert forall|i: int| 0 <= i < accepted.len() implies once.contains(#[trigger] accepted[i]) by {
        assert(accepted.contains(accepted[i]));
        lemma_append_new_contains(base, accepted, accepted[i]);
    }
    lemma_append_new_present(once, accepted);
}

/// Deleting twice is deleting once: a changeset that only deletes, applied
/// again to its own result, changes nothing.
pub proof fn delete_is_idempotent(prior: Seq<Id>, delete: Seq<Id>, valid: Set<Id>)
    ensures
        merge(Some(merge(Some(prior), Seq::empty(), delete, valid)), Seq::empty(), delete, valid) == merge(
            Some(prior),
            Seq::empty(),
            delete,
            valid,
        ),
{
    lemma_filter_none(Seq::<Id>::empty(), known(valid));
    let once = prior.filter(kept(delete));
    assert(merge(Some(prior), Seq::empty(), delete, valid) == once);
    assert forall|i: int| 0 <= i < once.len() implies kept(delete)(#[trigger] once[i]) by {
        assert(once.contains(once[i]));
        lemma_filter_contains(prior, kept(delete), once[i]);
    }
    lemma_filter_all(once, kept(delete));
}

/// Deletes come last: an id that a changeset deletes is not in the result
/// of merging it into a prior selection, whether the id was there before,
/// is inserted by the same changeset, or both.
pub proof fn deleted_id_is_absent(prior: Seq<Id>, insert: Seq<Id>, delete: Seq<Id>, valid: Set<Id>, id: Id)
    requires
        delete.contains(id),
    ensures
        !merge(Some(prior), insert, delete, valid).contains(id),
{
    lemma_filter_contains(append_new(prior, insert.filter(known(valid))), kept(delete), id);
}

/// Ids that the registry does not hold are ignored: a changeset that
/// inserts only such ids does what it would do without them, and without a
/// prior selection it yields the empty selection.
pub proof fn unknown_ids_are_ignored(prior: Option<Seq<Id>>, insert: Seq<Id>, delete: Seq<Id>, valid: Set<Id>)
    requires
        forall|i: int| 0 <= i < insert.len() ==> !valid.contains(#[trigger] insert[i]),
    ensures
        merge(prior, insert, delete, valid) == merge(prior, Seq::empty(), delete, valid),
        prior is None ==> merge(prior, insert, delete, valid) == Seq::<Id>::empty(),
{
    lemma_filter_none(insert, known(valid));
    lemma_filter_none(Seq::<Id>::empty(), known(valid));
}

/// Only ids of the registry are ever added: what a merge yields was in the
/// prior selection or is a valid id of the insert list.
pub proof fn merged_id_has_an_origin(
    prior: Option<Seq<Id>>,
    insert: Seq<Id>,
    delete: Seq<Id>,
    valid: Set<Id>,
    id: Id,
)
    requires
        merge(prior, insert, delete, valid).contains(id),
    ensures
        (prior matches Some(ids) && ids.contains(id)) || (insert.contains(id) && valid.contains(id)),
{
    let accepted = insert.filter(known(valid));
    lemma_filter_contains(insert, known(valid), id);
    match prior {
        None => {
            lemma_append_new_contains(Seq::empty(), accepted, id);
        },
        Some(ids) => {
            lemma_filter_contains(append_new(ids, accepted), kept(delete), id);
            lemma_append_new_contains(ids, accepted, id);
        },
    }
}

/// Inserting never reorders: the prior selection stays in front, in its
/// own order, of the result of a changeset that only inserts.
pub proof fn insert_keeps_prior_order(prior: Seq<Id>, insert: Seq<Id>, valid: Set<Id>)
    ensures
        prior.is_prefix_of(merge(Some(prior), insert, Seq::empty(), valid)),
{
    let accepted = insert.filter(known(valid));
    lemma_append_new_prefix(prior, accepted);
    lemma_nothing_deleted(append_new(prior, accepted));
}

/// Inserting an id that is ticked already does not move it: the selection
/// stays as it was.
pub proof fn present_id_stays_in_place(prior: Seq<Id>, id: Id, valid: Set<Id>)
    requires
        prior.contains(id),
    ensures
        merge(Some(prior), seq![id], Seq::empty(), valid) == prior,
{
    let accepted = seq![id].filter(known(valid));
    assert forall|i: int| 0 <= i < accepted.len() implies prior.contains(#[trigger] accepted[i]) by {
        assert(accepted.contains(accepted[i]));
        lemma_filter_contains(seq![id], known(valid), accepted[i]);
    }
    lemma_append_new_present(prior, accepted);
    lemma_nothing_deleted(prior);
}

/// A valid id that is not ticked yet goes to the end.
pub proof fn new_id_goes_last(prior: Seq<Id>, id: Id, valid: Set<Id>)
    requires
        valid.contains(id),
        !prior.contains(id),
    ensures
        merge(Some(prior), seq![id], Seq::empty(), valid) == prior.push(id),
{
    lemma_filter_all(seq![id], known(valid));
    assert(seq![id] =~= Seq::<Id>::empty().push(id));
    lemma_append_new_push(prior, Seq::empty(), id);
    lemma_nothing_deleted(prior.push(id));
}

/// Two different valid ids inserted into nothing come out in the order in
/// which they went in: whether one changeset inserts both or each has its
/// own, and whether the cell had no selection or an empty one.
pub proof fn inserts_come_out_in_order(first: Id, second: Id, valid: Set<Id>)
    requires
        valid.contains(first),
        valid.contains(second),
        first != second,
    ensures
        merge(None, seq![first, second], Seq::empty(), valid) == seq![first, second],
        merge(Some(merge(None, seq![first], Seq::empty(), valid)), seq![second], Seq::empty(), valid) == seq![
            first,
            second,
        ],
        merge(Some(Seq::empty()), seq![first, second], Seq::empty(), valid) == seq![first, second],
        merge(
            Some(merge(Some(Seq::empty()), seq![first], Seq::empty(), valid)),
            seq![second],
            Seq::empty(),
            valid,
        ) == seq![first, second],
{
    let nothing = Seq::<Id>::empty();
    let both = seq![first, second];
    assert(nothing.push(first) =~= seq![first]);
    assert(seq![first].push(second) =~= both);
    // One changeset for both ids.
    lemma_filter_all(both, known(valid));
    lemma_append_new_push(nothing, nothing, first);
    lemma_append_new_push(nothing, seq![first], second);
    assert(unique(both) == both);
    lemma_nothing_deleted(both);
    // One changeset for each id.
    lemma_filter_all(seq![first], known(valid));
    new_id_goes_last(nothing, first, valid);
    new_id_goes_last(seq![first], second, valid);
}

/// Splitting loses nothing: the pieces of a text, joined again, are the
/// text. With `lemma_split_pieces` this says that `split` cuts at every
/// separator and nowhere else.
pub proof fn split_loses_nothing(text: Seq<char>)
    ensures
        join(split(text)) == text,
    decreases text.len(),
{
    if text.len() > 0 {
        let front = text.drop_last();
        let before = split(front);
        split_loses_nothing(front);
        lemma_split_len(front);
        assert(text =~= front.push(text.last()));
        if text.last() == SELECTION_IDS_SEPARATOR {
            let pieces = before.push(Seq::empty());
            assert(pieces.drop_last() =~= before);
            assert(join(pieces) =~= join(before).push(SELECTION_IDS_SEPARATOR));
        } else {
            let grown = before.last().push(text.last());
            let pieces = before.drop_last().push(grown);
            assert(pieces.drop_last() =~= before.drop_last());
            assert(join(pieces) =~= join(before).push(text.last()));
        }
    }
}

/// A text without any id in it reads as the empty selection: the empty
/// text, and any text made of separators alone.
pub proof fn separators_alone_decode_to_nothing(text: Seq<char>)
    requires
        forall|i: int| 0 <= i < text.len() ==> text[i] == SELECTION_IDS_SEPARATOR,
    ensures
        decode(text) == Seq::<Id>::empty(),
{
    lemma_only_separators(text);
    lemma_filter_none(split(text), non_empty());
}

/// A text made of separators alone splits into empty pieces.
proof fn lemma_only_separators(text: Seq<char>)
    requires
        forall|i: int| 0 <= i < text.len() ==> text[i] == SELECTION_IDS_SEPARATOR,
    ensures
        forall|k: int| 0 <= k < split(text).len() ==> (#[trigger] split(text)[k]).len() == 0,
    decreases text.len(),
{
    if text.len() > 0 {
        let before = split(text.drop_last());
        lemma_only_separators(text.drop_last());
        assert(split(text) == before.push(Seq::empty()));
        assert forall|k: int| 0 <= k < split(text).len() implies (#[trigger] split(text)[k]).len() == 0 by {
            if k < before.len() {
                assert(before[k].len() == 0);
            }
        }
    }
}

/// Whatever text a cell holds, what is read from it is a selection that
/// can be stored: no id twice, none empty, none with the separator in it.
pub proof fn decode_yields_storable(text: Seq<char>)
    ensures
        storable(decode(text)),
{
    let pieces = split(text);
    let tokens = pieces.filter(non_empty());
    let ids = decode(text);
    lemma_split_pieces(text);
    lemma_append_new_no_duplicates(Seq::empty(), tokens);
    assert forall|i: int| 0 <= i < ids.len() implies (#[trigger] ids[i]).len() > 0 && !ids[i].contains(
        SELECTION_IDS_SEPARATOR,
    ) by {
        assert(ids.contains(ids[i]));
        lemma_append_new_contains(Seq::empty(), tokens, ids[i]);
        lemma_filter_contains(pieces, non_empty(), ids[i]);
        let k: int = choose|k: int| 0 <= k < pieces.len() && pieces[k] == ids[i];
        assert(!pieces[k].contains(SELECTION_IDS_SEPARATOR));
    }
}

/// Reading what was written gives the selection back, for every selection
/// that can be stored: no id twice, none empty, none with the separator
/// in it.
pub proof fn decode_inverts_encode(ids: Seq<Id>)
    requires
        storable(ids),
    ensures
        decode(encode(ids)) == ids,
{
    if ids.len() == 0 {
        let nothing = Seq::<char>::empty();
        assert(split(encode(ids)) =~= seq![nothing]);
        lemma_filter_none(seq![nothing], non_empty());
    } else {
        lemma_split_join(ids);
        lemma_filter_all(ids, non_empty());
        lemma_unique_of_no_duplicates(ids);
    }
}

/// Writing what was read and reading it again changes nothing, whatever
/// the text was.
pub proof fn decode_is_stable(text: Seq<char>)
    ensures
        decode(encode(decode(text))) == decode(text),
{
    decode_yields_storable(text);
    decode_inverts_encode(decode(text));
}

/// A cell is empty to the filter exactly if none of its ids is an id of
/// the registry: ids that the registry has lost do not count.
pub proof fn empty_means_no_valid_tick(options: Seq<SelectOptionView>, selection: Seq<Id>)
    ensures
        passes(options, selection, ChecklistFilterConditionPB::IsEmpty) <==> forall|i: int|
            0 <= i < selection.len() ==> !option_ids(options).contains(#[trigger] selection[i]),
        passes(options, selection, ChecklistFilterConditionPB::IsNotEmpty) <==> !passes(
            options,
            selection,
            ChecklistFilterConditionPB::IsEmpty,
        ),
{
    let valid = known(option_ids(options));
    let ticked = selection.filter(valid);
    lemma_selected_ids(options, selection);
    if ticked.len() == 0 {
        assert forall|i: int| 0 <= i < selection.len() implies !option_ids(options).contains(
            #[trigger] selection[i],
        ) by {
            assert(selection.contains(selection[i]));
            lemma_filter_contains(selection, valid, selection[i]);
            if option_ids(options).contains(selection[i]) {
                assert(ticked.contains(selection[i]));
                let k: int = choose|k: int| 0 <= k < ticked.len() && ticked[k] == selection[i];
                assert(false);
            }
        }
    } else {
        assert(ticked.contains(ticked[0]));
        lemma_filter_contains(selection, valid, ticked[0]);
        let i: int = choose|i: int| 0 <= i < selection.len() && selection[i] == ticked[0];
        assert(option_ids(options).contains(selection[i]));
    }
}

/// In a registry whose ids differ from one another, a cell never has more
/// ticked options than the registry has options, and it is complete
/// exactly if the registry is not empty and every one of its options is
/// ticked.
pub proof fn complete_means_all_ticked(options: Seq<SelectOptionView>, selection: Seq<Id>)
    requires
        distinct_ids(options),
        selection.no_duplicates(),
    ensures
        selected_options(options, selection).len() <= options.len(),
        passes(options, selection, ChecklistFilterConditionPB::IsComplete) <==> options.len() > 0 && forall|i: int|
            0 <= i < options.len() ==> selection.contains(#[trigger] options[i].id),
{
    let valid = known(option_ids(options));
    let ticked = selection.filter(valid);
    let all = ids_of(options);
    lemma_selected_ids(options, selection);
    lemma_filter_no_duplicates(selection, valid);
    assert(all.no_duplicates());
    ticked.unique_seq_to_set();
    all.unique_seq_to_set();
    vstd::seq_lib::seq_to_set_is_finite(ticked);
    vstd::seq_lib::seq_to_set_is_finite(all);
    assert forall|id: Id| ticked.to_set().contains(id) implies all.to_set().contains(id) by {
        assert(ticked.contains(id));
        lemma_filter_contains(selection, valid, id);
        let k: int = choose|k: int| 0 <= k < options.len() && #[trigger] options[k].id == id;
        assert(all[k] == id);
    }
    vstd::set_lib::lemma_len_subset(ticked.to_set(), all.to_set());
    if ticked.len() == all.len() {
        vstd::set_lib::lemma_subset_equality(ticked.to_set(), all.to_set());
        assert forall|i: int| 0 <= i < options.len() implies selection.contains(#[trigger] options[i].id) by {
            assert(all[i] == options[i].id);
            assert(all.to_set().contains(options[i].id));
            assert(ticked.contains(options[i].id));
            lemma_filter_contains(selection, valid, options[i].id);
        }
    }
    if forall|i: int| 0 <= i < options.len() ==> selection.contains(#[trigger] options[i].id) {
        assert forall|id: Id| all.to_set().contains(id) implies ticked.to_set().contains(id) by {
            assert(all.contains(id));
            let k: int = choose|k: int| 0 <= k < all.len() && all[k] == id;
            assert(selection.contains(options[k].id));
            lemma_filter_contains(selection, valid, id);
        }
        vstd::set_lib::lemma_len_subset(all.to_set(), ticked.to_set());
    }
}

} // verus!
