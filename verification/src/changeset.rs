//! An edit to a cell, and how it is merged into the stored selection.

use vstd::prelude::*;
use crate::laws::merge_yields_no_repetition;
use crate::model::{Id, append_new, kept, known, merge, lemma_append_new_push, lemma_filter_none};
use crate::select_option::{SelectOptionPB, has_option, option_ids};
use crate::selection::{SelectOptionIds, contains_id, push_new};

verus! {

/// The edit that a caller asks for: ids to tick and ids to untick.
#[derive(Debug)]
pub struct SelectOptionCellChangeset {
    pub insert_option_ids: Vec<String>,
    pub delete_option_ids: Vec<String>,
}

/// Those of the ids that the registry holds, in their order.
pub fn retain_known(ids: &Vec<String>, options: &Vec<SelectOptionPB>) -> (r: Vec<String>)
    ensures
        r.deep_view() == ids.deep_view().filter(known(option_ids(options.deep_view()))),
{
    let ghost wanted = known(option_ids(options.deep_view()));
    let mut out: Vec<String> = Vec::new();
    let mut i: usize = 0;
    proof {
        lemma_filter_none(Seq::<Id>::empty(), wanted);
    }
    while i < ids.len()
        invariant
            i <= ids.len(),
            wanted == known(option_ids(options.deep_view())),
            out.deep_view() == ids.deep_view().take(i as int).filter(wanted),
        decreases ids.len() - i,
    {
        proof {
            let seen = ids.deep_view().take(i as int);
            assert(ids.deep_view().take(i + 1) =~= seen.push(ids[i as int]@));
            seen.lemma_filter_push(ids[i as int]@, wanted);
        }
        if has_option(options, &ids[i]) {
            out.push(ids[i].clone());
        }
        i += 1;
    }
    assert(ids.deep_view().take(i as int) =~= ids.deep_view());
    out
}

/// Those of the ids that do not occur in `deleted`, in their order.
pub fn remove_deleted(ids: &Vec<String>, deleted: &Vec<String>) -> (r: Vec<String>)
    ensures
        r.deep_view() == ids.deep_view().filter(kept(deleted.deep_view())),
{
    let ghost wanted = kept(deleted.deep_view());
    let mut out: Vec<String> = Vec::new();
    let mut i: usize = 0;
    proof {
        lemma_filter_none(Seq::<Id>::empty(), wanted);
    }
    while i < ids.len()
        invariant
            i <= ids.len(),
            wanted == kept(deleted.deep_view()),
            out.deep_view() == ids.deep_view().take(i as int).filter(wanted),
        decreases ids.len() - i,
    {
        proof {
            let seen = ids.deep_view().take(i as int);
            assert(ids.deep_view().take(i + 1) =~= seen.push(ids[i as int]@));
            seen.lemma_filter_push(ids[i as int]@, wanted);
        }
        if !contains_id(deleted, &ids[i]) {
            out.push(ids[i].clone());
        }
        i += 1;
    }
    assert(ids.deep_view().take(i as int) =~= ids.deep_view());
    out
}

/// Appends to `ids` each of `extra` that it does not hold yet.
pub fn extend_new(ids: &mut Vec<String>, extra: &Vec<String>)
    ensures
        final(ids).deep_view() == append_new(old(ids).deep_view(), extra.deep_view()),
{
    let mut i: usize = 0;
    while i < extra.len()
        invariant
            i <= extra.len(),
            ids.deep_view() == append_new(old(ids).deep_view(), extra.deep_view().take(i as int)),
        decreases extra.len() - i,
    {
        proof {
            let seen = extra.deep_view().take(i as int);
            assert(extra.deep_view().take(i + 1) =~= seen.push(extra[i as int]@));
            lemma_append_new_push(old(ids).deep_view(), seen, extra[i as int]@);
        }
        push_new(ids, extra[i].clone());
        i += 1;
    }
    assert(extra.deep_view().take(i as int) =~= extra.deep_view());
}

/// Merges an edit into the selection that a cell held before.
///
/// Ids to insert that the registry does not hold are dropped. Without a
/// prior selection the rest, each once, is the result. With one, the ids it
/// lacks are appended to it and then every id to delete is removed.
pub fn merge_changeset(
    prior: Option<SelectOptionIds>,
    changeset: &SelectOptionCellChangeset,
    options: &Vec<SelectOptionPB>,
) -> (r: SelectOptionIds)
    ensures
        r@ == merge(
            prior.deep_view(),
            changeset.insert_option_ids.deep_view(),
            changeset.delete_option_ids.deep_view(),
            option_ids(options.deep_view()),
        ),
        r@.no_duplicates(),
{
    proof {
        if let Some(selection) = &prior {
            use_type_invariant(selection);
        }
        merge_yields_no_repetition(
            prior.deep_view(),
            changeset.insert_option_ids.deep_view(),
            changeset.delete_option_ids.deep_view(),
            option_ids(options.deep_view()),
        );
    }
    let accepted = retain_known(&changeset.insert_option_ids, options);
    match prior {
        None => SelectOptionIds::from_ids(accepted),
        Some(selection) => {
            let mut ids = selection.into_inner();
            extend_new(&mut ids, &accepted);
            let ids = remove_deleted(&ids, &changeset.delete_option_ids);
            SelectOptionIds::from_distinct(ids)
        },
    }
}

} // verus!
