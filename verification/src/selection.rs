//! The value of a checklist cell: the ids that are ticked.

use vstd::prelude::*;
use vstd::string::StringExecFns;
use crate::error::FlowyResult;
use crate::laws::{decode_inverts_encode, decode_yields_storable};
use crate::model::{Id, unique, lemma_append_new_push, lemma_append_new_no_duplicates, lemma_filter_none};
use crate::storage::{SELECTION_IDS_SEPARATOR, decode, encode, join, non_empty, split, storable, tokens,
    lemma_split_push, lemma_tokens_push};

verus! {

/// Whether a list of ids holds the given id.
pub fn contains_id(ids: &Vec<String>, id: &String) -> (r: bool)
    ensures
        r == ids.deep_view().contains(id@),
{
    let mut i: usize = 0;
    while i < ids.len()
        invariant
            i <= ids.len(),
            forall|k: int| 0 <= k < i ==> ids.deep_view()[k] != id@,
        decreases ids.len() - i,
    {
        if ids[i] == *id {
            assert(ids.deep_view()[i as int] == id@);
            return true;
        }
        i += 1;
    }
    false
}

/// Appends the id to the list unless the list holds it already.
pub fn push_new(ids: &mut Vec<String>, id: String)
    ensures
        final(ids).deep_view() == if old(ids).deep_view().contains(id@) {
            old(ids).deep_view()
        } else {
            old(ids).deep_view().push(id@)
        },
{
    if !contains_id(ids, &id) {
        ids.push(id);
    }
}

/// Appends a piece of stored text to the ids read so far, if it is an id:
/// not empty, and not among them yet.
fn push_piece(ids: &mut Vec<String>, piece: String)
    ensures
        final(ids).deep_view() == if piece@.len() > 0 && !old(ids).deep_view().contains(piece@) {
            old(ids).deep_view().push(piece@)
        } else {
            old(ids).deep_view()
        },
{
    if !piece.as_str().is_empty() {
        push_new(ids, piece);
    }
}

/// The ids that are ticked in one cell, in the order in which they were
/// ticked. No id occurs twice.
#[derive(Debug)]
pub struct SelectOptionIds {
    ids: Vec<String>,
}

impl View for SelectOptionIds {
    type V = Seq<Id>;

    closed spec fn view(&self) -> Seq<Id> {
        self.ids.deep_view()
    }
}

impl DeepView for SelectOptionIds {
    type V = Seq<Id>;

    open spec fn deep_view(&self) -> Seq<Id> {
        self.view()
    }
}

impl Clone for SelectOptionIds {
    fn clone(&self) -> (r: Self)
        ensures
            r@ == self@,
    {
        proof {
            use_type_invariant(self);
        }
        SelectOptionIds { ids: self.ids.clone() }
    }
}

impl SelectOptionIds {
    /// What holds of every selection: no id occurs twice.
    #[verifier::type_invariant]
    pub open spec fn distinct(&self) -> bool {
        self@.no_duplicates()
    }

    /// The selection with nothing ticked.
    pub fn new() -> (r: Self)
        ensures
            r@ == Seq::<Id>::empty(),
    {
        SelectOptionIds { ids: Vec::new() }
    }

    /// The selection of ids that are known to differ from one another.
    pub(crate) fn from_distinct(ids: Vec<String>) -> (r: Self)
        requires
            ids.deep_view().no_duplicates(),
        ensures
            r@ == ids.deep_view(),
    {
        SelectOptionIds { ids }
    }

    /// The selection of the given ids, each where it first occurs.
    pub fn from_ids(ids: Vec<String>) -> (r: Self)
        ensures
            r@ == unique(ids.deep_view()),
            r@.no_duplicates(),
    {
        let mut out: Vec<String> = Vec::new();
        let mut i: usize = 0;
        while i < ids.len()
            invariant
                i <= ids.len(),
                out.deep_view() == unique(ids.deep_view().take(i as int)),
            decreases ids.len() - i,
        {
            proof {
                let seen = ids.deep_view().take(i as int);
                assert(ids.deep_view().take(i + 1) =~= seen.push(ids[i as int]@));
                lemma_append_new_push(Seq::empty(), seen, ids[i as int]@);
            }
            push_new(&mut out, ids[i].clone());
            i += 1;
        }
        proof {
            assert(ids.deep_view().take(i as int) =~= ids.deep_view());
            lemma_append_new_no_duplicates(Seq::empty(), ids.deep_view());
        }
        SelectOptionIds { ids: out }
    }

    /// Reads a selection from the text that a cell stores. Every text
    /// reads as some selection: there is no malformed input.
    pub fn parse(text: &str) -> (r: Self)
        ensures
            r@ == decode(text@),
            storable(r@),
    {
        broadcast use vstd::string::group_string_axioms;

        let mut out: Vec<String> = Vec::new();
        let mut piece = String::new();
        let ghost mut done: Seq<Seq<char>> = Seq::empty();
        proof {
            lemma_filter_none(done, non_empty());
        }
        for c in it: text.chars()
            invariant
                it.seq() == text@,
                split(text@.take(it.index())) == done.push(piece@),
                out.deep_view() == tokens(done),
        {
            proof {
                assert(text@.take(it.index() + 1) =~= text@.take(it.index()).push(c));
                lemma_split_push(text@.take(it.index()), c);
            }
            if c == SELECTION_IDS_SEPARATOR {
                proof {
                    lemma_tokens_push(done, piece@);
                    done = done.push(piece@);
                }
                push_piece(&mut out, piece);
                piece = String::new();
            } else {
                piece.push(c);
            }
        }
        proof {
            assert(text@.take(text@.len() as int) =~= text@);
            lemma_tokens_push(done, piece@);
            decode_yields_storable(text@);
        }
        push_piece(&mut out, piece);
        SelectOptionIds { ids: out }
    }

    /// Reads a selection from the text that a cell stores, in the form that
    /// the table engine asks of every kind of cell. It never fails.
    pub fn from_cell_str(text: &str) -> (r: FlowyResult<Self>)
        ensures
            r matches Ok(ids) && ids@ == decode(text@) && storable(ids@),
    {
        Ok(Self::parse(text))
    }

    /// The text that a cell stores for this selection. Reading it gives
    /// the selection back, unless an id is empty or holds the separator.
    pub fn to_string(&self) -> (r: String)
        ensures
            r@ == encode(self@),
            storable(self@) ==> decode(r@) == self@,
    {
        proof {
            if storable(self@) {
                decode_inverts_encode(self@);
            }
        }
        let mut text = String::new();
        let mut i: usize = 0;
        while i < self.ids.len()
            invariant
                i <= self.ids.len(),
                text@ == join(self@.take(i as int)),
            decreases self.ids.len() - i,
        {
            proof {
                assert(self@.take(i + 1).drop_last() =~= self@.take(i as int));
            }
            if i > 0 {
                text.push(SELECTION_IDS_SEPARATOR);
            }
            text.append(self.ids[i].as_str());
            i += 1;
        }
        assert(self@.take(i as int) =~= self@);
        text
    }

    /// How many ids are ticked.
    pub fn len(&self) -> (r: usize)
        ensures
            r == self@.len(),
    {
        self.ids.len()
    }

    /// Whether nothing is ticked.
    pub fn is_empty(&self) -> (r: bool)
        ensures
            r == (self@.len() == 0),
    {
        self.ids.len() == 0
    }

    /// Whether the given id is ticked.
    pub fn contains(&self, id: &String) -> (r: bool)
        ensures
            r == self@.contains(id@),
    {
        contains_id(&self.ids, id)
    }

    /// The ids, in order.
    pub fn ids(&self) -> (r: &Vec<String>)
        ensures
            r.deep_view() == self@,
            r.deep_view().no_duplicates(),
    {
        proof {
            use_type_invariant(self);
        }
        &self.ids
    }

    /// Gives the ids up, in order.
    pub fn into_inner(self) -> (r: Vec<String>)
        ensures
            r.deep_view() == self@,
            r.deep_view().no_duplicates(),
    {
        proof {
            use_type_invariant(&self);
        }
        self.ids
    }
}

} // verus!
