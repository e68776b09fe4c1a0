//! The text that a cell stores for a selection.
//!
//! A selection is stored as its ids, written one after the other with a
//! separator between two neighbours. Reading is forgiving: any text reads as
//! some selection. Empty pieces are dropped, and of a piece that occurs more
//! than once only the first occurrence counts.

use vstd::prelude::*;
use crate::model::{Id, unique, lemma_append_new_push};

verus! {

/// The character that stands between two ids in the stored text.
pub const SELECTION_IDS_SEPARATOR: char = ',';

/// The ids written one after the other, the separator between neighbours.
pub open spec fn join(ids: Seq<Id>) -> Seq<char>
    decreases ids.len(),
{
    if ids.len() == 0 {
        Seq::empty()
    } else if ids.len() == 1 {
        ids[0]
    } else {
        join(ids.drop_last()) + seq![SELECTION_IDS_SEPARATOR] + ids.last()
    }
}

/// The pieces into which the separators cut a text: one piece more than
/// there are separators, each piece free of them, empty pieces included.
pub open spec fn split(text: Seq<char>) -> Seq<Seq<char>>
    decreases text.len(),
{
    if text.len() == 0 {
        seq![Seq::empty()]
    } else {
        let before = split(text.drop_last());
        if text.last() == SELECTION_IDS_SEPARATOR {
            before.push(Seq::empty())
        } else {
            before.drop_last().push(before.last().push(text.last()))
        }
    }
}

/// The predicate "is not the empty text".
pub open spec fn non_empty() -> spec_fn(Seq<char>) -> bool {
    |piece: Seq<char>| piece.len() > 0
}

/// The stored text of a selection.
pub open spec fn encode(ids: Seq<Id>) -> Seq<char> {
    join(ids)
}

/// The ids that a list of pieces stands for: the pieces that are not
/// empty, each where it first occurs.
pub open spec fn tokens(pieces: Seq<Seq<char>>) -> Seq<Id> {
    unique(pieces.filter(non_empty()))
}

/// The selection that a stored text stands for.
pub open spec fn decode(text: Seq<char>) -> Seq<Id> {
    tokens(split(text))
}

/// Whether a selection survives being stored: no id occurs twice, none is
/// empty and none holds the separator.
pub open spec fn storable(ids: Seq<Id>) -> bool {
    &&& ids.no_duplicates()
    &&& forall|i: int| 0 <= i < ids.len() ==> (#[trigger] ids[i]).len() > 0
    &&& forall|i: int| 0 <= i < ids.len() ==> !(#[trigger] ids[i]).contains(SELECTION_IDS_SEPARATOR)
}

/// One more piece: it counts if it is not empty and has not occurred yet.
pub proof fn lemma_tokens_push(pieces: Seq<Seq<char>>, piece: Seq<char>)
    ensures
        tokens(pieces.push(piece)) == if piece.len() > 0 && !tokens(pieces).contains(piece) {
            tokens(pieces).push(piece)
        } else {
            tokens(pieces)
        },
{
    pieces.lemma_filter_push(piece, non_empty());
    lemma_append_new_push(Seq::empty(), pieces.filter(non_empty()), piece);
}

/// A text always splits into at least one piece.
pub proof fn lemma_split_len(text: Seq<char>)
    ensures
        split(text).len() > 0,
    decreases text.len(),
{
    if text.len() > 0 {
        lemma_split_len(text.drop_last());
    }
}

/// No piece of a split holds the separator.
pub proof fn lemma_split_pieces(text: Seq<char>)
    ensures
        forall|i: int| 0 <= i < split(text).len() ==> !(#[trigger] split(text)[i]).contains(SELECTION_IDS_SEPARATOR),
    decreases text.len(),
{
    if text.len() > 0 {
        let before = split(text.drop_last());
        lemma_split_pieces(text.drop_last());
        lemma_split_len(text.drop_last());
        if text.last() != SELECTION_IDS_SEPARATOR {
            let grown = before.last().push(text.last());
            assert forall|k: int| 0 <= k < grown.len() implies grown[k] != SELECTION_IDS_SEPARATOR by {
                if k < before.last().len() {
                    assert(before.last().contains(before.last()[k]));
                }
            }
        }
    }
}

/// One more character: a separator opens a new piece, any other character
/// joins the last piece.
pub proof fn lemma_split_push(text: Seq<char>, c: char)
    ensures
        split(text.push(c)) == if c == SELECTION_IDS_SEPARATOR {
            split(text).push(Seq::empty())
        } else {
            split(text).drop_last().push(split(text).last().push(c))
        },
{
    assert(text.push(c).drop_last() =~= text);
}

/// Text without a separator, written behind a text, joins its last piece.
pub proof fn lemma_split_append(text: Seq<char>, tail: Seq<char>)
    requires
        !tail.contains(SELECTION_IDS_SEPARATOR),
    ensures
        split(text + tail) == split(text).drop_last().push(split(text).last() + tail),
    decreases tail.len(),
{
    lemma_split_len(text);
    if tail.len() == 0 {
        assert(text + tail =~= text);
        assert(split(text).last() + tail =~= split(text).last());
    } else {
        let front = tail.drop_last();
        let c = tail.last();
        assert(tail.contains(c));
        assert forall|k: int| 0 <= k < front.len() implies front[k] != SELECTION_IDS_SEPARATOR by {
            assert(tail.contains(tail[k]));
        }
        lemma_split_append(text, front);
        assert(text + tail =~= (text + front).push(c));
        lemma_split_push(text + front, c);
        assert((split(text).last() + front).push(c) =~= split(text).last() + tail);
    }
}

/// Splitting what `join` wrote gives the ids back, where there is an id at
/// all and none holds the separator.
pub proof fn lemma_split_join(ids: Seq<Id>)
    requires
        ids.len() > 0,
        forall|i: int| 0 <= i < ids.len() ==> !(#[trigger] ids[i]).contains(SELECTION_IDS_SEPARATOR),
    ensures
        split(join(ids)) == ids,
    decreases ids.len(),
{
    let nothing = Seq::<char>::empty();
    if ids.len() == 1 {
        lemma_split_append(nothing, ids[0]);
        assert(nothing + ids[0] =~= ids[0]);
    } else {
        let front = ids.drop_last();
        lemma_split_join(front);
        let head = join(front) + seq![SELECTION_IDS_SEPARATOR];
        assert(head =~= join(front).push(SELECTION_IDS_SEPARATOR));
        lemma_split_push(join(front), SELECTION_IDS_SEPARATOR);
        lemma_split_append(head, ids.last());
        assert(nothing + ids.last() =~= ids.last());
    }
}

} // verus!
