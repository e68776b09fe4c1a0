//! Options, and the registry of options that a field owns.
//!
//! The registry is an ordered list: its order is the order of display. A
//! cell refers to an option by id. An id that the registry does not hold
//! resolves to nothing and is passed over in silence.

use vstd::prelude::*;
use crate::model::{Id, known};

verus! {

/// The colour that an option is shown in.
#[derive(Clone, Copy, Debug, PartialEq, Eq, Structural)]
pub enum SelectOptionColor {
    Purple,
    Pink,
    LightPink,
    Orange,
    Yellow,
    Lime,
    Green,
    Aqua,
    Blue,
}

impl Default for SelectOptionColor {
    fn default() -> (r: Self)
        ensures
            r == SelectOptionColor::Purple,
    {
        SelectOptionColor::Purple
    }
}

/// One entry that can be ticked.
#[derive(Debug)]
pub struct SelectOptionPB {
    pub id: String,
    pub name: String,
    pub color: SelectOptionColor,
}

/// What an option is, as plain values.
pub struct SelectOptionView {
    pub id: Id,
    pub name: Seq<char>,
    pub color: SelectOptionColor,
}

impl View for SelectOptionPB {
    type V = SelectOptionView;

    open spec fn view(&self) -> SelectOptionView {
        SelectOptionView { id: self.id@, name: self.name@, color: self.color }
    }
}

impl DeepView for SelectOptionPB {
    type V = SelectOptionView;

    open spec fn deep_view(&self) -> SelectOptionView {
        self.view()
    }
}

impl Clone for SelectOptionPB {
    fn clone(&self) -> (r: Self)
        ensures
            r@ == self@,
    {
        SelectOptionPB { id: self.id.clone(), name: self.name.clone(), color: self.color }
    }
}

impl SelectOptionPB {
    /// An option with the given id, label and colour.
    pub fn new(id: &str, name: &str, color: SelectOptionColor) -> (r: Self)
        ensures
            r@ == (SelectOptionView { id: id@, name: name@, color }),
    {
        SelectOptionPB { id: id.to_owned(), name: name.to_owned(), color }
    }
}

/// The ids of a list of options, in order.
pub open spec fn ids_of(options: Seq<SelectOptionView>) -> Seq<Id> {
    options.map_values(|o: SelectOptionView| o.id)
}

/// The ids that a registry holds.
pub open spec fn option_ids(options: Seq<SelectOptionView>) -> Set<Id> {
    Set::new(|id: Id| exists|i: int| 0 <= i < options.len() && #[trigger] options[i].id == id)
}

/// Whether no two options of a registry share an id.
pub open spec fn distinct_ids(options: Seq<SelectOptionView>) -> bool {
    forall|i: int, j: int|
        0 <= i < j < options.len() ==> #[trigger] options[i].id != #[trigger] options[j].id
}

/// The first option of the registry with the given id, if there is one.
pub open spec fn find_option(options: Seq<SelectOptionView>, id: Id) -> Option<SelectOptionView>
    decreases options.len(),
{
    if options.len() == 0 {
        None
    } else if options[0].id == id {
        Some(options[0])
    } else {
        find_option(options.skip(1), id)
    }
}

/// The function that resolves an id against a registry.
pub open spec fn resolver(options: Seq<SelectOptionView>) -> spec_fn(Id) -> Option<SelectOptionView> {
    |id: Id| find_option(options, id)
}

/// The options that a list of ids selects: one for each id that the
/// registry holds, in the order of the ids.
pub open spec fn selected_options(options: Seq<SelectOptionView>, ids: Seq<Id>) -> Seq<SelectOptionView> {
    ids.filter_map(resolver(options))
}

/// Which option `find_option` finds: the one at the least position that
/// has the id. It finds none exactly if no option has the id.
pub proof fn lemma_find_option(options: Seq<SelectOptionView>, id: Id)
    ensures
        match find_option(options, id) {
            Some(o) => exists|i: int|
                0 <= i < options.len() && #[trigger] options[i] == o && o.id == id && forall|j: int|
                    0 <= j < i ==> (#[trigger] options[j]).id != id,
            None => forall|i: int| 0 <= i < options.len() ==> (#[trigger] options[i]).id != id,
        },
        find_option(options, id) is Some <==> option_ids(options).contains(id),
    decreases options.len(),
{
    if options.len() > 0 && options[0].id != id {
        let rest = options.skip(1);
        lemma_find_option(rest, id);
        match find_option(rest, id) {
            Some(o) => {
                let k: int = choose|k: int|
                    0 <= k < rest.len() && #[trigger] rest[k] == o && o.id == id && forall|j: int|
                        0 <= j < k ==> (#[trigger] rest[j]).id != id;
                assert(options[k + 1] == o);
                assert forall|j: int| 0 <= j < k + 1 implies (#[trigger] options[j]).id != id by {
                    if j > 0 {
                        assert(rest[j - 1].id != id);
                    }
                }
            },
            None => {
                assert forall|i: int| 0 <= i < options.len() implies (#[trigger] options[i]).id != id by {
                    if i > 0 {
                        assert(rest[i - 1].id != id);
                    }
                }
            },
        }
    }
}

/// What a selection selects are its ids that the registry holds: the same
/// ids, as often, in the same order.
pub proof fn lemma_selected_ids(options: Seq<SelectOptionView>, ids: Seq<Id>)
    ensures
        ids_of(selected_options(options, ids)) == ids.filter(known(option_ids(options))),
        selected_options(options, ids).len() == ids.filter(known(option_ids(options))).len(),
    decreases ids.len(),
{
    reveal(Seq::filter);
    if ids.len() > 0 {
        let front = ids.drop_last();
        lemma_selected_ids(options, front);
        lemma_find_option(options, ids.last());
        if let Some(o) = find_option(options, ids.last()) {
            assert(selected_options(options, ids) =~= selected_options(options, front).push(o));
            assert(ids_of(selected_options(options, ids)) =~= ids_of(selected_options(options, front)).push(o.id));
        }
    }
}

/// Looks an id up in the registry.
pub fn find_option_by_id<'a>(options: &'a Vec<SelectOptionPB>, id: &String) -> (r: Option<&'a SelectOptionPB>)
    ensures
        r.deep_view() == find_option(options.deep_view(), id@),
{
    let mut i: usize = 0;
    assert(options.deep_view().skip(0) =~= options.deep_view());
    while i < options.len()
        invariant
            i <= options.len(),
            find_option(options.deep_view(), id@) == find_option(options.deep_view().skip(i as int), id@),
        decreases options.len() - i,
    {
        proof {
            let rest = options.deep_view().skip(i as int);
            assert(rest[0] == options[i as int]@);
            assert(rest.skip(1) =~= options.deep_view().skip(i + 1));
        }
        if options[i].id == *id {
            return Some(&options[i]);
        }
        i += 1;
    }
    None
}

/// Whether the registry holds an option with the given id.
pub fn has_option(options: &Vec<SelectOptionPB>, id: &String) -> (r: bool)
    ensures
        r == option_ids(options.deep_view()).contains(id@),
{
    proof {
        lemma_find_option(options.deep_view(), id@);
    }
    find_option_by_id(options, id).is_some()
}

} // verus!
