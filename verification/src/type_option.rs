//! The checklist field type: the registry of a field together with the
//! operations that the table engine asks of every field type.

use vstd::prelude::*;
use std::cmp::Ordering;
use crate::changeset::{SelectOptionCellChangeset, merge_changeset};
use crate::error::FlowyResult;
use crate::field_type::FieldType;
use crate::filter::{ChecklistFilterPB, SelectedSelectOptions, passes};
use crate::model::{Id, merge};
use crate::select_option::{SelectOptionPB, SelectOptionView, distinct_ids, find_option_by_id, option_ids,
    resolver, selected_options};
use crate::selection::SelectOptionIds;
use crate::storage::{decode, encode, storable};

verus! {

/// The configuration of a checklist field.
#[derive(Debug)]
pub struct ChecklistTypeOptionPB {
    pub options: Vec<SelectOptionPB>,
    pub disable_color: bool,
}

/// What a checklist field's configuration is, as plain values.
pub struct ChecklistTypeOptionView {
    pub options: Seq<SelectOptionView>,
    pub disable_color: bool,
}

impl View for ChecklistTypeOptionPB {
    type V = ChecklistTypeOptionView;

    open spec fn view(&self) -> ChecklistTypeOptionView {
        ChecklistTypeOptionView { options: self.options.deep_view(), disable_color: self.disable_color }
    }
}

/// What a cell shows: all options of the field, and those that are ticked.
#[derive(Debug)]
pub struct SelectOptionCellDataPB {
    pub options: Vec<SelectOptionPB>,
    pub select_options: Vec<SelectOptionPB>,
}

/// The stored text of a cell together with the kind of its field.
#[derive(Debug)]
pub struct TypeCellData {
    pub cell_str: String,
    pub field_type: FieldType,
}

/// The selection that stored cell data stands for, if there is any data.
pub open spec fn prior_selection(data: Option<TypeCellData>) -> Option<Seq<Id>> {
    match data {
        None => None,
        Some(d) => Some(decode(d.cell_str@)),
    }
}

/// A copy of a list of options.
pub fn clone_options(options: &Vec<SelectOptionPB>) -> (r: Vec<SelectOptionPB>)
    ensures
        r.deep_view() == options.deep_view(),
{
    options.clone()
}

/// The options that the ids select, in the order of the ids. An id that
/// the registry does not hold selects nothing.
pub fn make_selected_options(ids: &SelectOptionIds, options: &Vec<SelectOptionPB>) -> (r: Vec<SelectOptionPB>)
    ensures
        r.deep_view() == selected_options(options.deep_view(), ids@),
{
    let list = ids.ids();
    let ghost resolve = resolver(options.deep_view());
    let mut out: Vec<SelectOptionPB> = Vec::new();
    let mut i: usize = 0;
    while i < list.len()
        invariant
            i <= list.len(),
            resolve == resolver(options.deep_view()),
            out.deep_view() == list.deep_view().take(i as int).filter_map(resolve),
        decreases list.len() - i,
    {
        proof {
            list.deep_view().lemma_filter_map_take_succ(resolve, i as int);
        }
        if let Some(option) = find_option_by_id(options, &list[i]) {
            out.push(option.clone());
        }
        i += 1;
    }
    assert(list.deep_view().take(i as int) =~= list.deep_view());
    out
}

impl Default for ChecklistTypeOptionPB {
    fn default() -> (r: Self)
        ensures
            r@ == (ChecklistTypeOptionView { options: Seq::empty(), disable_color: false }),
    {
        let options: Vec<SelectOptionPB> = Vec::new();
        assert(options.deep_view() =~= Seq::<SelectOptionView>::empty());
        ChecklistTypeOptionPB { options, disable_color: false }
    }
}

impl Clone for ChecklistTypeOptionPB {
    fn clone(&self) -> (r: Self)
        ensures
            r@ == self@,
    {
        ChecklistTypeOptionPB { options: clone_options(&self.options), disable_color: self.disable_color }
    }
}

impl ChecklistTypeOptionPB {
    /// A checklist has no limit on how many options can be ticked.
    pub fn number_of_max_options(&self) -> (r: Option<usize>)
        ensures
            r is None,
    {
        None
    }

    /// The registry of the field.
    pub fn options(&self) -> (r: &Vec<SelectOptionPB>)
        ensures
            *r == self.options,
    {
        &self.options
    }

    /// The registry of the field, to be changed in place.
    pub fn mut_options(&mut self) -> (r: &mut Vec<SelectOptionPB>)
        ensures
            *r == old(self).options,
            final(self).options == *final(r),
            final(self).disable_color == old(self).disable_color,
    {
        &mut self.options
    }

    /// What a cell with the given selection shows: the whole registry, and
    /// the ticked options in the order in which they were ticked.
    pub fn get_selected_options(&self, ids: SelectOptionIds) -> (r: SelectOptionCellDataPB)
        ensures
            r.options.deep_view() == self@.options,
            r.select_options.deep_view() == selected_options(self@.options, ids@),
    {
        let select_options = make_selected_options(&ids, &self.options);
        SelectOptionCellDataPB { options: clone_options(&self.options), select_options }
    }

    /// The display form of a cell's selection.
    pub fn convert_to_protobuf(&self, cell_data: SelectOptionIds) -> (r: SelectOptionCellDataPB)
        ensures
            r.options.deep_view() == self@.options,
            r.select_options.deep_view() == selected_options(self@.options, cell_data@),
    {
        self.get_selected_options(cell_data)
    }

    /// Reads a cell's stored text. It never fails.
    pub fn decode_type_option_cell_str(&self, cell_str: String) -> (r: FlowyResult<SelectOptionIds>)
        ensures
            r matches Ok(ids) && ids@ == decode(cell_str@) && storable(ids@),
    {
        SelectOptionIds::from_cell_str(cell_str.as_str())
    }

    /// Applies an edit to a cell: reads the stored text, if there is any,
    /// merges the edit into it, and returns the new text with the new
    /// selection. It never fails.
    pub fn apply_changeset(
        &self,
        changeset: SelectOptionCellChangeset,
        type_cell_data: Option<TypeCellData>,
    ) -> (r: FlowyResult<(String, SelectOptionIds)>)
        ensures
            r matches Ok((text, ids)) && ids@ == merge(
                prior_selection(type_cell_data),
                changeset.insert_option_ids.deep_view(),
                changeset.delete_option_ids.deep_view(),
                option_ids(self@.options),
            ) && ids@.no_duplicates() && text@ == encode(ids@),
    {
        let prior = match type_cell_data {
            None => None,
            Some(data) => Some(SelectOptionIds::parse(data.cell_str.as_str())),
        };
        let ids = merge_changeset(prior, &changeset, &self.options);
        Ok((ids.to_string(), ids))
    }

    /// Whether a row stays visible under the filter. A filter on a
    /// checklist says nothing about a field of another kind: there every
    /// row stays visible.
    pub fn apply_filter(
        &self,
        filter: &ChecklistFilterPB,
        field_type: &FieldType,
        cell_data: &SelectOptionIds,
    ) -> (r: bool)
        ensures
            !field_type.is_check_list() ==> r,
            field_type.is_check_list() ==> r == passes(self@.options, cell_data@, filter.condition),
    {
        if !field_type.is_check_list() {
            return true;
        }
        let selected = SelectedSelectOptions { options: make_selected_options(cell_data, &self.options) };
        filter.is_visible(&self.options, &selected)
    }

    /// The order of two cells: the one with fewer ids comes first. Ids
    /// that the registry no longer holds count too.
    pub fn apply_cmp(&self, cell_data: &SelectOptionIds, other_cell_data: &SelectOptionIds) -> (r: Ordering)
        ensures
            r == if cell_data@.len() < other_cell_data@.len() {
                Ordering::Less
            } else if cell_data@.len() == other_cell_data@.len() {
                Ordering::Equal
            } else {
                Ordering::Greater
            },
    {
        let left = cell_data.len();
        let right = other_cell_data.len();
        if left < right {
            Ordering::Less
        } else if left == right {
            Ordering::Equal
        } else {
            Ordering::Greater
        }
    }
}

/// Builds the configuration of a checklist field, option by option.
#[derive(Debug)]
pub struct ChecklistTypeOptionBuilder(ChecklistTypeOptionPB);

impl View for ChecklistTypeOptionBuilder {
    type V = ChecklistTypeOptionView;

    closed spec fn view(&self) -> ChecklistTypeOptionView {
        self.0@
    }
}

impl Default for ChecklistTypeOptionBuilder {
    fn default() -> (r: Self)
        ensures
            r@ == (ChecklistTypeOptionView { options: Seq::empty(), disable_color: false }),
    {
        ChecklistTypeOptionBuilder(ChecklistTypeOptionPB::default())
    }
}

impl ChecklistTypeOptionBuilder {
    /// A builder that goes on from the given configuration.
    pub fn from_type_option(type_option: ChecklistTypeOptionPB) -> (r: Self)
        ensures
            r@ == type_option@,
    {
        ChecklistTypeOptionBuilder(type_option)
    }

    /// Appends an option to the registry. The ids of the registry stay
    /// distinct exactly if they were and the new id is new.
    pub fn add_option(self, opt: SelectOptionPB) -> (r: Self)
        ensures
            r@.options == self@.options.push(opt@),
            r@.disable_color == self@.disable_color,
            distinct_ids(r@.options) <==> distinct_ids(self@.options) && !option_ids(self@.options).contains(
                opt@.id,
            ),
    {
        let mut builder = self;
        builder.0.options.push(opt);
        proof {
            let before = self.0.options.deep_view();
            let after = builder.0.options.deep_view();
            assert(after =~= before.push(opt@));
            if distinct_ids(after) {
                assert forall|i: int, j: int| 0 <= i < j < before.len() implies #[trigger] before[i].id
                    != #[trigger] before[j].id by {
                    assert(after[i].id != after[j].id);
                }
                assert forall|i: int| 0 <= i < before.len() implies #[trigger] before[i].id != opt@.id by {
                    assert(after[i].id != after[before.len() as int].id);
                }
            }
        }
        builder
    }

    /// The kind of field that this builds.
    pub fn field_type(&self) -> (r: FieldType)
        ensures
            r == FieldType::Checklist,
    {
        FieldType::Checklist
    }

    /// The configuration built so far.
    pub fn type_option(&self) -> (r: &ChecklistTypeOptionPB)
        ensures
            r@ == self@,
    {
        &self.0
    }
}

} // verus!
