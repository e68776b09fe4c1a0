//! The filter that decides whether a row stays visible.

use vstd::prelude::*;
use crate::model::Id;
use crate::select_option::{SelectOptionPB, SelectOptionView, selected_options};

verus! {

/// What a filter asks of a checklist cell.
#[derive(Clone, Copy, Debug, PartialEq, Eq, Structural)]
pub enum ChecklistFilterConditionPB {
    /// Every option of the field is ticked.
    IsComplete,
    /// Some option of the field is not ticked.
    IsIncomplete,
    /// No option is ticked.
    IsEmpty,
    /// At least one option is ticked.
    IsNotEmpty,
}

/// A filter on a checklist field.
#[derive(Clone, Copy, Debug, PartialEq, Eq, Structural)]
pub struct ChecklistFilterPB {
    pub condition: ChecklistFilterConditionPB,
}

/// The options that are ticked in one cell.
#[derive(Debug)]
pub struct SelectedSelectOptions {
    pub options: Vec<SelectOptionPB>,
}

/// Whether the condition holds of a cell in which `selected` options are
/// ticked, in a field with `all` options. A field without options is
/// neither complete nor incomplete.
pub open spec fn condition_holds(condition: ChecklistFilterConditionPB, all: nat, selected: nat) -> bool {
    match condition {
        ChecklistFilterConditionPB::IsComplete => all > 0 && selected == all,
        ChecklistFilterConditionPB::IsIncomplete => all > 0 && selected != all,
        ChecklistFilterConditionPB::IsEmpty => selected == 0,
        ChecklistFilterConditionPB::IsNotEmpty => selected != 0,
    }
}

/// Whether a cell with the given selection passes the filter. Only the ids
/// that the registry holds count as ticked.
pub open spec fn passes(
    options: Seq<SelectOptionView>,
    selection: Seq<Id>,
    condition: ChecklistFilterConditionPB,
) -> bool {
    condition_holds(condition, options.len(), selected_options(options, selection).len())
}

impl ChecklistFilterPB {
    /// Whether a cell with these ticked options stays visible, in a field
    /// with all these options.
    pub fn is_visible(
        &self,
        all_options: &Vec<SelectOptionPB>,
        selected_options: &SelectedSelectOptions,
    ) -> (r: bool)
        ensures
            r == condition_holds(self.condition, all_options@.len(), selected_options.options@.len()),
    {
        let all = all_options.len();
        let selected = selected_options.options.len();
        match self.condition {
            ChecklistFilterConditionPB::IsComplete => all > 0 && selected == all,
            ChecklistFilterConditionPB::IsIncomplete => all > 0 && selected != all,
            ChecklistFilterConditionPB::IsEmpty => selected == 0,
            ChecklistFilterConditionPB::IsNotEmpty => selected != 0,
        }
    }
}

} // verus!
