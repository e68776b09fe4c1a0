//! The tag that says which kind of field a column is.

use vstd::prelude::*;

verus! {

/// The kinds of field a table column can have.
#[derive(Clone, Copy, Debug, PartialEq, Eq, Structural)]
pub enum FieldType {
    RichText,
    Number,
    DateTime,
    SingleSelect,
    MultiSelect,
    Checkbox,
    URL,
    Checklist,
}

impl FieldType {
    /// What `is_check_list` computes.
    pub open spec fn spec_is_check_list(&self) -> bool {
        *self == FieldType::Checklist
    }

    /// Whether this is the checklist kind.
    #[verifier::when_used_as_spec(spec_is_check_list)]
    pub fn is_check_list(&self) -> (r: bool)
        ensures
            r == (*self == FieldType::Checklist),
    {
        matches!(self, FieldType::Checklist)
    }
}

} // verus!
