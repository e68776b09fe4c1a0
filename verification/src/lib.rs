//! Checklist cells for a tabular data engine.
//!
//! A checklist field owns an ordered registry of options; a cell of that
//! field stores the ordered, duplicate-free list of the option ids that are
//! ticked. This crate holds the in-memory rules of such a field: merging an
//! edit into the stored selection, the storage text of a selection, the
//! visibility filter and the sort order.
//!
//! Every executable function carries a contract over mathematical models:
//! [`model`] says what a merge is, [`storage`] what the stored text means,
//! [`select_option`] how ids resolve against the registry and [`filter`]
//! when a cell passes. [`laws`] proves what relates them. [`type_option`]
//! binds all of it into the operations of the field type. The one fact
//! taken on trust is in [`trusted`].

pub mod changeset;
pub mod error;
pub mod field_type;
pub mod filter;
pub mod laws;
pub mod model;
pub mod select_option;
pub mod selection;
pub mod storage;
pub mod trusted;
pub mod type_option;
