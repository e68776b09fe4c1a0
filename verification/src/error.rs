//! The failure that the table engine's cell functions can report.

use vstd::prelude::*;

verus! {

/// What went wrong, in broad terms.
#[derive(Clone, Copy, Debug, PartialEq, Eq, Structural)]
pub enum ErrorCode {
    Internal,
    InvalidData,
}

/// A failure with its explanation.
///
/// Every kind of field reports through this one type. Nothing a checklist
/// does can fail, so the functions of this crate that return it promise
/// `Ok` on every input.
#[derive(Debug)]
pub struct FlowyError {
    pub code: ErrorCode,
    pub msg: String,
}

/// What a cell function returns: its result, or the failure.
pub type FlowyResult<T> = Result<T, FlowyError>;

} // verus!
