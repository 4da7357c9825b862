//! Parse failures.

use crate::tag::TagType;
use crate::tag_id::TagId;
use vstd::prelude::*;

verus! {

/// Why a parse failed.
///
/// `Syntax` covers lexical and structural faults at a position of the
/// input; `UnknownTag` an identifier found neither in the alias table nor
/// among the canonical tag names; `TypeMismatch` a tag whose parsed shape
/// disagrees with the schema; and `UndefinedTag` an identifier that the
/// schema has no entry for — a configuration defect rather than bad
/// input.
#[derive(Clone, Copy, Debug, PartialEq, Eq, Structural)]
pub enum ParseError {
    Syntax { pos: usize },
    UnknownTag { pos: usize },
    TypeMismatch { id: TagId, expected: TagType, found: TagType },
    UndefinedTag { id: TagId },
}

} // verus!
