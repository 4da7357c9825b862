//! The tag validator: checks a parsed tag's shape against the schema.

use crate::error::ParseError;
use crate::tag::Tag;
use crate::tag::TagM;
use crate::tag::TagType;
use crate::tag_defs::TagDefM;
use crate::tag_defs::TagDefinitions;
use crate::tag_defs::spec_defs_get;
use vstd::prelude::*;

verus! {

/// Validates tag occurrences against a schema.
pub struct TagValidator;

/// A parsed shape is accepted when it is positional and the schema
/// expects a positional tag or any shape, or when it is not positional
/// and the schema does not insist on a positional tag.
pub open spec fn spec_tag_accepted(found: TagType, expected: TagType) -> bool {
    if found is Position {
        expected is Position || expected is Any
    } else {
        !(expected is Position)
    }
}

/// The outcome the validator owes for a tag under a schema: success
/// exactly when the schema has an entry whose type accepts the tag's
/// shape; an unlisted identifier is a configuration defect.
pub open spec fn spec_validate(t: TagM, entries: Seq<(crate::tag_id::TagId, TagDefM)>) -> Result<
    (),
    ParseError,
> {
    match spec_defs_get(entries, t.id) {
        Option::None => Result::Err(ParseError::UndefinedTag { id: t.id }),
        Option::Some(def) => if spec_tag_accepted(t.ty, def.ty) {
            Result::Ok(())
        } else {
            Result::Err(ParseError::TypeMismatch { id: t.id, expected: def.ty, found: t.ty })
        },
    }
}

impl TagValidator {
    /// Check one tag against the schema.
    pub fn validate(&self, tag: &Tag, defs: &TagDefinitions) -> (r: Result<(), ParseError>)
        ensures
            r == spec_validate(tag@, defs@.entries),
    {
        match defs.get(tag.id) {
            Option::None => Result::Err(ParseError::UndefinedTag { id: tag.id }),
            Option::Some(def) => {
                let accepted = match tag.ty {
                    TagType::Position => match def.ty {
                        TagType::Position => true,
                        TagType::Any => true,
                        _ => false,
                    },
                    _ => match def.ty {
                        TagType::Position => false,
                        _ => true,
                    },
                };
                if accepted {
                    Result::Ok(())
                } else {
                    Result::Err(
                        ParseError::TypeMismatch { id: tag.id, expected: def.ty, found: tag.ty },
                    )
                }
            },
        }
    }
}

impl Default for TagValidator {
    /// The validator carries no state.
    fn default() -> (r: Self)
        ensures
            r == TagValidator,
    {
        TagValidator
    }
}

} // verus!
