//! The ways in which a declaration can be refused. Every one of them is final: nothing is
//! rewritten when the transform fails.

use vstd::prelude::*;
use crate::syntax::Text;

verus! {

#[derive(Clone, Copy, Debug, PartialEq, Eq, Structural)]
pub enum BindError {
    /// The declaration is not a `let`, a `const` or a `static`.
    UnsupportedDeclarationShape,
    /// A `let` without a type annotation.
    UnsupportedPatternShape,
    /// A generic argument that is an associated-type constraint or a const expression.
    UnsupportedGenericArgument,
    /// A type of a shape that the walk does not know.
    UnsupportedTypeNodeShape,
    /// A path without a segment.
    MalformedPath,
}

impl BindError {
    /// The text of the message that describes the failure.
    pub open spec fn message_text(self) -> Text {
        match self {
            BindError::UnsupportedDeclarationShape =>
                "only let, static and const statements are supported"@,
            BindError::UnsupportedPatternShape =>
                "a let statement needs a type annotation on its pattern"@,
            BindError::UnsupportedGenericArgument =>
                "constraint and const generic arguments are not supported"@,
            BindError::UnsupportedTypeNodeShape => "this kind of type is not supported"@,
            BindError::MalformedPath => "a path has no segments"@,
        }
    }

    /// A message that names the construct that was refused.
    pub fn message(&self) -> (text: &'static str)
        ensures
            text@ == self.message_text(),
    {
        match self {
            BindError::UnsupportedDeclarationShape =>
                "only let, static and const statements are supported",
            BindError::UnsupportedPatternShape =>
                "a let statement needs a type annotation on its pattern",
            BindError::UnsupportedGenericArgument =>
                "constraint and const generic arguments are not supported",
            BindError::UnsupportedTypeNodeShape => "this kind of type is not supported",
            BindError::MalformedPath => "a path has no segments",
        }
    }
}

} // verus!
