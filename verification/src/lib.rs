//! Rewrites a `let`, `const` or `static` declaration whose type holds opaque `impl Trait`
//! placeholders: each placeholder becomes a freshly named type alias, defined before the
//! declaration, and the declaration refers to the alias.
//!
//! - [`syntax`] holds the type expressions and their views, [`declaration`] the declarations
//!   and the transform itself.
//! - [`rewrite`] says, on views, what the transform computes; [`check`] says which type
//!   expressions it accepts; [`extract`] is the walk that does it.
//! - [`token`] and [`sequential`] supply the fresh names, [`render`] writes the result out as
//!   text.
//! - [`laws`] holds what is proved of the transform for every input.

pub mod check;
pub mod copy;
pub mod declaration;
pub mod diagnostic;
pub mod error;
pub mod extract;
pub mod frame;
pub mod laws;
pub mod render;
pub mod rewrite;
pub mod scan;
pub mod sequential;
pub mod syntax;
pub mod token;

pub use declaration::{bind_it, bind_it_sequential, bind_it_with, Declaration, Fragment};
pub use diagnostic::_p;
pub use error::BindError;
pub use extract::{extract_and_replace_ty, extract_and_replace_ty_with, AliasDefinition};
pub use syntax::{Bound, CapabilityPath, GenericArg, Params, TypeNode};
pub use sequential::SequentialTokens;
pub use token::{TokenSource, UuidTokens};
