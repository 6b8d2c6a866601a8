//! A debugging aid.

use vstd::prelude::*;
use std::fmt::Debug;

verus! {

/// `format!` with `{:#?}`: the pretty debug form of a value. What that text holds is decided by
/// the value's implementation of `Debug`, so the contract claims nothing of it.
#[verifier::external_body]
fn pretty_debug<T: Debug>(value: &T) -> String {
    format!("{:#?}", value)
}

/// The pretty debug form of a value, to put into a diagnostic while tracking down a problem.
pub fn _p(s: impl Debug) -> String {
    pretty_debug(&s)
}

} // verus!
