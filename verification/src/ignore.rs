//! Whether linting is switched off for a document, or only for the ranges
//! that a list of patterns marks.
use vstd::prelude::*;

verus! {

/// What a document's ignore markers ask for.
#[derive(Debug, Clone)]
pub enum Ignore {
    /// The whole document is left untouched.
    Disabled,
    /// Only the ranges matching these patterns are left untouched.
    Ignore(Vec<String>),
}

} // verus!
