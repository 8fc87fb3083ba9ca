//! Error and diagnostic values produced by parsing and by applied rewrites.
use vstd::prelude::*;

use crate::nodes::Space;

verus! {

/// A byte range in the source text.
#[derive(Clone, Copy, Debug, PartialEq, Eq, Structural)]
pub struct Span {
    pub start: usize,
    pub end: usize,
}

impl Span {
    pub fn new(start: usize, end: usize) -> (r: Span)
        ensures
            r == (Span { start, end }),
    {
        Span { start, end }
    }

    /// An empty range anchored at one position.
    pub fn at(pos: usize) -> (r: Span)
        ensures
            r == (Span { start: pos, end: pos }),
    {
        Span { start: pos, end: pos }
    }
}

/// Parse errors abort a single paragraph; the rewrite variants are the
/// diagnostics that accompany every applied modification.
#[derive(Debug, Clone)]
pub enum ZhlintError {
    /// The token stream ended while a paragraph or quotation group was open.
    UnexpectedEnd,
    /// A closing quotation character appeared with no matching open group.
    UnclosedQuotationMark { value: char, offset: Span },
    /// A single character was rewritten.
    CharError { value: char, modified: char, offset: Span },
    /// A string was rewritten.
    StringError { value: String, modified: String, offset: Span },
    /// A whitespace run was rewritten.
    SpaceError { value: Space, modified: Space, offset: Span },
}

/// The mathematical view of an error: strings and whitespace runs as
/// character sequences.
pub enum ErrorView {
    UnexpectedEnd,
    UnclosedQuotationMark { value: char, offset: Span },
    CharError { value: char, modified: char, offset: Span },
    StringError { value: Seq<char>, modified: Seq<char>, offset: Span },
    SpaceError { value: Seq<char>, modified: Seq<char>, offset: Span },
}

/// The view of one error.
pub open spec fn error_view(e: ZhlintError) -> ErrorView {
    match e {
        ZhlintError::UnexpectedEnd => ErrorView::UnexpectedEnd,
        ZhlintError::UnclosedQuotationMark { value, offset } => {
            ErrorView::UnclosedQuotationMark { value, offset }
        },
        ZhlintError::CharError { value, modified, offset } => {
            ErrorView::CharError { value, modified, offset }
        },
        ZhlintError::StringError { value, modified, offset } => {
            ErrorView::StringError { value: value@, modified: modified@, offset }
        },
        ZhlintError::SpaceError { value, modified, offset } => {
            ErrorView::SpaceError { value: value.chars(), modified: modified.chars(), offset }
        },
    }
}

impl View for ZhlintError {
    type V = ErrorView;

    open spec fn view(&self) -> ErrorView {
        error_view(*self)
    }
}

/// The views of an error list.
pub open spec fn errors_view(s: Seq<ZhlintError>) -> Seq<ErrorView> {
    Seq::new(s.len(), |i: int| s[i]@)
}

} // verus!
