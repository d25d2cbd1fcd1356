//! Errors of the loop engine.
use vstd::prelude::*;

verus! {

/// Why the engine could not go on.
#[derive(Debug)]
pub enum LoopError {
    /// A configuration that cannot be parsed, with the parser's reason.
    InvalidConfig(String),
    /// Something that does not exist.
    NotFound(String),
    /// The database failed, with its reason.
    Database(String),
}

/// What a `LoopError` says.
pub enum LoopErrorView {
    InvalidConfig(Seq<char>),
    NotFound(Seq<char>),
    Database(Seq<char>),
}

impl View for LoopError {
    type V = LoopErrorView;

    open spec fn view(&self) -> LoopErrorView {
        match self {
            LoopError::InvalidConfig(s) => LoopErrorView::InvalidConfig(s@),
            LoopError::NotFound(s) => LoopErrorView::NotFound(s@),
            LoopError::Database(s) => LoopErrorView::Database(s@),
        }
    }
}

} // verus!
