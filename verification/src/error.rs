//! The two classes of failure: syntax errors, which are data, and
//! internal-consistency failures, which end the work on one document.

use vstd::prelude::*;

verus! {

/// A recoverable syntax error: a message and the byte offset it refers to.
#[derive(Clone, Debug, PartialEq, Eq)]
pub struct SyntaxError {
    pub message: String,
    pub position: Option<u32>,
}

/// A syntax error as a mathematical value.
pub struct SyntaxErrorView {
    pub message: Seq<char>,
    pub position: Option<u32>,
}

impl View for SyntaxError {
    type V = SyntaxErrorView;

    open spec fn view(&self) -> SyntaxErrorView {
        SyntaxErrorView { message: self.message@, position: self.position }
    }
}

impl SyntaxError {
    pub fn new(message: String, position: Option<u32>) -> (e: SyntaxError)
        ensures
            e.message == message,
            e.position == position,
    {
        SyntaxError { message, position }
    }
}

/// The views of a list of errors, in order.
pub open spec fn error_views(errors: Seq<SyntaxError>) -> Seq<SyntaxErrorView> {
    errors.map_values(|e: SyntaxError| e@)
}

/// A misuse of the splitter's own machinery. None of these is a property of
/// the SQL being split.
#[derive(Clone, Copy, Debug, PartialEq, Eq, Structural)]
pub enum InternalError {
    /// A statement was started while another one was still open.
    StatementAlreadyOpen,
    /// A statement was closed while none was open.
    NoOpenStatement,
    /// A statement was closed before any token of the document had been
    /// consumed.
    EmptyStatement,
    /// The token stream is out of source order or holds an end-of-input token.
    MalformedTokens,
}

} // verus!
