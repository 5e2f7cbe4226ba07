use vstd::prelude::*;

verus! {

/// A lexing or parsing failure: a message and the byte offset it points at.
#[derive(Debug, Clone)]
pub struct ParseError {
    pub msg: String,
    pub pos: usize,
}

/// What a failure is, as a mathematical value.
pub type ErrView = (Seq<char>, usize);

impl View for ParseError {
    type V = ErrView;

    open spec fn view(&self) -> ErrView {
        (self.msg@, self.pos)
    }
}

/// Builds the error value for a message and a position.
pub fn fail(msg: &str, pos: usize) -> (e: ParseError)
    ensures
        e@ == (msg@, pos),
{
    ParseError { msg: msg.to_owned(), pos }
}

} // verus!
