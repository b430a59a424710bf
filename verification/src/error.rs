//! The ways in which building a parser or parsing can fail.

use vstd::prelude::*;

verus! {

/// The mathematical value of a parse error.
pub enum ErrorView {
    SyntaxError { state: usize, symbol: Seq<char>, position: int },
    StackUnderflow,
    InvalidGoto,
    UnexpectedEndOfInput,
    MissingHandler,
    StepLimitExceeded,
}

/// An error of the parser. Each one ends the call that met it.
#[derive(Clone, Debug, PartialEq, Eq)]
pub enum ParseError {
    /// The table has no action for the state on top of the stack and the
    /// symbol of the token at `position`.
    SyntaxError { state: usize, symbol: String, position: usize },
    /// A reduction asked for more frames than the stack holds.
    StackUnderflow,
    /// After a reduction the table gave no shift for the new symbol.
    InvalidGoto,
    /// The tokens ran out before the automaton accepted.
    UnexpectedEndOfInput,
    /// A derivation that the table reduces by has no handler.
    MissingHandler,
    /// The automaton took more steps than the parser allows.
    StepLimitExceeded,
}

impl View for ParseError {
    type V = ErrorView;

    open spec fn view(&self) -> ErrorView {
        match self {
            ParseError::SyntaxError { state, symbol, position } => ErrorView::SyntaxError {
                state: *state,
                symbol: symbol@,
                position: *position as int,
            },
            ParseError::StackUnderflow => ErrorView::StackUnderflow,
            ParseError::InvalidGoto => ErrorView::InvalidGoto,
            ParseError::UnexpectedEndOfInput => ErrorView::UnexpectedEndOfInput,
            ParseError::MissingHandler => ErrorView::MissingHandler,
            ParseError::StepLimitExceeded => ErrorView::StepLimitExceeded,
        }
    }
}

/// The text that describes an error of the given value.
pub open spec fn message_text(error: ErrorView) -> Seq<char> {
    match error {
        ErrorView::SyntaxError { .. } => "parsing error: unknown."@,
        ErrorView::StackUnderflow => "parsing error: stack is empty."@,
        ErrorView::InvalidGoto => "parsing error: invalid Shift action."@,
        ErrorView::UnexpectedEndOfInput => "parsing error: unexpected end of input."@,
        ErrorView::MissingHandler => "parsing error: missing handler."@,
        ErrorView::StepLimitExceeded => "parsing error: step limit exceeded."@,
    }
}

impl ParseError {
    /// A short description of the error.
    pub fn message(&self) -> (text: String)
        ensures
            text@ == message_text(self@),
    {
        match self {
            ParseError::SyntaxError { .. } => "parsing error: unknown.".to_owned(),
            ParseError::StackUnderflow => "parsing error: stack is empty.".to_owned(),
            ParseError::InvalidGoto => "parsing error: invalid Shift action.".to_owned(),
            ParseError::UnexpectedEndOfInput => "parsing error: unexpected end of input.".to_owned(),
            ParseError::MissingHandler => "parsing error: missing handler.".to_owned(),
            ParseError::StepLimitExceeded => "parsing error: step limit exceeded.".to_owned(),
        }
    }
}

} // verus!
