use vstd::prelude::*;

use crate::token::{Token, TokenType};

verus! {

/// Why tokenizing or parsing stopped.
#[derive(Clone, Debug, PartialEq, Eq)]
pub enum SyntaxError {
    /// A block comment was opened and never closed; holds the text from `/*` to the end.
    UnterminatedComment { text: String },
    /// A token that cannot stand where it was found.
    UnexpectedToken { token: Token },
    /// A token was required but the input had ended.
    UnexpectedEndOfInput,
}

/// The mathematical value of a `SyntaxError`.
pub enum ErrorModel {
    UnterminatedComment(Seq<char>),
    UnexpectedToken(TokenType, Seq<char>),
    UnexpectedEndOfInput,
}

impl View for SyntaxError {
    type V = ErrorModel;

    open spec fn view(&self) -> ErrorModel {
        match self {
            SyntaxError::UnterminatedComment { text } => ErrorModel::UnterminatedComment(text@),
            SyntaxError::UnexpectedToken { token } => ErrorModel::UnexpectedToken(
                token.token_type,
                token.text@,
            ),
            SyntaxError::UnexpectedEndOfInput => ErrorModel::UnexpectedEndOfInput,
        }
    }
}

/// What one pull from a token source gives: a token, or an error.
pub type Pulled = Result<(TokenType, Seq<char>), ErrorModel>;

/// The model of a token-or-error result.
pub open spec fn pulled_view(r: Result<Token, SyntaxError>) -> Pulled {
    match r {
        Ok(t) => Ok(t@),
        Err(e) => Err(e@),
    }
}

} // verus!
