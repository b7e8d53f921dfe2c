use vstd::prelude::*;

use crate::text::{decimal_text, push_decimal, push_str};
use crate::token::{Token, TokenType, TokenView};

verus! {

/// A diagnostic: a lexical error on a line, or a syntax error at a token.
#[derive(Debug)]
pub enum Error {
    Lexical { line: usize, message: String },
    Syntax { token: Token, message: String },
}

/// A diagnostic as a mathematical value.
pub enum ErrorView {
    Lexical { line: nat, message: Seq<char> },
    Syntax { token: TokenView, message: Seq<char> },
}

impl View for Error {
    type V = ErrorView;

    open spec fn view(&self) -> ErrorView {
        match self {
            Error::Lexical { line, message } => ErrorView::Lexical { line: *line as nat, message: message@ },
            Error::Syntax { token, message } => ErrorView::Syntax { token: token@, message: message@ },
        }
    }
}

/// The report of a diagnostic at location `loc`: a `[line N] ` prefix,
/// except for a syntax error at the end-marker.
pub open spec fn report_text(e: ErrorView, loc: Seq<char>) -> Seq<char> {
    match e {
        ErrorView::Lexical { line, message } => "[line "@ + decimal_text(line) + "] "@ + "Error + "@ + loc + ": "@
            + message,
        ErrorView::Syntax { token, message } => if token.kind == TokenType::Eof {
            "Error + "@ + loc + ": "@ + message
        } else {
            "[line "@ + decimal_text(token.line) + "] "@ + "Error + "@ + loc + ": "@ + message
        },
    }
}

impl Error {
    /// The report of this diagnostic at location `loc`, as a line of text.
    pub fn render(&self, loc: &str) -> (r: String)
        ensures
            r@ == report_text(self@, loc@),
    {
        let mut r = String::new();
        let (line, message) = match self {
            Error::Lexical { line, message } => (Some(*line), message),
            Error::Syntax { token, message } => {
                if token.is(TokenType::Eof) {
                    (None, message)
                } else {
                    (Some(token.line), message)
                }
            },
        };
        match line {
            Some(n) => {
                push_str(&mut r, "[line ");
                push_decimal(&mut r, n);
                push_str(&mut r, "] ");
            },
            None => {},
        }
        push_str(&mut r, "Error + ");
        push_str(&mut r, loc);
        push_str(&mut r, ": ");
        push_str(&mut r, message.as_str());
        assert(r@ =~= report_text(self@, loc@));
        r
    }

    pub fn error(line: usize, message: String) -> (r: Error)
        ensures
            r@ == (ErrorView::Lexical { line: line as nat, message: message@ }),
    {
        Error::Lexical { line, message }
    }

    pub fn parse_error(token: Token, message: String) -> (r: Error)
        ensures
            r@ == (ErrorView::Syntax { token: token@, message: message@ }),
    {
        Error::Syntax { token, message }
    }
}

} // verus!
