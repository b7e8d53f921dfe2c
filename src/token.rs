use vstd::prelude::*;

use crate::object::{LiteralView, Object};

verus! {

/// The closed vocabulary of token kinds.
#[derive(Debug, Clone, Copy, PartialEq, Eq, Structural)]
pub enum TokenType {
    // Single-character tokens.
    LeftParen,
    RightParen,
    LeftBrace,
    RightBrace,
    Comma,
    Dot,
    Minus,
    Plus,
    Semicolon,
    Slash,
    Star,
    // One or two character tokens.
    Bang,
    BangEqual,
    Equal,
    EqualEqual,
    Greater,
    GreaterEqual,
    Less,
    LessEqual,
    // Literals.
    Identifier,
    String,
    Number,
    // Keywords.
    And,
    Class,
    Else,
    False,
    Fun,
    For,
    If,
    Nil,
    Or,
    Print,
    Return,
    Super,
    This,
    True,
    Var,
    While,
    Eof,
}

/// One scanned token: its kind, the source text it came from, the literal
/// value of a number or string, and the line it ended on.
#[derive(Debug, Clone)]
pub struct Token {
    pub typ: TokenType,
    pub lexeme: String,
    pub literal: Option<Object>,
    pub line: usize,
}

/// A token as a mathematical value.
pub struct TokenView {
    pub kind: TokenType,
    pub lexeme: Seq<char>,
    pub literal: Option<LiteralView>,
    pub line: nat,
}

pub open spec fn literal_view(o: Option<Object>) -> Option<LiteralView> {
    match o {
        Some(v) => Some(v@),
        None => None,
    }
}

impl View for Token {
    type V = TokenView;

    open spec fn view(&self) -> TokenView {
        TokenView {
            kind: self.typ,
            lexeme: self.lexeme@,
            literal: literal_view(self.literal),
            line: self.line as nat,
        }
    }
}

/// The end-marker token on `line`.
pub open spec fn eof_view(line: nat) -> TokenView {
    TokenView { kind: TokenType::Eof, lexeme: Seq::empty(), literal: None, line }
}

/// The views of a sequence of tokens.
pub open spec fn tokens_view(ts: Seq<Token>) -> Seq<TokenView> {
    ts.map_values(|t: Token| t@)
}

impl Token {
    pub fn new(typ: TokenType, lexeme: String, literal: Option<Object>, line: usize) -> (r: Token)
        ensures
            r.typ == typ,
            r.lexeme@ == lexeme@,
            r.literal == literal,
            r.line == line,
    {
        Token { typ, lexeme, literal, line }
    }

    pub fn new_eof(line: usize) -> (r: Token)
        ensures
            r@ == eof_view(line as nat),
    {
        Token { typ: TokenType::Eof, lexeme: String::new(), literal: None, line }
    }

    pub fn is(&self, typ: TokenType) -> (r: bool)
        ensures
            r == (self.typ == typ),
    {
        self.typ == typ
    }

    pub fn get_type(&self) -> (r: TokenType)
        ensures
            r == self.typ,
    {
        self.typ
    }

    pub fn get_literal(&self) -> (r: Option<Object>)
        ensures
            literal_view(r) == literal_view(self.literal),
    {
        match &self.literal {
            Some(o) => Some(o.copy()),
            None => None,
        }
    }

    pub fn get_line(&self) -> (r: usize)
        ensures
            r == self.line,
    {
        self.line
    }

    /// A copy of this token with the same view.
    pub fn copy(&self) -> (r: Token)
        ensures
            r@ == self@,
    {
        Token {
            typ: self.typ,
            lexeme: self.lexeme.clone(),
            literal: self.get_literal(),
            line: self.line,
        }
    }

    /// The token rendered as text: its lexeme.
    pub fn to_text(&self) -> (r: String)
        ensures
            r@ == self.lexeme@,
    {
        self.lexeme.clone()
    }
}

} // verus!
