use vstd::prelude::*;

use crate::error::{Error, ErrorView};
use crate::object::{LiteralView, Object};
use crate::text::{chars_of, string_of};
use crate::token::{eof_view, tokens_view, Token, TokenType, TokenView};

verus! {

pub open spec fn is_digit(c: char) -> bool {
    '0' <= c <= '9'
}

pub open spec fn is_alpha(c: char) -> bool {
    ('a' <= c <= 'z') || ('A' <= c <= 'Z')
}

pub open spec fn is_alnum(c: char) -> bool {
    is_digit(c) || is_alpha(c)
}

/// The kind of a character that makes a token on its own.
pub open spec fn single_kind(c: char) -> Option<TokenType> {
    if c == '(' { Some(TokenType::LeftParen) }
    else if c == ')' { Some(TokenType::RightParen) }
    else if c == '{' { Some(TokenType::LeftBrace) }
    else if c == '}' { Some(TokenType::RightBrace) }
    else if c == ',' { Some(TokenType::Comma) }
    else if c == '.' { Some(TokenType::Dot) }
    else if c == '-' { Some(TokenType::Minus) }
    else if c == '+' { Some(TokenType::Plus) }
    else if c == ';' { Some(TokenType::Semicolon) }
    else if c == '*' { Some(TokenType::Star) }
    else { None }
}

/// For `! = < >`: the kind alone and the kind when followed by `=`.
pub open spec fn pair_kinds(c: char) -> Option<(TokenType, TokenType)> {
    if c == '!' { Some((TokenType::Bang, TokenType::BangEqual)) }
    else if c == '=' { Some((TokenType::Equal, TokenType::EqualEqual)) }
    else if c == '<' { Some((TokenType::Less, TokenType::LessEqual)) }
    else if c == '>' { Some((TokenType::Greater, TokenType::GreaterEqual)) }
    else { None }
}

/// The reserved word spelled by `w`, if any.
pub open spec fn keyword_kind(w: Seq<char>) -> Option<TokenType> {
    if w == "and"@ { Some(TokenType::And) }
    else if w == "class"@ { Some(TokenType::Class) }
    else if w == "else"@ { Some(TokenType::Else) }
    else if w == "false"@ { Some(TokenType::False) }
    else if w == "for"@ { Some(TokenType::For) }
    else if w == "fun"@ { Some(TokenType::Fun) }
    else if w == "if"@ { Some(TokenType::If) }
    else if w == "nil"@ { Some(TokenType::Nil) }
    else if w == "or"@ { Some(TokenType::Or) }
    else if w == "print"@ { Some(TokenType::Print) }
    else if w == "return"@ { Some(TokenType::Return) }
    else if w == "super"@ { Some(TokenType::Super) }
    else if w == "this"@ { Some(TokenType::This) }
    else if w == "true"@ { Some(TokenType::True) }
    else if w == "var"@ { Some(TokenType::Var) }
    else if w == "while"@ { Some(TokenType::While) }
    else { None }
}

/// First index at or after `i` that is the end of `s` or holds a newline.
pub open spec fn line_end(s: Seq<char>, i: int) -> int
    decreases s.len() - i,
{
    if 0 <= i < s.len() && s[i] != '\n' { line_end(s, i + 1) } else { i }
}

/// First index at or after `i` that is the end of `s` or holds a `"`.
pub open spec fn quote_end(s: Seq<char>, i: int) -> int
    decreases s.len() - i,
{
    if 0 <= i < s.len() && s[i] != '"' { quote_end(s, i + 1) } else { i }
}

/// End of the run of digits that starts at `i`.
pub open spec fn digits_end(s: Seq<char>, i: int) -> int
    decreases s.len() - i,
{
    if 0 <= i < s.len() && is_digit(s[i]) { digits_end(s, i + 1) } else { i }
}

/// End of the run of ASCII letters and digits that starts at `i`.
pub open spec fn word_end(s: Seq<char>, i: int) -> int
    decreases s.len() - i,
{
    if 0 <= i < s.len() && is_alnum(s[i]) { word_end(s, i + 1) } else { i }
}

/// The number of newlines in `s[from..to]`.
pub open spec fn newlines(s: Seq<char>, from: int, to: int) -> nat
    decreases to - from,
{
    if to <= from {
        0
    } else {
        newlines(s, from, to - 1) + if s[to - 1] == '\n' { 1nat } else { 0nat }
    }
}

/// End of a number literal that starts at `i`: digits, then a fraction
/// only where a `.` is directly followed by a digit.
pub open spec fn number_end(s: Seq<char>, i: int) -> int {
    let j = digits_end(s, i);
    if j + 1 < s.len() && s[j] == '.' && is_digit(s[j + 1]) {
        digits_end(s, j + 1)
    } else {
        j
    }
}

pub open spec fn unterminated_message() -> Seq<char> {
    "Unterminated string"@
}

pub open spec fn unexpected_message() -> Seq<char> {
    "Unexpected character"@
}

/// What the scanner does with the lexeme that starts at `start`.
pub enum Step {
    /// A token of `kind` spans `start..end`; the line is then `line`.
    Emit { kind: TokenType, end: int, line: nat, literal: Option<LiteralView> },
    /// `start..end` makes no token; the line is then `line`.
    Skip { end: int, line: nat },
    /// A lexical error on `line`.
    Fail { line: nat, message: Seq<char> },
}

/// One step of the scanner on `s`, at `start < s.len()`, on line `line`.
pub open spec fn step(s: Seq<char>, start: int, line: nat) -> Step {
    let c = s[start];
    let next = start + 1;
    if single_kind(c) is Some {
        Step::Emit { kind: single_kind(c)->0, end: next, line, literal: None }
    } else if pair_kinds(c) is Some {
        let (alone, with_equal) = pair_kinds(c)->0;
        if next < s.len() && s[next] == '=' {
            Step::Emit { kind: with_equal, end: next + 1, line, literal: None }
        } else {
            Step::Emit { kind: alone, end: next, line, literal: None }
        }
    } else if c == '/' {
        if next < s.len() && s[next] == '/' {
            Step::Skip { end: line_end(s, next + 1), line }
        } else {
            Step::Emit { kind: TokenType::Slash, end: next, line, literal: None }
        }
    } else if c == '\n' {
        Step::Skip { end: next, line: line + 1 }
    } else if c == ' ' || c == '\r' || c == '\t' {
        Step::Skip { end: next, line }
    } else if c == '"' {
        let q = quote_end(s, next);
        let l = line + newlines(s, next, q);
        if q >= s.len() {
            Step::Fail { line: l, message: unterminated_message() }
        } else {
            Step::Emit {
                kind: TokenType::String,
                end: q + 1,
                line: l,
                literal: Some(LiteralView::Str(s.subrange(next, q))),
            }
        }
    } else if is_digit(c) {
        let e = number_end(s, next);
        Step::Emit {
            kind: TokenType::Number,
            end: e,
            line,
            literal: Some(LiteralView::Num(s.subrange(start, e))),
        }
    } else if is_alpha(c) {
        let e = word_end(s, next);
        let w = s.subrange(start, e);
        Step::Emit {
            kind: if keyword_kind(w) is Some { keyword_kind(w)->0 } else { TokenType::Identifier },
            end: e,
            line,
            literal: None,
        }
    } else {
        Step::Fail { line, message: unexpected_message() }
    }
}

pub type ScanResult = Result<Seq<TokenView>, ErrorView>;

/// The result of scanning `s` from `pos` on line `line` to the end.
pub open spec fn scan_from(s: Seq<char>, pos: int, line: nat) -> ScanResult
    decreases s.len() - pos,
{
    if pos < 0 || pos >= s.len() {
        Ok(seq![eof_view(line)])
    } else {
        match step(s, pos, line) {
            Step::Fail { line, message } => Err(ErrorView::Lexical { line, message }),
            Step::Skip { end, line } => {
                if pos < end <= s.len() { scan_from(s, end, line) } else { Ok(seq![eof_view(line)]) }
            },
            Step::Emit { kind, end, line, literal } => {
                if pos < end <= s.len() {
                    match scan_from(s, end, line) {
                        Ok(rest) => Ok(
                            seq![TokenView { kind, lexeme: s.subrange(pos, end), literal, line }]
                                + rest,
                        ),
                        Err(e) => Err(e),
                    }
                } else {
                    Ok(seq![eof_view(line)])
                }
            },
        }
    }
}

/// The result of scanning the whole of `s`.
pub open spec fn spec_scan(s: Seq<char>) -> ScanResult {
    scan_from(s, 0, 1)
}

/// The tokens `prefix` followed by the outcome `r` of scanning the rest.
pub open spec fn after(prefix: Seq<TokenView>, r: ScanResult) -> ScanResult {
    match r {
        Ok(rest) => Ok(prefix + rest),
        Err(e) => Err(e),
    }
}

/// The view of a scanning result.
pub open spec fn scan_result_view(r: Result<Vec<Token>, Error>) -> ScanResult {
    match r {
        Ok(ts) => Ok(tokens_view(ts@)),
        Err(e) => Err(e@),
    }
}

/// What holds of every successful scan from `pos` on line `line`.
pub open spec fn well_scanned(ts: Seq<TokenView>, line: nat) -> bool {
    &&& ts.len() > 0
    &&& ts.last().kind == TokenType::Eof
    &&& forall|i: int| 0 <= i < ts.len() - 1 ==> (#[trigger] ts[i]).kind != TokenType::Eof
    &&& forall|i: int| 0 <= i < ts.len() ==> (#[trigger] ts[i]).line >= line
    &&& forall|i: int, j: int| 0 <= i <= j < ts.len() ==> (#[trigger] ts[i]).line <= (#[trigger] ts[j]).line
    &&& forall|i: int|
        0 <= i < ts.len() && ((#[trigger] ts[i]).kind == TokenType::Number || ts[i].kind == TokenType::String)
            ==> ts[i].literal is Some
}

/// Every step that goes on keeps or raises the line, and never makes an
/// end-marker or a number or string token without its literal.
proof fn lemma_step(s: Seq<char>, pos: int, line: nat)
    requires
        0 <= pos < s.len(),
    ensures
        match step(s, pos, line) {
            Step::Skip { end, line: l } => l >= line,
            Step::Emit { kind, end, line: l, literal } => l >= line && kind != TokenType::Eof
                && ((kind == TokenType::Number || kind == TokenType::String) ==> literal is Some),
            Step::Fail { .. } => true,
        },
{
    let w = s.subrange(pos, word_end(s, pos + 1));
    if keyword_kind(w) is Some {
        assert(keyword_kind(w)->0 != TokenType::Eof);
        assert(keyword_kind(w)->0 != TokenType::Number);
        assert(keyword_kind(w)->0 != TokenType::String);
    }
}

proof fn lemma_scan_from(s: Seq<char>, pos: int, line: nat)
    ensures
        scan_from(s, pos, line) is Ok ==> well_scanned(scan_from(s, pos, line)->Ok_0, line),
    decreases s.len() - pos,
{
    if 0 <= pos < s.len() {
        lemma_step(s, pos, line);
        match step(s, pos, line) {
            Step::Skip { end, line: l } => {
                if pos < end <= s.len() {
                    lemma_scan_from(s, end, l);
                }
            },
            Step::Emit { kind, end, line: l, literal } => {
                if pos < end <= s.len() {
                    lemma_scan_from(s, end, l);
                    if scan_from(s, end, l) is Ok {
                        let rest = scan_from(s, end, l)->Ok_0;
                        let t = TokenView { kind, lexeme: s.subrange(pos, end), literal, line: l };
                        let ts = seq![t] + rest;
                        assert(scan_from(s, pos, line)->Ok_0 == ts);
                        assert forall|i: int| 0 <= i < ts.len() implies #[trigger] ts[i] == if i == 0 {
                            t
                        } else {
                            rest[i - 1]
                        } by {}
                        assert forall|i: int, j: int| 0 <= i <= j < ts.len() implies (#[trigger] ts[i]).line
                            <= (#[trigger] ts[j]).line by {
                            if i > 0 {
                                assert(rest[i - 1].line <= rest[j - 1].line);
                            } else if j > 0 {
                                assert(rest[j - 1].line >= l);
                            }
                        }
                        assert forall|i: int| 0 <= i < ts.len() implies (#[trigger] ts[i]).line >= line by {
                            if i > 0 {
                                assert(rest[i - 1].line >= l);
                            }
                        }
                        assert(ts.last() == rest.last());
                    }
                }
            },
            Step::Fail { .. } => {},
        }
    } else {
        let ts = seq![eof_view(line)];
        assert(ts.len() == 1);
    }
}

/// A successful scan ends with exactly one end-marker; below it, lines
/// start at 1 and never go down; and every number or string token carries
/// its literal value.
pub proof fn scan_is_well_formed(s: Seq<char>)
    requires
        spec_scan(s) is Ok,
    ensures
        well_scanned(spec_scan(s)->Ok_0, 1),
{
    lemma_scan_from(s, 0, 1);
}

/// A character that starts a token, a comment or a gap without error.
pub open spec fn plain_char(c: char) -> bool {
    single_kind(c) is Some || pair_kinds(c) is Some || c == '/' || c == '\n' || c == ' ' || c == '\r'
        || c == '\t' || is_digit(c) || is_alpha(c)
}

proof fn lemma_plain_scan_from(s: Seq<char>, pos: int, line: nat)
    requires
        forall|i: int| 0 <= i < s.len() ==> plain_char(#[trigger] s[i]),
    ensures
        scan_from(s, pos, line) is Ok,
    decreases s.len() - pos,
{
    if 0 <= pos < s.len() {
        assert(plain_char(s[pos]));
        match step(s, pos, line) {
            Step::Skip { end, line: l } => {
                if pos < end <= s.len() {
                    lemma_plain_scan_from(s, end, l);
                }
            },
            Step::Emit { kind, end, line: l, literal } => {
                if pos < end <= s.len() {
                    lemma_plain_scan_from(s, end, l);
                }
            },
            Step::Fail { .. } => {},
        }
    }
}

/// Text made only of characters that start a token, a comment or a gap
/// (so with no string literal and no stray character) always scans, and
/// the tokens end with the end-marker.
pub proof fn plain_text_scans(s: Seq<char>)
    requires
        forall|i: int| 0 <= i < s.len() ==> plain_char(#[trigger] s[i]),
    ensures
        spec_scan(s) is Ok,
        spec_scan(s)->Ok_0.last().kind == TokenType::Eof,
{
    lemma_plain_scan_from(s, 0, 1);
    lemma_scan_from(s, 0, 1);
}

proof fn lemma_scan_from_errors(s: Seq<char>, pos: int, line: nat)
    ensures
        scan_from(s, pos, line) is Err ==> ({
            let e = scan_from(s, pos, line)->Err_0;
            e is Lexical && (e->Lexical_message == unterminated_message() || e->Lexical_message
                == unexpected_message())
        }),
    decreases s.len() - pos,
{
    if 0 <= pos < s.len() {
        match step(s, pos, line) {
            Step::Skip { end, line: l } => {
                if pos < end <= s.len() {
                    lemma_scan_from_errors(s, end, l);
                }
            },
            Step::Emit { kind, end, line: l, literal } => {
                if pos < end <= s.len() {
                    lemma_scan_from_errors(s, end, l);
                }
            },
            Step::Fail { .. } => {},
        }
    }
}

/// Scanning fails only on an unterminated string or an unexpected
/// character: text with neither scans, and then ends with the end-marker.
pub proof fn scan_fails_only_on_lexical_errors(s: Seq<char>)
    ensures
        spec_scan(s) is Err ==> ({
            let e = spec_scan(s)->Err_0;
            e is Lexical && (e->Lexical_message == unterminated_message() || e->Lexical_message
                == unexpected_message())
        }),
        spec_scan(s) is Ok ==> spec_scan(s)->Ok_0.last().kind == TokenType::Eof,
{
    lemma_scan_from_errors(s, 0, 1);
    lemma_scan_from(s, 0, 1);
}

/// A scanner over one source text.
pub struct Scanner {
    source: Vec<char>,
    tokens: Vec<Token>,
    start: usize,
    current: usize,
    line: usize,
}

impl Scanner {
    /// The characters being scanned.
    pub closed spec fn source_chars(&self) -> Seq<char> {
        self.source@
    }

    /// Nothing has been scanned yet.
    pub closed spec fn is_fresh(&self) -> bool {
        &&& self.tokens@.len() == 0
        &&& self.start == 0
        &&& self.current == 0
        &&& self.line == 1
    }

    pub fn new(source: &str) -> (r: Scanner)
        ensures
            r.source_chars() == source@,
            r.is_fresh(),
    {
        Scanner { source: chars_of(source), tokens: Vec::new(), start: 0, current: 0, line: 1 }
    }

    /// Scans the whole source: the tokens, ending with the end-marker, or
    /// the first lexical error.
    pub fn scan_tokens(self) -> (r: Result<Vec<Token>, Error>)
        requires
            self.is_fresh(),
            self.source_chars().len() < usize::MAX,
        ensures
            scan_result_view(r) == spec_scan(self.source_chars()),
    {
        let mut s = self;
        match s.run() {
            Ok(()) => Ok(s.tokens),
            Err(e) => Err(e),
        }
    }

    fn run(&mut self) -> (r: Result<(), Error>)
        requires
            old(self).is_fresh(),
            old(self).source@.len() < usize::MAX,
        ensures
            match spec_scan(old(self).source@) {
                Ok(ts) => r is Ok && tokens_view(final(self).tokens@) == ts,
                Err(e) => r is Err && r->Err_0@ == e,
            },
    {
        let ghost src = self.source@;
        assert(tokens_view(self.tokens@) =~= Seq::<TokenView>::empty());
        assert(after(Seq::empty(), spec_scan(src)) == spec_scan(src)) by {
            match spec_scan(src) {
                Ok(rest) => { assert(Seq::<TokenView>::empty() + rest =~= rest); },
                Err(e) => {},
            }
        }
        while !self.is_at_end()
            invariant
                self.source@ == src,
                src == old(self).source@,
                src.len() < usize::MAX,
                self.current <= src.len(),
                1 <= self.line <= self.current + 1,
                after(tokens_view(self.tokens@), scan_from(src, self.current as int, self.line as nat))
                    == spec_scan(src),
            decreases src.len() - self.current,
        {
            self.start = self.current;
            let ghost prefix = tokens_view(self.tokens@);
            let ghost pos = self.current as int;
            let ghost l = self.line as nat;
            match self.scan_token() {
                Ok(()) => {
                    proof {
                        let p2 = self.current as int;
                        let l2 = self.line as nat;
                        match step(src, pos, l) {
                            Step::Emit { kind, end, line, literal } => {
                                let t = TokenView { kind, lexeme: src.subrange(pos, end), literal, line };
                                assert(tokens_view(self.tokens@) =~= prefix.push(t));
                                match scan_from(src, p2, l2) {
                                    Ok(rest) => {
                                        assert(prefix + (seq![t] + rest) =~= prefix.push(t) + rest);
                                    },
                                    Err(e) => {},
                                }
                            },
                            _ => {},
                        }
                    }
                },
                Err(e) => {
                    assert(scan_from(src, pos, l) == Err::<Seq<TokenView>, ErrorView>(e@));
                    return Err(e);
                },
            }
        }
        let eof = Token::new_eof(self.line);
        let ghost prefix = tokens_view(self.tokens@);
        self.tokens.push(eof);
        assert(tokens_view(self.tokens@) =~= prefix + seq![eof_view(self.line as nat)]);
        Ok(())
    }

    /// Scans the lexeme that starts at the cursor.
    fn scan_token(&mut self) -> (r: Result<(), Error>)
        requires
            old(self).start == old(self).current,
            old(self).current < old(self).source@.len(),
            old(self).source@.len() < usize::MAX,
            1 <= old(self).line <= old(self).current + 1,
        ensures
            final(self).source@ == old(self).source@,
            old(self).current < final(self).current <= final(self).source@.len(),
            1 <= final(self).line <= final(self).current + 1,
            match step(old(self).source@, old(self).current as int, old(self).line as nat) {
                Step::Fail { line, message } => r is Err && r->Err_0@ == (ErrorView::Lexical { line, message }),
                Step::Skip { end, line } => r is Ok && final(self).current == end && final(self).line == line
                    && final(self).tokens@ == old(self).tokens@,
                Step::Emit { kind, end, line, literal } => r is Ok && final(self).current == end
                    && final(self).line == line
                    && tokens_view(final(self).tokens@) == tokens_view(old(self).tokens@).push(
                        TokenView {
                            kind,
                            lexeme: old(self).source@.subrange(old(self).current as int, end),
                            literal,
                            line,
                        },
                    ),
            },
    {
        let c = self.advance();
        match c {
            '(' => self.add_token(TokenType::LeftParen),
            ')' => self.add_token(TokenType::RightParen),
            '{' => self.add_token(TokenType::LeftBrace),
            '}' => self.add_token(TokenType::RightBrace),
            ',' => self.add_token(TokenType::Comma),
            '.' => self.add_token(TokenType::Dot),
            '-' => self.add_token(TokenType::Minus),
            '+' => self.add_token(TokenType::Plus),
            ';' => self.add_token(TokenType::Semicolon),
            '*' => self.add_token(TokenType::Star),
            '!' => {
                if self.match_char('=') {
                    self.add_token(TokenType::BangEqual);
                } else {
                    self.add_token(TokenType::Bang);
                }
            },
            '=' => {
                if self.match_char('=') {
                    self.add_token(TokenType::EqualEqual);
                } else {
                    self.add_token(TokenType::Equal);
                }
            },
            '<' => {
                if self.match_char('=') {
                    self.add_token(TokenType::LessEqual);
                } else {
                    self.add_token(TokenType::Less);
                }
            },
            '>' => {
                if self.match_char('=') {
                    self.add_token(TokenType::GreaterEqual);
                } else {
                    self.add_token(TokenType::Greater);
                }
            },
            '/' => {
                if self.match_char('/') {
                    while !self.is_at_end() && self.peek() != '\n'
                        invariant
                            self.source@ == old(self).source@,
                            self.tokens@ == old(self).tokens@,
                            self.line == old(self).line,
                            old(self).current + 2 <= self.current <= self.source@.len(),
                            self.source@.len() < usize::MAX,
                            line_end(self.source@, self.current as int)
                                == line_end(self.source@, old(self).current + 2),
                        decreases self.source@.len() - self.current,
                    {
                        self.advance();
                    }
                } else {
                    self.add_token(TokenType::Slash)
                }
            },
            '\n' => {
                self.line = self.line + 1;
            },
            ' ' | '\r' | '\t' => {},
            '"' => {
                return self.string();
            },
            '0'..='9' => self.number(),
            'a'..='z' | 'A'..='Z' => self.identifier(),
            _ => {
                return Err(Error::error(self.line, "Unexpected character".to_string()));
            },
        }
        Ok(())
    }

    fn add_token(&mut self, typ: TokenType)
        requires
            old(self).start <= old(self).current <= old(self).source@.len(),
        ensures
            final(self).source@ == old(self).source@,
            final(self).start == old(self).start,
            final(self).current == old(self).current,
            final(self).line == old(self).line,
            tokens_view(final(self).tokens@) == tokens_view(old(self).tokens@).push(
                TokenView {
                    kind: typ,
                    lexeme: old(self).source@.subrange(old(self).start as int, old(self).current as int),
                    literal: None,
                    line: old(self).line as nat,
                },
            ),
    {
        self.add_token_object(typ, None)
    }

    fn add_token_object(&mut self, typ: TokenType, object: Option<Object>)
        requires
            old(self).start <= old(self).current <= old(self).source@.len(),
        ensures
            final(self).source@ == old(self).source@,
            final(self).start == old(self).start,
            final(self).current == old(self).current,
            final(self).line == old(self).line,
            tokens_view(final(self).tokens@) == tokens_view(old(self).tokens@).push(
                TokenView {
                    kind: typ,
                    lexeme: old(self).source@.subrange(old(self).start as int, old(self).current as int),
                    literal: crate::token::literal_view(object),
                    line: old(self).line as nat,
                },
            ),
    {
        let lexeme = string_of(&self.source, self.start, self.current);
        let t = Token::new(typ, lexeme, object, self.line);
        let ghost before = self.tokens@;
        self.tokens.push(t);
        assert(tokens_view(self.tokens@) =~= tokens_view(before).push(t@));
    }

    fn is_at_end(&self) -> (r: bool)
        ensures
            r == (self.current >= self.source@.len()),
    {
        self.current >= self.source.len()
    }

    fn advance(&mut self) -> (c: char)
        requires
            old(self).current < old(self).source@.len(),
            old(self).source@.len() < usize::MAX,
        ensures
            c == old(self).source@[old(self).current as int],
            final(self).current == old(self).current + 1,
            final(self).source@ == old(self).source@,
            final(self).tokens@ == old(self).tokens@,
            final(self).start == old(self).start,
            final(self).line == old(self).line,
    {
        let c = self.source[self.current];
        self.current = self.current + 1;
        c
    }

    fn peek(&self) -> (c: char)
        ensures
            self.current < self.source@.len() ==> c == self.source@[self.current as int],
            self.current >= self.source@.len() ==> c == '\0',
    {
        if self.is_at_end() {
            return '\0';
        }
        self.source[self.current]
    }

    fn peek_next(&self) -> (c: char)
        ensures
            self.current + 1 < self.source@.len() ==> c == self.source@[self.current + 1],
            self.current + 1 >= self.source@.len() ==> c == '\0',
    {
        if self.current >= self.source.len() || self.source.len() - self.current <= 1 {
            return '\0';
        }
        self.source[self.current + 1]
    }

    fn match_char(&mut self, expected: char) -> (r: bool)
        requires
            old(self).source@.len() < usize::MAX,
        ensures
            r == (old(self).current < old(self).source@.len()
                && old(self).source@[old(self).current as int] == expected),
            final(self).current == if r { old(self).current + 1 } else { old(self).current as int },
            final(self).source@ == old(self).source@,
            final(self).tokens@ == old(self).tokens@,
            final(self).start == old(self).start,
            final(self).line == old(self).line,
    {
        if self.is_at_end() || self.source[self.current] != expected {
            return false;
        }
        self.current = self.current + 1;
        true
    }
    /// The rest of a string literal whose opening quote was just consumed.
    fn string(&mut self) -> (r: Result<(), Error>)
        requires
            old(self).current == old(self).start + 1,
            old(self).current <= old(self).source@.len(),
            old(self).source@.len() < usize::MAX,
            1 <= old(self).line <= old(self).current,
        ensures
            final(self).source@ == old(self).source@,
            old(self).current <= final(self).current <= final(self).source@.len(),
            1 <= final(self).line <= final(self).current + 1,
            ({
                let s = old(self).source@;
                let q = quote_end(s, old(self).current as int);
                let l = (old(self).line + newlines(s, old(self).current as int, q)) as nat;
                if q >= s.len() {
                    r is Err && r->Err_0@ == (ErrorView::Lexical { line: l, message: unterminated_message() })
                } else {
                    r is Ok && final(self).current == q + 1 && final(self).line == l
                        && tokens_view(final(self).tokens@) == tokens_view(old(self).tokens@).push(
                            TokenView {
                                kind: TokenType::String,
                                lexeme: s.subrange(old(self).start as int, q + 1),
                                literal: Some(LiteralView::Str(s.subrange(old(self).current as int, q))),
                                line: l,
                            },
                        )
                }
            }),
    {
        let ghost s = self.source@;
        let ghost first = self.current as int;
        while self.peek() != '"' && !self.is_at_end()
            invariant
                self.source@ == s,
                self.tokens@ == old(self).tokens@,
                self.start == old(self).start,
                first <= self.current <= s.len(),
                s.len() < usize::MAX,
                quote_end(s, self.current as int) == quote_end(s, first),
                self.line == old(self).line + newlines(s, first, self.current as int),
                1 <= self.line <= self.current,
            decreases s.len() - self.current,
        {
            if self.peek() == '\n' {
                self.line = self.line + 1;
            }
            self.advance();
        }
        if self.is_at_end() {
            return Err(Error::error(self.line, "Unterminated string".to_string()));
        }
        // The closing quote.
        self.advance();
        let value = string_of(&self.source, self.start + 1, self.current - 1);
        self.add_token_object(TokenType::String, Some(Object::Str(value)));
        Ok(())
    }

    /// The rest of a number literal whose first digit was just consumed.
    fn number(&mut self)
        requires
            old(self).current == old(self).start + 1,
            old(self).current <= old(self).source@.len(),
            old(self).source@.len() < usize::MAX,
        ensures
            final(self).source@ == old(self).source@,
            final(self).line == old(self).line,
            old(self).current <= final(self).current,
            ({
                let s = old(self).source@;
                let e = number_end(s, old(self).current as int);
                final(self).current == e && e <= s.len()
                    && tokens_view(final(self).tokens@) == tokens_view(old(self).tokens@).push(
                        TokenView {
                            kind: TokenType::Number,
                            lexeme: s.subrange(old(self).start as int, e),
                            literal: Some(LiteralView::Num(s.subrange(old(self).start as int, e))),
                            line: old(self).line as nat,
                        },
                    )
            }),
    {
        let ghost s = self.source@;
        let ghost first = self.current as int;
        while is_ascii_digit(self.peek())
            invariant
                self.source@ == s,
                self.tokens@ == old(self).tokens@,
                self.start == old(self).start,
                self.line == old(self).line,
                first <= self.current <= s.len(),
                s.len() < usize::MAX,
                digits_end(s, self.current as int) == digits_end(s, first),
            decreases s.len() - self.current,
        {
            self.advance();
        }
        let ghost j = self.current as int;
        // A fractional part.
        if self.peek() == '.' && is_ascii_digit(self.peek_next()) {
            self.advance();
            while is_ascii_digit(self.peek())
                invariant
                    self.source@ == s,
                    self.tokens@ == old(self).tokens@,
                    self.start == old(self).start,
                    self.line == old(self).line,
                    j + 1 <= self.current <= s.len(),
                    s.len() < usize::MAX,
                    first <= j,
                    digits_end(s, self.current as int) == digits_end(s, j + 1),
                decreases s.len() - self.current,
            {
                self.advance();
            }
        }
        let value = string_of(&self.source, self.start, self.current);
        self.add_token_object(TokenType::Number, Some(Object::Num(value)));
    }

    /// The rest of a word whose first letter was just consumed.
    fn identifier(&mut self)
        requires
            old(self).current == old(self).start + 1,
            old(self).current <= old(self).source@.len(),
            old(self).source@.len() < usize::MAX,
        ensures
            final(self).source@ == old(self).source@,
            final(self).line == old(self).line,
            old(self).current <= final(self).current,
            ({
                let s = old(self).source@;
                let e = word_end(s, old(self).current as int);
                let w = s.subrange(old(self).start as int, e);
                final(self).current == e && e <= s.len()
                    && tokens_view(final(self).tokens@) == tokens_view(old(self).tokens@).push(
                        TokenView {
                            kind: if keyword_kind(w) is Some { keyword_kind(w)->0 } else { TokenType::Identifier },
                            lexeme: w,
                            literal: None,
                            line: old(self).line as nat,
                        },
                    )
            }),
    {
        let ghost s = self.source@;
        let ghost first = self.current as int;
        while is_ascii_alphanumeric(self.peek())
            invariant
                self.source@ == s,
                self.tokens@ == old(self).tokens@,
                self.start == old(self).start,
                self.line == old(self).line,
                first <= self.current <= s.len(),
                s.len() < usize::MAX,
                word_end(s, self.current as int) == word_end(s, first),
            decreases s.len() - self.current,
        {
            self.advance();
        }
        let typ = match keyword(&self.source, self.start, self.current) {
            Some(k) => k,
            None => TokenType::Identifier,
        };
        self.add_token(typ);
    }
}

fn is_ascii_digit(c: char) -> (r: bool)
    ensures
        r == is_digit(c),
{
    '0' <= c && c <= '9'
}

fn is_ascii_alphanumeric(c: char) -> (r: bool)
    ensures
        r == is_alnum(c),
{
    ('0' <= c && c <= '9') || ('a' <= c && c <= 'z') || ('A' <= c && c <= 'Z')
}

/// Whether `s[from..to]` spells `w`.
fn spells(s: &Vec<char>, from: usize, to: usize, w: &str) -> (r: bool)
    requires
        from <= to <= s@.len(),
    ensures
        r == (s@.subrange(from as int, to as int) == w@),
{
    let n = w.unicode_len();
    if to - from != n {
        return false;
    }
    let mut i: usize = 0;
    while i < n
        invariant
            i <= n,
            n == w@.len(),
            to - from == n,
            from <= to <= s@.len(),
            forall|k: int| 0 <= k < i ==> s@[from + k] == w@[k],
        decreases n - i,
    {
        if s[from + i] != w.get_char(i) {
            assert(s@.subrange(from as int, to as int)[i as int] != w@[i as int]);
            return false;
        }
        i = i + 1;
    }
    assert(s@.subrange(from as int, to as int) =~= w@);
    true
}

/// The reserved word spelled by `s[from..to]`, if any.
fn keyword(s: &Vec<char>, from: usize, to: usize) -> (r: Option<TokenType>)
    requires
        from <= to <= s@.len(),
    ensures
        r == keyword_kind(s@.subrange(from as int, to as int)),
{
    if spells(s, from, to, "and") { Some(TokenType::And) }
    else if spells(s, from, to, "class") { Some(TokenType::Class) }
    else if spells(s, from, to, "else") { Some(TokenType::Else) }
    else if spells(s, from, to, "false") { Some(TokenType::False) }
    else if spells(s, from, to, "for") { Some(TokenType::For) }
    else if spells(s, from, to, "fun") { Some(TokenType::Fun) }
    else if spells(s, from, to, "if") { Some(TokenType::If) }
    else if spells(s, from, to, "nil") { Some(TokenType::Nil) }
    else if spells(s, from, to, "or") { Some(TokenType::Or) }
    else if spells(s, from, to, "print") { Some(TokenType::Print) }
    else if spells(s, from, to, "return") { Some(TokenType::Return) }
    else if spells(s, from, to, "super") { Some(TokenType::Super) }
    else if spells(s, from, to, "this") { Some(TokenType::This) }
    else if spells(s, from, to, "true") { Some(TokenType::True) }
    else if spells(s, from, to, "var") { Some(TokenType::Var) }
    else if spells(s, from, to, "while") { Some(TokenType::While) }
    else { None }
}

/// Scans `source`: its tokens, ending with the end-marker, or the first
/// lexical error.
pub fn scan(source: &str) -> (r: Result<Vec<Token>, Error>)
    requires
        source@.len() < usize::MAX,
    ensures
        scan_result_view(r) == spec_scan(source@),
{
    Scanner::new(source).scan_tokens()
}

} // verus!
