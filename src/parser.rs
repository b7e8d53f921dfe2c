use vstd::prelude::*;

use crate::error::{Error, ErrorView};
use crate::expr::{expr_text, Expr, ExprView};
use crate::scanner::{scan, scan_is_well_formed, spec_scan};
use crate::object::{LiteralView, Object};
use crate::token::{tokens_view, Token, TokenType, TokenView};

verus! {

/// An expression and the position after it, or a diagnostic.
pub type ParseResult = Result<(ExprView, int), ErrorView>;

/// The kind of the token at `p`; past the end, the end-marker.
pub open spec fn kind_at(ts: Seq<TokenView>, p: int) -> TokenType {
    if 0 <= p < ts.len() { ts[p].kind } else { TokenType::Eof }
}

/// The binary operators of a precedence level: 3 is equality, 2 comparison,
/// 1 term and 0 factor.
pub open spec fn level_op(level: nat, k: TokenType) -> bool {
    if level == 3 {
        k == TokenType::BangEqual || k == TokenType::EqualEqual
    } else if level == 2 {
        k == TokenType::Greater || k == TokenType::GreaterEqual || k == TokenType::Less
            || k == TokenType::LessEqual
    } else if level == 1 {
        k == TokenType::Minus || k == TokenType::Plus
    } else {
        k == TokenType::Slash || k == TokenType::Star
    }
}

pub open spec fn missing_paren_message() -> Seq<char> {
    "Expect ')' after expression."@
}

pub open spec fn missing_expression_message() -> Seq<char> {
    "Expect expression."@
}

/// `expression → equality`, from position `p`.
pub open spec fn parse_expression(ts: Seq<TokenView>, p: int) -> ParseResult
    decreases ts.len() - p, 10nat,
{
    parse_level(ts, p, 3)
}

/// A binary precedence level: an operand of the next level, then any
/// number of (operator, operand) pairs, folded to the left.
pub open spec fn parse_level(ts: Seq<TokenView>, p: int, level: nat) -> ParseResult
    decreases ts.len() - p, 2 * level + 3,
{
    let first = if level == 0 { parse_unary(ts, p) } else { parse_level(ts, p, (level - 1) as nat) };
    match first {
        Err(e) => Err(e),
        Ok((e, q)) => if p <= q <= ts.len() { level_loop(ts, e, q, level) } else { Ok((e, q)) },
    }
}

/// The repetition of a binary level, with `left` parsed up to `p`.
pub open spec fn level_loop(ts: Seq<TokenView>, left: ExprView, p: int, level: nat) -> ParseResult
    decreases ts.len() - p, 2 * level + 2,
{
    if 0 <= p < ts.len() && level_op(level, ts[p].kind) {
        let right = if level == 0 {
            parse_unary(ts, p + 1)
        } else {
            parse_level(ts, p + 1, (level - 1) as nat)
        };
        match right {
            Err(e) => Err(e),
            Ok((r, q)) => {
                let e = ExprView::Binary(Box::new(left), ts[p], Box::new(r));
                if p < q <= ts.len() { level_loop(ts, e, q, level) } else { Ok((e, q)) }
            },
        }
    } else {
        Ok((left, p))
    }
}

/// `unary → ("!" | "-") unary | primary`.
pub open spec fn parse_unary(ts: Seq<TokenView>, p: int) -> ParseResult
    decreases ts.len() - p, 1nat,
{
    if 0 <= p < ts.len() && (ts[p].kind == TokenType::Bang || ts[p].kind == TokenType::Minus) {
        match parse_unary(ts, p + 1) {
            Err(e) => Err(e),
            Ok((e, q)) => Ok((ExprView::Unary(ts[p], Box::new(e)), q)),
        }
    } else {
        parse_primary(ts, p)
    }
}

/// `primary → NUMBER | STRING | "true" | "false" | "nil" | "(" expression ")"`.
pub open spec fn parse_primary(ts: Seq<TokenView>, p: int) -> ParseResult
    decreases ts.len() - p, 0nat,
{
    let k = kind_at(ts, p);
    if k == TokenType::False {
        Ok((ExprView::Literal(LiteralView::Bool(false)), p + 1))
    } else if k == TokenType::True {
        Ok((ExprView::Literal(LiteralView::Bool(true)), p + 1))
    } else if k == TokenType::Nil {
        Ok((ExprView::Literal(LiteralView::Nil), p + 1))
    } else if k == TokenType::Number || k == TokenType::String {
        Ok((ExprView::Literal(ts[p].literal->0), p + 1))
    } else if k == TokenType::LeftParen {
        match parse_expression(ts, p + 1) {
            Err(e) => Err(e),
            Ok((e, q)) => if kind_at(ts, q) == TokenType::RightParen {
                Ok((ExprView::Grouping(Box::new(e)), q + 1))
            } else {
                Err(ErrorView::Syntax { token: ts[q], message: missing_paren_message() })
            },
        }
    } else {
        Err(ErrorView::Syntax { token: ts[p], message: missing_expression_message() })
    }
}

/// The expression that a token sequence starts with, or the first syntax
/// error.
pub open spec fn spec_parse(ts: Seq<TokenView>) -> Result<ExprView, ErrorView> {
    match parse_expression(ts, 0) {
        Ok((e, _)) => Ok(e),
        Err(e) => Err(e),
    }
}

/// A token sequence the parser accepts: it ends with the end-marker, and
/// every number or string token carries its literal value.
pub open spec fn parsable(ts: Seq<TokenView>) -> bool {
    &&& ts.len() > 0
    &&& ts.last().kind == TokenType::Eof
    &&& forall|i: int|
        0 <= i < ts.len() && (#[trigger] ts[i].kind == TokenType::Number || ts[i].kind == TokenType::String)
            ==> ts[i].literal is Some
}

/// The view of a parsing result.
pub open spec fn parse_result_view(r: Result<Expr, Error>) -> Result<ExprView, ErrorView> {
    match r {
        Ok(e) => Ok(e@),
        Err(e) => Err(e@),
    }
}

/// `r`, with the cursor then at `after`, is the outcome `s`.
pub open spec fn outcome(r: Result<Expr, Error>, after: int, s: ParseResult) -> bool {
    match s {
        Ok((e, q)) => r is Ok && r->Ok_0@ == e && after == q,
        Err(err) => r is Err && r->Err_0@ == err,
    }
}

/// Parses `tokens`: the expression they start with, or the first syntax
/// error.
pub fn parse(tokens: Vec<Token>) -> (r: Result<Expr, Error>)
    requires
        parsable(tokens_view(tokens@)),
    ensures
        parse_result_view(r) == spec_parse(tokens_view(tokens@)),
{
    let mut parser = Parser::new(tokens);
    parser.expression()
}

/// Scans and then parses `source`: the expression it starts with, or the
/// first lexical or syntax error.
pub fn parse_source(source: &str) -> (r: Result<Expr, Error>)
    requires
        source@.len() < usize::MAX,
    ensures
        match spec_scan(source@) {
            Ok(ts) => parse_result_view(r) == spec_parse(ts),
            Err(e) => r is Err && r->Err_0@ == e,
        },
{
    match scan(source) {
        Ok(tokens) => {
            proof {
                scan_is_well_formed(source@);
            }
            parse(tokens)
        },
        Err(e) => Err(e),
    }
}

/// Rendering is stable: two parses of the same source give trees with the
/// same canonical text.
pub proof fn parse_text_is_stable(s: Seq<char>, a: Expr, b: Expr)
    requires
        spec_scan(s) is Ok,
        spec_parse(spec_scan(s)->Ok_0) == Ok::<ExprView, ErrorView>(a@),
        spec_parse(spec_scan(s)->Ok_0) == Ok::<ExprView, ErrorView>(b@),
    ensures
        expr_text(a@) == expr_text(b@),
{
}

struct Parser {
    tokens: Vec<Token>,
    current: usize,
}

impl Parser {
    spec fn toks(&self) -> Seq<TokenView> {
        tokens_view(self.tokens@)
    }

    spec fn inv(&self) -> bool {
        parsable(self.toks()) && self.current < self.tokens@.len()
    }

    /// Same tokens, still well formed, cursor not moved back.
    spec fn kept(&self, before: &Parser) -> bool {
        &&& self.tokens@ == before.tokens@
        &&& self.inv()
        &&& before.current <= self.current
    }

    fn new(tokens: Vec<Token>) -> (r: Parser)
        requires
            parsable(tokens_view(tokens@)),
        ensures
            r.inv(),
            r.current == 0,
            r.tokens@ == tokens@,
    {
        Parser { tokens, current: 0 }
    }

    fn expression(&mut self) -> (r: Result<Expr, Error>)
        requires
            old(self).inv(),
        ensures
            final(self).kept(old(self)),
            outcome(r, final(self).current as int, parse_expression(old(self).toks(), old(self).current as int)),
            r is Ok ==> old(self).current < final(self).current,
        decreases old(self).tokens@.len() - old(self).current, 10nat,
    {
        self.equality()
    }

    fn equality(&mut self) -> (r: Result<Expr, Error>)
        requires
            old(self).inv(),
        ensures
            final(self).kept(old(self)),
            outcome(r, final(self).current as int, parse_level(old(self).toks(), old(self).current as int, 3)),
            r is Ok ==> old(self).current < final(self).current,
        decreases old(self).tokens@.len() - old(self).current, 9nat,
    {
        let ghost ts = self.toks();
        let ghost p0 = self.current as int;
        let mut expr = match self.comparison() {
            Ok(e) => e,
            Err(e) => {
                return Err(e);
            },
        };
        loop
            invariant
                self.tokens@ == old(self).tokens@,
                ts == self.toks(),
                self.inv(),
                p0 < self.current,
                p0 == old(self).current,
                parse_level(ts, p0, 3) == level_loop(ts, expr@, self.current as int, 3),
            decreases self.tokens@.len() - self.current,
        {
            let ghost p = self.current as int;
            let ghost left = expr@;
            if !self.is_match(&[TokenType::BangEqual, TokenType::EqualEqual]) {
                return Ok(expr);
            }
            let operator = self.previous().copy();
            let right = match self.comparison() {
                Ok(e) => e,
                Err(e) => {
                    return Err(e);
                },
            };
            expr = Expr::Binary(Box::new(expr), operator, Box::new(right));
            assert(expr@ == ExprView::Binary(Box::new(left), ts[p], Box::new(right@)));
        }
    }

    fn comparison(&mut self) -> (r: Result<Expr, Error>)
        requires
            old(self).inv(),
        ensures
            final(self).kept(old(self)),
            outcome(r, final(self).current as int, parse_level(old(self).toks(), old(self).current as int, 2)),
            r is Ok ==> old(self).current < final(self).current,
        decreases old(self).tokens@.len() - old(self).current, 7nat,
    {
        let ghost ts = self.toks();
        let ghost p0 = self.current as int;
        let mut expr = match self.term() {
            Ok(e) => e,
            Err(e) => {
                return Err(e);
            },
        };
        loop
            invariant
                self.tokens@ == old(self).tokens@,
                ts == self.toks(),
                self.inv(),
                p0 < self.current,
                p0 == old(self).current,
                parse_level(ts, p0, 2) == level_loop(ts, expr@, self.current as int, 2),
            decreases self.tokens@.len() - self.current,
        {
            let ghost p = self.current as int;
            let ghost left = expr@;
            if !self.is_match(&[TokenType::Greater, TokenType::GreaterEqual, TokenType::Less, TokenType::LessEqual]) {
                return Ok(expr);
            }
            let operator = self.previous().copy();
            let right = match self.term() {
                Ok(e) => e,
                Err(e) => {
                    return Err(e);
                },
            };
            expr = Expr::Binary(Box::new(expr), operator, Box::new(right));
            assert(expr@ == ExprView::Binary(Box::new(left), ts[p], Box::new(right@)));
        }
    }

    fn term(&mut self) -> (r: Result<Expr, Error>)
        requires
            old(self).inv(),
        ensures
            final(self).kept(old(self)),
            outcome(r, final(self).current as int, parse_level(old(self).toks(), old(self).current as int, 1)),
            r is Ok ==> old(self).current < final(self).current,
        decreases old(self).tokens@.len() - old(self).current, 5nat,
    {
        let ghost ts = self.toks();
        let ghost p0 = self.current as int;
        let mut expr = match self.factor() {
            Ok(e) => e,
            Err(e) => {
                return Err(e);
            },
        };
        loop
            invariant
                self.tokens@ == old(self).tokens@,
                ts == self.toks(),
                self.inv(),
                p0 < self.current,
                p0 == old(self).current,
                parse_level(ts, p0, 1) == level_loop(ts, expr@, self.current as int, 1),
            decreases self.tokens@.len() - self.current,
        {
            let ghost p = self.current as int;
            let ghost left = expr@;
            if !self.is_match(&[TokenType::Minus, TokenType::Plus]) {
                return Ok(expr);
            }
            let operator = self.previous().copy();
            let right = match self.factor() {
                Ok(e) => e,
                Err(e) => {
                    return Err(e);
                },
            };
            expr = Expr::Binary(Box::new(expr), operator, Box::new(right));
            assert(expr@ == ExprView::Binary(Box::new(left), ts[p], Box::new(right@)));
        }
    }

    fn factor(&mut self) -> (r: Result<Expr, Error>)
        requires
            old(self).inv(),
        ensures
            final(self).kept(old(self)),
            outcome(r, final(self).current as int, parse_level(old(self).toks(), old(self).current as int, 0)),
            r is Ok ==> old(self).current < final(self).current,
        decreases old(self).tokens@.len() - old(self).current, 3nat,
    {
        let ghost ts = self.toks();
        let ghost p0 = self.current as int;
        let mut expr = match self.unary() {
            Ok(e) => e,
            Err(e) => {
                return Err(e);
            },
        };
        loop
            invariant
                self.tokens@ == old(self).tokens@,
                ts == self.toks(),
                self.inv(),
                p0 < self.current,
                p0 == old(self).current,
                parse_level(ts, p0, 0) == level_loop(ts, expr@, self.current as int, 0),
            decreases self.tokens@.len() - self.current,
        {
            let ghost p = self.current as int;
            let ghost left = expr@;
            if !self.is_match(&[TokenType::Slash, TokenType::Star]) {
                return Ok(expr);
            }
            let operator = self.previous().copy();
            let right = match self.unary() {
                Ok(e) => e,
                Err(e) => {
                    return Err(e);
                },
            };
            expr = Expr::Binary(Box::new(expr), operator, Box::new(right));
            assert(expr@ == ExprView::Binary(Box::new(left), ts[p], Box::new(right@)));
        }
    }

    fn unary(&mut self) -> (r: Result<Expr, Error>)
        requires
            old(self).inv(),
        ensures
            final(self).kept(old(self)),
            outcome(r, final(self).current as int, parse_unary(old(self).toks(), old(self).current as int)),
            r is Ok ==> old(self).current < final(self).current,
        decreases old(self).tokens@.len() - old(self).current, 1nat,
    {
        if self.is_match(&[TokenType::Bang, TokenType::Minus]) {
            let operator = self.previous().copy();
            let right = match self.unary() {
                Ok(e) => e,
                Err(e) => {
                    return Err(e);
                },
            };
            return Ok(Expr::Unary(operator, Box::new(right)));
        }
        self.primary()
    }

    fn primary(&mut self) -> (r: Result<Expr, Error>)
        requires
            old(self).inv(),
        ensures
            final(self).kept(old(self)),
            outcome(r, final(self).current as int, parse_primary(old(self).toks(), old(self).current as int)),
            r is Ok ==> old(self).current < final(self).current,
        decreases old(self).tokens@.len() - old(self).current, 0nat,
    {
        if self.is_match(&[TokenType::False]) {
            return Ok(Expr::Literal(Object::Bool(false)));
        }
        if self.is_match(&[TokenType::True]) {
            return Ok(Expr::Literal(Object::Bool(true)));
        }
        if self.is_match(&[TokenType::Nil]) {
            return Ok(Expr::Literal(Object::Nil));
        }
        if self.is_match(&[TokenType::Number, TokenType::String]) {
            let ghost t = self.toks()[self.current - 1];
            assert(t.literal is Some);
            match self.previous().get_literal() {
                Some(v) => {
                    return Ok(Expr::Literal(v));
                },
                None => {
                    return unreached();
                },
            }
        }
        if self.is_match(&[TokenType::LeftParen]) {
            let expr = match self.expression() {
                Ok(e) => e,
                Err(e) => {
                    return Err(e);
                },
            };
            return match self.consume(TokenType::RightParen, "Expect ')' after expression.".to_string()) {
                Ok(()) => Ok(Expr::Grouping(Box::new(expr))),
                Err(e) => Err(e),
            };
        }
        Err(Error::parse_error(self.peek().copy(), "Expect expression.".to_string()))
    }

    fn is_match(&mut self, types: &[TokenType]) -> (r: bool)
        requires
            old(self).inv(),
        ensures
            final(self).tokens@ == old(self).tokens@,
            final(self).inv(),
            r == (old(self).toks()[old(self).current as int].kind != TokenType::Eof
                && types@.contains(old(self).toks()[old(self).current as int].kind)),
            final(self).current == if r { old(self).current + 1 } else { old(self).current as int },
    {
        let mut i: usize = 0;
        while i < types.len()
            invariant
                self.tokens@ == old(self).tokens@,
                self.current == old(self).current,
                self.inv(),
                i <= types@.len(),
                forall|j: int| 0 <= j < i ==> types@[j] != self.toks()[self.current as int].kind
                    || self.toks()[self.current as int].kind == TokenType::Eof,
            decreases types@.len() - i,
        {
            if self.check(types[i]) {
                self.advance();
                assert(types@[i as int] == old(self).toks()[old(self).current as int].kind);
                return true;
            }
            i = i + 1;
        }
        false
    }

    fn check(&self, typ: TokenType) -> (r: bool)
        requires
            self.inv(),
        ensures
            r == (self.toks()[self.current as int].kind != TokenType::Eof
                && self.toks()[self.current as int].kind == typ),
    {
        if self.is_at_end() {
            return false;
        }
        self.peek().is(typ)
    }

    fn advance(&mut self)
        requires
            old(self).inv(),
        ensures
            final(self).tokens@ == old(self).tokens@,
            final(self).inv(),
            final(self).current == if old(self).toks()[old(self).current as int].kind == TokenType::Eof {
                old(self).current as int
            } else {
                old(self).current + 1
            },
    {
        if !self.is_at_end() {
            let n = self.tokens.len();
            assert(self.current + 1 < n) by {
                if self.current + 1 >= self.tokens@.len() {
                    assert(self.toks()[self.current as int] == self.toks().last());
                }
            }
            self.current = self.current + 1;
        }
    }

    fn is_at_end(&self) -> (r: bool)
        requires
            self.inv(),
        ensures
            r == (self.toks()[self.current as int].kind == TokenType::Eof),
    {
        self.peek().is(TokenType::Eof)
    }

    fn peek(&self) -> (r: &Token)
        requires
            self.current < self.tokens@.len(),
        ensures
            *r == self.tokens@[self.current as int],
            r@ == self.toks()[self.current as int],
    {
        &self.tokens[self.current]
    }

    fn previous(&self) -> (r: &Token)
        requires
            0 < self.current <= self.tokens@.len(),
        ensures
            *r == self.tokens@[self.current - 1],
            r@ == self.toks()[self.current - 1],
    {
        &self.tokens[self.current - 1]
    }

    fn consume(&mut self, typ: TokenType, message: String) -> (r: Result<(), Error>)
        requires
            old(self).inv(),
        ensures
            final(self).tokens@ == old(self).tokens@,
            final(self).inv(),
            old(self).current <= final(self).current,
            ({
                let t = old(self).toks()[old(self).current as int];
                if t.kind != TokenType::Eof && t.kind == typ {
                    r is Ok && final(self).current == old(self).current + 1
                } else {
                    r is Err && r->Err_0@ == (ErrorView::Syntax { token: t, message: message@ })
                }
            }),
    {
        if self.check(typ) {
            self.advance();
            return Ok(());
        }
        Err(Error::parse_error(self.peek().copy(), message))
    }
}

} // verus!
