use vstd::prelude::*;

use crate::object::{literal_text, LiteralView, Object};
use crate::text::{push_char, push_str};
use crate::token::{Token, TokenView};

verus! {

/// An expression tree; each node owns its children.
#[derive(Debug)]
pub enum Expr {
    Binary(Box<Expr>, Token, Box<Expr>),
    Grouping(Box<Expr>),
    Literal(Object),
    Unary(Token, Box<Expr>),
}

/// An expression tree as a mathematical value.
pub enum ExprView {
    Binary(Box<ExprView>, TokenView, Box<ExprView>),
    Grouping(Box<ExprView>),
    Literal(LiteralView),
    Unary(TokenView, Box<ExprView>),
}

/// The view of an expression tree.
pub open spec fn expr_view(e: &Expr) -> ExprView
    decreases e,
{
    match e {
        Expr::Binary(l, op, r) => ExprView::Binary(Box::new(expr_view(l)), op@, Box::new(expr_view(r))),
        Expr::Grouping(inner) => ExprView::Grouping(Box::new(expr_view(inner))),
        Expr::Literal(v) => ExprView::Literal(v@),
        Expr::Unary(op, operand) => ExprView::Unary(op@, Box::new(expr_view(operand))),
    }
}

impl View for Expr {
    type V = ExprView;

    open spec fn view(&self) -> ExprView {
        expr_view(self)
    }
}

/// The canonical parenthesized text of an expression, in prefix form:
/// `(op left right)`, `(group inner)`, `(op operand)`, or a literal's text.
pub open spec fn expr_text(e: ExprView) -> Seq<char>
    decreases e,
{
    match e {
        ExprView::Binary(l, op, r) => seq!['('] + op.lexeme + seq![' '] + expr_text(*l) + seq![' ']
            + expr_text(*r) + seq![')'],
        ExprView::Grouping(inner) => seq!['(', 'g', 'r', 'o', 'u', 'p', ' '] + expr_text(*inner) + seq![')'],
        ExprView::Literal(v) => literal_text(v),
        ExprView::Unary(op, operand) => seq!['('] + op.lexeme + seq![' '] + expr_text(*operand) + seq![')'],
    }
}

impl Expr {
    /// Appends the canonical text of this expression to `out`.
    pub fn push_text(&self, out: &mut String)
        ensures
            final(out)@ == old(out)@ + expr_text(self@),
        decreases self,
    {
        match self {
            Expr::Binary(l, op, r) => {
                push_char(out, '(');
                push_str(out, op.lexeme.as_str());
                push_char(out, ' ');
                l.push_text(out);
                push_char(out, ' ');
                r.push_text(out);
                push_char(out, ')');
            },
            Expr::Grouping(e) => {
                push_char(out, '(');
                push_char(out, 'g');
                push_char(out, 'r');
                push_char(out, 'o');
                push_char(out, 'u');
                push_char(out, 'p');
                push_char(out, ' ');
                e.push_text(out);
                push_char(out, ')');
            },
            Expr::Literal(v) => {
                v.push_text(out);
            },
            Expr::Unary(op, e) => {
                push_char(out, '(');
                push_str(out, op.lexeme.as_str());
                push_char(out, ' ');
                e.push_text(out);
                push_char(out, ')');
            },
        }
        assert(final(out)@ =~= old(out)@ + expr_text(self@));
    }

    /// The canonical parenthesized text of this expression, for example
    /// `(* (- 123) (group 45.67))`.
    pub fn to_text(&self) -> (r: String)
        ensures
            r@ == expr_text(self@),
    {
        let mut r = String::new();
        self.push_text(&mut r);
        assert(r@ =~= expr_text(self@));
        r
    }
}

} // verus!
