use rlox::error::Error;
use rlox::expr::Expr;
use rlox::object::Object;
use rlox::parser::{parse, parse_source};
use rlox::scanner::scan;
use rlox::token::{Token, TokenType};

fn text_of(source: &str) -> String {
    parse_source(source).ok().unwrap().to_text()
}

#[test]
fn test_expr_fmt() {
    let expr = Expr::Binary(
        Box::new(Expr::Unary(
            Token::new(TokenType::Minus, "-".to_string(), None, 1),
            Box::new(Expr::Literal(Object::Num("123".to_string()))),
        )),
        Token::new(TokenType::Star, "*".to_string(), None, 1),
        Box::new(Expr::Grouping(Box::new(Expr::Literal(Object::Num("45.67".to_string()))))),
    );

    assert_eq!("(* (- 123) (group 45.67))", expr.to_text());
}

#[test]
fn parse_renders_canonical_text() {
    assert_eq!(text_of("-123 * (45.67)"), "(* (- 123) (group 45.67))");
}

#[test]
fn parse_render_is_stable() {
    let a = text_of("1 + 2 * 3 - -4");
    let b = text_of("1 + 2 * 3 - -4");
    assert_eq!(a, b);
    assert_eq!(a, "(- (+ 1 (* 2 3)) (- 4))");
}

#[test]
fn parse_equality_is_left_associative() {
    assert_eq!(text_of("1 == 2 == 3"), "(== (== 1 2) 3)");
}

#[test]
fn parse_precedence_levels() {
    assert_eq!(text_of("1 - 2 - 3"), "(- (- 1 2) 3)");
    assert_eq!(text_of("8 / 4 * 2"), "(* (/ 8 4) 2)");
    assert_eq!(text_of("1 < 2 == 3 >= 4"), "(== (< 1 2) (>= 3 4))");
    assert_eq!(text_of("1 != 2 <= 3 + 4 * 5"), "(!= 1 (<= 2 (+ 3 (* 4 5))))");
    assert_eq!(text_of("!!true"), "(! (! true))");
    assert_eq!(text_of("-(1 > 2)"), "(- (group (> 1 2)))");
}

#[test]
fn parse_literals() {
    assert_eq!(text_of("nil"), "nil");
    assert_eq!(text_of("false"), "false");
    assert_eq!(text_of("true"), "true");
    assert_eq!(text_of("\"a b\""), "\"a b\"");
    assert_eq!(text_of("007.50"), "7.5");
    assert_eq!(text_of("1.0"), "1");
    assert_eq!(text_of("0"), "0");
    assert_eq!(text_of("100"), "100");
}

#[test]
fn parse_stops_after_one_expression() {
    assert_eq!(text_of("1 2"), "1");
}

#[test]
fn parse_missing_close_paren() {
    match parse_source("(1 + 2") {
        Err(Error::Syntax { token, message }) => {
            assert_eq!(message, "Expect ')' after expression.");
            assert_eq!(token.get_type(), TokenType::Eof);
        }
        _ => panic!("expected a syntax error"),
    }
}

#[test]
fn parse_only_end_marker() {
    match parse(vec![Token::new_eof(1)]) {
        Err(Error::Syntax { token, message }) => {
            assert_eq!(message, "Expect expression.");
            assert_eq!(token.get_type(), TokenType::Eof);
            assert_eq!(token.get_line(), 1);
        }
        _ => panic!("expected a syntax error"),
    }
}

#[test]
fn parse_unexpected_token() {
    match parse_source("1 + ;") {
        Err(Error::Syntax { token, message }) => {
            assert_eq!(message, "Expect expression.");
            assert_eq!(token.get_type(), TokenType::Semicolon);
        }
        _ => panic!("expected a syntax error"),
    }
}

#[test]
fn parse_source_passes_on_lexical_errors() {
    assert!(matches!(parse_source("1 + #"), Err(Error::Lexical { line: 1, .. })));
}

#[test]
fn parse_scanned_tokens() {
    let tokens = scan("(1)").ok().unwrap();
    assert_eq!(parse(tokens).ok().unwrap().to_text(), "(group 1)");
}

#[test]
fn render_lexical_error() {
    let e = Error::error(3, "Unexpected character".to_string());
    assert_eq!(e.render(""), "[line 3] Error + : Unexpected character");
    assert_eq!(e.render(" at 'x'"), "[line 3] Error +  at 'x': Unexpected character");
}

#[test]
fn render_syntax_error_at_end() {
    let e = Error::parse_error(Token::new_eof(7), "Expect expression.".to_string());
    assert_eq!(e.render(""), "Error + : Expect expression.");
}

#[test]
fn render_syntax_error_at_token() {
    let t = Token::new(TokenType::Semicolon, ";".to_string(), None, 12);
    let e = Error::parse_error(t, "Expect expression.".to_string());
    assert_eq!(e.render(""), "[line 12] Error + : Expect expression.");
}

#[test]
fn render_literal_values() {
    assert_eq!(Object::Num("0.250".to_string()).to_text(), "0.25");
    assert_eq!(Object::Str("q".to_string()).to_text(), "\"q\"");
    assert_eq!(Object::Bool(true).to_text(), "true");
    assert_eq!(Object::Nil.to_text(), "nil");
}
