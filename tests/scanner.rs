use rlox::error::Error;
use rlox::object::Object;
use rlox::scanner::{scan, Scanner};
use rlox::token::{Token, TokenType};

fn kinds(tokens: &[Token]) -> Vec<TokenType> {
    tokens.iter().map(|t| t.get_type()).collect()
}

#[test]
fn scan_comment_then_number() {
    let tokens = scan("// comment\n42").ok().unwrap();
    assert_eq!(tokens.len(), 2);
    assert_eq!(tokens[0].get_type(), TokenType::Number);
    assert_eq!(tokens[0].lexeme, "42");
    assert!(matches!(tokens[0].get_literal(), Some(Object::Num(ref s)) if s == "42"));
    assert_eq!(tokens[0].get_line(), 2);
    assert_eq!(tokens[1].get_type(), TokenType::Eof);
    assert_eq!(tokens[1].get_line(), 2);
}

#[test]
fn scan_unterminated_string() {
    match scan("\"abc") {
        Err(Error::Lexical { line, message }) => {
            assert_eq!(line, 1);
            assert_eq!(message, "Unterminated string");
        }
        _ => panic!("expected a lexical error"),
    }
}

#[test]
fn scan_unterminated_string_reports_last_line() {
    match scan("1\n\"ab\ncd\n") {
        Err(Error::Lexical { line, .. }) => assert_eq!(line, 4),
        _ => panic!("expected a lexical error"),
    }
}

#[test]
fn scan_unexpected_character() {
    match scan("1 +\n @") {
        Err(Error::Lexical { line, message }) => {
            assert_eq!(line, 2);
            assert_eq!(message, "Unexpected character");
        }
        _ => panic!("expected a lexical error"),
    }
}

#[test]
fn scan_ends_with_one_eof() {
    let tokens = scan("1 + 2 * (3 - 4) != foo and bar;").ok().unwrap();
    assert_eq!(tokens.last().unwrap().get_type(), TokenType::Eof);
    assert_eq!(tokens.iter().filter(|t| t.is(TokenType::Eof)).count(), 1);
    assert_eq!(tokens.len(), 15);
}

#[test]
fn scan_empty_source() {
    let tokens = scan("").ok().unwrap();
    assert_eq!(tokens.len(), 1);
    assert_eq!(tokens[0].get_type(), TokenType::Eof);
    assert_eq!(tokens[0].lexeme, "");
    assert_eq!(tokens[0].get_line(), 1);
}

#[test]
fn scan_lines_never_decrease() {
    let tokens = scan("1\n2\n\n3 \"a\nb\" 4").ok().unwrap();
    let lines: Vec<usize> = tokens.iter().map(|t| t.get_line()).collect();
    assert_eq!(lines, vec![1, 2, 4, 5, 5, 5]);
    assert!(lines.windows(2).all(|w| w[0] <= w[1]));
}

#[test]
fn scan_keywords_are_not_identifiers() {
    let tokens = scan("and class else false for fun if nil or print return super this true var while foo x1").ok().unwrap();
    assert_eq!(
        kinds(&tokens),
        vec![
            TokenType::And,
            TokenType::Class,
            TokenType::Else,
            TokenType::False,
            TokenType::For,
            TokenType::Fun,
            TokenType::If,
            TokenType::Nil,
            TokenType::Or,
            TokenType::Print,
            TokenType::Return,
            TokenType::Super,
            TokenType::This,
            TokenType::True,
            TokenType::Var,
            TokenType::While,
            TokenType::Identifier,
            TokenType::Identifier,
            TokenType::Eof,
        ]
    );
}

#[test]
fn scan_operators() {
    let tokens = scan("! != = == < <= > >= / ( ) { } , . - + ; *").ok().unwrap();
    assert_eq!(
        kinds(&tokens),
        vec![
            TokenType::Bang,
            TokenType::BangEqual,
            TokenType::Equal,
            TokenType::EqualEqual,
            TokenType::Less,
            TokenType::LessEqual,
            TokenType::Greater,
            TokenType::GreaterEqual,
            TokenType::Slash,
            TokenType::LeftParen,
            TokenType::RightParen,
            TokenType::LeftBrace,
            TokenType::RightBrace,
            TokenType::Comma,
            TokenType::Dot,
            TokenType::Minus,
            TokenType::Plus,
            TokenType::Semicolon,
            TokenType::Star,
            TokenType::Eof,
        ]
    );
    assert_eq!(tokens[1].lexeme, "!=");
}

#[test]
fn scan_number_with_trailing_dot() {
    let tokens = scan("12.").ok().unwrap();
    assert_eq!(kinds(&tokens), vec![TokenType::Number, TokenType::Dot, TokenType::Eof]);
    assert_eq!(tokens[0].lexeme, "12");
    let tokens = scan("3.25").ok().unwrap();
    assert_eq!(tokens[0].lexeme, "3.25");
    assert!(matches!(tokens[0].get_literal(), Some(Object::Num(ref s)) if s == "3.25"));
}

#[test]
fn scan_string_literal() {
    let tokens = scan("\"hi there\"").ok().unwrap();
    assert_eq!(tokens[0].get_type(), TokenType::String);
    assert_eq!(tokens[0].lexeme, "\"hi there\"");
    assert!(matches!(tokens[0].get_literal(), Some(Object::Str(ref s)) if s == "hi there"));
}

#[test]
fn scanner_new_then_scan_tokens() {
    let tokens = Scanner::new("a/b").scan_tokens().ok().unwrap();
    assert_eq!(
        kinds(&tokens),
        vec![TokenType::Identifier, TokenType::Slash, TokenType::Identifier, TokenType::Eof]
    );
}

#[test]
fn token_getters() {
    let t = Token::new(TokenType::Number, "7".to_string(), Some(Object::Num("7".to_string())), 3);
    assert!(t.is(TokenType::Number));
    assert!(!t.is(TokenType::String));
    assert_eq!(t.get_line(), 3);
    assert_eq!(t.to_text(), "7");
    let e = Token::new_eof(9);
    assert_eq!(e.get_type(), TokenType::Eof);
    assert_eq!(e.get_line(), 9);
    assert!(e.get_literal().is_none());
}
