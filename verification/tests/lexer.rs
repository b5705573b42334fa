use estree_tokens::kind::Kind;
use estree_tokens::lexer::{Lexer, Source};
use estree_tokens::token::{Span, Token};

fn lexer(text: &str, position: u32, tokens: Vec<Token>) -> Lexer<'_> {
    Lexer {
        source: Source { text, position },
        token: Token::default(),
        collect_tokens: true,
        tokens,
    }
}

fn token(start: u32, end: u32, kind: Kind) -> Token {
    Token { span: Span { start, end }, kind, escaped: false }
}

#[test]
fn l_angle_replaces_compound_token() {
    let name = token(0, 1, Kind::Ident);
    let mut lexer = lexer("f<<T>() => T>()", 3, vec![name, token(1, 3, Kind::ShiftLeft)]);
    let angle = lexer.re_lex_as_typescript_l_angle(2);
    assert_eq!(angle, token(1, 2, Kind::LAngle));
    assert_eq!(lexer.offset(), 2);
    assert_eq!(lexer.tokens, vec![name, angle]);
    assert_eq!(lexer.token, Token::default());
}

#[test]
fn l_angle_of_assignment() {
    let mut lexer = lexer("a <<= b", 5, vec![token(2, 5, Kind::ShiftLeftEq)]);
    let angle = lexer.re_lex_as_typescript_l_angle(3);
    assert_eq!(angle, token(2, 3, Kind::LAngle));
    assert_eq!(lexer.offset(), 3);
    assert_eq!(lexer.tokens, vec![angle]);
}

#[test]
fn l_angle_without_collecting() {
    let mut lexer = lexer("<=", 2, vec![]);
    lexer.collect_tokens = false;
    lexer.token.escaped = true;
    let angle = lexer.re_lex_as_typescript_l_angle(2);
    assert_eq!(angle.span(), Span { start: 0, end: 1 });
    assert!(angle.escaped());
    assert_eq!(lexer.offset(), 1);
    assert_eq!(lexer.tokens, vec![]);
    assert_eq!(lexer.token, Token::default());
}

#[test]
fn r_angle_keeps_collected_tokens() {
    let name = token(0, 1, Kind::Ident);
    let mut lexer = lexer("T>>>", 4, vec![name]);
    let angle = lexer.re_lex_as_typescript_r_angle(3);
    assert_eq!(angle, token(1, 2, Kind::RAngle));
    assert_eq!(lexer.offset(), 2);
    assert_eq!(lexer.tokens, vec![name, angle]);
    assert_eq!(lexer.token, Token::default());
}

#[test]
fn r_angle_of_one_byte() {
    let mut lexer = lexer("T>", 2, vec![]);
    lexer.collect_tokens = false;
    assert_eq!(lexer.re_lex_as_typescript_r_angle(1), token(1, 2, Kind::RAngle));
    assert_eq!(lexer.offset(), 2);
    assert_eq!(lexer.tokens, vec![]);
}
