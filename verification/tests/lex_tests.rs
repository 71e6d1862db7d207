use lang::lex::{lex, Token};

#[test]
fn lex_idents_and_keywords() {
    let tokens = lex("idEnt_123 int returnx return").unwrap();
    assert_eq!(tokens.len(), 4);
    match &tokens[0] {
        Token::Ident(n) => assert_eq!(n, "idEnt_123"),
        _ => panic!("expected an identifier"),
    }
    assert!(matches!(tokens[1], Token::KwInt));
    match &tokens[2] {
        Token::Ident(n) => assert_eq!(n, "returnx"),
        _ => panic!("expected an identifier"),
    }
    assert!(matches!(tokens[3], Token::KwReturn));
}

#[test]
fn lex_numbers() {
    let tokens = lex("123 123.5 .5 7.").unwrap();
    assert_eq!(tokens.len(), 4);
    assert!(matches!(tokens[0], Token::Whole(123)));
    match &tokens[1] {
        Token::Decimal(s) => assert_eq!(s, "123.5"),
        _ => panic!("expected a decimal"),
    }
    assert!(matches!(tokens[2], Token::Decimal(_)));
    assert!(matches!(tokens[3], Token::Decimal(_)));
}

#[test]
fn lex_string_and_char() {
    let tokens = lex("\"hi\" 'c'").unwrap();
    assert_eq!(tokens.len(), 2);
    match &tokens[0] {
        Token::StringLiteral(s) => assert_eq!(s, "hi"),
        _ => panic!("expected a string literal"),
    }
    assert!(matches!(tokens[1], Token::CharLit('c')));
}

#[test]
fn lex_symbols_longest_first() {
    let tokens = lex("+++---<<=>>===!=<=>=<<>><>&&&|||->.?:").unwrap();
    let expected = [
        Token::PlusPlus,
        Token::Plus,
        Token::HyphenHyphen,
        Token::Hyphen,
        Token::LTLTEquals,
        Token::GTGTEquals,
        Token::EQ,
        Token::NE,
        Token::LE,
        Token::GE,
        Token::LTLT,
        Token::GTGT,
        Token::LT,
        Token::GT,
        Token::AmpersandAmpersand,
        Token::Ampersand,
        Token::PipePipe,
        Token::Pipe,
        Token::Arrow,
        Token::Dot,
        Token::Question,
        Token::Colon,
    ];
    assert_eq!(tokens.len(), expected.len());
    for (got, want) in tokens.iter().zip(expected.iter()) {
        assert_eq!(std::mem::discriminant(got), std::mem::discriminant(want));
    }
}

#[test]
fn lex_reports_bad_position() {
    let e = lex("a @ b").unwrap_err();
    assert_eq!(e.pos, 2);
}

#[test]
fn lex_empty_text() {
    let tokens = lex("").unwrap();
    assert!(tokens.is_empty());
}

#[test]
fn lex_bool_and_null_words() {
    let tokens = lex("true false NULL trueish").unwrap();
    assert_eq!(tokens.len(), 4);
    assert!(matches!(tokens[0], Token::Bool(true)));
    assert!(matches!(tokens[1], Token::Bool(false)));
    assert!(matches!(tokens[2], Token::Null));
    match &tokens[3] {
        Token::Ident(n) => assert_eq!(n, "trueish"),
        other => panic!("expected an identifier, got {:?}", other),
    }
}
