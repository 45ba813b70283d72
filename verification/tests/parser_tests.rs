use tinylisp::parser::parse;
use tinylisp::runtime::Error;
use tinylisp::runtime::Expr;
use tinylisp::tokenizer::Token;

#[test]
fn test_parse_empty_s_expr() {
    assert_eq!(
        parse(&[Token::OpenParen, Token::CloseParen]).unwrap(),
        vec![Expr::SExpr(Vec::new())]
    );
}

#[test]
fn test_paren_matching() {
    assert_eq!(
        parse(&[Token::OpenParen, Token::OpenBrace, Token::CloseBrace, Token::CloseParen])
            .unwrap(),
        vec![Expr::SExpr(vec![Expr::SExpr(vec![])])]
    );
}

#[test]
fn test_parse_s_expr_with_ident() {
    assert_eq!(
        parse(&[Token::OpenParen, Token::Ident("print".to_string()), Token::CloseParen]).unwrap(),
        vec![Expr::SExpr(vec![Expr::Ident("print".to_string())])]
    );
}

#[test]
fn test_mismatched_delimiters() {
    assert_eq!(
        parse(&[Token::OpenParen, Token::Ident("test".to_string()), Token::CloseBrace]),
        Err(Error::MismatchedDelimiters(Token::OpenParen, Token::CloseBrace))
    );
}

#[test]
fn test_stray_closer_is_unexpected_token() {
    assert_eq!(parse(&[Token::CloseParen]), Err(Error::UnexpectedToken));
}

#[test]
fn test_unclosed_s_expr() {
    assert_eq!(
        parse(&[Token::OpenParen, Token::Ident("a".to_string())]),
        Err(Error::UnexpectedEndOfInput)
    );
}

#[test]
fn test_top_level_sequence() {
    assert_eq!(
        parse(&[
            Token::Ident("a".to_string()),
            Token::StrTok("b".to_string()),
            Token::OpenParen,
            Token::CloseParen,
        ])
        .unwrap(),
        vec![
            Expr::Ident("a".to_string()),
            Expr::StrLit("b".to_string()),
            Expr::SExpr(vec![]),
        ]
    );
}

#[test]
fn test_empty_token_sequence() {
    assert_eq!(parse(&[]).unwrap(), vec![]);
}
