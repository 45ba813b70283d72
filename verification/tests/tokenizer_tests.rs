use tinylisp::runtime::Error;
use tinylisp::tokenizer::tokenize;
use tinylisp::tokenizer::Token;

#[test]
fn empty_program_test() {
    assert_eq!(tokenize("").unwrap(), vec![]);
}

#[test]
fn parens_test() {
    assert_eq!(tokenize("()").unwrap(), vec![Token::OpenParen, Token::CloseParen]);
}

#[test]
fn braces_test() {
    assert_eq!(tokenize("[]").unwrap(), vec![Token::OpenBrace, Token::CloseBrace]);
}

#[test]
fn single_identifier_test() {
    assert_eq!(tokenize("test").unwrap(), vec![Token::Ident("test".to_string())]);
}

#[test]
fn single_str_test() {
    assert_eq!(tokenize("\"test\"").unwrap(), vec![Token::StrTok("test".to_string())]);
}

#[test]
fn parens_and_identifier_test() {
    assert_eq!(
        tokenize("(test)").unwrap(),
        vec![Token::OpenParen, Token::Ident("test".to_string()), Token::CloseParen]
    );
}

#[test]
fn identifier_and_comment_test() {
    assert_eq!(
        tokenize("test; this is a comment").unwrap(),
        vec![Token::Ident("test".to_string())]
    );
}

#[test]
fn unterminated_string_test() {
    assert_eq!(tokenize("\"unterminated"), Err(Error::UnterminatedString));
}

#[test]
fn comment_then_next_line_test() {
    assert_eq!(
        tokenize("a; note\nb").unwrap(),
        vec![Token::Ident("a".to_string()), Token::Ident("b".to_string())]
    );
}

#[test]
fn string_keeps_specials_test() {
    // everything up to the closing quote is captured verbatim
    assert_eq!(
        tokenize("\"a (b; c\"").unwrap(),
        vec![Token::StrTok("a (b; c".to_string())]
    );
}

#[test]
fn whitespace_only_test() {
    assert_eq!(tokenize(" \n \n ").unwrap(), vec![]);
}

#[test]
fn ident_stops_at_delimiter_test() {
    assert_eq!(
        tokenize("ab[cd").unwrap(),
        vec![
            Token::Ident("ab".to_string()),
            Token::OpenBrace,
            Token::Ident("cd".to_string()),
        ]
    );
}
