use tinylisp::interp::eval;
use tinylisp::read::read;
use tinylisp::runtime::Error;
use tinylisp::runtime::Expr;
use tinylisp::runtime::RuntimeThread;
use tinylisp::tokenizer::Token;

#[test]
fn test_read_round_trip() {
    assert_eq!(
        read("(test)").unwrap(),
        vec![Expr::SExpr(vec![Expr::Ident("test".to_string())])]
    );
}

#[test]
fn test_read_empty_text() {
    assert_eq!(read("").unwrap(), vec![]);
}

#[test]
fn test_read_surfaces_lexical_error() {
    assert_eq!(read("\"open"), Err(Error::UnterminatedString));
}

#[test]
fn test_read_surfaces_parse_error() {
    assert_eq!(
        read("(a]"),
        Err(Error::MismatchedDelimiters(Token::OpenParen, Token::CloseBrace))
    );
}

#[test]
fn test_read_skips_comments_and_whitespace() {
    assert_eq!(
        read("; heading\n(a \"b\")\n").unwrap(),
        vec![Expr::SExpr(vec![
            Expr::Ident("a".to_string()),
            Expr::StrLit("b".to_string()),
        ])]
    );
}

#[test]
fn test_read_then_eval_session() {
    // a whole file-load session: read, then evaluate in a fresh environment
    let mut thread = RuntimeThread::new();
    let program = read("(define greeting \"hello\")(display greeting)").unwrap();
    let res = eval(&mut thread, program);
    assert_eq!(res.unwrap(), Expr::Nil);
    assert_eq!(thread.output.iter().collect::<String>(), "hello");
}
