use tinylisp::interp::eval;
use tinylisp::interp::eval_expr;
use tinylisp::runtime::Error;
use tinylisp::runtime::Expr;
use tinylisp::runtime::RuntimeThread;

fn ident(s: &str) -> Expr {
    Expr::Ident(s.to_string())
}

fn call(head: &str, args: Vec<Expr>) -> Expr {
    let mut items = vec![ident(head)];
    items.extend(args);
    Expr::SExpr(items)
}

#[test]
fn test_eval_sexpr() {
    let mut scope = RuntimeThread::new();

    let res = eval_expr(
        &mut scope,
        &Expr::SExpr(vec![
            Expr::Ident("+".to_string()),
            Expr::Integer(3),
            Expr::Integer(1),
        ]),
    );

    assert_eq!(res.unwrap(), Expr::Integer(4));
}

#[test]
#[should_panic]
fn test_lookup_missing() {
    let mut scope = RuntimeThread::new();

    let res = eval_expr(
        &mut scope,
        &Expr::SExpr(vec![
            Expr::Ident("barf".to_string()),
            Expr::Integer(3),
            Expr::Integer(1),
        ]),
    );

    assert_eq!(res.unwrap(), Expr::Integer(4));
}

#[test]
fn test_add_fold() {
    let mut scope = RuntimeThread::new();
    let res = eval_expr(
        &mut scope,
        &call("+", vec![Expr::Integer(40), Expr::Integer(1), Expr::Integer(1)]),
    );
    assert_eq!(res.unwrap(), Expr::Integer(42));
}

#[test]
fn test_mul_no_args_is_seed() {
    let mut scope = RuntimeThread::new();
    let res = eval_expr(&mut scope, &call("*", vec![]));
    assert_eq!(res.unwrap(), Expr::Integer(1));
}

#[test]
fn test_unary_minus_folds_from_zero() {
    let mut scope = RuntimeThread::new();
    let res = eval_expr(&mut scope, &call("-", vec![Expr::Integer(5)]));
    assert_eq!(res.unwrap(), Expr::Integer(-5));
}

#[test]
fn test_div_seeds_before_first_operand() {
    // (/ 6 2) folds as (1 / 6) / 2 under truncating division
    let mut scope = RuntimeThread::new();
    let res = eval_expr(&mut scope, &call("/", vec![Expr::Integer(6), Expr::Integer(2)]));
    assert_eq!(res.unwrap(), Expr::Integer(0));
}

#[test]
fn test_add_wraps_on_overflow() {
    let mut scope = RuntimeThread::new();
    let res = eval_expr(&mut scope, &call("+", vec![Expr::Integer(i64::MAX), Expr::Integer(1)]));
    assert_eq!(res.unwrap(), Expr::Integer(i64::MIN));
}

#[test]
fn test_division_by_zero() {
    let mut scope = RuntimeThread::new();
    let res = eval_expr(&mut scope, &call("/", vec![Expr::Integer(1), Expr::Integer(0)]));
    assert_eq!(res, Err(Error::DivisionByZero));
}

#[test]
fn test_non_integer_argument() {
    let mut scope = RuntimeThread::new();
    let res = eval_expr(
        &mut scope,
        &call("+", vec![Expr::StrLit("x".to_string())]),
    );
    assert_eq!(res, Err(Error::NotAnInteger));
}

#[test]
fn test_define_returns_and_binds() {
    let mut scope = RuntimeThread::new();
    let res = eval_expr(&mut scope, &call("define", vec![ident("x"), Expr::Integer(10)]));
    assert_eq!(res.unwrap(), Expr::Integer(10));
    assert_eq!(scope.lookup_ident("x"), Some(&Expr::Integer(10)));
}

#[test]
fn test_define_last_write_wins() {
    let mut scope = RuntimeThread::new();
    eval_expr(&mut scope, &call("define", vec![ident("x"), Expr::Integer(10)])).unwrap();
    eval_expr(&mut scope, &call("define", vec![ident("x"), Expr::Integer(20)])).unwrap();
    assert_eq!(scope.lookup_ident("x"), Some(&Expr::Integer(20)));
}

#[test]
fn test_define_evaluates_value_expression() {
    let mut scope = RuntimeThread::new();
    let value = call("+", vec![Expr::Integer(2), Expr::Integer(3)]);
    let res = eval_expr(&mut scope, &call("define", vec![ident("y"), value]));
    assert_eq!(res.unwrap(), Expr::Integer(5));
    assert_eq!(scope.lookup_ident("y"), Some(&Expr::Integer(5)));
}

#[test]
fn test_define_wrong_arity() {
    let mut scope = RuntimeThread::new();
    let res = eval_expr(&mut scope, &call("define", vec![ident("x")]));
    assert_eq!(res, Err(Error::WrongArgumentCount(1)));
}

#[test]
fn test_define_name_must_be_identifier() {
    let mut scope = RuntimeThread::new();
    let res = eval_expr(
        &mut scope,
        &call("define", vec![Expr::Integer(1), Expr::Integer(2)]),
    );
    assert_eq!(res, Err(Error::NameNotIdentifier));
}

#[test]
fn test_unknown_identifier_names_it() {
    let mut scope = RuntimeThread::new();
    let res = eval_expr(&mut scope, &ident("nope"));
    assert_eq!(res, Err(Error::UnknownIdentifier("nope".to_string())));
}

#[test]
fn test_calling_a_non_callable() {
    let mut scope = RuntimeThread::new();
    let res = eval_expr(
        &mut scope,
        &Expr::SExpr(vec![Expr::Integer(1), Expr::Integer(2)]),
    );
    assert_eq!(res, Err(Error::NotCallable));
}

#[test]
fn test_empty_s_expr_self_evaluates() {
    let mut scope = RuntimeThread::new();
    let res = eval_expr(&mut scope, &Expr::SExpr(vec![]));
    assert_eq!(res.unwrap(), Expr::SExpr(vec![]));
}

#[test]
fn test_literals_self_evaluate() {
    let mut scope = RuntimeThread::new();
    assert_eq!(eval_expr(&mut scope, &Expr::Integer(7)).unwrap(), Expr::Integer(7));
    assert_eq!(
        eval_expr(&mut scope, &Expr::StrLit("s".to_string())).unwrap(),
        Expr::StrLit("s".to_string())
    );
    assert_eq!(eval_expr(&mut scope, &Expr::Nil).unwrap(), Expr::Nil);
}

#[test]
fn test_eval_program_keeps_last_result() {
    let mut scope = RuntimeThread::new();
    let res = eval(
        &mut scope,
        vec![
            call("define", vec![ident("x"), Expr::Integer(2)]),
            call("+", vec![Expr::Integer(40), Expr::Integer(2)]),
        ],
    );
    assert_eq!(res.unwrap(), Expr::Integer(42));
}

#[test]
fn test_eval_empty_program_is_nil() {
    let mut scope = RuntimeThread::new();
    assert_eq!(eval(&mut scope, vec![]).unwrap(), Expr::Nil);
}

#[test]
fn test_eval_aborts_on_first_error() {
    let mut scope = RuntimeThread::new();
    let res = eval(
        &mut scope,
        vec![ident("missing"), call("+", vec![Expr::Integer(1)])],
    );
    assert_eq!(res, Err(Error::UnknownIdentifier("missing".to_string())));
}

#[test]
fn test_depth_limit_is_an_error() {
    let mut scope = RuntimeThread::new();
    let mut e = Expr::Integer(1);
    for _ in 0..1100 {
        e = call("+", vec![e]);
    }
    let res = eval_expr(&mut scope, &e);
    assert_eq!(res, Err(Error::DepthExceeded));
}
