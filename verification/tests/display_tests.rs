use tinylisp::interp::eval_expr;
use tinylisp::runtime::Expr;
use tinylisp::runtime::RuntimeThread;

fn display_call(args: Vec<Expr>) -> Expr {
    let mut items = vec![Expr::Ident("display".to_string())];
    items.extend(args);
    Expr::SExpr(items)
}

fn output_text(thread: &RuntimeThread) -> String {
    thread.output.iter().collect()
}

#[test]
fn test_display_appends_text() {
    let mut scope = RuntimeThread::new();
    let res = eval_expr(&mut scope, &display_call(vec![Expr::StrLit("x".to_string())]));
    assert_eq!(res.unwrap(), Expr::Nil);
    assert_eq!(output_text(&scope), "x");
}

#[test]
fn test_display_twice_same_text_twice() {
    let mut scope = RuntimeThread::new();
    let call = display_call(vec![Expr::StrLit("x".to_string())]);
    eval_expr(&mut scope, &call).unwrap();
    let after_one = output_text(&scope);
    eval_expr(&mut scope, &call).unwrap();
    let after_two = output_text(&scope);
    assert_eq!(after_one, "x");
    assert_eq!(after_two, "xx");
    // the environment is untouched: builtins still resolve, nothing new bound
    assert!(scope.lookup_ident("display").is_some());
    assert_eq!(scope.lookup_ident("x"), None);
}

#[test]
fn test_display_renders_each_kind() {
    let mut scope = RuntimeThread::new();
    eval_expr(
        &mut scope,
        &display_call(vec![
            Expr::SExpr(vec![]),
            Expr::Ident("+".to_string()),
            Expr::StrLit("hi".to_string()),
            Expr::Integer(-42),
            Expr::Nil,
        ]),
    )
    .unwrap();
    assert_eq!(output_text(&scope), "()Function(+)hiInteger(-42)Nil");
}

#[test]
fn test_display_renders_macro_value() {
    let mut scope = RuntimeThread::new();
    eval_expr(&mut scope, &display_call(vec![Expr::Ident("define".to_string())])).unwrap();
    assert_eq!(output_text(&scope), "Macro(define)");
}

#[test]
fn test_println_appends_line_break() {
    let mut scope = RuntimeThread::new();
    eval_expr(
        &mut scope,
        &Expr::SExpr(vec![
            Expr::Ident("println".to_string()),
            Expr::StrLit("x".to_string()),
        ]),
    )
    .unwrap();
    assert_eq!(output_text(&scope), "x\n");
}

#[test]
fn test_display_arguments_in_order() {
    let mut scope = RuntimeThread::new();
    eval_expr(
        &mut scope,
        &display_call(vec![
            Expr::StrLit("a".to_string()),
            Expr::StrLit("b".to_string()),
        ]),
    )
    .unwrap();
    assert_eq!(output_text(&scope), "ab");
}

#[test]
fn test_integer_rendering_digits() {
    let mut scope = RuntimeThread::new();
    eval_expr(&mut scope, &display_call(vec![Expr::Integer(1234567890)])).unwrap();
    assert_eq!(output_text(&scope), "Integer(1234567890)");
}

#[test]
fn test_integer_rendering_min() {
    let mut scope = RuntimeThread::new();
    eval_expr(&mut scope, &display_call(vec![Expr::Integer(i64::MIN)])).unwrap();
    assert_eq!(output_text(&scope), "Integer(-9223372036854775808)");
}

#[test]
fn test_integer_rendering_zero() {
    let mut scope = RuntimeThread::new();
    eval_expr(&mut scope, &display_call(vec![Expr::Integer(0)])).unwrap();
    assert_eq!(output_text(&scope), "Integer(0)");
}
