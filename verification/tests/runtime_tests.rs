use tinylisp::runtime::Expr;
use tinylisp::runtime::RuntimeThread;
use tinylisp::runtime::Scope;

#[test]
fn test_scope_lookup() {
    let mut scope = Scope::new();

    scope.defs.push(("foo".to_string(), Expr::StrLit("bar".to_string())));

    assert_eq!(scope.lookup_ident("foo"), Some(&Expr::StrLit("bar".to_string())));
}

#[test]
fn test_scope_lookup_missing() {
    let scope = Scope::new();
    assert_eq!(scope.lookup_ident("foo"), None);
}

#[test]
fn test_scope_def_shadows() {
    let mut scope = Scope::new();
    scope.def("x", &Expr::Integer(1));
    scope.def("x", &Expr::Integer(2));
    assert_eq!(scope.lookup_ident("x"), Some(&Expr::Integer(2)));
}

#[test]
fn test_thread_def_and_lookup() {
    let mut thread = RuntimeThread::new();
    thread.def("answer", &Expr::Integer(42));
    assert_eq!(thread.lookup_ident("answer"), Some(&Expr::Integer(42)));
}

#[test]
fn test_new_thread_has_builtins() {
    let thread = RuntimeThread::new();
    for name in ["+", "-", "*", "/", "display", "println", "define"] {
        assert!(thread.lookup_ident(name).is_some());
    }
}

#[test]
fn test_start_scope_narrows_lookup() {
    // only the active (topmost) scope is ever searched
    let mut thread = RuntimeThread::new();
    thread.start_scope();
    assert_eq!(thread.lookup_ident("+"), None);
}
