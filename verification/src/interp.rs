//! The evaluator: walks an expression tree against the environment,
//! resolving identifiers, distinguishing macro expansion from function
//! application, and producing a result value or a propagated error.
//!
//! `sp_eval_expr` is the mathematical description of one evaluation (with
//! an explicit recursion-depth budget), `sp_eval_exprs` of a whole program;
//! `eval_expr` and `eval` are the executable evaluators, proved to return
//! exactly what the model says.

use vstd::prelude::*;
use vstd::slice::slice_subrange;

use crate::builtin::do_def_macro_builtin;
use crate::builtin::do_print_builtin;
use crate::builtin::do_println_builtin;
use crate::builtin::op_seed;
use crate::builtin::perform_binary_op;
use crate::builtin::render_args;
use crate::builtin::render_expr;
use crate::builtin::spec_arith;
use crate::runtime::define_in_state;
use crate::runtime::expr_views;
use crate::runtime::lemma_sexpr_view;
use crate::runtime::lookup_state;
use crate::runtime::BuiltinOp;
use crate::runtime::Error;
use crate::runtime::ErrorModel;
use crate::runtime::Expr;
use crate::runtime::ExprModel;
use crate::runtime::FunctionModel;
use crate::runtime::RuntimeResult;
use crate::runtime::RuntimeThread;
use crate::runtime::StateModel;

verus! {

broadcast use lemma_sexpr_view;

/// The recursion depth budget of one evaluation. Nesting deeper than this
/// is reported as [`Error::DepthExceeded`] instead of exhausting the host
/// call stack.
pub const MAX_EVAL_DEPTH: u64 = 1024;

/// The outcome of the `define` macro on unevaluated arguments: exactly two
/// arguments, the first an identifier; the second is evaluated and the
/// resulting value bound to the name in the active scope and returned.
pub open spec fn sp_define(st: StateModel, args: Seq<ExprModel>, fuel: nat) -> (
    StateModel,
    Result<ExprModel, ErrorModel>,
)
    decreases fuel, 1int, 0int,
{
    if args.len() != 2 {
        (st, Err(ErrorModel::WrongArgumentCount(args.len() as int)))
    } else {
        match args[0] {
            ExprModel::Ident(name) => {
                let (st1, r) = sp_eval_expr(st, args[1], fuel);
                match r {
                    Ok(v) => (define_in_state(st1, name, v), Ok(v)),
                    Err(e) => (st1, Err(e)),
                }
            },
            _ => (st, Err(ErrorModel::NameNotIdentifier)),
        }
    }
}

/// The outcome of applying a primitive operation to an argument list: the
/// arithmetic folds are pure; the printing operations append to the output
/// and return `Nil`; `define` binds in the active scope.
pub open spec fn sp_apply(st: StateModel, op: BuiltinOp, args: Seq<ExprModel>, fuel: nat) -> (
    StateModel,
    Result<ExprModel, ErrorModel>,
)
    decreases fuel, 2int, 0int,
{
    match op {
        BuiltinOp::Display => (
            StateModel { scopes: st.scopes, output: st.output + render_args(args) },
            Ok(ExprModel::Nil),
        ),
        BuiltinOp::Println => (
            StateModel { scopes: st.scopes, output: st.output + render_args(args) + seq!['\n'] },
            Ok(ExprModel::Nil),
        ),
        BuiltinOp::Define => sp_define(st, args, fuel),
        _ => (st, spec_arith(op, op_seed(op), args)),
    }
}

/// Invoking an evaluated head as a function: only a `Function` value can
/// be called; anything else is the invalid-callee error.
pub open spec fn sp_call_expr(st: StateModel, callee: ExprModel, args: Seq<ExprModel>, fuel: nat) -> (
    StateModel,
    Result<ExprModel, ErrorModel>,
)
    decreases fuel, 3int, 0int,
{
    match callee {
        ExprModel::Function(f) => sp_apply(st, f.op, args, fuel),
        _ => (st, Err(ErrorModel::NotCallable)),
    }
}

/// Expanding an evaluated head as a macro: only a `Macro` value can be
/// expanded; anything else is the invalid-callee error.
pub open spec fn sp_expand_macro(
    st: StateModel,
    callee: ExprModel,
    args: Seq<ExprModel>,
    fuel: nat,
) -> (StateModel, Result<ExprModel, ErrorModel>)
    decreases fuel, 3int, 0int,
{
    match callee {
        ExprModel::Macro(f) => sp_apply(st, f.op, args, fuel),
        _ => (st, Err(ErrorModel::NotCallable)),
    }
}

/// Evaluating the elements of a compound form from index `i` on, left to
/// right, threading the state; the first error aborts.
pub open spec fn sp_eval_args(st: StateModel, items: Seq<ExprModel>, i: int, fuel: nat) -> (
    StateModel,
    Result<Seq<ExprModel>, ErrorModel>,
)
    decreases fuel, 1int, items.len() - i,
{
    if i < 0 || i >= items.len() {
        (st, Ok(Seq::empty()))
    } else {
        let (st1, r) = sp_eval_expr(st, items[i], fuel);
        match r {
            Ok(v) => {
                let (st2, restr) = sp_eval_args(st1, items, i + 1, fuel);
                match restr {
                    Ok(rest) => (st2, Ok(seq![v] + rest)),
                    Err(e) => (st2, Err(e)),
                }
            },
            Err(e) => (st1, Err(e)),
        }
    }
}

/// The outcome of evaluating one expression in a state, with a recursion
/// depth budget.
///
/// An identifier is looked up in the active scope (a miss names it in the
/// error); string and integer literals, callables, `Nil` and the empty
/// compound form evaluate to themselves. A non-empty compound form first
/// evaluates its head: a `Macro` head is handed the raw argument
/// expressions and its result is itself evaluated; any other head has the
/// arguments evaluated left to right and is then invoked as a function.
pub open spec fn sp_eval_expr(st: StateModel, e: ExprModel, fuel: nat) -> (
    StateModel,
    Result<ExprModel, ErrorModel>,
)
    decreases fuel, 0int, 0int,
{
    match e {
        ExprModel::SExpr(items) => {
            if items.len() == 0 {
                (st, Ok(e))
            } else if fuel == 0 {
                (st, Err(ErrorModel::DepthExceeded))
            } else {
                let (st1, head) = sp_eval_expr(st, items[0], (fuel - 1) as nat);
                match head {
                    Ok(h) => if h is Macro {
                        let (st2, expanded) = sp_expand_macro(
                            st1,
                            h,
                            items.drop_first(),
                            (fuel - 1) as nat,
                        );
                        match expanded {
                            Ok(x) => sp_eval_expr(st2, x, (fuel - 1) as nat),
                            Err(e2) => (st2, Err(e2)),
                        }
                    } else {
                        let (st2, argsr) = sp_eval_args(st1, items, 1, (fuel - 1) as nat);
                        match argsr {
                            Ok(vals) => sp_call_expr(st2, h, vals, (fuel - 1) as nat),
                            Err(e2) => (st2, Err(e2)),
                        }
                    },
                    Err(e1) => (st1, Err(e1)),
                }
            }
        },
        ExprModel::Ident(name) => match lookup_state(st, name) {
            Some(v) => (st, Ok(v)),
            None => (st, Err(ErrorModel::UnknownIdentifier(name))),
        },
        _ => (st, Ok(e)),
    }
}

/// The outcome of evaluating a whole program from statement `i` on: each
/// top-level expression in order, each with a fresh depth budget, keeping
/// only the final result (`Nil` for an empty program); the first error
/// aborts the remaining statements.
pub open spec fn sp_eval_exprs(st: StateModel, es: Seq<ExprModel>, i: int) -> (
    StateModel,
    Result<ExprModel, ErrorModel>,
)
    decreases es.len() - i,
{
    if i < 0 || i >= es.len() {
        (st, Ok(ExprModel::Nil))
    } else {
        let (st1, r) = sp_eval_expr(st, es[i], MAX_EVAL_DEPTH as nat);
        match r {
            Ok(v) => if i + 1 < es.len() {
                sp_eval_exprs(st1, es, i + 1)
            } else {
                (st1, Ok(v))
            },
            Err(e) => (st1, Err(e)),
        }
    }
}

/// Invokes an evaluated head on fully evaluated arguments; only a
/// `Function` value can be invoked.
fn call_expr(scope: &mut RuntimeThread, expr: &Expr, args: &[Expr], fuel: u64) -> (r:
    RuntimeResult)
    requires
        old(scope)@.scopes.len() > 0,
    ensures
        ({
            let (st, rr) = sp_call_expr(old(scope)@, expr@, expr_views(args@), fuel as nat);
            &&& final(scope)@ == st
            &&& (match (r, rr) {
                (Ok(v), Ok(vm)) => v@ == vm,
                (Err(e), Err(em)) => e@ == em,
                _ => false,
            })
        }),
        final(scope)@.scopes.len() == old(scope)@.scopes.len(),
    decreases fuel, 3int, 0int,
{
    match expr {
        Expr::Function(builtin) => apply_op(scope, builtin.op, args, fuel),
        _ => Err(Error::NotCallable),
    }
}

/// Hands the raw argument expressions to an evaluated head that must be a
/// `Macro`.
fn expand_macro(scope: &mut RuntimeThread, mac: &Expr, args: &[Expr], fuel: u64) -> (r:
    RuntimeResult)
    requires
        old(scope)@.scopes.len() > 0,
    ensures
        ({
            let (st, rr) = sp_expand_macro(old(scope)@, mac@, expr_views(args@), fuel as nat);
            &&& final(scope)@ == st
            &&& (match (r, rr) {
                (Ok(v), Ok(vm)) => v@ == vm,
                (Err(e), Err(em)) => e@ == em,
                _ => false,
            })
        }),
        final(scope)@.scopes.len() == old(scope)@.scopes.len(),
    decreases fuel, 3int, 0int,
{
    match mac {
        Expr::Macro(mac_fun) => apply_op(scope, mac_fun.op, args, fuel),
        _ => Err(Error::NotCallable),
    }
}

/// Performs one primitive operation on the given argument list.
fn apply_op(scope: &mut RuntimeThread, op: BuiltinOp, args: &[Expr], fuel: u64) -> (r:
    RuntimeResult)
    requires
        old(scope)@.scopes.len() > 0,
    ensures
        ({
            let (st, rr) = sp_apply(old(scope)@, op, expr_views(args@), fuel as nat);
            &&& final(scope)@ == st
            &&& (match (r, rr) {
                (Ok(v), Ok(vm)) => v@ == vm,
                (Err(e), Err(em)) => e@ == em,
                _ => false,
            })
        }),
        final(scope)@.scopes.len() == old(scope)@.scopes.len(),
    decreases fuel, 2int, 0int,
{
    match op {
        BuiltinOp::Add => perform_binary_op(args, 0, BuiltinOp::Add),
        BuiltinOp::Sub => perform_binary_op(args, 0, BuiltinOp::Sub),
        BuiltinOp::Mul => perform_binary_op(args, 1, BuiltinOp::Mul),
        BuiltinOp::Div => perform_binary_op(args, 1, BuiltinOp::Div),
        BuiltinOp::Display => do_print_builtin(scope, args),
        BuiltinOp::Println => do_println_builtin(scope, args),
        BuiltinOp::Define => do_def_macro_builtin(scope, args, fuel),
    }
}

/// Evaluates the elements of a compound form from index `start` on, left
/// to right.
fn eval_args(scope: &mut RuntimeThread, items: &Vec<Expr>, start: usize, fuel: u64) -> (r: Result<
    Vec<Expr>,
    Error,
>)
    requires
        old(scope)@.scopes.len() > 0,
        start <= items@.len(),
    ensures
        ({
            let (st, rr) = sp_eval_args(old(scope)@, expr_views(items@), start as int, fuel as nat);
            &&& final(scope)@ == st
            &&& (match (r, rr) {
                (Ok(vs), Ok(vm)) => expr_views(vs@) == vm,
                (Err(e), Err(em)) => e@ == em,
                _ => false,
            })
        }),
        final(scope)@.scopes.len() == old(scope)@.scopes.len(),
    decreases fuel, 1int, 0int,
{
    let ghost st0: StateModel = scope@;
    let ghost iv: Seq<ExprModel> = expr_views(items@);
    let mut out: Vec<Expr> = Vec::new();
    let mut i: usize = start;
    proof {
        assert(expr_views(out@) =~= Seq::<ExprModel>::empty());
    }
    while i < items.len()
        invariant
            start <= i <= items@.len(),
            iv == expr_views(items@),
            st0 == old(scope)@,
            st0.scopes.len() > 0,
            scope@.scopes.len() == st0.scopes.len(),
            ({
                let (stf, rrf) = sp_eval_args(st0, iv, start as int, fuel as nat);
                let (stc, rrc) = sp_eval_args(scope@, iv, i as int, fuel as nat);
                &&& (match rrc {
                    Ok(rest) => stf == stc && rrf == Ok::<Seq<ExprModel>, ErrorModel>(
                        expr_views(out@) + rest,
                    ),
                    Err(e) => stf == stc && rrf == Err::<Seq<ExprModel>, ErrorModel>(e),
                })
            }),
        decreases items@.len() - i,
    {
        match eval_expr_at(scope, &items[i], fuel) {
            Ok(v) => {
                proof {
                    let (st2, restr) = sp_eval_args(scope@, iv, i + 1, fuel as nat);
                    if restr is Ok {
                        let rest = restr->Ok_0;
                        assert(expr_views(out@.push(v)) =~= expr_views(out@) + seq![v@]);
                        assert((expr_views(out@) + seq![v@]) + rest =~= expr_views(out@) + (
                        seq![v@] + rest));
                    }
                }
                out.push(v);
            },
            Err(e) => {
                return Err(e);
            },
        }
        i = i + 1;
    }
    proof {
        assert(expr_views(out@) + Seq::<ExprModel>::empty() =~= expr_views(out@));
    }
    Ok(out)
}

/// Evaluates one expression with an explicit depth budget.
pub(crate) fn eval_expr_at(scope: &mut RuntimeThread, expr: &Expr, fuel: u64) -> (r: RuntimeResult)
    requires
        old(scope)@.scopes.len() > 0,
    ensures
        ({
            let (st, rr) = sp_eval_expr(old(scope)@, expr@, fuel as nat);
            &&& final(scope)@ == st
            &&& (match (r, rr) {
                (Ok(v), Ok(vm)) => v@ == vm,
                (Err(e), Err(em)) => e@ == em,
                _ => false,
            })
        }),
        final(scope)@.scopes.len() == old(scope)@.scopes.len(),
    decreases fuel, 0int, 0int,
{
    match expr {
        Expr::SExpr(items) => {
            let ghost mitems: Seq<ExprModel> = expr_views(items@);
            if items.len() == 0 {
                return Ok(expr.clone());
            }
            if fuel == 0 {
                return Err(Error::DepthExceeded);
            }
            let lead = match eval_expr_at(scope, &items[0], fuel - 1) {
                Ok(l) => l,
                Err(e) => {
                    return Err(e);
                },
            };
            match &lead {
                Expr::Macro(_) => {
                    let args = slice_subrange(items.as_slice(), 1, items.len());
                    proof {
                        assert(expr_views(args@) =~= mitems.drop_first());
                    }
                    let expanded = match expand_macro(scope, &lead, args, fuel - 1) {
                        Ok(x) => x,
                        Err(e) => {
                            return Err(e);
                        },
                    };
                    eval_expr_at(scope, &expanded, fuel - 1)
                },
                _ => {
                    let evaled = match eval_args(scope, items, 1, fuel - 1) {
                        Ok(vs) => vs,
                        Err(e) => {
                            return Err(e);
                        },
                    };
                    call_expr(scope, &lead, evaled.as_slice(), fuel - 1)
                },
            }
        },
        Expr::Ident(ident) => match scope.lookup_ident(ident.as_str()) {
            Some(value) => Ok(value.clone()),
            None => Err(Error::UnknownIdentifier(ident.clone())),
        },
        _ => Ok(expr.clone()),
    }
}

/// Evaluates one expression against the environment, with the default
/// depth budget.
pub fn eval_expr(scope: &mut RuntimeThread, expr: &Expr) -> (r: RuntimeResult)
    requires
        old(scope)@.scopes.len() > 0,
    ensures
        ({
            let (st, rr) = sp_eval_expr(old(scope)@, expr@, MAX_EVAL_DEPTH as nat);
            &&& final(scope)@ == st
            &&& (match (r, rr) {
                (Ok(v), Ok(vm)) => v@ == vm,
                (Err(e), Err(em)) => e@ == em,
                _ => false,
            })
        }),
        final(scope)@.scopes.len() == old(scope)@.scopes.len(),
{
    eval_expr_at(scope, expr, MAX_EVAL_DEPTH)
}

/// Evaluates a whole program: each top-level expression in order,
/// discarding all but the final result (`Nil` for an empty program); the
/// first error aborts the remaining statements.
pub fn eval(scope: &mut RuntimeThread, exprs: Vec<Expr>) -> (r: RuntimeResult)
    requires
        old(scope)@.scopes.len() > 0,
    ensures
        ({
            let (st, rr) = sp_eval_exprs(old(scope)@, expr_views(exprs@), 0);
            &&& final(scope)@ == st
            &&& (match (r, rr) {
                (Ok(v), Ok(vm)) => v@ == vm,
                (Err(e), Err(em)) => e@ == em,
                _ => false,
            })
        }),
        final(scope)@.scopes.len() == old(scope)@.scopes.len(),
{
    let ghost st0: StateModel = scope@;
    let ghost ev: Seq<ExprModel> = expr_views(exprs@);
    let mut last_expr = Expr::Nil;
    let mut i: usize = 0;

    while i < exprs.len()
        invariant
            i <= exprs@.len(),
            ev == expr_views(exprs@),
            st0 == old(scope)@,
            st0.scopes.len() > 0,
            scope@.scopes.len() == st0.scopes.len(),
            i == 0 ==> last_expr@ == ExprModel::Nil,
            (if i < ev.len() || ev.len() == 0 {
                sp_eval_exprs(st0, ev, 0) == sp_eval_exprs(scope@, ev, i as int)
            } else {
                sp_eval_exprs(st0, ev, 0) == (scope@, Ok::<ExprModel, ErrorModel>(last_expr@))
            }),
        decreases exprs@.len() - i,
    {
        match eval_expr_at(scope, &exprs[i], MAX_EVAL_DEPTH) {
            Ok(v) => {
                last_expr = v;
            },
            Err(e) => {
                return Err(e);
            },
        }
        i = i + 1;
    }
    Ok(last_expr)
}

/// Evaluating arguments that are all integer literals changes nothing and
/// returns exactly those literals.
proof fn lemma_eval_args_integers(st: StateModel, items: Seq<ExprModel>, i: int, fuel: nat)
    requires
        0 <= i <= items.len(),
        forall|k: int| i <= k < items.len() ==> (#[trigger] items[k]) is Integer,
    ensures
        sp_eval_args(st, items, i, fuel) == (
            st,
            Ok::<Seq<ExprModel>, ErrorModel>(items.subrange(i, items.len() as int)),
        ),
    decreases items.len() - i,
{
    if i >= items.len() {
        assert(items.subrange(i, items.len() as int) =~= Seq::<ExprModel>::empty());
    } else {
        lemma_eval_args_integers(st, items, i + 1, fuel);
        assert(items[i] is Integer);
        assert(sp_eval_expr(st, items[i], fuel) == (st, Ok::<ExprModel, ErrorModel>(items[i])));
        assert(seq![items[i]] + items.subrange(i + 1, items.len() as int) =~= items.subrange(
            i,
            items.len() as int,
        ));
        assert(sp_eval_args(st, items, i, fuel) == (
            st,
            Ok::<Seq<ExprModel>, ErrorModel>(seq![items[i]] + items.subrange(i + 1, items.len() as int)),
        ));
    }
}

/// Law: a well-formed arithmetic call whose arguments are all integer
/// literals is a pure fold. Evaluating it leaves the whole state (scopes
/// and output) unchanged, and its result is exactly the fold of the
/// operation over its seed and the argument values — a function of the
/// arguments alone, so the result is deterministic and independent of
/// evaluator internals.
pub proof fn lemma_arith_call_pure(
    st: StateModel,
    name: Seq<char>,
    f: FunctionModel,
    items: Seq<ExprModel>,
    fuel: nat,
)
    requires
        fuel >= 1,
        lookup_state(st, name) == Some(ExprModel::Function(f)),
        f.op is Add || f.op is Sub || f.op is Mul || f.op is Div,
        items.len() >= 1,
        items[0] == ExprModel::Ident(name),
        forall|k: int| 1 <= k < items.len() ==> (#[trigger] items[k]) is Integer,
    ensures
        sp_eval_expr(st, ExprModel::SExpr(items), fuel) == (
            st,
            spec_arith(f.op, op_seed(f.op), items.drop_first()),
        ),
{
    let sub = (fuel - 1) as nat;
    let vals = items.subrange(1, items.len() as int);
    assert(sp_eval_expr(st, items[0], sub) == (
        st,
        Ok::<ExprModel, ErrorModel>(ExprModel::Function(f)),
    ));
    lemma_eval_args_integers(st, items, 1, sub);
    assert(sp_call_expr(st, ExprModel::Function(f), vals, sub) == (
        st,
        spec_arith(f.op, op_seed(f.op), vals),
    ));
    assert(vals =~= items.drop_first());
    assert(sp_eval_expr(st, ExprModel::SExpr(items), fuel) == (
        st,
        spec_arith(f.op, op_seed(f.op), vals),
    ));
}

/// Law: the printing built-ins are idempotent with respect to the
/// environment and deterministic in what they print. Evaluating
/// `(display "…")` appends exactly the literal's text to the output and
/// never mutates any scope; evaluating it a second time appends the same
/// text again.
pub proof fn lemma_display_idempotent(
    st: StateModel,
    name: Seq<char>,
    f: FunctionModel,
    s: Seq<char>,
    fuel: nat,
)
    requires
        fuel >= 1,
        lookup_state(st, name) == Some(ExprModel::Function(f)),
        f.op is Display,
    ensures
        ({
            let e = ExprModel::SExpr(seq![ExprModel::Ident(name), ExprModel::StrLit(s)]);
            let (st1, r1) = sp_eval_expr(st, e, fuel);
            let (st2, r2) = sp_eval_expr(st1, e, fuel);
            &&& st1.scopes == st.scopes
            &&& st2.scopes == st.scopes
            &&& r1 == Ok::<ExprModel, ErrorModel>(ExprModel::Nil)
            &&& r2 == r1
            &&& st1.output == st.output + s
            &&& st2.output == st1.output + s
        }),
{
    let e = ExprModel::SExpr(seq![ExprModel::Ident(name), ExprModel::StrLit(s)]);
    let items = seq![ExprModel::Ident(name), ExprModel::StrLit(s)];
    lemma_display_step(st, name, f, s, fuel);
    let (st1, r1) = sp_eval_expr(st, e, fuel);
    assert(lookup_state(st1, name) == Some(ExprModel::Function(f)));
    lemma_display_step(st1, name, f, s, fuel);
}

/// One evaluation of `(display "…")`: appends the text, returns `Nil`,
/// leaves the scopes alone.
proof fn lemma_display_step(
    st: StateModel,
    name: Seq<char>,
    f: FunctionModel,
    s: Seq<char>,
    fuel: nat,
)
    requires
        fuel >= 1,
        lookup_state(st, name) == Some(ExprModel::Function(f)),
        f.op is Display,
    ensures
        sp_eval_expr(
            st,
            ExprModel::SExpr(seq![ExprModel::Ident(name), ExprModel::StrLit(s)]),
            fuel,
        ) == (
            StateModel { scopes: st.scopes, output: st.output + s },
            Ok::<ExprModel, ErrorModel>(ExprModel::Nil),
        ),
{
    let items = seq![ExprModel::Ident(name), ExprModel::StrLit(s)];
    let lit = ExprModel::StrLit(s);
    assert(items.len() == 2 && items[0] == ExprModel::Ident(name) && items[1] == lit);
    let sub = (fuel - 1) as nat;
    assert(sp_eval_expr(st, items[0], sub) == (
        st,
        Ok::<ExprModel, ErrorModel>(ExprModel::Function(f)),
    ));
    assert(sp_eval_args(st, items, 2, sub) == (st, Ok::<Seq<ExprModel>, ErrorModel>(Seq::empty())));
    assert(sp_eval_expr(st, items[1], sub) == (st, Ok::<ExprModel, ErrorModel>(lit)));
    assert(sp_eval_args(st, items, 1, sub) == (
        st,
        Ok::<Seq<ExprModel>, ErrorModel>(seq![lit] + Seq::empty()),
    ));
    assert(seq![lit] + Seq::<ExprModel>::empty() =~= seq![lit]);
    assert(render_args(seq![lit]) =~= s) by {
        assert(seq![lit].drop_last() =~= Seq::<ExprModel>::empty());
        assert(render_args(Seq::<ExprModel>::empty()) + render_expr(lit) =~= s);
    }
    assert(sp_call_expr(st, ExprModel::Function(f), seq![lit], sub) == (
        StateModel { scopes: st.scopes, output: st.output + render_args(seq![lit]) },
        Ok::<ExprModel, ErrorModel>(ExprModel::Nil),
    ));
    assert(st.output + render_args(seq![lit]) =~= st.output + s);
    assert(StateModel { scopes: st.scopes, output: st.output + render_args(seq![lit]) } =~= (
    StateModel { scopes: st.scopes, output: st.output + s }));
    assert(sp_eval_expr(
        st,
        ExprModel::SExpr(seq![ExprModel::Ident(name), ExprModel::StrLit(s)]),
        fuel,
    ) == (
        StateModel { scopes: st.scopes, output: st.output + s },
        Ok::<ExprModel, ErrorModel>(ExprModel::Nil),
    ));
}

} // verus!
