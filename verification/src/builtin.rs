//! The built-in registry and the semantics of the primitive operations:
//! variadic integer folds for `+ - * /`, rendering for the printing
//! built-ins, and the registration of every primitive into a fresh
//! environment.

use vstd::prelude::*;

use crate::runtime::expr_views;
use crate::runtime::BuiltInFun;
use crate::runtime::BuiltinOp;
use crate::runtime::Error;
use crate::runtime::ErrorModel;
use crate::runtime::Expr;
use crate::runtime::ExprModel;
use crate::runtime::Function;
use crate::runtime::FunctionModel;
use crate::runtime::RuntimeResult;
use crate::runtime::RuntimeThread;
use crate::runtime::StateModel;

verus! {

// ---------------------------------------------------------------------
// Decimal rendering of integers
// ---------------------------------------------------------------------

/// The decimal digit character for a value in 0 ..= 9.
pub open spec fn dec_digit(d: int) -> char {
    if d == 0 {
        '0'
    } else if d == 1 {
        '1'
    } else if d == 2 {
        '2'
    } else if d == 3 {
        '3'
    } else if d == 4 {
        '4'
    } else if d == 5 {
        '5'
    } else if d == 6 {
        '6'
    } else if d == 7 {
        '7'
    } else if d == 8 {
        '8'
    } else {
        '9'
    }
}

/// The decimal numeral of a nonnegative number, most significant digit
/// first, without leading zeros (except for the number zero itself).
pub open spec fn dec_nat(n: int) -> Seq<char>
    decreases n,
{
    if n < 10 {
        seq![dec_digit(n)]
    } else {
        dec_nat(n / 10).push(dec_digit(n % 10))
    }
}

/// The decimal numeral of an integer, with a leading minus sign when
/// negative.
pub open spec fn dec_int(n: int) -> Seq<char> {
    if n < 0 {
        seq!['-'] + dec_nat(-n)
    } else {
        dec_nat(n)
    }
}

/// The decimal digit character of a value below ten.
fn digit_char(d: u64) -> (c: char)
    requires
        d < 10,
    ensures
        c == dec_digit(d as int),
{
    if d == 0 {
        '0'
    } else if d == 1 {
        '1'
    } else if d == 2 {
        '2'
    } else if d == 3 {
        '3'
    } else if d == 4 {
        '4'
    } else if d == 5 {
        '5'
    } else if d == 6 {
        '6'
    } else if d == 7 {
        '7'
    } else if d == 8 {
        '8'
    } else {
        '9'
    }
}

/// Appends the decimal numeral of a nonnegative number to the buffer.
fn push_u64_dec(out: &mut Vec<char>, m: u64)
    ensures
        final(out)@ == old(out)@ + dec_nat(m as int),
    decreases m,
{
    if m < 10 {
        out.push(digit_char(m));
        proof {
            assert(old(out)@.push(dec_digit(m as int)) =~= old(out)@ + dec_nat(m as int));
        }
    } else {
        push_u64_dec(out, m / 10);
        out.push(digit_char(m % 10));
        proof {
            assert((old(out)@ + dec_nat(m as int / 10)).push(dec_digit(m as int % 10)) =~= old(
                out,
            )@ + dec_nat(m as int));
        }
    }
}

/// Appends the decimal numeral of an integer to the buffer.
fn push_i64_dec(out: &mut Vec<char>, n: i64)
    ensures
        final(out)@ == old(out)@ + dec_int(n as int),
{
    if n >= 0 {
        push_u64_dec(out, n as u64);
    } else {
        out.push('-');
        let wide: i128 = -(n as i128);
        proof {
            assert(0 <= wide <= u64::MAX);
        }
        push_u64_dec(out, wide as u64);
        proof {
            assert(old(out)@.push('-') + dec_nat(-(n as int)) =~= old(out)@ + dec_int(n as int));
        }
    }
}

// ---------------------------------------------------------------------
// Rendering of values for the printing built-ins
// ---------------------------------------------------------------------

/// How one value is rendered: compound forms print as a generic
/// placeholder, identifiers and string literals print their raw text, and
/// every other kind prints its debug form.
pub open spec fn render_expr(e: ExprModel) -> Seq<char> {
    match e {
        ExprModel::SExpr(_) => "()"@,
        ExprModel::Ident(s) => s,
        ExprModel::StrLit(s) => s,
        ExprModel::Function(f) => "Function("@ + f.name + ")"@,
        ExprModel::Macro(f) => "Macro("@ + f.name + ")"@,
        ExprModel::Integer(n) => "Integer("@ + dec_int(n as int) + ")"@,
        ExprModel::Nil => "Nil"@,
    }
}

/// The rendering of a whole argument list, in order.
pub open spec fn render_args(args: Seq<ExprModel>) -> Seq<char>
    decreases args.len(),
{
    if args.len() == 0 {
        Seq::empty()
    } else {
        render_args(args.drop_last()) + render_expr(args.last())
    }
}

/// Appends the characters of a string slice to the buffer.
fn push_str_chars(out: &mut Vec<char>, s: &str)
    ensures
        final(out)@ == old(out)@ + s@,
{
    let ghost orig: Seq<char> = out@;
    let n = s.unicode_len();
    let mut i: usize = 0;
    proof {
        assert(orig + s@.take(0) =~= orig);
    }
    while i < n
        invariant
            n == s@.len(),
            i <= n,
            out@ == orig + s@.take(i as int),
        decreases n - i,
    {
        let c = s.get_char(i);
        out.push(c);
        proof {
            assert((orig + s@.take(i as int)).push(s@[i as int]) =~= orig + s@.take(i + 1));
        }
        i = i + 1;
    }
    proof {
        assert(s@.take(n as int) =~= s@);
    }
}

/// Renders one value onto the buffer.
fn render_expr_onto(out: &mut Vec<char>, e: &Expr)
    ensures
        final(out)@ == old(out)@ + render_expr(e@),
{
    match e {
        Expr::SExpr(_) => push_str_chars(out, "()"),
        Expr::Ident(s) => push_str_chars(out, s.as_str()),
        Expr::StrLit(s) => push_str_chars(out, s.as_str()),
        Expr::Function(f) => {
            push_str_chars(out, "Function(");
            push_str_chars(out, f.name.as_str());
            push_str_chars(out, ")");
            proof {
                assert(old(out)@ + "Function("@ + f.name@ + ")"@ =~= old(out)@ + ("Function("@
                    + f.name@ + ")"@));
            }
        },
        Expr::Macro(f) => {
            push_str_chars(out, "Macro(");
            push_str_chars(out, f.name.as_str());
            push_str_chars(out, ")");
            proof {
                assert(old(out)@ + "Macro("@ + f.name@ + ")"@ =~= old(out)@ + ("Macro("@ + f.name@
                    + ")"@));
            }
        },
        Expr::Integer(n) => {
            push_str_chars(out, "Integer(");
            push_i64_dec(out, *n);
            push_str_chars(out, ")");
            proof {
                assert(old(out)@ + "Integer("@ + dec_int(*n as int) + ")"@ =~= old(out)@ + (
                "Integer("@ + dec_int(*n as int) + ")"@));
            }
        },
        Expr::Nil => push_str_chars(out, "Nil"),
    }
}

// ---------------------------------------------------------------------
// Variadic integer folds
// ---------------------------------------------------------------------

/// Converts one evaluated argument to an integer; anything but an
/// `Integer` is the type-mismatch error.
fn expr_to_int(expr: &Expr) -> (r: Result<i64, Error>)
    ensures
        (match r {
            Ok(v) => expr@ == ExprModel::Integer(v),
            Err(e) => !(expr@ is Integer) && e@ == ErrorModel::NotAnInteger,
        }),
{
    match expr {
        Expr::Integer(v) => Ok(*v),
        _ => Err(Error::NotAnInteger),
    }
}

/// The integers behind an argument list, or the type-mismatch error if any
/// argument is not an integer (the arguments are inspected left to right).
pub open spec fn spec_args_to_ints(args: Seq<ExprModel>) -> Result<Seq<i64>, ErrorModel>
    decreases args.len(),
{
    if args.len() == 0 {
        Ok(Seq::empty())
    } else {
        match args.first() {
            ExprModel::Integer(v) => match spec_args_to_ints(args.drop_first()) {
                Ok(rest) => Ok(seq![v] + rest),
                Err(e) => Err(e),
            },
            _ => Err(ErrorModel::NotAnInteger),
        }
    }
}

/// The quotient of truncating division (rounding toward zero), as the
/// machine division instruction computes it.
pub open spec fn trunc_div(x: int, d: int) -> int
    recommends
        d != 0,
{
    if x >= 0 && d > 0 {
        x / d
    } else if x < 0 && d < 0 {
        (-x) / (-d)
    } else if x < 0 {
        -((-x) / d)
    } else {
        -(x / (-d))
    }
}

/// Truncating division wrapped into the 64-bit range: the one overflowing
/// case (`i64::MIN / -1`) wraps to `i64::MIN`.
pub open spec fn wrap_div(a: i64, b: i64) -> i64
    recommends
        b != 0,
{
    if a == i64::MIN && b == -1 {
        i64::MIN
    } else {
        trunc_div(a as int, b as int) as i64
    }
}

/// Left fold of an arithmetic operation over the seed and the integer
/// arguments in order; addition, subtraction and multiplication wrap on
/// overflow, and a zero divisor is a runtime error.
pub open spec fn spec_fold(op: BuiltinOp, acc: i64, vals: Seq<i64>) -> Result<i64, ErrorModel>
    decreases vals.len(),
{
    if vals.len() == 0 {
        Ok(acc)
    } else {
        let v = vals.first();
        match op {
            BuiltinOp::Add => spec_fold(op, acc.wrapping_add(v), vals.drop_first()),
            BuiltinOp::Sub => spec_fold(op, acc.wrapping_sub(v), vals.drop_first()),
            BuiltinOp::Mul => spec_fold(op, acc.wrapping_mul(v), vals.drop_first()),
            BuiltinOp::Div => if v == 0 {
                Err(ErrorModel::DivisionByZero)
            } else {
                spec_fold(op, wrap_div(acc, v), vals.drop_first())
            },
            _ => Ok(acc),
        }
    }
}

/// The identity seed of an arithmetic operation: 0 for addition and
/// subtraction, 1 for multiplication and division, folded before the first
/// operand (so `(- 5)` is `0 - 5` and `(/ 6 2)` is `(1 / 6) / 2`).
pub open spec fn op_seed(op: BuiltinOp) -> i64 {
    match op {
        BuiltinOp::Mul => 1,
        BuiltinOp::Div => 1,
        _ => 0,
    }
}

/// The outcome of one whole arithmetic call: every argument converted to
/// an integer, then the fold applied over the seed.
pub open spec fn spec_arith(op: BuiltinOp, init: i64, args: Seq<ExprModel>) -> Result<
    ExprModel,
    ErrorModel,
> {
    match spec_args_to_ints(args) {
        Ok(vals) => match spec_fold(op, init, vals) {
            Ok(v) => Ok(ExprModel::Integer(v)),
            Err(e) => Err(e),
        },
        Err(e) => Err(e),
    }
}

/// A quotient of nonnegative by positive stays between zero and the
/// dividend.
proof fn lemma_div_bounds(a: int, b: int)
    by (nonlinear_arith)
    requires
        a >= 0,
        b >= 1,
    ensures
        0 <= a / b <= a,
{
}

/// Dividing by at least two at most halves a nonnegative dividend.
proof fn lemma_div_shrinks(a: int, b: int)
    by (nonlinear_arith)
    requires
        a >= 0,
        b >= 2,
    ensures
        a / b <= a / 2,
{
}

/// The division instruction's behavior on a nonzero divisor: the
/// truncating quotient, wrapping in the one overflowing case.
fn wrap_div_exec(a: i64, b: i64) -> (q: i64)
    requires
        b != 0,
    ensures
        q == wrap_div(a, b),
{
    let q = match a.checked_div(b) {
        Some(q0) => q0,
        None => i64::MIN,
    };
    proof {
        let x = a as int;
        let d = b as int;
        if x >= 0 && d > 0 {
            lemma_div_bounds(x, d);
            if d >= 2 {
                lemma_div_shrinks(x, d);
            }
        } else if x < 0 && d < 0 {
            lemma_div_bounds(-x, -d);
            if -d >= 2 {
                lemma_div_shrinks(-x, -d);
            }
        } else if x < 0 {
            lemma_div_bounds(-x, d);
            if d >= 2 {
                lemma_div_shrinks(-x, d);
            }
        } else {
            lemma_div_bounds(x, -d);
            if -d >= 2 {
                lemma_div_shrinks(x, -d);
            }
        }
        assert((0x8000_0000_0000_0000int) / 1int == 0x8000_0000_0000_0000int);
        if a == i64::MIN && b == -1 {
            assert(q == i64::MIN);
        }
        assert(q == wrap_div(a, b));
    }
    q
}

/// Converts every argument to an integer, left to right, stopping at the
/// first non-integer.
fn args_to_ints(args: &[Expr]) -> (r: Result<Vec<i64>, Error>)
    ensures
        (match r {
            Ok(vals) => spec_args_to_ints(expr_views(args@)) == Ok::<_, ErrorModel>(vals@),
            Err(e) => spec_args_to_ints(expr_views(args@)) == Err::<Seq<i64>, _>(e@),
        }),
{
    let ghost av = expr_views(args@);
    let mut vals: Vec<i64> = Vec::new();
    let mut i: usize = 0;
    proof {
        assert(av.skip(0) =~= av);
    }
    while i < args.len()
        invariant
            i <= args@.len(),
            av == expr_views(args@),
            (match spec_args_to_ints(av.skip(i as int)) {
                Ok(rest) => spec_args_to_ints(av) == Ok::<_, ErrorModel>(vals@ + rest),
                Err(e) => spec_args_to_ints(av) == Err::<Seq<i64>, _>(e),
            }),
        decreases args@.len() - i,
    {
        proof {
            assert(av.skip(i as int).first() == args@[i as int]@);
            assert(av.skip(i as int).drop_first() =~= av.skip(i + 1));
        }
        match expr_to_int(&args[i]) {
            Ok(v) => {
                proof {
                    if spec_args_to_ints(av.skip(i + 1)) is Ok {
                        let rest = spec_args_to_ints(av.skip(i + 1))->Ok_0;
                        assert(vals@.push(v) + rest =~= vals@ + (seq![v] + rest));
                    }
                }
                vals.push(v);
            },
            Err(e) => {
                return Err(e);
            },
        }
        i = i + 1;
    }
    proof {
        assert(av.skip(av.len() as int) =~= Seq::<ExprModel>::empty());
        assert(vals@ + Seq::<i64>::empty() =~= vals@);
    }
    Ok(vals)
}

/// Performs one whole arithmetic call: converts the arguments, then folds
/// the operation left to right over the seed and the values.
pub(crate) fn perform_binary_op(args: &[Expr], init: i64, op: BuiltinOp) -> (r: RuntimeResult)
    ensures
        (match r {
            Ok(v) => spec_arith(op, init, expr_views(args@)) == Ok::<_, ErrorModel>(v@),
            Err(e) => spec_arith(op, init, expr_views(args@)) == Err::<ExprModel, _>(e@),
        }),
{
    let vals = match args_to_ints(args) {
        Ok(vals) => vals,
        Err(e) => {
            return Err(e);
        },
    };
    let ghost whole: Seq<i64> = vals@;
    let mut acc: i64 = init;
    let mut i: usize = 0;
    proof {
        assert(whole.skip(0) =~= whole);
    }
    while i < vals.len()
        invariant
            i <= vals@.len(),
            whole == vals@,
            spec_args_to_ints(expr_views(args@)) == Ok::<_, ErrorModel>(whole),
            spec_fold(op, init, whole) == spec_fold(op, acc, whole.skip(i as int)),
        decreases vals@.len() - i,
    {
        proof {
            assert(whole.skip(i as int).first() == whole[i as int]);
            assert(whole.skip(i as int).drop_first() =~= whole.skip(i + 1));
        }
        let v = vals[i];
        match op {
            BuiltinOp::Add => {
                acc = acc.wrapping_add(v);
            },
            BuiltinOp::Sub => {
                acc = acc.wrapping_sub(v);
            },
            BuiltinOp::Mul => {
                acc = acc.wrapping_mul(v);
            },
            BuiltinOp::Div => {
                if v == 0 {
                    return Err(Error::DivisionByZero);
                }
                acc = wrap_div_exec(acc, v);
            },
            _ => {
                return Ok(Expr::from(acc));
            },
        }
        i = i + 1;
    }
    proof {
        assert(whole.skip(whole.len() as int) =~= Seq::<i64>::empty());
    }
    Ok(Expr::from(acc))
}

// ---------------------------------------------------------------------
// Printing built-ins
// ---------------------------------------------------------------------

/// Renders every argument onto the output buffer, in order; always
/// succeeds with `Nil` and never touches the scopes.
pub(crate) fn do_print_builtin(scope: &mut RuntimeThread, args: &[Expr]) -> (r: RuntimeResult)
    ensures
        final(scope)@.scopes == old(scope)@.scopes,
        final(scope)@.output == old(scope)@.output + render_args(expr_views(args@)),
        r == Ok::<Expr, Error>(Expr::Nil),
{
    let ghost orig: StateModel = scope@;
    let mut i: usize = 0;
    proof {
        assert(render_args(expr_views(args@).take(0)) =~= Seq::<char>::empty());
        assert(orig.output + Seq::<char>::empty() =~= orig.output);
    }
    while i < args.len()
        invariant
            i <= args@.len(),
            orig.scopes == scope@.scopes,
            scope@.output == orig.output + render_args(expr_views(args@).take(i as int)),
        decreases args@.len() - i,
    {
        render_expr_onto(&mut scope.output, &args[i]);
        proof {
            assert(expr_views(args@).take(i + 1).drop_last() =~= expr_views(args@).take(i as int));
            assert(expr_views(args@).take(i + 1).last() == args@[i as int]@);
            assert(orig.output + render_args(expr_views(args@).take(i as int)) + render_expr(
                args@[i as int]@,
            ) =~= orig.output + render_args(expr_views(args@).take(i + 1)));
        }
        i = i + 1;
    }
    proof {
        assert(expr_views(args@).take(args@.len() as int) =~= expr_views(args@));
    }
    Ok(Expr::Nil)
}

/// Renders every argument, then a line break; always succeeds with `Nil`
/// and never touches the scopes.
pub(crate) fn do_println_builtin(scope: &mut RuntimeThread, args: &[Expr]) -> (r: RuntimeResult)
    ensures
        final(scope)@.scopes == old(scope)@.scopes,
        final(scope)@.output == old(scope)@.output + render_args(expr_views(args@)) + seq!['\n'],
        r == Ok::<Expr, Error>(Expr::Nil),
{
    let res = do_print_builtin(scope, args);
    scope.output.push('\n');
    proof {
        assert((old(scope)@.output + render_args(expr_views(args@))).push('\n') =~= old(
            scope,
        )@.output + render_args(expr_views(args@)) + seq!['\n']);
    }
    res
}

// ---------------------------------------------------------------------
// The define macro
// ---------------------------------------------------------------------

/// The `define` macro: exactly two unevaluated arguments, the first an
/// identifier; evaluates the second, binds the resulting value to the name
/// in the active scope, and returns that value.
pub(crate) fn do_def_macro_builtin(scope: &mut RuntimeThread, args: &[Expr], fuel: u64) -> (r:
    RuntimeResult)
    requires
        old(scope)@.scopes.len() > 0,
    ensures
        ({
            let (st, rr) = crate::interp::sp_define(old(scope)@, expr_views(args@), fuel as nat);
            &&& final(scope)@ == st
            &&& (match (r, rr) {
                (Ok(v), Ok(vm)) => v@ == vm,
                (Err(e), Err(em)) => e@ == em,
                _ => false,
            })
        }),
        final(scope)@.scopes.len() == old(scope)@.scopes.len(),
    decreases fuel, 1int, 0int,
{
    if args.len() != 2 {
        return Err(Error::WrongArgumentCount(args.len()));
    }
    let name = match &args[0] {
        Expr::Ident(s) => s,
        _ => {
            return Err(Error::NameNotIdentifier);
        },
    };
    let value = match crate::interp::eval_expr_at(scope, &args[1], fuel) {
        Ok(v) => v,
        Err(e) => {
            return Err(e);
        },
    };
    scope.def(name.as_str(), &value);
    Ok(value)
}

// ---------------------------------------------------------------------
// Registration
// ---------------------------------------------------------------------

/// The model of a registered function binding.
pub open spec fn builtin_fn_value(name: Seq<char>, op: BuiltinOp) -> ExprModel {
    ExprModel::Function(FunctionModel { name: name, op: op })
}

/// The model of a registered macro binding.
pub open spec fn builtin_macro_value(name: Seq<char>, op: BuiltinOp) -> ExprModel {
    ExprModel::Macro(FunctionModel { name: name, op: op })
}

/// Registers a primitive as a function (arguments evaluated before the
/// call) in the active scope.
fn reg_fn(scope: &mut RuntimeThread, b: BuiltInFun<'_>)
    requires
        old(scope)@.scopes.len() > 0,
    ensures
        final(scope)@ == crate::runtime::define_in_state(
            old(scope)@,
            b.name@,
            builtin_fn_value(b.name@, b.op),
        ),
{
    let value = Expr::Function(Function { name: b.name.to_owned(), op: b.op });
    scope.def(b.name, &value);
}

/// Registers a primitive as a macro (arguments handed over unevaluated)
/// in the active scope.
fn reg_macro(scope: &mut RuntimeThread, b: BuiltInFun<'_>)
    requires
        old(scope)@.scopes.len() > 0,
    ensures
        final(scope)@ == crate::runtime::define_in_state(
            old(scope)@,
            b.name@,
            builtin_macro_value(b.name@, b.op),
        ),
{
    let value = Expr::Macro(Function { name: b.name.to_owned(), op: b.op });
    scope.def(b.name, &value);
}

/// Registers an arithmetic fold; it is an ordinary function whose seed is
/// determined by the operation itself.
fn reg_bin_op(scope: &mut RuntimeThread, b: BuiltInFun<'_>)
    requires
        old(scope)@.scopes.len() > 0,
    ensures
        final(scope)@ == crate::runtime::define_in_state(
            old(scope)@,
            b.name@,
            builtin_fn_value(b.name@, b.op),
        ),
{
    reg_fn(scope, b);
}

/// The bindings that the registry adds to a scope, in registration order.
pub open spec fn builtin_defs(base: Map<Seq<char>, ExprModel>) -> Map<Seq<char>, ExprModel> {
    base.insert("+"@, builtin_fn_value("+"@, BuiltinOp::Add)).insert(
        "-"@,
        builtin_fn_value("-"@, BuiltinOp::Sub),
    ).insert("*"@, builtin_fn_value("*"@, BuiltinOp::Mul)).insert(
        "/"@,
        builtin_fn_value("/"@, BuiltinOp::Div),
    ).insert("display"@, builtin_fn_value("display"@, BuiltinOp::Display)).insert(
        "println"@,
        builtin_fn_value("println"@, BuiltinOp::Println),
    ).insert("define"@, builtin_macro_value("define"@, BuiltinOp::Define))
}

/// The state of a fresh evaluation session: one scope holding exactly the
/// built-in bindings, and an empty output buffer.
pub open spec fn initial_state() -> StateModel {
    StateModel { scopes: seq![builtin_defs(Map::empty())], output: Seq::empty() }
}

/// Seeds the active scope with every primitive: the four arithmetic
/// folds, the two printing functions, and the `define` macro.
pub fn add_builtins(scope: &mut RuntimeThread)
    requires
        old(scope)@.scopes.len() > 0,
    ensures
        final(scope)@.scopes == old(scope)@.scopes.update(
            old(scope)@.scopes.len() - 1,
            builtin_defs(old(scope)@.scopes.last()),
        ),
        final(scope)@.output == old(scope)@.output,
{
    reg_bin_op(scope, BuiltInFun { name: "+", op: BuiltinOp::Add });
    reg_bin_op(scope, BuiltInFun { name: "-", op: BuiltinOp::Sub });
    reg_bin_op(scope, BuiltInFun { name: "*", op: BuiltinOp::Mul });
    reg_bin_op(scope, BuiltInFun { name: "/", op: BuiltinOp::Div });
    reg_fn(scope, BuiltInFun { name: "display", op: BuiltinOp::Display });
    reg_fn(scope, BuiltInFun { name: "println", op: BuiltinOp::Println });
    reg_macro(scope, BuiltInFun { name: "define", op: BuiltinOp::Define });
    proof {
        assert(final(scope)@.scopes =~= old(scope)@.scopes.update(
            old(scope)@.scopes.len() - 1,
            builtin_defs(old(scope)@.scopes.last()),
        ));
    }
}

} // verus!
