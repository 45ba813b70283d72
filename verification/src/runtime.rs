//! Runtime representation of the language: the error taxonomy shared by all
//! stages, the value model `Expr`, callables, and the environment (a stack of
//! scopes mapping names to values, where only the active — topmost — scope is
//! searched and written).

use vstd::prelude::*;

use crate::tokenizer::Token;
use crate::tokenizer::TokenModel;

verus! {

/// Mathematical image of an [`Error`]: text is a sequence of characters,
/// counts are unbounded integers.
pub enum ErrorModel {
    UnterminatedString,
    UnexpectedToken,
    UnexpectedEndOfInput,
    MismatchedDelimiters(TokenModel, TokenModel),
    UnknownIdentifier(Seq<char>),
    NotAnInteger,
    DivisionByZero,
    WrongArgumentCount(int),
    NameNotIdentifier,
    NotCallable,
    DepthExceeded,
}

/// Everything that can go wrong while running a program, fail-fast at every
/// stage.
///
/// Lexical errors: [`Error::UnterminatedString`].
/// Parse errors: [`Error::UnexpectedToken`], [`Error::UnexpectedEndOfInput`]
/// and [`Error::MismatchedDelimiters`] (which names the opening and closing
/// delimiter that failed to pair).
/// Runtime errors: the rest — an identifier with no binding, a non-integer
/// argument to an arithmetic built-in, a division whose divisor is zero, a
/// wrong argument count to `define` (naming the actual count), a `define`
/// whose first argument is not an identifier, an attempt to invoke a value
/// that is neither function nor macro, and evaluation nested beyond the
/// fixed depth limit.
#[derive(Debug, PartialEq, Eq)]
pub enum Error {
    UnterminatedString,
    UnexpectedToken,
    UnexpectedEndOfInput,
    MismatchedDelimiters(Token, Token),
    UnknownIdentifier(String),
    NotAnInteger,
    DivisionByZero,
    WrongArgumentCount(usize),
    NameNotIdentifier,
    NotCallable,
    DepthExceeded,
}

impl Clone for Error {
    /// A structural copy equal to the original.
    fn clone(&self) -> (r: Error)
        ensures
            r == *self,
    {
        match self {
            Error::UnterminatedString => Error::UnterminatedString,
            Error::UnexpectedToken => Error::UnexpectedToken,
            Error::UnexpectedEndOfInput => Error::UnexpectedEndOfInput,
            Error::MismatchedDelimiters(open_tok, close_tok) => Error::MismatchedDelimiters(
                open_tok.clone(),
                close_tok.clone(),
            ),
            Error::UnknownIdentifier(name) => Error::UnknownIdentifier(name.clone()),
            Error::NotAnInteger => Error::NotAnInteger,
            Error::DivisionByZero => Error::DivisionByZero,
            Error::WrongArgumentCount(n) => Error::WrongArgumentCount(*n),
            Error::NameNotIdentifier => Error::NameNotIdentifier,
            Error::NotCallable => Error::NotCallable,
            Error::DepthExceeded => Error::DepthExceeded,
        }
    }
}

impl View for Error {
    type V = ErrorModel;

    open spec fn view(&self) -> ErrorModel {
        match self {
            Error::UnterminatedString => ErrorModel::UnterminatedString,
            Error::UnexpectedToken => ErrorModel::UnexpectedToken,
            Error::UnexpectedEndOfInput => ErrorModel::UnexpectedEndOfInput,
            Error::MismatchedDelimiters(open_tok, close_tok) => ErrorModel::MismatchedDelimiters(
                open_tok@,
                close_tok@,
            ),
            Error::UnknownIdentifier(name) => ErrorModel::UnknownIdentifier(name@),
            Error::NotAnInteger => ErrorModel::NotAnInteger,
            Error::DivisionByZero => ErrorModel::DivisionByZero,
            Error::WrongArgumentCount(n) => ErrorModel::WrongArgumentCount(*n as int),
            Error::NameNotIdentifier => ErrorModel::NameNotIdentifier,
            Error::NotCallable => ErrorModel::NotCallable,
            Error::DepthExceeded => ErrorModel::DepthExceeded,
        }
    }
}

/// The outcome of one evaluation step or of a whole run.
pub type RuntimeResult = Result<Expr, Error>;

/// The primitive operation behind a callable. The registry decides whether
/// an operation is exposed as a function (arguments evaluated first) or as a
/// macro (arguments handed over unevaluated).
#[derive(Debug, Clone, Copy, PartialEq, Eq, Structural)]
pub enum BuiltinOp {
    /// Variadic integer fold with seed 0, wrapping on overflow.
    Add,
    /// Variadic integer fold with seed 0, wrapping on overflow.
    Sub,
    /// Variadic integer fold with seed 1, wrapping on overflow.
    Mul,
    /// Variadic integer fold with seed 1; truncating division, a zero
    /// divisor is a runtime error.
    Div,
    /// Renders each argument to the output buffer.
    Display,
    /// Renders each argument to the output buffer, then a line break.
    Println,
    /// Binds a name in the active scope to the value of its second argument.
    Define,
}

/// Mathematical image of a [`Function`].
pub struct FunctionModel {
    pub name: Seq<char>,
    pub op: BuiltinOp,
}

/// A primitive callable: a registered name together with the operation it
/// performs. Identity is name-based; the registry keeps names unique.
#[derive(Debug, PartialEq)]
pub struct Function {
    pub name: String,
    pub op: BuiltinOp,
}

impl View for Function {
    type V = FunctionModel;

    open spec fn view(&self) -> FunctionModel {
        FunctionModel { name: self.name@, op: self.op }
    }
}

impl Clone for Function {
    fn clone(&self) -> (r: Function)
        ensures
            r == *self,
    {
        Function { name: self.name.clone(), op: self.op }
    }
}

/// A registry entry: the name under which a primitive operation is exposed.
/// The registry turns a list of these into environment bindings.
#[derive(Debug, PartialEq)]
pub struct BuiltInFun<'a> {
    pub name: &'a str,
    pub op: BuiltinOp,
}

/// Mathematical image of an [`Expr`]: lists are sequences, text is a
/// sequence of characters.
#[verifier::ext_equal]
pub enum ExprModel {
    SExpr(Seq<ExprModel>),
    Ident(Seq<char>),
    StrLit(Seq<char>),
    Function(FunctionModel),
    Macro(FunctionModel),
    Integer(i64),
    Nil,
}

/// An expression tree and, equally, a runtime value.
///
/// `SExpr` is a compound form (the empty list is legal and stands for `()`);
/// `Ident` is resolved by environment lookup; `StrLit`, `Integer` and `Nil`
/// are self-evaluating; `Function` and `Macro` are primitive callables.
#[derive(Debug, PartialEq)]
pub enum Expr {
    SExpr(Vec<Expr>),
    Ident(String),
    StrLit(String),
    Function(Function),
    Macro(Function),
    Integer(i64),
    Nil,
}

impl From<i64> for Expr {
    /// An integer value as an expression.
    fn from(v: i64) -> (r: Expr) {
        Expr::Integer(v)
    }
}

impl vstd::std_specs::convert::FromSpecImpl<i64> for Expr {
    open spec fn obeys_from_spec() -> bool {
        true
    }

    open spec fn from_spec(v: i64) -> Expr {
        Expr::Integer(v)
    }
}

/// The model of an expression, recursively.
pub open spec fn expr_model(e: Expr) -> ExprModel
    decreases e,
{
    match e {
        Expr::SExpr(items) => ExprModel::SExpr(
            Seq::new(
                items@.len(),
                |i: int|
                    if 0 <= i < items@.len() {
                        expr_model(items@[i])
                    } else {
                        ExprModel::Nil
                    },
            ),
        ),
        Expr::Ident(s) => ExprModel::Ident(s@),
        Expr::StrLit(s) => ExprModel::StrLit(s@),
        Expr::Function(f) => ExprModel::Function(f@),
        Expr::Macro(f) => ExprModel::Macro(f@),
        Expr::Integer(n) => ExprModel::Integer(n),
        Expr::Nil => ExprModel::Nil,
    }
}

impl View for Expr {
    type V = ExprModel;

    open spec fn view(&self) -> ExprModel {
        expr_model(*self)
    }
}

/// The views of a sequence of expressions, element by element.
pub open spec fn expr_views(es: Seq<Expr>) -> Seq<ExprModel> {
    Seq::new(es.len(), |i: int| es[i]@)
}

/// The view of a compound form is the compound of the views.
pub broadcast proof fn lemma_sexpr_view(items: Vec<Expr>)
    ensures
        #[trigger] expr_model(Expr::SExpr(items)) == ExprModel::SExpr(expr_views(items@)),
{
    assert(expr_model(Expr::SExpr(items))->SExpr_0 =~= expr_views(items@));
    assert(expr_model(Expr::SExpr(items)) =~= ExprModel::SExpr(expr_views(items@)));
}

impl Clone for Expr {
    /// A structural copy; the copy has the same model as the original.
    fn clone(&self) -> (r: Expr)
        ensures
            r@ == self@,
        decreases self,
    {
        match self {
            Expr::SExpr(items) => {
                let mut out: Vec<Expr> = Vec::new();
                let mut idx: usize = 0;
                #[verifier::loop_isolation(false)]
                while idx < items.len()
                    invariant
                        idx <= items.len(),
                        out@.len() == idx,
                        forall|k: int| 0 <= k < idx ==> out@[k]@ == items@[k]@,
                    decreases items.len() - idx,
                {
                    out.push(items[idx].clone());
                    idx = idx + 1;
                }
                proof {
                    lemma_sexpr_view(out);
                    lemma_sexpr_view(*items);
                    assert(expr_views(out@) =~= expr_views(items@));
                }
                Expr::SExpr(out)
            },
            Expr::Ident(s) => Expr::Ident(s.clone()),
            Expr::StrLit(s) => Expr::StrLit(s.clone()),
            Expr::Function(f) => Expr::Function(f.clone()),
            Expr::Macro(f) => Expr::Macro(f.clone()),
            Expr::Integer(n) => Expr::Integer(*n),
            Expr::Nil => Expr::Nil,
        }
    }
}

/// The mapping that a list of bindings stands for: later entries shadow
/// earlier ones (last write wins).
pub open spec fn map_of(entries: Seq<(String, Expr)>) -> Map<Seq<char>, ExprModel>
    decreases entries.len(),
{
    if entries.len() == 0 {
        Map::empty()
    } else {
        map_of(entries.drop_last()).insert(entries.last().0@, entries.last().1@)
    }
}

/// One scope: a mapping from names to values, keys unique in the model,
/// last write wins.
pub struct Scope {
    pub defs: Vec<(String, Expr)>,
}

impl View for Scope {
    type V = Map<Seq<char>, ExprModel>;

    open spec fn view(&self) -> Map<Seq<char>, ExprModel> {
        map_of(self.defs@)
    }
}

impl Scope {
    /// A scope with no bindings.
    pub fn new() -> (s: Scope)
        ensures
            s@ == Map::<Seq<char>, ExprModel>::empty(),
    {
        let scope = Scope { defs: Vec::new() };
        scope
    }

    /// Looks a name up in this scope: the bound value, or `None` when the
    /// name is not bound.
    pub fn lookup_ident(&self, s: &str) -> (r: Option<&Expr>)
        ensures
            match r {
                Some(e) => self@.contains_key(s@) && e@ == self@[s@],
                None => !self@.contains_key(s@),
            },
    {
        let key: String = s.to_owned();
        let ghost whole: Seq<(String, Expr)> = self.defs@;
        let mut i: usize = self.defs.len();
        proof {
            assert(whole.take(i as int) =~= whole);
        }
        while i > 0
            invariant
                i <= self.defs.len(),
                whole == self.defs@,
                key@ == s@,
                self@.contains_key(s@) == map_of(whole.take(i as int)).contains_key(s@),
                map_of(whole.take(i as int)).contains_key(s@) ==> self@[s@] == map_of(
                    whole.take(i as int),
                )[s@],
            decreases i,
        {
            i = i - 1;
            proof {
                assert(whole.take(i + 1).drop_last() =~= whole.take(i as int));
                assert(whole.take(i + 1).last() == whole[i as int]);
            }
            if self.defs[i].0 == key {
                return Some(&self.defs[i].1);
            }
        }
        proof {
            assert(whole.take(0) =~= Seq::<(String, Expr)>::empty());
        }
        None
    }

    /// Binds a name to a copy of the given value, shadowing any earlier
    /// binding of that name.
    pub fn def(&mut self, name: &str, value: &Expr)
        ensures
            final(self)@ == old(self)@.insert(name@, value@),
    {
        let entry = (name.to_owned(), value.clone());
        self.defs.push(entry);
        proof {
            assert(self.defs@.drop_last() =~= old(self).defs@);
        }
    }
}

/// Mathematical image of a [`RuntimeThread`]: the stack of scope mappings,
/// and the text written to the output buffer so far.
#[verifier::ext_equal]
pub struct StateModel {
    pub scopes: Seq<Map<Seq<char>, ExprModel>>,
    pub output: Seq<char>,
}

/// Looks a name up in the active (topmost) scope of a state. Enclosing
/// scopes are not searched.
pub open spec fn lookup_state(st: StateModel, name: Seq<char>) -> Option<ExprModel> {
    if st.scopes.len() == 0 {
        None
    } else {
        let top = st.scopes.last();
        if top.contains_key(name) {
            Some(top[name])
        } else {
            None
        }
    }
}

/// Binds a name in the active scope of a state; without any scope the state
/// is unchanged (the executable counterpart requires a scope to exist).
pub open spec fn define_in_state(st: StateModel, name: Seq<char>, value: ExprModel) -> StateModel {
    if st.scopes.len() == 0 {
        st
    } else {
        StateModel {
            scopes: st.scopes.update(st.scopes.len() - 1, st.scopes.last().insert(name, value)),
            output: st.output,
        }
    }
}

/// One evaluation session: a stack of scopes (only the topmost is active)
/// and the output buffer that the printing built-ins append to.
pub struct RuntimeThread {
    pub stack: Vec<Scope>,
    /// Everything the printing built-ins have rendered so far.
    pub output: Vec<char>,
}

impl View for RuntimeThread {
    type V = StateModel;

    open spec fn view(&self) -> StateModel {
        StateModel {
            scopes: Seq::new(self.stack@.len(), |i: int| self.stack@[i]@),
            output: self.output@,
        }
    }
}

impl RuntimeThread {
    /// A fresh evaluation session: one scope, already seeded with every
    /// built-in, and an empty output buffer.
    pub fn new() -> (t: RuntimeThread)
        ensures
            t@ == crate::builtin::initial_state(),
    {
        let mut thread = RuntimeThread { stack: Vec::new(), output: Vec::new() };

        thread.start_scope();
        crate::builtin::add_builtins(&mut thread);

        proof {
            assert(thread@.scopes =~= seq![
                crate::builtin::builtin_defs(Map::<Seq<char>, ExprModel>::empty()),
            ]);
            assert(thread@ =~= crate::builtin::initial_state());
        }
        thread
    }

    /// Pushes a fresh, empty scope, which becomes the active one.
    pub fn start_scope(&mut self)
        ensures
            final(self)@.scopes == old(self)@.scopes.push(Map::<Seq<char>, ExprModel>::empty()),
            final(self)@.output == old(self)@.output,
    {
        self.stack.push(Scope::new());
        proof {
            assert(final(self)@.scopes =~= old(self)@.scopes.push(
                Map::<Seq<char>, ExprModel>::empty(),
            ));
        }
    }

    /// Looks a name up in the active scope: the bound value, or `None` when
    /// the name is not bound there (or no scope exists).
    pub fn lookup_ident(&self, s: &str) -> (r: Option<&Expr>)
        ensures
            match r {
                Some(e) => lookup_state(self@, s@) == Some(e@),
                None => lookup_state(self@, s@) is None,
            },
    {
        if self.stack.len() == 0 {
            None
        } else {
            self.stack[self.stack.len() - 1].lookup_ident(s)
        }
    }

    /// Binds a name to a copy of the given value in the active scope.
    pub fn def(&mut self, name: &str, value: &Expr)
        requires
            old(self)@.scopes.len() > 0,
        ensures
            final(self)@ == define_in_state(old(self)@, name@, value@),
    {
        let mut top = self.stack.pop().unwrap();
        top.def(name, value);
        self.stack.push(top);
        proof {
            assert(final(self)@.scopes =~= define_in_state(old(self)@, name@, value@).scopes);
            assert(final(self)@ =~= define_in_state(old(self)@, name@, value@));
        }
    }
}

} // verus!
