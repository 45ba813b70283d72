//! The recursive-descent parser: consumes the token sequence and produces a
//! flat sequence of top-level expression trees.
//!
//! `spec_parse` is the mathematical description of parsing; `parse` is the
//! executable parser, proved to return exactly what `spec_parse` says. Any
//! internal error aborts the whole parse — there are no partial results.

use vstd::prelude::*;

use crate::runtime::expr_views;
use crate::runtime::lemma_sexpr_view;
use crate::runtime::Error;
use crate::runtime::ErrorModel;
use crate::runtime::Expr;
use crate::runtime::ExprModel;
use crate::tokenizer::token_views;
use crate::tokenizer::Token;
use crate::tokenizer::TokenModel;

verus! {

broadcast use lemma_sexpr_view;

/// Whether a closing delimiter is of the same kind as the opening one:
/// `(` pairs with `)`, `[` pairs with `]`, never across kinds.
pub open spec fn delims_match(open_tok: TokenModel, close_tok: TokenModel) -> bool {
    ||| (open_tok is OpenParen && close_tok is CloseParen)
    ||| (open_tok is OpenBrace && close_tok is CloseBrace)
}

/// Whether a token closes an s-expression (a closing delimiter of either
/// kind).
pub open spec fn is_closer(t: TokenModel) -> bool {
    t is CloseParen || t is CloseBrace
}

/// One expression starting at index `i`: the expression and the index just
/// past it. An identifier or string literal is consumed as itself; an
/// opening delimiter starts an s-expression; a stray closing delimiter (or
/// any other leading token) is an error; end of input yields `Nil` without
/// consuming (used only inside s-expression parsing to detect the close).
pub open spec fn spec_parse_expr(toks: Seq<TokenModel>, i: int) -> Result<
    (ExprModel, int),
    ErrorModel,
>
    decreases toks.len() - i, 1int,
{
    if i < 0 || i >= toks.len() {
        Ok((ExprModel::Nil, i))
    } else {
        match toks[i] {
            TokenModel::Ident(s) => Ok((ExprModel::Ident(s), i + 1)),
            TokenModel::StrTok(s) => Ok((ExprModel::StrLit(s), i + 1)),
            TokenModel::OpenParen => spec_parse_sexpr(toks, i),
            TokenModel::OpenBrace => spec_parse_sexpr(toks, i),
            _ => Err(ErrorModel::UnexpectedToken),
        }
    }
}

/// An s-expression whose opening delimiter stands at index `i`: the
/// elements up to the next closing delimiter, which must be of the same
/// kind as the opener.
pub open spec fn spec_parse_sexpr(toks: Seq<TokenModel>, i: int) -> Result<
    (ExprModel, int),
    ErrorModel,
>
    decreases toks.len() - i, 0int,
{
    if i < 0 || i >= toks.len() {
        Err(ErrorModel::UnexpectedEndOfInput)
    } else {
        match spec_parse_elems(toks, i + 1) {
            Ok((elems, j)) => {
                if j < toks.len() && delims_match(toks[i], toks[j]) {
                    Ok((ExprModel::SExpr(elems), j + 1))
                } else if j < toks.len() {
                    Err(ErrorModel::MismatchedDelimiters(toks[i], toks[j]))
                } else {
                    Err(ErrorModel::UnexpectedEndOfInput)
                }
            },
            Err(e) => Err(e),
        }
    }
}

/// The elements of an s-expression starting at index `i` (just past the
/// opener): expressions until the next closing delimiter, whose index is
/// returned; running out of input before a closer is an error.
pub open spec fn spec_parse_elems(toks: Seq<TokenModel>, i: int) -> Result<
    (Seq<ExprModel>, int),
    ErrorModel,
>
    decreases toks.len() - i, 2int,
{
    if i < 0 || i >= toks.len() {
        Err(ErrorModel::UnexpectedEndOfInput)
    } else if is_closer(toks[i]) {
        Ok((Seq::empty(), i))
    } else {
        match spec_parse_expr(toks, i) {
            Ok((e, j)) => if i < j <= toks.len() {
                match spec_parse_elems(toks, j) {
                    Ok((rest, k)) => Ok((seq![e] + rest, k)),
                    Err(err) => Err(err),
                }
            } else {
                // never reached: one parsed expression always consumes at
                // least one token here; this arm only grounds the recursion
                Err(ErrorModel::UnexpectedEndOfInput)
            },
            Err(err) => Err(err),
        }
    }
}

/// The whole program from index `i` on: top-level expressions until the
/// token sequence is exhausted.
pub open spec fn spec_parse_toks(toks: Seq<TokenModel>, i: int) -> Result<
    Seq<ExprModel>,
    ErrorModel,
>
    decreases toks.len() - i, 3int,
{
    if i < 0 || i >= toks.len() {
        Ok(Seq::empty())
    } else {
        match spec_parse_expr(toks, i) {
            Ok((e, j)) => if i < j <= toks.len() {
                match spec_parse_toks(toks, j) {
                    Ok(rest) => Ok(seq![e] + rest),
                    Err(err) => Err(err),
                }
            } else {
                // never reached, as in `spec_parse_elems`
                Err(ErrorModel::UnexpectedEndOfInput)
            },
            Err(err) => Err(err),
        }
    }
}

/// The parse of a whole token sequence.
pub open spec fn spec_parse(toks: Seq<TokenModel>) -> Result<Seq<ExprModel>, ErrorModel> {
    spec_parse_toks(toks, 0)
}

/// Parses one expression starting at `i`.
fn parse_expr(tokens: &[Token], i: usize) -> (r: Result<(Expr, usize), Error>)
    requires
        i <= tokens@.len(),
    ensures
        (match r {
            Ok(p) => {
                &&& spec_parse_expr(token_views(tokens@), i as int) == Ok::<_, ErrorModel>(
                    (p.0@, p.1 as int),
                )
                &&& i <= p.1 <= tokens@.len()
                &&& (i < tokens@.len() && !is_closer(tokens@[i as int]@) ==> i < p.1)
            },
            Err(e) => spec_parse_expr(token_views(tokens@), i as int) == Err::<
                (ExprModel, int),
                _,
            >(e@),
        }),
    decreases tokens@.len() - i, 1int,
{
    if i >= tokens.len() {
        return Ok((Expr::Nil, i));
    }
    match &tokens[i] {
        Token::Ident(s) => Ok((Expr::Ident(s.clone()), i + 1)),
        Token::StrTok(s) => Ok((Expr::StrLit(s.clone()), i + 1)),
        Token::OpenParen => parse_sexpr(tokens, i),
        Token::OpenBrace => parse_sexpr(tokens, i),
        _ => Err(Error::UnexpectedToken),
    }
}

/// Parses an s-expression whose opening delimiter stands at `i`: collects
/// elements until a closing delimiter, then checks that it pairs with the
/// opener.
fn parse_sexpr(tokens: &[Token], i: usize) -> (r: Result<(Expr, usize), Error>)
    requires
        i < tokens@.len(),
    ensures
        (match r {
            Ok(p) => {
                &&& spec_parse_sexpr(token_views(tokens@), i as int) == Ok::<_, ErrorModel>(
                    (p.0@, p.1 as int),
                )
                &&& i < p.1 <= tokens@.len()
            },
            Err(e) => spec_parse_sexpr(token_views(tokens@), i as int) == Err::<
                (ExprModel, int),
                _,
            >(e@),
        }),
    decreases tokens@.len() - i, 0int,
{
    let ghost tv = token_views(tokens@);
    let mut elems: Vec<Expr> = Vec::new();
    let mut cur: usize = i + 1;

    loop
        invariant
            i < cur <= tokens@.len(),
            tv == token_views(tokens@),
            (match spec_parse_elems(tv, cur as int) {
                Ok((rest, k)) => spec_parse_elems(tv, i + 1) == Ok::<_, ErrorModel>(
                    (expr_views(elems@) + rest, k),
                ),
                Err(e) => spec_parse_elems(tv, i + 1) == Err::<(Seq<ExprModel>, int), _>(e),
            }),
        ensures
            i < cur < tokens@.len(),
            is_closer(tv[cur as int]),
            spec_parse_elems(tv, i + 1) == Ok::<_, ErrorModel>((expr_views(elems@), cur as int)),
        decreases tokens@.len() - cur,
    {
        if cur >= tokens.len() {
            return Err(Error::UnexpectedEndOfInput);
        }
        match &tokens[cur] {
            Token::CloseParen => {
                proof {
                    assert(expr_views(elems@) + Seq::<ExprModel>::empty() =~= expr_views(elems@));
                }
                break;
            },
            Token::CloseBrace => {
                proof {
                    assert(expr_views(elems@) + Seq::<ExprModel>::empty() =~= expr_views(elems@));
                }
                break;
            },
            _ => {},
        }
        match parse_expr(tokens, cur) {
            Ok((e, j)) => {
                proof {
                    assert(expr_views(elems@.push(e)) =~= expr_views(elems@) + seq![e@]);
                    if spec_parse_elems(tv, j as int) is Ok {
                        let (rest, k) = spec_parse_elems(tv, j as int)->Ok_0;
                        assert((expr_views(elems@) + seq![e@]) + rest =~= expr_views(elems@) + (
                        seq![e@] + rest));
                    }
                }
                elems.push(e);
                cur = j;
            },
            Err(e) => {
                return Err(e);
            },
        }
    }

    // `cur` now stands on the closing delimiter.
    let close_matches = match (&tokens[i], &tokens[cur]) {
        (Token::OpenParen, Token::CloseParen) => true,
        (Token::OpenBrace, Token::CloseBrace) => true,
        _ => false,
    };
    if close_matches {
        Ok((Expr::SExpr(elems), cur + 1))
    } else {
        Err(Error::MismatchedDelimiters(tokens[i].clone(), tokens[cur].clone()))
    }
}

/// Parses a whole token sequence into the flat sequence of top-level
/// expressions; the first error aborts the parse with no partial result.
pub fn parse(tokens: &[Token]) -> (r: Result<Vec<Expr>, Error>)
    ensures
        (match r {
            Ok(stmts) => spec_parse(token_views(tokens@)) == Ok::<_, ErrorModel>(
                expr_views(stmts@),
            ),
            Err(e) => spec_parse(token_views(tokens@)) == Err::<Seq<ExprModel>, _>(e@),
        }),
{
    let ghost tv = token_views(tokens@);
    let mut stmts: Vec<Expr> = Vec::new();
    let mut i: usize = 0;

    while i < tokens.len()
        invariant
            i <= tokens@.len(),
            tv == token_views(tokens@),
            (match spec_parse_toks(tv, i as int) {
                Ok(rest) => spec_parse_toks(tv, 0) == Ok::<_, ErrorModel>(
                    expr_views(stmts@) + rest,
                ),
                Err(e) => spec_parse_toks(tv, 0) == Err::<Seq<ExprModel>, _>(e),
            }),
        decreases tokens@.len() - i,
    {
        match parse_expr(tokens, i) {
            Ok((e, j)) => {
                proof {
                    assert(!is_closer(tv[i as int]) ==> i < j) by {
                        if is_closer(tv[i as int]) {
                        }
                    }
                    assert(expr_views(stmts@.push(e)) =~= expr_views(stmts@) + seq![e@]);
                    if spec_parse_toks(tv, j as int) is Ok {
                        let rest = spec_parse_toks(tv, j as int)->Ok_0;
                        assert((expr_views(stmts@) + seq![e@]) + rest =~= expr_views(stmts@) + (
                        seq![e@] + rest));
                    }
                }
                stmts.push(e);
                i = j;
            },
            Err(e) => {
                return Err(e);
            },
        }
    }
    proof {
        assert(expr_views(stmts@) + Seq::<ExprModel>::empty() =~= expr_views(stmts@));
    }
    Ok(stmts)
}

} // verus!
