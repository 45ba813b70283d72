//! Reading: turns source text into expression trees by tokenizing and then
//! parsing, the front half of a file-load session.

use vstd::prelude::*;

use crate::parser::parse;
use crate::parser::spec_parse;
use crate::runtime::expr_views;
use crate::runtime::Error;
use crate::runtime::ErrorModel;
use crate::runtime::Expr;
use crate::runtime::ExprModel;
use crate::tokenizer::spec_tokenize;
use crate::tokenizer::tokenize;

verus! {

/// The combined outcome of tokenizing and parsing a text.
pub open spec fn spec_read(text: Seq<char>) -> Result<Seq<ExprModel>, ErrorModel> {
    match spec_tokenize(text) {
        Some(toks) => spec_parse(toks),
        None => Err(ErrorModel::UnterminatedString),
    }
}

/// Turns source text into the sequence of top-level expressions.
pub fn read(text: &str) -> (r: Result<Vec<Expr>, Error>)
    ensures
        (match r {
            Ok(es) => spec_read(text@) == Ok::<_, ErrorModel>(expr_views(es@)),
            Err(e) => spec_read(text@) == Err::<Seq<ExprModel>, _>(e@),
        }),
{
    match tokenize(text) {
        Ok(tokens) => parse(tokens.as_slice()),
        Err(e) => Err(e),
    }
}

} // verus!
