//! The lexer: turns raw source text into an ordered sequence of tokens.
//!
//! `spec_tokenize` is the mathematical description of lexing, written as a
//! character-at-a-time state machine over the text; `tokenize` is the
//! executable lexer, proved to return exactly what `spec_tokenize` says.

use vstd::prelude::*;

use crate::runtime::Error;
use crate::runtime::ErrorModel;

verus! {

/// Mathematical image of a [`Token`]: text is a sequence of characters.
pub enum TokenModel {
    OpenParen,
    CloseParen,
    OpenBrace,
    CloseBrace,
    Ident(Seq<char>),
    StrTok(Seq<char>),
}

/// One lexical unit of source text: a delimiter, an identifier, or a string
/// literal. Parens and brackets are distinct kinds and must pair with their
/// own kind.
#[derive(Debug, PartialEq, Eq)]
pub enum Token {
    OpenParen,
    CloseParen,
    OpenBrace,
    CloseBrace,
    Ident(String),
    StrTok(String),
}

/// A lexical error is reported through the shared runtime error type.
pub type LexicalError = Error;

impl Clone for Token {
    /// A structural copy equal to the original.
    fn clone(&self) -> (r: Token)
        ensures
            r == *self,
    {
        match self {
            Token::OpenParen => Token::OpenParen,
            Token::CloseParen => Token::CloseParen,
            Token::OpenBrace => Token::OpenBrace,
            Token::CloseBrace => Token::CloseBrace,
            Token::Ident(s) => Token::Ident(s.clone()),
            Token::StrTok(s) => Token::StrTok(s.clone()),
        }
    }
}

impl View for Token {
    type V = TokenModel;

    open spec fn view(&self) -> TokenModel {
        match self {
            Token::OpenParen => TokenModel::OpenParen,
            Token::CloseParen => TokenModel::CloseParen,
            Token::OpenBrace => TokenModel::OpenBrace,
            Token::CloseBrace => TokenModel::CloseBrace,
            Token::Ident(s) => TokenModel::Ident(s@),
            Token::StrTok(s) => TokenModel::StrTok(s@),
        }
    }
}

/// The views of a sequence of tokens, element by element.
pub open spec fn token_views(ts: Seq<Token>) -> Seq<TokenModel> {
    Seq::new(ts.len(), |i: int| ts[i]@)
}

/// A character that ends an identifier: a delimiter, whitespace, or the
/// start of a comment. It is not consumed into the identifier.
pub open spec fn is_ident_terminator(c: char) -> bool {
    c == '(' || c == ')' || c == '[' || c == ']' || c == ' ' || c == '\n' || c == ';'
}

/// What the characters read so far leave pending: nothing, the body of a
/// string literal, a comment, or the characters of an identifier.
pub enum LexMode {
    Normal,
    InString(Seq<char>),
    InComment,
    InIdent(Seq<char>),
}

/// Rank used for termination: leaving `InIdent` re-reads the terminating
/// character in `Normal` mode without advancing.
pub open spec fn lex_mode_rank(mode: LexMode) -> int {
    match mode {
        LexMode::Normal => 0,
        _ => 1,
    }
}

/// Prepends a finished token to the outcome of lexing the rest of the text;
/// a lexical error in the rest stays an error.
pub open spec fn lex_cons(t: TokenModel, rest: Option<Seq<TokenModel>>) -> Option<
    Seq<TokenModel>,
> {
    match rest {
        Some(ts) => Some(seq![t] + ts),
        None => None,
    }
}

/// The tokens of `text[i..]` in the given mode; `None` is a lexical error
/// (the only one: end of input inside a string literal).
pub open spec fn spec_lex(text: Seq<char>, i: int, mode: LexMode) -> Option<Seq<TokenModel>>
    decreases text.len() - i, lex_mode_rank(mode),
{
    if i < 0 || i >= text.len() {
        match mode {
            LexMode::Normal => Some(Seq::empty()),
            LexMode::InComment => Some(Seq::empty()),
            LexMode::InIdent(acc) => Some(seq![TokenModel::Ident(acc)]),
            LexMode::InString(_) => None,
        }
    } else {
        let c = text[i];
        match mode {
            LexMode::Normal => {
                if c == '(' {
                    lex_cons(TokenModel::OpenParen, spec_lex(text, i + 1, LexMode::Normal))
                } else if c == ')' {
                    lex_cons(TokenModel::CloseParen, spec_lex(text, i + 1, LexMode::Normal))
                } else if c == '[' {
                    lex_cons(TokenModel::OpenBrace, spec_lex(text, i + 1, LexMode::Normal))
                } else if c == ']' {
                    lex_cons(TokenModel::CloseBrace, spec_lex(text, i + 1, LexMode::Normal))
                } else if c == '"' {
                    spec_lex(text, i + 1, LexMode::InString(Seq::empty()))
                } else if c == ' ' || c == '\n' {
                    spec_lex(text, i + 1, LexMode::Normal)
                } else if c == ';' {
                    spec_lex(text, i + 1, LexMode::InComment)
                } else {
                    spec_lex(text, i + 1, LexMode::InIdent(seq![c]))
                }
            },
            LexMode::InString(acc) => {
                if c == '"' {
                    lex_cons(TokenModel::StrTok(acc), spec_lex(text, i + 1, LexMode::Normal))
                } else {
                    spec_lex(text, i + 1, LexMode::InString(acc.push(c)))
                }
            },
            LexMode::InComment => {
                if c == '\n' {
                    spec_lex(text, i + 1, LexMode::Normal)
                } else {
                    spec_lex(text, i + 1, LexMode::InComment)
                }
            },
            LexMode::InIdent(acc) => {
                if is_ident_terminator(c) {
                    lex_cons(TokenModel::Ident(acc), spec_lex(text, i, LexMode::Normal))
                } else {
                    spec_lex(text, i + 1, LexMode::InIdent(acc.push(c)))
                }
            },
        }
    }
}

/// The tokens of a whole text, or `None` on a lexical error.
pub open spec fn spec_tokenize(text: Seq<char>) -> Option<Seq<TokenModel>> {
    spec_lex(text, 0, LexMode::Normal)
}

/// Executable lexing state; string and identifier bodies are remembered by
/// the index of their first character.
enum LexState {
    Normal,
    InString(usize),
    InComment,
    InIdent(usize),
}

spec fn lex_state_rank(st: &LexState) -> int {
    match st {
        LexState::Normal => 0,
        _ => 1,
    }
}

/// The pending mode that an executable state at position `i` stands for.
spec fn state_mode(st: &LexState, text: Seq<char>, i: int) -> LexMode {
    match st {
        LexState::Normal => LexMode::Normal,
        LexState::InComment => LexMode::InComment,
        LexState::InString(start) => LexMode::InString(text.subrange(*start as int, i)),
        LexState::InIdent(start) => LexMode::InIdent(text.subrange(*start as int, i)),
    }
}

/// Appends the outcome of lexing the rest of the text to the tokens already
/// produced.
pub open spec fn lex_join(done: Seq<TokenModel>, rest: Option<Seq<TokenModel>>) -> Option<
    Seq<TokenModel>,
> {
    match rest {
        Some(ts) => Some(done + ts),
        None => None,
    }
}

/// Finishing a token commutes with joining: the token may be moved from the
/// pending side to the produced side.
proof fn lemma_lex_join_step(done: Seq<Token>, t: Token, rest: Option<Seq<TokenModel>>)
    ensures
        lex_join(token_views(done), lex_cons(t@, rest)) == lex_join(
            token_views(done.push(t)),
            rest,
        ),
{
    match rest {
        Some(ts) => {
            assert(token_views(done.push(t)) =~= token_views(done) + seq![t@]);
            assert(token_views(done) + (seq![t@] + ts) =~= (token_views(done) + seq![t@]) + ts);
        },
        None => {},
    }
}

/// Turns source text into tokens, left to right.
///
/// Single-character delimiters become their own tokens; `"` opens a string
/// literal captured verbatim up to the next `"` (end of input first is the
/// lexical error); `;` discards the rest of the line; space and newline are
/// discarded; any other character starts an identifier that extends until a
/// terminator, which is not consumed.
pub fn tokenize(input: &str) -> (r: Result<Vec<Token>, LexicalError>)
    ensures
        match r {
            Ok(tokens) => spec_tokenize(input@) == Some(token_views(tokens@)),
            Err(e) => spec_tokenize(input@) is None && e@ == ErrorModel::UnterminatedString,
        },
{
    let n = input.unicode_len();
    let mut tokens: Vec<Token> = Vec::new();
    let mut i: usize = 0;
    let mut state = LexState::Normal;

    while i < n
        invariant
            n == input@.len(),
            i <= n,
            (match state {
                LexState::InString(start) => start <= i,
                LexState::InIdent(start) => start < i,
                _ => true,
            }),
            spec_tokenize(input@) == lex_join(
                token_views(tokens@),
                spec_lex(input@, i as int, state_mode(&state, input@, i as int)),
            ),
        decreases n - i, lex_state_rank(&state),
    {
        let c = input.get_char(i);
        match state {
            LexState::Normal => {
                if c == '(' {
                    proof {
                        lemma_lex_join_step(
                            tokens@,
                            Token::OpenParen,
                            spec_lex(input@, i + 1, LexMode::Normal),
                        );
                    }
                    tokens.push(Token::OpenParen);
                    i = i + 1;
                } else if c == ')' {
                    proof {
                        lemma_lex_join_step(
                            tokens@,
                            Token::CloseParen,
                            spec_lex(input@, i + 1, LexMode::Normal),
                        );
                    }
                    tokens.push(Token::CloseParen);
                    i = i + 1;
                } else if c == '[' {
                    proof {
                        lemma_lex_join_step(
                            tokens@,
                            Token::OpenBrace,
                            spec_lex(input@, i + 1, LexMode::Normal),
                        );
                    }
                    tokens.push(Token::OpenBrace);
                    i = i + 1;
                } else if c == ']' {
                    proof {
                        lemma_lex_join_step(
                            tokens@,
                            Token::CloseBrace,
                            spec_lex(input@, i + 1, LexMode::Normal),
                        );
                    }
                    tokens.push(Token::CloseBrace);
                    i = i + 1;
                } else if c == '"' {
                    proof {
                        assert(input@.subrange(i + 1, i + 1) =~= Seq::<char>::empty());
                    }
                    state = LexState::InString(i + 1);
                    i = i + 1;
                } else if c == ' ' || c == '\n' {
                    i = i + 1;
                } else if c == ';' {
                    state = LexState::InComment;
                    i = i + 1;
                } else {
                    proof {
                        assert(input@.subrange(i as int, i + 1) =~= seq![input@[i as int]]);
                    }
                    state = LexState::InIdent(i);
                    i = i + 1;
                }
            },
            LexState::InString(start) => {
                if c == '"' {
                    let body = input.substring_char(start, i).to_owned();
                    let t = Token::StrTok(body);
                    proof {
                        lemma_lex_join_step(tokens@, t, spec_lex(input@, i + 1, LexMode::Normal));
                    }
                    tokens.push(t);
                    state = LexState::Normal;
                    i = i + 1;
                } else {
                    proof {
                        assert(input@.subrange(start as int, i as int).push(input@[i as int])
                            =~= input@.subrange(start as int, i + 1));
                    }
                    state = LexState::InString(start);
                    i = i + 1;
                }
            },
            LexState::InComment => {
                if c == '\n' {
                    state = LexState::Normal;
                }
                i = i + 1;
            },
            LexState::InIdent(start) => {
                if c == '(' || c == ')' || c == '[' || c == ']' || c == ' ' || c == '\n' || c
                    == ';' {
                    let body = input.substring_char(start, i).to_owned();
                    let t = Token::Ident(body);
                    proof {
                        lemma_lex_join_step(
                            tokens@,
                            t,
                            spec_lex(input@, i as int, LexMode::Normal),
                        );
                    }
                    tokens.push(t);
                    state = LexState::Normal;
                } else {
                    proof {
                        assert(input@.subrange(start as int, i as int).push(input@[i as int])
                            =~= input@.subrange(start as int, i + 1));
                    }
                    state = LexState::InIdent(start);
                    i = i + 1;
                }
            },
        }
    }

    match state {
        LexState::Normal => {
            proof {
                assert(token_views(tokens@) + Seq::<TokenModel>::empty() =~= token_views(tokens@));
            }
            Ok(tokens)
        },
        LexState::InComment => {
            proof {
                assert(token_views(tokens@) + Seq::<TokenModel>::empty() =~= token_views(tokens@));
            }
            Ok(tokens)
        },
        LexState::InIdent(start) => {
            let body = input.substring_char(start, i).to_owned();
            let t = Token::Ident(body);
            proof {
                assert(token_views(tokens@.push(t)) =~= token_views(tokens@) + seq![t@]);
            }
            tokens.push(t);
            Ok(tokens)
        },
        LexState::InString(_) => Err(Error::UnterminatedString),
    }
}

} // verus!
