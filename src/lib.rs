//! An interpreter for a small dynamically typed scripting language: source
//! text is lexed into tokens, parsed into a syntax tree and run by a
//! tree-walking evaluator. Each stage is proved against a specification
//! written as spec functions: `lexer::lex_spec`, `grammar::parse_spec` and
//! `semantics::run_stmts`.
//!
//! Floating-point numbers are kept exact, as the tree of double-precision
//! operations that produced them (`value::FloatNum`); output carries them in
//! that form and whoever writes the output computes and formats them.
//! `if`, `while`, `for`, `match`, `class`, `parent` and `use` are parsed but
//! have no runtime meaning: running one is `RuntimeError::Unsupported`, as is
//! evaluating a comparison, a logical operator, `%` or `^`.
use vstd::prelude::*;

pub mod ast;
pub mod error;
pub mod grammar;
pub mod interp;
pub mod laws;
pub mod lexer;
pub mod ops;
pub mod parser;
pub mod semantics;
pub mod show;
pub mod text;
pub mod value;

use crate::error::{ErrorModel, RuntimeError};
use crate::grammar::{parse_spec, ParseError};
use crate::interp::Interpreter;
use crate::lexer::{lex_spec, tokenize, tokens_view, LexError, LexErrorModel, Token};
use crate::parser::Parser;
use crate::semantics::{initial_state, run_stmts};
use crate::show::{pieces_view, Piece, PieceModel};
use crate::ast::nodes_view;

verus! {

/// How deeply evaluation may nest (subexpressions, calls, reads of deferred
/// bindings) before a run stops with `RuntimeError::TooDeep`.
pub const DEFAULT_DEPTH: u64 = 200;

/// The first error of a run, from whichever stage raised it.
#[derive(Debug)]
pub enum Failure {
    Lex(LexError),
    Parse(ParseError),
    Runtime(RuntimeError),
}

pub enum FailureModel {
    Lex(LexErrorModel),
    Parse(ParseError),
    Runtime(ErrorModel),
}

pub open spec fn failure_view(f: Option<Failure>) -> Option<FailureModel> {
    match f {
        None => None,
        Some(Failure::Lex(e)) => Some(FailureModel::Lex(e@)),
        Some(Failure::Parse(e)) => Some(FailureModel::Parse(e)),
        Some(Failure::Runtime(e)) => Some(FailureModel::Runtime(e@)),
    }
}

/// What a run printed, and the error that stopped it, if any.
#[derive(Debug)]
pub struct Outcome {
    pub output: Vec<Piece>,
    pub failure: Option<Failure>,
}

/// The output and the first error of running a source text: nothing is
/// printed when lexing or parsing fails; otherwise the statements run until
/// the first runtime error.
pub open spec fn run_spec(src: Seq<char>, depth: nat) -> (Seq<PieceModel>, Option<FailureModel>) {
    match lex_spec(src) {
        Err(e) => (Seq::empty(), Some(FailureModel::Lex(e))),
        Ok(ts) => match parse_spec(ts) {
            Err(e) => (Seq::empty(), Some(FailureModel::Parse(e))),
            Ok(prog) => {
                let (st, r) = run_stmts(initial_state(), prog, depth);
                (
                    st.out,
                    match r {
                        Ok(_) => None,
                        Err(e) => Some(FailureModel::Runtime(e)),
                    },
                )
            },
        },
    }
}

/// Lexes, parses and runs a program given as characters.
pub fn run_chars(src: &Vec<char>, depth: u64) -> (r: Outcome)
    ensures
        (pieces_view(r.output@), failure_view(r.failure)) == run_spec(src@, depth as nat),
{
    let tokens: Vec<Token> = match tokenize(src) {
        Ok(ts) => ts,
        Err(e) => {
            let out: Vec<Piece> = Vec::new();
            assert(pieces_view(out@) =~= Seq::<PieceModel>::empty());
            return Outcome { output: out, failure: Some(Failure::Lex(e)) };
        },
    };
    let parser = Parser::new(tokens);
    let program = match parser.parse() {
        Ok(p) => p,
        Err(e) => {
            let out: Vec<Piece> = Vec::new();
            assert(pieces_view(out@) =~= Seq::<PieceModel>::empty());
            return Outcome { output: out, failure: Some(Failure::Parse(e)) };
        },
    };
    let mut it = Interpreter::new();
    let r = it.run(&program, depth);
    let failure = match r {
        Ok(_) => None,
        Err(e) => Some(Failure::Runtime(e)),
    };
    Outcome { output: it.output, failure }
}

/// Lexes, parses and runs a program with the default depth budget.
pub fn run(source: &str) -> (r: Outcome)
    ensures
        (pieces_view(r.output@), failure_view(r.failure)) == run_spec(source@, DEFAULT_DEPTH as nat),
{
    let src = crate::text::chars_of(source);
    run_chars(&src, DEFAULT_DEPTH)
}

/// The tokens of a source text.
pub fn lex(source: &str) -> (r: Result<Vec<Token>, LexError>)
    ensures
        match r {
            Ok(ts) => lex_spec(source@) == Ok::<Seq<crate::lexer::TokenModel>, LexErrorModel>(
                tokens_view(ts@),
            ),
            Err(e) => lex_spec(source@) == Err::<Seq<crate::lexer::TokenModel>, LexErrorModel>(e@),
        },
{
    let src = crate::text::chars_of(source);
    tokenize(&src)
}

/// The syntax tree of a source text.
pub fn parse(source: &str) -> (r: Result<Vec<crate::ast::Node>, Failure>)
    ensures
        match r {
            Ok(prog) => lex_spec(source@) is Ok && parse_spec(lex_spec(source@)->Ok_0) == Ok::<
                Seq<crate::ast::NodeModel>,
                ParseError,
            >(nodes_view(prog@)),
            Err(Failure::Lex(e)) => lex_spec(source@) == Err::<
                Seq<crate::lexer::TokenModel>,
                LexErrorModel,
            >(e@),
            Err(Failure::Parse(e)) => lex_spec(source@) is Ok && parse_spec(lex_spec(source@)->Ok_0)
                == Err::<Seq<crate::ast::NodeModel>, ParseError>(e),
            Err(Failure::Runtime(_)) => false,
        },
{
    let tokens = match lex(source) {
        Ok(ts) => ts,
        Err(e) => return Err(Failure::Lex(e)),
    };
    let parser = Parser::new(tokens);
    match parser.parse() {
        Ok(p) => Ok(p),
        Err(e) => Err(Failure::Parse(e)),
    }
}

} // verus!
