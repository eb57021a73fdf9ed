//! A front end and evaluator for a small dynamically typed scripting
//! language: a lexer, a recursive-descent parser with panic-mode recovery,
//! and a resumable evaluator over a chained lexical environment.
//!
//! Every stage is stated against a mathematical model. Source text is a
//! `Seq<char>`, and each data type has a view made of sequences, maps and
//! plain values. The executable functions are proved to compute what the
//! model functions define:
//!
//! - [`scan::scan`] computes [`scan::scanned`], the tokens and lexical
//!   errors of a text;
//! - [`parse::Parser::parse`] computes [`parse::grammar::program`], the
//!   declarations and syntax errors of a token sequence;
//! - [`interpret::Interpreter::step`] computes
//!   [`interpret::semantics::step`], one transition of the evaluator.
//!
//! The evaluator is a machine that is driven from outside, one step at a
//! time. The library has no floating-point unit and does no printing: a
//! number in a program is kept as its [`numeral::Numeral`], a number at
//! run time as the bits of a double, and a step that needs the number of
//! a numeral, arithmetic, the decimal text of a number, or a line printed
//! hands that request to its host. [`run`] ties the stages together.
#![allow(non_snake_case, non_camel_case_types)]

pub mod text;
pub mod list;
pub mod numeral;
pub mod static_error;
pub mod token;
pub mod expr;
pub mod scan;
pub mod parse;
pub mod number;
pub mod interpret;


use vstd::prelude::*;
use crate::interpret::env::{Env, EnvView};
use crate::interpret::semantics::MachineView;
use crate::interpret::{Interpreter, execute};
use crate::parse::Parser;
use crate::parse::grammar::{program, start};
use crate::scan::{scan, scanned};
use crate::static_error::{LoxStaticError, StaticErrorView, error_views};

verus! {

/// What becomes of a source text: the machine that is set up to run it in
/// `env`, or, if the text has lexical errors, those, or else, if it has
/// syntax errors, those. A text with errors is not run.
pub open spec fn loaded(source: Seq<char>, env: EnvView) -> Result<MachineView, Seq<StaticErrorView>> {
    let lexed = scanned(source);
    if lexed.errors.len() > 0 {
        Err(lexed.errors)
    } else {
        let parsed = program(lexed.tokens, start(), Seq::empty());
        if parsed.state.errors.len() > 0 {
            Err(parsed.state.errors)
        } else {
            Ok(interpret::semantics::start(parsed.value, env))
        }
    }
}

/// Scans and parses `source`, and sets a machine up to run it in `env`.
/// If the text has errors, gives them instead, the lexical ones if there
/// are any, else the syntax errors.
pub fn run(source: String, env: Env) -> (r: Result<Interpreter, Vec<LoxStaticError>>)
    ensures
        match r {
            Ok(m) => loaded(source@, env@) == Ok::<MachineView, Seq<StaticErrorView>>(m@)
                && interpret::reachable::orderly(m@),
            Err(e) => loaded(source@, env@) == Err::<MachineView, Seq<StaticErrorView>>(
                error_views(e@),
            ),
        },
{
    let (tokens, errors) = scan(source);
    if errors.len() > 0 {
        return Err(errors);
    }
    let parser = Parser::new(tokens);
    let (program, errors) = parser.parse();
    if errors.len() > 0 {
        return Err(errors);
    }
    Ok(execute(program, env))
}

} // verus!
