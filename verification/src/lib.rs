//! A tree-walking interpreter for a small scripting language: source text
//! is scanned into tokens, tokens are parsed into statements, and statements
//! are run over a chain of scopes.
//!
//! The library is verified and keeps out of it what cannot be: it holds a
//! number as the bit pattern of a binary64 value, and it neither calculates
//! with numbers, nor reads the clock, nor writes output. A run is therefore
//! a sequence of steps, and each step tells the caller what it needs: a
//! number, a line to be written, or nothing.

pub mod environment;
pub mod expr;
pub mod interpreter;
pub mod lexer;
pub mod logger;
pub mod number;
pub mod parser;
pub mod stmt;
pub mod text;

use crate::interpreter::{fresh, interpreter_step, started, Interpreter, Step};
use vstd::prelude::*;

verus! {

/// Sets `interpreter` to run the source text `contents` and makes the first
/// step of the run. The caller does what the step asks and goes on with
/// `Interpreter::step` until a step says that the run is finished.
pub fn run(interpreter: &mut Interpreter, contents: &str) -> (r: Step)
    requires
        old(interpreter).wf(),
    ensures
        final(interpreter).wf(),
        (final(interpreter)@, r@) == interpreter_step(
            started(old(interpreter)@, contents@),
            None,
        ),
{
    interpreter.start(contents);
    interpreter.step(None)
}

/// Makes a new interpreter and starts it on the source text `contents`, as
/// `run` does.
pub fn run_string(contents: &str) -> (r: (Interpreter, Step))
    ensures
        r.0.wf(),
        (r.0@, r.1@) == interpreter_step(started(fresh(), contents@), None),
{
    let mut interpreter = Interpreter::new();
    let step = run(&mut interpreter, contents);
    (interpreter, step)
}

} // verus!
