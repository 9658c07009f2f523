//! From source text to a result: lexing, parsing and evaluation in one call.

use crate::ast::{stmts_view, Program, StmtV};
use crate::evaluator::builtins::{lines_view, new_builtins, spec_builtins};
use crate::evaluator::env::{Env, EnvV};
use crate::evaluator::object::{spec_render, Object, ObjectV};
use crate::evaluator::semantics::{spec_eval, StateV};
use crate::evaluator::{Evaluator, DEFAULT_MAX_DEPTH, DEFAULT_MAX_LOOPS};
use crate::lexer::{Lexer, LexerV};
use crate::parser::grammar::{spec_parse, ParseErrorV, Parsed};
use crate::parser::{errors_view, spec_message, Parser};
use vstd::prelude::*;
use vstd::string::StringExecFns;

verus! {

/// What a source text parses to.
pub open spec fn spec_parse_source(input: Seq<char>) -> Parsed<Seq<StmtV>> {
    spec_parse((LexerV { input, pos: 0 }).tokens(), 0)
}

/// The texts of diagnostics, each with a line feed behind it.
pub open spec fn spec_diagnostics_text(errors: Seq<ParseErrorV>) -> Seq<char>
    decreases errors.len(),
{
    if errors.len() == 0 {
        Seq::empty()
    } else {
        spec_diagnostics_text(errors.drop_last()) + spec_message(errors.last()) + "\n"@
    }
}

/// The state in which a program starts: one scope, which binds the native
/// functions, and nothing printed.
pub open spec fn spec_initial_state() -> StateV {
    StateV { frames: seq![EnvV { store: spec_builtins(), outer: None }], output: Seq::empty() }
}

/// What running a source text gave.
pub struct Report {
    /// The text of the program's value, or the diagnostics of the parser.
    pub text: String,
    /// The lines that the program printed.
    pub output: Vec<String>,
    /// The code with which the program asked to end the process, if it did.
    pub exit_code: Option<i32>,
}

/// The exit code that a result asks for.
pub open spec fn spec_exit_request(value: Option<ObjectV>) -> Option<i32> {
    match value {
        Some(ObjectV::Exit(code)) => Some(code),
        _ => None,
    }
}

/// The text of a result: that of its value, or of `null` where it has none.
pub open spec fn spec_result_text(value: Option<ObjectV>) -> Seq<char> {
    match value {
        Some(v) => spec_render(v),
        None => spec_render(ObjectV::Null),
    }
}

/// Parses a source text. One diagnostic or more make the whole parse fail, however
/// much of the program was read; the error is then the text of all of them.
pub fn parse(input: &str) -> (r: Result<Program, String>)
    ensures
        match r {
            Ok(program) => spec_parse_source(input@).errors.len() == 0 && Some(
                stmts_view(program@),
            ) == spec_parse_source(input@).value,
            Err(message) => spec_parse_source(input@).errors.len() > 0 && message@
                == spec_diagnostics_text(spec_parse_source(input@).errors),
        },
{
    let mut parser = Parser::new(Lexer::new(input));
    let program = parser.parse();
    let errors = parser.get_errors();
    assert(errors_view(errors@).len() == errors.len());
    if errors.len() > 0 {
        let ghost all = errors_view(errors@);
        let mut message = String::new();
        let mut i: usize = 0;
        proof {
            assert(message@ =~= spec_diagnostics_text(all.take(0)));
        }
        while i < errors.len()
            invariant
                i <= errors.len(),
                all == errors_view(errors@),
                message@ == spec_diagnostics_text(all.take(i as int)),
            decreases errors.len() - i,
        {
            let line = errors[i].to_string();
            message.append(line.as_str());
            message.append("\n");
            proof {
                assert(all.take(i + 1).drop_last() =~= all.take(i as int));
                assert(all.take(i + 1).last() == errors@[i as int]@);
                assert(message@ =~= spec_diagnostics_text(all.take(i + 1)));
            }
            i += 1;
        }
        proof {
            assert(all.take(i as int) =~= all);
        }
        return Err(message);
    }
    Ok(program)
}

/// Runs a source text in a fresh evaluator with the native functions and the usual
/// limits. Where the text does not parse, nothing runs and the diagnostics are the
/// text of the report.
pub fn evaluate(input: &str) -> (report: Report)
    ensures
        ({
            let parsed = spec_parse_source(input@);
            let run = spec_eval(
                spec_initial_state(),
                0,
                parsed.value->0,
                DEFAULT_MAX_DEPTH as nat,
                DEFAULT_MAX_LOOPS as nat,
            );
            if parsed.errors.len() > 0 {
                &&& report.text@ == spec_diagnostics_text(parsed.errors)
                &&& report.output@.len() == 0
                &&& report.exit_code is None
            } else {
                &&& report.text@ == spec_result_text(run.value)
                &&& lines_view(report.output@) == run.state.output
                &&& report.exit_code == spec_exit_request(run.value)
            }
        }),
{
    let program = match parse(input) {
        Ok(program) => program,
        Err(message) => {
            return Report { text: message, output: Vec::new(), exit_code: None };
        },
    };
    let mut evaluator = Evaluator::new(Env::from(new_builtins()));
    let result = evaluator.eval(&program);
    let exit_code = match &result {
        Some(Object::Exit(code)) => Some(*code),
        _ => None,
    };
    let text = match &result {
        Some(value) => value.to_string(),
        None => Object::Null.to_string(),
    };
    let output = evaluator.take_output();
    Report { text, output, exit_code }
}

} // verus!
