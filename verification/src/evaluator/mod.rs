//! The evaluator: walks the syntax tree and computes values.
//!
//! The evaluator owns every scope and hands out handles; the outermost scope has
//! the handle 0. What `print` and `puts` print is kept as lines in the evaluator,
//! for the host to show. `quit` does not end the process: it gives an `Exit` value,
//! which ends the program and is for the host to act on.

pub mod builtins;
pub mod env;
pub mod eval;
pub mod laws;
pub mod object;
pub mod semantics;
pub mod values;

use crate::ast::{idents_view, stmts_view, Ident, Program, Stmt};
use crate::evaluator::builtins::{apply_builtin, lines_view, wrong_arguments};
use crate::evaluator::env::{Env, EnvV};
use crate::evaluator::object::{objects_view, Object, ObjectV};
use crate::evaluator::semantics::{
    spec_bind,
    spec_bind_params,
    spec_call_plan,
    spec_eval,
    spec_lookup,
    BlockOutcome,
    CallPlan,
    StateV,
};
use vstd::prelude::*;
use vstd::string::StringExecFns;

verus! {

/// The evaluator of programs.
pub struct Evaluator {
    frames: Vec<Env>,
    output: Vec<String>,
    max_depth: usize,
    max_loops: u64,
}

pub open spec fn frames_view(frames: Seq<Env>) -> Seq<EnvV> {
    Seq::new(frames.len(), |i: int| frames[i]@)
}

pub open spec fn opt_object_view(o: Option<Object>) -> Option<ObjectV> {
    match o {
        Some(o) => Some(o@),
        None => None,
    }
}

impl View for Evaluator {
    type V = StateV;

    closed spec fn view(&self) -> StateV {
        StateV { frames: frames_view(self.frames@), output: lines_view(self.output@) }
    }
}

/// How a call goes on once the function and the arguments are there.
pub enum Plan {
    /// The body is to run in the new scope `env`.
    Enter { env: usize, body: Vec<Stmt> },
    /// The call is over with this value.
    Done(Object),
}

/// How deep calls may nest unless the host says otherwise.
pub const DEFAULT_MAX_DEPTH: usize = 200;

/// How often one loop may run unless the host says otherwise.
pub const DEFAULT_MAX_LOOPS: u64 = 100000000;

impl Evaluator {
    /// How deep calls may nest.
    pub closed spec fn spec_max_depth(&self) -> nat {
        self.max_depth as nat
    }

    /// How often one loop may run.
    pub closed spec fn spec_max_loops(&self) -> nat {
        self.max_loops as nat
    }

    /// An evaluator whose outermost scope is `env`, with the usual limits.
    pub fn new(env: Env) -> (evaluator: Evaluator)
        ensures
            evaluator@ == (StateV { frames: seq![env@], output: Seq::empty() }),
            evaluator.spec_max_depth() == DEFAULT_MAX_DEPTH,
            evaluator.spec_max_loops() == DEFAULT_MAX_LOOPS,
    {
        Evaluator::with_limits(env, DEFAULT_MAX_DEPTH, DEFAULT_MAX_LOOPS)
    }

    /// An evaluator whose outermost scope is `env`, in which calls may nest
    /// `max_depth` deep and one loop may run `max_loops` times.
    pub fn with_limits(env: Env, max_depth: usize, max_loops: u64) -> (evaluator: Evaluator)
        ensures
            evaluator@ == (StateV { frames: seq![env@], output: Seq::empty() }),
            evaluator.spec_max_depth() == max_depth,
            evaluator.spec_max_loops() == max_loops,
    {
        let mut frames: Vec<Env> = Vec::new();
        frames.push(env);
        let evaluator = Evaluator { frames, output: Vec::new(), max_depth, max_loops };
        assert(evaluator@.frames =~= seq![env@]);
        assert(evaluator@.output =~= Seq::empty());
        evaluator
    }

    /// Runs a program in the outermost scope. The result is the value of the last
    /// statement that has one; what a `return` gives comes without its wrapping.
    pub fn eval(&mut self, program: &Program) -> (result: Option<Object>)
        ensures
            final(self).spec_max_depth() == old(self).spec_max_depth(),
            final(self).spec_max_loops() == old(self).spec_max_loops(),
            (BlockOutcome { state: final(self)@, value: opt_object_view(result) }) == spec_eval(
                old(self)@,
                0,
                stmts_view(program@),
                old(self).spec_max_depth(),
                old(self).spec_max_loops(),
            ),
    {
        let depth = self.max_depth;
        match self.eval_block_stmt(0, program, depth) {
            Some(Object::ReturnValue(value)) => Some(*value),
            other => other,
        }
    }

    /// The lines printed so far, oldest first.
    pub fn output(&self) -> (lines: &Vec<String>)
        ensures
            lines_view(lines@) == self@.output,
    {
        &self.output
    }

    /// Hands out the lines printed so far and forgets them.
    pub fn take_output(&mut self) -> (lines: Vec<String>)
        ensures
            lines_view(lines@) == old(self)@.output,
            final(self)@ == (StateV { frames: old(self)@.frames, output: Seq::empty() }),
            final(self).spec_max_depth() == old(self).spec_max_depth(),
            final(self).spec_max_loops() == old(self).spec_max_loops(),
    {
        let mut lines: Vec<String> = Vec::new();
        std::mem::swap(&mut self.output, &mut lines);
        assert(self@.output =~= Seq::empty());
        lines
    }

    /// The limits as the recursive functions see them.
    pub(crate) fn loops(&self) -> (r: u64)
        ensures
            r == self.spec_max_loops(),
    {
        self.max_loops
    }

    /// The value of `name` seen from the scope `env`.
    pub fn lookup(&self, env: usize, name: &str) -> (r: Option<Object>)
        ensures
            opt_object_view(r) == spec_lookup(self@.frames, env as nat, name@),
    {
        let mut at = env;
        loop
            invariant
                spec_lookup(self@.frames, at as nat, name@) == spec_lookup(
                    self@.frames,
                    env as nat,
                    name@,
                ),
            decreases at,
        {
            if at >= self.frames.len() {
                return None;
            }
            assert(self@.frames[at as int] == self.frames@[at as int]@);
            match self.frames[at].get(name) {
                Some(v) => {
                    return Some(v);
                },
                None => match self.frames[at].outer() {
                    Some(outer) => {
                        if outer < at {
                            at = outer;
                        } else {
                            return None;
                        }
                    },
                    None => {
                        return None;
                    },
                },
            }
        }
    }

    /// Binds `name` to a copy of `value` in the scope `env` itself. The outermost
    /// scope has the handle 0; a handle that no scope has changes nothing.
    pub fn bind(&mut self, env: usize, name: String, value: &Object)
        ensures
            final(self)@ == spec_bind(old(self)@, env as nat, name@, value@),
            final(self).spec_max_depth() == old(self).spec_max_depth(),
            final(self).spec_max_loops() == old(self).spec_max_loops(),
    {
        if env < self.frames.len() {
            assert(self@.frames[env as int] == self.frames@[env as int]@);
            let mut frame = Env::new();
            std::mem::swap(&mut frame, &mut self.frames[env]);
            frame.set(name, value);
            std::mem::swap(&mut frame, &mut self.frames[env]);
            assert(self@.frames =~= spec_bind(old(self)@, env as nat, name@, value@).frames);
        }
    }

    /// Makes the scope of a call: inside the scope `captured`, with `params` bound to
    /// `args` one by one.
    fn enter(&mut self, captured: usize, params: &Vec<Ident>, args: &Vec<Object>) -> (env: usize)
        requires
            params.len() == args.len(),
        ensures
            env == old(self)@.frames.len(),
            final(self)@ == (StateV {
                frames: old(self)@.frames.push(
                    EnvV {
                        store: spec_bind_params(
                            Seq::empty(),
                            idents_view(params@),
                            objects_view(args@),
                            0,
                        ),
                        outer: Some(captured as nat),
                    },
                ),
                output: old(self)@.output,
            }),
            final(self).spec_max_depth() == old(self).spec_max_depth(),
            final(self).spec_max_loops() == old(self).spec_max_loops(),
    {
        let mut frame = Env::new_with_outer(captured);
        let mut i: usize = 0;
        while i < params.len()
            invariant
                i <= params.len(),
                params.len() == args.len(),
                frame@.outer == Some(captured as nat),
                spec_bind_params(frame@.store, idents_view(params@), objects_view(args@), i as nat)
                    == spec_bind_params(
                    Seq::empty(),
                    idents_view(params@),
                    objects_view(args@),
                    0,
                ),
            decreases params.len() - i,
        {
            assert(idents_view(params@)[i as int] == params@[i as int]@);
            assert(objects_view(args@)[i as int] == args@[i as int]@);
            frame.set(params[i].0.clone(), &args[i]);
            i += 1;
        }
        let env = self.frames.len();
        self.frames.push(frame);
        assert(self@.frames =~= old(self)@.frames.push(frame@));
        env
    }

    /// Does what a call does before a body runs.
    pub(crate) fn call_plan(&mut self, f: Object, args: Vec<Object>, depth: usize) -> (plan: Plan)
        ensures
            final(self).spec_max_depth() == old(self).spec_max_depth(),
            final(self).spec_max_loops() == old(self).spec_max_loops(),
            match plan {
                Plan::Enter { env, body } => spec_call_plan(
                    old(self)@,
                    f@,
                    objects_view(args@),
                    depth as nat,
                ) == (CallPlan::Enter {
                    state: final(self)@,
                    env: env as nat,
                    body: stmts_view(body@),
                }) && depth > 0,
                Plan::Done(value) => spec_call_plan(
                    old(self)@,
                    f@,
                    objects_view(args@),
                    depth as nat,
                ) == CallPlan::Done(
                    crate::evaluator::semantics::Outcome { state: final(self)@, value: value@ },
                ),
            },
    {
        match f {
            Object::Func(params, body, captured) => {
                assert(idents_view(params@).len() == params.len());
                assert(objects_view(args@).len() == args.len());
                if params.len() != args.len() {
                    Plan::Done(wrong_arguments(params.len() as u64, args.len() as u64))
                } else if depth == 0 {
                    Plan::Done(Object::Error(String::from_str("call depth exceeded")))
                } else {
                    let env = self.enter(captured, &params, &args);
                    Plan::Enter { env, body }
                }
            },
            Object::Builtin(arity, native) => {
                assert(objects_view(args@).len() == args.len());
                if arity >= 0 && args.len() as u64 != arity as u64 {
                    Plan::Done(wrong_arguments(arity as u64, args.len() as u64))
                } else {
                    let value = apply_builtin(native, &args, &mut self.output);
                    Plan::Done(value)
                }
            },
            other => {
                let mut message = other.to_string();
                message.append(" is not valid function");
                Plan::Done(Object::Error(message))
            },
        }
    }
}

} // verus!
