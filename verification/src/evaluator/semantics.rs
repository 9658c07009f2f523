//! What a program means: evaluation as a function of the syntax tree, the scopes and
//! two limits.
//!
//! Only a call makes a scope; a block runs in the scope around it. A function keeps
//! the handle of the scope in which it was made and, when called, runs in a new scope
//! inside that one, so that it sees every later change of that scope.
//!
//! A value that carries control flow (`ReturnValue`, `BreakStatement`,
//! `ContinueStatement`, `Error`, `Exit`) ends every expression and every sequence
//! of statements in which it comes up. A loop takes `break` and `continue`, a call
//! takes `ReturnValue`; nothing takes `Error` and `Exit`. What reaches the end of
//! the program is its result, a stray `break` or `continue` too.
//!
//! `depth` bounds how deep calls may nest and `loops` how often one loop may run;
//! beyond either there is an error value.

use crate::ast::{ExprV, LiteralV, StmtV};
use crate::evaluator::builtins::{spec_apply_builtin, wrong_arguments_text};
use crate::evaluator::env::{store_get, store_set, EnvV};
use crate::evaluator::object::{
    entry_set,
    spec_is_signal,
    spec_is_truthy,
    spec_key_of,
    spec_render,
    HashKeyV,
    ObjectV,
};
use crate::evaluator::values::{spec_index_value, spec_infix_value, spec_prefix_value};
use vstd::prelude::*;

verus! {

/// The scopes that exist, each under its handle, and every line printed so far.
pub struct StateV {
    pub frames: Seq<EnvV>,
    pub output: Seq<Seq<char>>,
}

/// A state and the value of an expression.
pub struct Outcome {
    pub state: StateV,
    pub value: ObjectV,
}

/// A state and the value of a sequence of statements, if it has one.
pub struct BlockOutcome {
    pub state: StateV,
    pub value: Option<ObjectV>,
}

/// A state and the values of a list of expressions, or the signal that ended it.
pub struct ListOutcome {
    pub state: StateV,
    pub values: Seq<ObjectV>,
    pub signal: Option<ObjectV>,
}

pub open spec fn unknown_identifier_text(name: Seq<char>) -> Seq<char> {
    "identifier not found: "@ + name
}

pub open spec fn unusable_key_text(key: ObjectV) -> Seq<char> {
    "unusable as hash key: "@ + spec_render(key)
}

pub open spec fn not_a_function_text(f: ObjectV) -> Seq<char> {
    spec_render(f) + " is not valid function"@
}

pub open spec fn depth_exceeded_text() -> Seq<char> {
    "call depth exceeded"@
}

pub open spec fn loops_exceeded_text() -> Seq<char> {
    "loop limit exceeded"@
}

/// The value of `name` seen from the scope `env`: that of the innermost scope that
/// binds it, from `env` outwards.
pub open spec fn spec_lookup(frames: Seq<EnvV>, env: nat, name: Seq<char>) -> Option<ObjectV>
    decreases env,
{
    if env >= frames.len() {
        None
    } else {
        match store_get(frames[env as int].store, name) {
            Some(v) => Some(v),
            None => match frames[env as int].outer {
                Some(outer) => if outer < env {
                    spec_lookup(frames, outer, name)
                } else {
                    None
                },
                None => None,
            },
        }
    }
}

/// The state after `name` is bound to `value` in the scope `env` itself.
pub open spec fn spec_bind(st: StateV, env: nat, name: Seq<char>, value: ObjectV) -> StateV {
    if env < st.frames.len() {
        StateV {
            frames: st.frames.update(
                env as int,
                EnvV {
                    store: store_set(st.frames[env as int].store, name, value),
                    outer: st.frames[env as int].outer,
                },
            ),
            output: st.output,
        }
    } else {
        st
    }
}

/// The bindings of the parameters of a call, in their order. Where a name comes
/// twice, the last argument counts.
pub open spec fn spec_bind_params(
    store: Seq<(Seq<char>, ObjectV)>,
    params: Seq<Seq<char>>,
    args: Seq<ObjectV>,
    i: nat,
) -> Seq<(Seq<char>, ObjectV)>
    decreases params.len() - i,
{
    if i >= params.len() || i >= args.len() {
        store
    } else {
        spec_bind_params(store_set(store, params[i as int], args[i as int]), params, args, i + 1)
    }
}

/// How a call goes on once the function and the arguments are there.
pub enum CallPlan {
    /// The body is to run in a new scope, which the state holds already.
    Enter { state: StateV, env: nat, body: Seq<StmtV> },
    /// The call is over.
    Done(Outcome),
}

/// What a call does before a body runs. A native function runs at once. A function
/// of the program gets a new scope inside the one in which it was made, with its
/// parameters bound to the arguments. A wrong number of arguments, a value that is
/// no function and a call beyond the depth allowed give error values.
pub open spec fn spec_call_plan(st: StateV, f: ObjectV, args: Seq<ObjectV>, depth: nat) -> CallPlan {
    match f {
        ObjectV::Func(params, body, captured) => if params.len() != args.len() {
            CallPlan::Done(
                Outcome {
                    state: st,
                    value: ObjectV::Error(
                        wrong_arguments_text(params.len() as int, args.len() as int),
                    ),
                },
            )
        } else if depth == 0 {
            CallPlan::Done(Outcome { state: st, value: ObjectV::Error(depth_exceeded_text()) })
        } else {
            CallPlan::Enter {
                state: StateV {
                    frames: st.frames.push(
                        EnvV {
                            store: spec_bind_params(Seq::empty(), params, args, 0),
                            outer: Some(captured),
                        },
                    ),
                    output: st.output,
                },
                env: st.frames.len(),
                body,
            }
        },
        ObjectV::Builtin(arity, native) => if arity >= 0 && args.len() != arity {
            CallPlan::Done(
                Outcome {
                    state: st,
                    value: ObjectV::Error(wrong_arguments_text(arity as int, args.len() as int)),
                },
            )
        } else {
            CallPlan::Done(
                Outcome {
                    state: StateV {
                        frames: st.frames,
                        output: st.output + spec_apply_builtin(native, args).printed,
                    },
                    value: spec_apply_builtin(native, args).value,
                },
            )
        },
        _ => CallPlan::Done(Outcome { state: st, value: ObjectV::Error(not_a_function_text(f)) }),
    }
}

/// The value of a call whose body gave `result`: what the body returned, without
/// its wrapping; `null` where the body has no value.
pub open spec fn spec_call_value(result: Option<ObjectV>) -> ObjectV {
    match result {
        Some(ObjectV::ReturnValue(v)) => *v,
        Some(v) => v,
        None => ObjectV::Null,
    }
}

/// The value of a block as an expression: `null` where it has none.
pub open spec fn spec_block_value(result: Option<ObjectV>) -> ObjectV {
    match result {
        Some(v) => v,
        None => ObjectV::Null,
    }
}

/// A whole program, run in the scope `env`: the value of its last statement that has
/// one. What a `return` gives comes without its wrapping.
pub open spec fn spec_eval(
    st: StateV,
    env: nat,
    program: Seq<StmtV>,
    depth: nat,
    loops: nat,
) -> BlockOutcome {
    let r = spec_eval_block(st, env, program, depth, loops);
    BlockOutcome {
        state: r.state,
        value: match r.value {
            Some(ObjectV::ReturnValue(v)) => Some(*v),
            other => other,
        },
    }
}

/// A sequence of statements: the value of the last statement run that has one. A
/// signal ends the sequence and is its value.
pub open spec fn spec_eval_block(
    st: StateV,
    env: nat,
    stmts: Seq<StmtV>,
    depth: nat,
    loops: nat,
) -> BlockOutcome
    decreases depth, stmts, stmts.len() + 1,
{
    spec_eval_stmts(st, env, stmts, 0, None, depth, loops)
}

/// The statements of `stmts` from index `i` on, where `last` is the value so far.
/// A blank line changes nothing.
pub open spec fn spec_eval_stmts(
    st: StateV,
    env: nat,
    stmts: Seq<StmtV>,
    i: nat,
    last: Option<ObjectV>,
    depth: nat,
    loops: nat,
) -> BlockOutcome
    decreases depth, stmts, stmts.len() - i,
{
    if i >= stmts.len() {
        BlockOutcome { state: st, value: last }
    } else if stmts[i as int] is Blank {
        spec_eval_stmts(st, env, stmts, i + 1, last, depth, loops)
    } else {
        let r = spec_eval_stmt(st, env, stmts[i as int], depth, loops);
        match r.value {
            Some(v) => if spec_is_signal(v) {
                r
            } else {
                spec_eval_stmts(r.state, env, stmts, i + 1, r.value, depth, loops)
            },
            None => spec_eval_stmts(r.state, env, stmts, i + 1, r.value, depth, loops),
        }
    }
}

/// One statement. `let` binds in the scope `env` and has no value; where its
/// expression gives a signal, nothing is bound and the signal is the value.
pub open spec fn spec_eval_stmt(
    st: StateV,
    env: nat,
    stmt: StmtV,
    depth: nat,
    loops: nat,
) -> BlockOutcome
    decreases depth, stmt, 0nat,
{
    match stmt {
        StmtV::Blank => BlockOutcome { state: st, value: None },
        StmtV::Break => BlockOutcome { state: st, value: Some(ObjectV::BreakStatement) },
        StmtV::Continue => BlockOutcome { state: st, value: Some(ObjectV::ContinueStatement) },
        StmtV::Let(name, e) => {
            let r = spec_eval_expr(st, env, e, depth, loops);
            if spec_is_signal(r.value) {
                BlockOutcome { state: r.state, value: Some(r.value) }
            } else {
                BlockOutcome { state: spec_bind(r.state, env, name, r.value), value: None }
            }
        },
        StmtV::Return(e) => {
            let r = spec_eval_expr(st, env, e, depth, loops);
            if spec_is_signal(r.value) {
                BlockOutcome { state: r.state, value: Some(r.value) }
            } else {
                BlockOutcome {
                    state: r.state,
                    value: Some(ObjectV::ReturnValue(Box::new(r.value))),
                }
            }
        },
        StmtV::Expr(e) => {
            let r = spec_eval_expr(st, env, e, depth, loops);
            BlockOutcome { state: r.state, value: Some(r.value) }
        },
    }
}

/// The state and the value that one expression gives. Its definition is
/// [`spec_expr_rule`]; [`lemma_eval_expr`] says so outside this file, where a proof
/// unfolds it once at a time.
pub closed spec fn spec_eval_expr(st: StateV, env: nat, e: ExprV, depth: nat, loops: nat) -> Outcome
    decreases depth, e, loops + 2,
{
    spec_expr_rule(st, env, e, depth, loops)
}

/// An expression gives what its rule says.
pub proof fn lemma_eval_expr(st: StateV, env: nat, e: ExprV, depth: nat, loops: nat)
    ensures
        spec_eval_expr(st, env, e, depth, loops) == spec_expr_rule(st, env, e, depth, loops),
{
}

/// The rule for one expression, by its kind. Operands are evaluated from left to
/// right, and the first signal among them is the value of the whole.
pub open spec fn spec_expr_rule(st: StateV, env: nat, e: ExprV, depth: nat, loops: nat) -> Outcome
    decreases depth, e, loops + 1,
{
    match e {
        ExprV::Ident(name) => Outcome {
            state: st,
            value: match spec_lookup(st.frames, env, name) {
                Some(v) => v,
                None => ObjectV::Error(unknown_identifier_text(name)),
            },
        },
        ExprV::Literal(LiteralV::Int(n)) => Outcome { state: st, value: ObjectV::Int(n) },
        ExprV::Literal(LiteralV::String(s)) => Outcome { state: st, value: ObjectV::String(s) },
        ExprV::Literal(LiteralV::Bool(b)) => Outcome { state: st, value: ObjectV::Bool(b) },
        ExprV::Literal(LiteralV::Array(items)) => {
            let r = spec_eval_exprs(st, env, items, 0, Seq::empty(), depth, loops);
            match r.signal {
                Some(signal) => Outcome { state: r.state, value: signal },
                None => Outcome { state: r.state, value: ObjectV::Array(r.values) },
            }
        },
        ExprV::Literal(LiteralV::Hash(pairs)) => spec_eval_pairs(
            st,
            env,
            pairs,
            0,
            Seq::empty(),
            depth,
            loops,
        ),
        ExprV::Prefix(op, right) => {
            let r = spec_eval_expr(st, env, *right, depth, loops);
            if spec_is_signal(r.value) {
                r
            } else {
                Outcome { state: r.state, value: spec_prefix_value(op, r.value) }
            }
        },
        ExprV::Infix(op, left, right) => {
            let l = spec_eval_expr(st, env, *left, depth, loops);
            if spec_is_signal(l.value) {
                l
            } else {
                let r = spec_eval_expr(l.state, env, *right, depth, loops);
                if spec_is_signal(r.value) {
                    r
                } else {
                    Outcome { state: r.state, value: spec_infix_value(op, l.value, r.value) }
                }
            }
        },
        ExprV::Index(left, index) => {
            let l = spec_eval_expr(st, env, *left, depth, loops);
            if spec_is_signal(l.value) {
                l
            } else {
                let r = spec_eval_expr(l.state, env, *index, depth, loops);
                if spec_is_signal(r.value) {
                    r
                } else {
                    Outcome { state: r.state, value: spec_index_value(l.value, r.value) }
                }
            }
        },
        ExprV::If { cond, consequence, alternative } => {
            let c = spec_eval_expr(st, env, *cond, depth, loops);
            if spec_is_signal(c.value) {
                c
            } else if spec_is_truthy(c.value) {
                let b = spec_eval_block(c.state, env, consequence, depth, loops);
                Outcome { state: b.state, value: spec_block_value(b.value) }
            } else {
                match alternative {
                    Some(other) => {
                        let b = spec_eval_block(c.state, env, other, depth, loops);
                        Outcome { state: b.state, value: spec_block_value(b.value) }
                    },
                    None => Outcome { state: c.state, value: ObjectV::Null },
                }
            }
        },
        ExprV::While { cond, consequence } => spec_eval_while(st, env, e, depth, loops, loops),
        ExprV::Func { params, body } => Outcome {
            state: st,
            value: ObjectV::Func(params, body, env),
        },
        ExprV::Call { func, args } => {
            let f = spec_eval_expr(st, env, *func, depth, loops);
            if spec_is_signal(f.value) {
                f
            } else {
                let a = spec_eval_exprs(f.state, env, args, 0, Seq::empty(), depth, loops);
                match a.signal {
                    Some(signal) => Outcome { state: a.state, value: signal },
                    None => match spec_call_plan(a.state, f.value, a.values, depth) {
                        CallPlan::Done(outcome) => outcome,
                        CallPlan::Enter { state, env: inner, body } => if depth > 0 {
                            let b = spec_eval_block(state, inner, body, (depth - 1) as nat, loops);
                            Outcome { state: b.state, value: spec_call_value(b.value) }
                        } else {
                            Outcome { state, value: ObjectV::Null }
                        },
                    },
                }
            }
        },
    }
}

/// The expressions of `items` from index `i` on, after the values `found`.
pub open spec fn spec_eval_exprs(
    st: StateV,
    env: nat,
    items: Seq<ExprV>,
    i: nat,
    found: Seq<ObjectV>,
    depth: nat,
    loops: nat,
) -> ListOutcome
    decreases depth, items, items.len() - i,
{
    if i >= items.len() {
        ListOutcome { state: st, values: found, signal: None }
    } else {
        let r = spec_eval_expr(st, env, items[i as int], depth, loops);
        if spec_is_signal(r.value) {
            ListOutcome { state: r.state, values: found, signal: Some(r.value) }
        } else {
            spec_eval_exprs(r.state, env, items, i + 1, found.push(r.value), depth, loops)
        }
    }
}

/// The pairs of a hash literal from index `i` on, after the entries `found`. A key
/// that is no integer, boolean or string is an error; it comes up before the value
/// of the pair is evaluated. A key that comes again replaces the value in its place.
pub open spec fn spec_eval_pairs(
    st: StateV,
    env: nat,
    pairs: Seq<(ExprV, ExprV)>,
    i: nat,
    found: Seq<(HashKeyV, ObjectV)>,
    depth: nat,
    loops: nat,
) -> Outcome
    decreases depth, pairs, pairs.len() - i,
{
    if i >= pairs.len() {
        Outcome { state: st, value: ObjectV::Hash(found) }
    } else {
        let k = spec_eval_expr(st, env, pairs[i as int].0, depth, loops);
        if spec_is_signal(k.value) {
            k
        } else {
            match spec_key_of(k.value) {
                None => Outcome { state: k.state, value: ObjectV::Error(unusable_key_text(k.value)) },
                Some(key) => {
                    let v = spec_eval_expr(k.state, env, pairs[i as int].1, depth, loops);
                    if spec_is_signal(v.value) {
                        v
                    } else {
                        spec_eval_pairs(
                            v.state,
                            env,
                            pairs,
                            i + 1,
                            entry_set(found, key, v.value),
                            depth,
                            loops,
                        )
                    }
                },
            }
        }
    }
}

/// The loop `e`, which may run `remaining` times more. Before every round the
/// condition is evaluated anew. `break` ends the loop with `null`, `continue` goes
/// on with the next round, every other signal leaves the loop as it is.
pub open spec fn spec_eval_while(
    st: StateV,
    env: nat,
    e: ExprV,
    depth: nat,
    loops: nat,
    remaining: nat,
) -> Outcome
    decreases depth, e, remaining,
{
    match e {
        ExprV::While { cond, consequence } => {
            let c = spec_eval_expr(st, env, *cond, depth, loops);
            if spec_is_signal(c.value) {
                c
            } else if !spec_is_truthy(c.value) {
                Outcome { state: c.state, value: ObjectV::Null }
            } else if remaining == 0 {
                Outcome { state: c.state, value: ObjectV::Error(loops_exceeded_text()) }
            } else {
                let b = spec_eval_block(c.state, env, consequence, depth, loops);
                match b.value {
                    Some(ObjectV::BreakStatement) => Outcome {
                        state: b.state,
                        value: ObjectV::Null,
                    },
                    Some(ObjectV::ReturnValue(v)) => Outcome {
                        state: b.state,
                        value: ObjectV::ReturnValue(v),
                    },
                    Some(ObjectV::Error(message)) => Outcome {
                        state: b.state,
                        value: ObjectV::Error(message),
                    },
                    Some(ObjectV::Exit(code)) => Outcome {
                        state: b.state,
                        value: ObjectV::Exit(code),
                    },
                    _ => spec_eval_while(b.state, env, e, depth, loops, (remaining - 1) as nat),
                }
            }
        },
        _ => Outcome { state: st, value: ObjectV::Null },
    }
}

} // verus!
