//! What holds of every evaluation.

use crate::ast::StmtV;
use crate::evaluator::env::{lemma_store_set_get, store_get};
use crate::evaluator::object::{entry_get, spec_is_signal, spec_key_of, Builtin, ObjectV};
use crate::evaluator::semantics::{
    spec_bind,
    spec_call_plan,
    spec_eval_stmt,
    spec_eval_stmts,
    spec_lookup,
    CallPlan,
    StateV,
};
use crate::evaluator::values::spec_index_value;
use vstd::prelude::*;

verus! {

/// Scopes are shared, not copied: a binding made in a scope is seen from that scope
/// and from every scope right inside it that does not bind the name itself, whether
/// the inner scope was made before the binding or after it.
pub proof fn lemma_binding_is_shared(
    st: StateV,
    env: nat,
    inner: nat,
    name: Seq<char>,
    value: ObjectV,
)
    requires
        env < inner < st.frames.len(),
        st.frames[inner as int].outer == Some(env),
        store_get(st.frames[inner as int].store, name) is None,
    ensures
        spec_lookup(spec_bind(st, env, name, value).frames, env, name) == Some(value),
        spec_lookup(spec_bind(st, env, name, value).frames, inner, name) == Some(value),
{
    lemma_store_set_get(st.frames[env as int].store, name, value, name);
    let after = spec_bind(st, env, name, value).frames;
    assert(after[inner as int] == st.frames[inner as int]);
    assert(spec_lookup(after, inner, name) == spec_lookup(after, env, name));
}

/// A binding changes nothing for the other names of its scope.
pub proof fn lemma_binding_keeps_other_names(
    st: StateV,
    env: nat,
    name: Seq<char>,
    value: ObjectV,
    other: Seq<char>,
)
    requires
        env < st.frames.len(),
        other != name,
    ensures
        store_get(spec_bind(st, env, name, value).frames[env as int].store, other) == store_get(
            st.frames[env as int].store,
            other,
        ),
{
    lemma_store_set_get(st.frames[env as int].store, name, value, other);
}

/// A call with the wrong number of arguments is an error value and changes nothing,
/// for a function of the program and for a native function that takes a fixed number.
pub proof fn lemma_wrong_arity_is_an_error(st: StateV, f: ObjectV, args: Seq<ObjectV>, depth: nat)
    requires
        match f {
            ObjectV::Func(params, _, _) => params.len() != args.len(),
            ObjectV::Builtin(arity, _) => arity >= 0 && arity != args.len(),
            _ => false,
        },
    ensures
        spec_call_plan(st, f, args, depth) matches CallPlan::Done(outcome) && outcome.state == st
            && outcome.value is Error,
{
}

/// A value that is no function cannot be called: the call is an error value and
/// changes nothing.
pub proof fn lemma_calling_a_non_function_is_an_error(
    st: StateV,
    f: ObjectV,
    args: Seq<ObjectV>,
    depth: nat,
)
    requires
        !(f is Func),
        !(f is Builtin),
    ensures
        spec_call_plan(st, f, args, depth) matches CallPlan::Done(outcome) && outcome.state == st
            && outcome.value is Error,
{
}

/// What a container does not hold is `null`, not an error: an index outside an array,
/// and a key that a hash does not have.
pub proof fn lemma_container_miss_is_null(container: ObjectV, index: ObjectV)
    requires
        match container {
            ObjectV::Array(items) => index matches ObjectV::Int(n) && !(0 <= n < items.len()),
            ObjectV::Hash(pairs) => match spec_key_of(index) {
                Some(key) => entry_get(pairs, key) is None,
                None => true,
            },
            _ => false,
        },
    ensures
        spec_index_value(container, index) == ObjectV::Null,
{
}

/// Only arrays and hashes can be indexed: for every other value indexing is an
/// error value.
pub proof fn lemma_indexing_a_non_container_is_an_error(container: ObjectV, index: ObjectV)
    requires
        !(container is Array),
        !(container is Hash),
    ensures
        spec_index_value(container, index) is Error,
{
}

/// A signal ends the sequence of statements in which it comes up and is its value:
/// an error, a `return`, and a `break` or `continue` too, wherever they stand.
pub proof fn lemma_signal_ends_the_block(
    st: StateV,
    env: nat,
    stmts: Seq<StmtV>,
    i: nat,
    last: Option<ObjectV>,
    depth: nat,
    loops: nat,
)
    requires
        i < stmts.len(),
        !(stmts[i as int] is Blank),
        spec_eval_stmt(st, env, stmts[i as int], depth, loops).value matches Some(v)
            && spec_is_signal(v),
    ensures
        spec_eval_stmts(st, env, stmts, i, last, depth, loops) == spec_eval_stmt(
            st,
            env,
            stmts[i as int],
            depth,
            loops,
        ),
{
}

/// `break` and `continue` are signals wherever they stand, inside a loop or not.
pub proof fn lemma_break_and_continue_are_signals(st: StateV, env: nat, depth: nat, loops: nat)
    ensures
        spec_eval_stmt(st, env, StmtV::Break, depth, loops).value == Some(ObjectV::BreakStatement),
        spec_eval_stmt(st, env, StmtV::Continue, depth, loops).value == Some(
            ObjectV::ContinueStatement,
        ),
        spec_is_signal(ObjectV::BreakStatement),
        spec_is_signal(ObjectV::ContinueStatement),
        spec_eval_stmt(st, env, StmtV::Break, depth, loops).state == st,
        spec_eval_stmt(st, env, StmtV::Continue, depth, loops).state == st,
{
}

} // verus!
