//! The recursive part of the evaluator.

use crate::ast::{
    duplicate_idents,
    duplicate_stmts,
    exprs_view,
    pairs_view,
    stmts_view,
    Expr,
    ExprV,
    Literal,
    LiteralV,
    Stmt,
};
use crate::evaluator::object::{
    entries_view,
    entry_set,
    find_entry,
    lemma_entries_view_push,
    lemma_objects_view_push,
    objects_view,
    HashKey,
    Object,
};
use crate::evaluator::semantics::{
    lemma_eval_expr,
    spec_eval_block,
    spec_eval_expr,
    spec_eval_exprs,
    spec_eval_pairs,
    spec_eval_stmt,
    spec_eval_stmts,
    spec_eval_while,
    BlockOutcome,
    Outcome,
};
use crate::evaluator::values::{error_about, index_value, infix_value, prefix_value};
use crate::evaluator::{opt_object_view, Evaluator, Plan};
use vstd::prelude::*;
use vstd::string::StringExecFns;

verus! {

impl Evaluator {
    /// Runs a sequence of statements in the scope `env`.
    pub(crate) fn eval_block_stmt(&mut self, env: usize, stmts: &Vec<Stmt>, depth: usize) -> (result:
        Option<Object>)
        ensures
            final(self).spec_max_depth() == old(self).spec_max_depth(),
            final(self).spec_max_loops() == old(self).spec_max_loops(),
            (BlockOutcome { state: final(self)@, value: opt_object_view(result) })
                == spec_eval_block(
                old(self)@,
                env as nat,
                stmts_view(stmts@),
                depth as nat,
                old(self).spec_max_loops(),
            ),
        decreases depth, stmts, stmts.len() + 1,
    {
        let ghost loops = self.spec_max_loops();
        let ghost all = stmts_view(stmts@);
        let mut last: Option<Object> = None;
        let mut i: usize = 0;
        while i < stmts.len()
            invariant
                i <= stmts.len(),
                all == stmts_view(stmts@),
                self.spec_max_depth() == old(self).spec_max_depth(),
                self.spec_max_loops() == old(self).spec_max_loops(),
                loops == self.spec_max_loops(),
                spec_eval_stmts(
                    self@,
                    env as nat,
                    all,
                    i as nat,
                    opt_object_view(last),
                    depth as nat,
                    loops,
                ) == spec_eval_block(old(self)@, env as nat, all, depth as nat, loops),
            decreases stmts.len() - i,
        {
            assert(all[i as int] == stmts@[i as int]@);
            match &stmts[i] {
                Stmt::Blank => {},
                stmt => {
                    let r = self.eval_stmt(env, stmt, depth);
                    let stop = match &r {
                        Some(v) => v.is_signal(),
                        None => false,
                    };
                    if stop {
                        return r;
                    }
                    last = r;
                },
            }
            i += 1;
        }
        last
    }

    /// Runs one statement in the scope `env`.
    pub(crate) fn eval_stmt(&mut self, env: usize, stmt: &Stmt, depth: usize) -> (result: Option<
        Object,
    >)
        ensures
            final(self).spec_max_depth() == old(self).spec_max_depth(),
            final(self).spec_max_loops() == old(self).spec_max_loops(),
            (BlockOutcome { state: final(self)@, value: opt_object_view(result) })
                == spec_eval_stmt(
                old(self)@,
                env as nat,
                stmt@,
                depth as nat,
                old(self).spec_max_loops(),
            ),
        decreases depth, stmt, 0nat,
    {
        match stmt {
            Stmt::Blank => None,
            Stmt::Break => Some(Object::BreakStatement),
            Stmt::Continue => Some(Object::ContinueStatement),
            Stmt::Let(name, e) => {
                let value = self.eval_expr(env, e, depth);
                if value.is_signal() {
                    Some(value)
                } else {
                    self.bind(env, name.0.clone(), &value);
                    None
                }
            },
            Stmt::Return(e) => {
                let value = self.eval_expr(env, e, depth);
                if value.is_signal() {
                    Some(value)
                } else {
                    Some(Object::ReturnValue(Box::new(value)))
                }
            },
            Stmt::Expr(e) => Some(self.eval_expr(env, e, depth)),
        }
    }

    /// Evaluates one expression in the scope `env`.
    pub(crate) fn eval_expr(&mut self, env: usize, e: &Expr, depth: usize) -> (value: Object)
        ensures
            final(self).spec_max_depth() == old(self).spec_max_depth(),
            final(self).spec_max_loops() == old(self).spec_max_loops(),
            (Outcome { state: final(self)@, value: value@ }) == spec_eval_expr(
                old(self)@,
                env as nat,
                e@,
                depth as nat,
                old(self).spec_max_loops(),
            ),
        decreases depth, e, old(self).spec_max_loops() + 1,
    {
        proof {
            lemma_eval_expr(self@, env as nat, e@, depth as nat, self.spec_max_loops());
        }
        match e {
            Expr::Ident(name) => {
                match self.lookup(env, name.0.as_str()) {
                    Some(v) => {
                        return v;
                    },
                    None => {
                        let mut message = String::from_str("identifier not found: ");
                        message.append(name.0.as_str());
                        return Object::Error(message);
                    },
                }
            },
            Expr::Literal(lit) => {
                assert(e@ == ExprV::Literal(lit@));
                match lit {
                    Literal::Int(n) => {
                        assert(lit@ == LiteralV::Int(*n));
                        return Object::Int(*n);
                    },
                    Literal::String(s) => {
                        assert(lit@ == LiteralV::String(s@));
                        return Object::String(s.clone());
                    },
                    Literal::Bool(b) => {
                        assert(lit@ == LiteralV::Bool(*b));
                        return Object::Bool(*b);
                    },
                    Literal::Array(items) => {
                        assert(lit@ == LiteralV::Array(exprs_view(items@)));
                        match self.eval_exprs(env, items, depth) {
                            Ok(values) => {
                                return Object::Array(values);
                            },
                            Err(signal) => {
                                return signal;
                            },
                        }
                    },
                    Literal::Hash(pairs) => {
                        assert(lit@ == LiteralV::Hash(pairs_view(pairs@)));
                        return self.eval_hash(env, pairs, depth);
                    },
                }
            },
            Expr::Prefix(op, right) => {
                let r = self.eval_expr(env, right, depth);
                if r.is_signal() {
                    return r;
                }
                return prefix_value(*op, &r);
            },
            Expr::Infix(op, left, right) => {
                let l = self.eval_expr(env, left, depth);
                if l.is_signal() {
                    return l;
                }
                let r = self.eval_expr(env, right, depth);
                if r.is_signal() {
                    return r;
                }
                return infix_value(*op, &l, &r);
            },
            Expr::Index(left, index) => {
                let l = self.eval_expr(env, left, depth);
                if l.is_signal() {
                    return l;
                }
                let r = self.eval_expr(env, index, depth);
                if r.is_signal() {
                    return r;
                }
                return index_value(&l, &r);
            },
            Expr::If { cond, consequence, alternative } => {
                let c = self.eval_expr(env, cond, depth);
                if c.is_signal() {
                    return c;
                }
                if c.is_truthy() {
                    match self.eval_block_stmt(env, consequence, depth) {
                        Some(v) => {
                            return v;
                        },
                        None => {
                            return Object::Null;
                        },
                    }
                }
                match alternative {
                    Some(other) => {
                        match self.eval_block_stmt(env, other, depth) {
                            Some(v) => {
                                return v;
                            },
                            None => {
                                return Object::Null;
                            },
                        }
                    },
                    None => {
                        return Object::Null;
                    },
                }
            },
            Expr::While { cond: _, consequence: _ } => {
                return self.eval_while(env, e, depth);
            },
            Expr::Func { params, body } => {
                return Object::Func(duplicate_idents(params), duplicate_stmts(body), env);
            },
            Expr::Call { func, args } => {
                let f = self.eval_expr(env, func, depth);
                if f.is_signal() {
                    return f;
                }
                let values = match self.eval_exprs(env, args, depth) {
                    Ok(values) => values,
                    Err(signal) => {
                        return signal;
                    },
                };
                match self.call_plan(f, values, depth) {
                    Plan::Done(value) => {
                        return value;
                    },
                    Plan::Enter { env: inner, body } => {
                        match self.eval_block_stmt(inner, &body, depth - 1) {
                            Some(Object::ReturnValue(v)) => {
                                return *v;
                            },
                            Some(v) => {
                                return v;
                            },
                            None => {
                                return Object::Null;
                            },
                        }
                    },
                }
            },
        }
    }

    /// Evaluates a list of expressions from left to right. The first signal ends
    /// the list and comes back as `Err`.
    pub(crate) fn eval_exprs(&mut self, env: usize, items: &Vec<Expr>, depth: usize) -> (result:
        Result<Vec<Object>, Object>)
        ensures
            final(self).spec_max_depth() == old(self).spec_max_depth(),
            final(self).spec_max_loops() == old(self).spec_max_loops(),
            ({
                let outcome = spec_eval_exprs(
                    old(self)@,
                    env as nat,
                    exprs_view(items@),
                    0,
                    Seq::empty(),
                    depth as nat,
                    old(self).spec_max_loops(),
                );
                &&& outcome.state == final(self)@
                &&& match result {
                    Ok(values) => outcome.signal is None && outcome.values == objects_view(values@),
                    Err(signal) => outcome.signal == Some(signal@),
                }
            }),
        decreases depth, items, items.len(),
    {
        let ghost loops = self.spec_max_loops();
        let ghost all = exprs_view(items@);
        let mut values: Vec<Object> = Vec::new();
        let mut i: usize = 0;
        proof {
            assert(objects_view(values@) =~= Seq::empty());
        }
        while i < items.len()
            invariant
                i <= items.len(),
                all == exprs_view(items@),
                self.spec_max_depth() == old(self).spec_max_depth(),
                self.spec_max_loops() == old(self).spec_max_loops(),
                loops == self.spec_max_loops(),
                spec_eval_exprs(
                    self@,
                    env as nat,
                    all,
                    i as nat,
                    objects_view(values@),
                    depth as nat,
                    loops,
                ) == spec_eval_exprs(
                    old(self)@,
                    env as nat,
                    all,
                    0,
                    Seq::empty(),
                    depth as nat,
                    loops,
                ),
            decreases items.len() - i,
        {
            assert(all[i as int] == items@[i as int]@);
            let value = self.eval_expr(env, &items[i], depth);
            if value.is_signal() {
                return Err(value);
            }
            proof {
                lemma_objects_view_push(values@, value);
            }
            values.push(value);
            i += 1;
        }
        Ok(values)
    }

    /// Evaluates the pairs of a hash literal from left to right.
    pub(crate) fn eval_hash(&mut self, env: usize, pairs: &Vec<(Expr, Expr)>, depth: usize) -> (value:
        Object)
        ensures
            final(self).spec_max_depth() == old(self).spec_max_depth(),
            final(self).spec_max_loops() == old(self).spec_max_loops(),
            (Outcome { state: final(self)@, value: value@ }) == spec_eval_pairs(
                old(self)@,
                env as nat,
                pairs_view(pairs@),
                0,
                Seq::empty(),
                depth as nat,
                old(self).spec_max_loops(),
            ),
        decreases depth, pairs, pairs.len(),
    {
        let ghost loops = self.spec_max_loops();
        let ghost all = pairs_view(pairs@);
        let mut entries: Vec<(HashKey, Object)> = Vec::new();
        let mut i: usize = 0;
        proof {
            assert(entries_view(entries@) =~= Seq::empty());
        }
        while i < pairs.len()
            invariant
                i <= pairs.len(),
                all == pairs_view(pairs@),
                self.spec_max_depth() == old(self).spec_max_depth(),
                self.spec_max_loops() == old(self).spec_max_loops(),
                loops == self.spec_max_loops(),
                spec_eval_pairs(
                    self@,
                    env as nat,
                    all,
                    i as nat,
                    entries_view(entries@),
                    depth as nat,
                    loops,
                ) == spec_eval_pairs(
                    old(self)@,
                    env as nat,
                    all,
                    0,
                    Seq::empty(),
                    depth as nat,
                    loops,
                ),
            decreases pairs.len() - i,
        {
            assert(all[i as int] == (pairs@[i as int].0@, pairs@[i as int].1@));
            let k = self.eval_expr(env, &pairs[i].0, depth);
            if k.is_signal() {
                return k;
            }
            let key = match HashKey::from_object(&k) {
                Some(key) => key,
                None => {
                    return error_about("unusable as hash key: ", &k);
                },
            };
            let v = self.eval_expr(env, &pairs[i].1, depth);
            if v.is_signal() {
                return v;
            }
            let ghost before = entries_view(entries@);
            match find_entry(&entries, &key) {
                Some(at) => {
                    entries[at] = (key, v);
                    assert(entries_view(entries@) =~= entry_set(before, key@, v@));
                },
                None => {
                    proof {
                        lemma_entries_view_push(entries@, key, v);
                    }
                    entries.push((key, v));
                },
            }
            i += 1;
        }
        Object::Hash(entries)
    }

    /// Runs the loop `e` in the scope `env`.
    pub(crate) fn eval_while(&mut self, env: usize, e: &Expr, depth: usize) -> (value: Object)
        ensures
            final(self).spec_max_depth() == old(self).spec_max_depth(),
            final(self).spec_max_loops() == old(self).spec_max_loops(),
            (Outcome { state: final(self)@, value: value@ }) == spec_eval_while(
                old(self)@,
                env as nat,
                e@,
                depth as nat,
                old(self).spec_max_loops(),
                old(self).spec_max_loops(),
            ),
        decreases depth, e, old(self).spec_max_loops(),
    {
        let ghost loops = self.spec_max_loops();
        match e {
            Expr::While { cond, consequence } => {
                let mut remaining: u64 = self.loops();
                loop
                    invariant
                        e == (Expr::While { cond: *cond, consequence: *consequence }),
                        remaining <= loops,
                        self.spec_max_depth() == old(self).spec_max_depth(),
                        self.spec_max_loops() == old(self).spec_max_loops(),
                        loops == self.spec_max_loops(),
                        spec_eval_while(
                            self@,
                            env as nat,
                            e@,
                            depth as nat,
                            loops,
                            remaining as nat,
                        ) == spec_eval_while(
                            old(self)@,
                            env as nat,
                            e@,
                            depth as nat,
                            loops,
                            loops,
                        ),
                    decreases remaining,
                {
                    let c = self.eval_expr(env, cond, depth);
                    if c.is_signal() {
                        return c;
                    }
                    if !c.is_truthy() {
                        return Object::Null;
                    }
                    if remaining == 0 {
                        return Object::Error(String::from_str("loop limit exceeded"));
                    }
                    match self.eval_block_stmt(env, consequence, depth) {
                        Some(Object::BreakStatement) => {
                            return Object::Null;
                        },
                        Some(Object::ReturnValue(v)) => {
                            return Object::ReturnValue(v);
                        },
                        Some(Object::Error(message)) => {
                            return Object::Error(message);
                        },
                        Some(Object::Exit(code)) => {
                            return Object::Exit(code);
                        },
                        _ => {},
                    }
                    remaining -= 1;
                }
            },
            _ => Object::Null,
        }
    }
}

} // verus!
