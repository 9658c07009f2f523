//! Environments: the bindings of one scope and the handle of the scope around it.

use crate::evaluator::object::{Object, ObjectV};
use vstd::string::StringExecFns;
use vstd::prelude::*;

verus! {

/// The bindings of one scope. Scopes live in the evaluator, which hands out a
/// handle for each: `outer` is the handle of the scope around this one.
pub struct Env {
    store: Vec<(String, Object)>,
    outer: Option<usize>,
}

/// The model of an [`Env`].
pub struct EnvV {
    pub store: Seq<(Seq<char>, ObjectV)>,
    pub outer: Option<nat>,
}

pub open spec fn store_view(store: Seq<(String, Object)>) -> Seq<(Seq<char>, ObjectV)> {
    Seq::new(store.len(), |i: int| (store[i].0@, store[i].1@))
}

impl View for Env {
    type V = EnvV;

    closed spec fn view(&self) -> EnvV {
        EnvV {
            store: store_view(self.store@),
            outer: match self.outer {
                Some(o) => Some(o as nat),
                None => None,
            },
        }
    }
}

/// Where `name` is bound in `store`, if it is.
pub open spec fn binding_index(store: Seq<(Seq<char>, ObjectV)>, name: Seq<char>) -> Option<int>
    decreases store.len(),
{
    if store.len() == 0 {
        None
    } else if store[0].0 == name {
        Some(0)
    } else {
        match binding_index(store.skip(1), name) {
            Some(i) => Some(i + 1),
            None => None,
        }
    }
}

/// The value bound to `name` in `store`, if there is one.
pub open spec fn store_get(store: Seq<(Seq<char>, ObjectV)>, name: Seq<char>) -> Option<ObjectV> {
    match binding_index(store, name) {
        Some(i) => Some(store[i].1),
        None => None,
    }
}

/// `store` with `name` bound to `value`: in the place of the old binding where there
/// is one, else at the end.
pub open spec fn store_set(
    store: Seq<(Seq<char>, ObjectV)>,
    name: Seq<char>,
    value: ObjectV,
) -> Seq<(Seq<char>, ObjectV)> {
    match binding_index(store, name) {
        Some(i) => store.update(i, (name, value)),
        None => store.push((name, value)),
    }
}

/// What `binding_index` finds is the first binding of the name.
pub proof fn lemma_binding_index(store: Seq<(Seq<char>, ObjectV)>, name: Seq<char>)
    ensures
        match binding_index(store, name) {
            Some(i) => 0 <= i < store.len() && store[i].0 == name && forall|j: int|
                0 <= j < i ==> store[j].0 != name,
            None => forall|j: int| 0 <= j < store.len() ==> store[j].0 != name,
        },
    decreases store.len(),
{
    if store.len() > 0 && store[0].0 != name {
        lemma_binding_index(store.skip(1), name);
        match binding_index(store.skip(1), name) {
            Some(i) => {
                assert forall|j: int| 0 <= j < i + 1 implies store[j].0 != name by {
                    if j > 0 {
                        assert(store.skip(1)[j - 1].0 != name);
                    }
                }
            },
            None => {
                assert forall|j: int| 0 <= j < store.len() implies store[j].0 != name by {
                    if j > 0 {
                        assert(store.skip(1)[j - 1].0 != name);
                    }
                }
            },
        }
    }
}

/// After a binding is set, the name gives the new value and every other name what
/// it gave before.
pub proof fn lemma_store_set_get(
    store: Seq<(Seq<char>, ObjectV)>,
    name: Seq<char>,
    value: ObjectV,
    other: Seq<char>,
)
    ensures
        store_get(store_set(store, name, value), name) == Some(value),
        other != name ==> store_get(store_set(store, name, value), other) == store_get(
            store,
            other,
        ),
{
    let after = store_set(store, name, value);
    lemma_binding_index(store, name);
    lemma_binding_index(after, name);
    lemma_binding_index(store, other);
    lemma_binding_index(after, other);
    match binding_index(store, name) {
        Some(i) => {
            assert(after[i].0 == name);
        },
        None => {
            assert(after[store.len() as int].0 == name);
            assert forall|j: int| 0 <= j < store.len() implies after[j] == store[j] by {}
        },
    }
    if other != name {
        match binding_index(store, other) {
            Some(k) => {
                assert(after[k] == store[k]);
                assert forall|j: int| 0 <= j < k implies after[j].0 != other by {
                    assert(store[j].0 != other);
                }
            },
            None => {
                assert forall|j: int| 0 <= j < after.len() implies after[j].0 != other by {
                    if j < store.len() {
                        assert(store[j].0 != other);
                    }
                }
            },
        }
    }
}

impl Env {
    /// A scope without bindings and without a scope around it.
    pub fn new() -> (env: Env)
        ensures
            env@ == (EnvV { store: Seq::empty(), outer: None }),
    {
        let env = Env { store: Vec::new(), outer: None };
        assert(env@.store =~= Seq::empty());
        env
    }

    /// A scope with the given bindings and without a scope around it. Where a name
    /// comes twice, the first binding counts.
    pub fn from(store: Vec<(String, Object)>) -> (env: Env)
        ensures
            env@ == (EnvV { store: store_view(store@), outer: None }),
    {
        Env { store, outer: None }
    }

    /// A scope without bindings inside the scope with the handle `outer`.
    pub fn new_with_outer(outer: usize) -> (env: Env)
        ensures
            env@ == (EnvV { store: Seq::empty(), outer: Some(outer as nat) }),
    {
        let env = Env { store: Vec::new(), outer: Some(outer) };
        assert(env@.store =~= Seq::empty());
        env
    }

    /// The handle of the scope around this one.
    pub fn outer(&self) -> (r: Option<usize>)
        ensures
            match r {
                Some(o) => self@.outer == Some(o as nat),
                None => self@.outer is None,
            },
    {
        self.outer
    }

    fn find(&self, name: &str) -> (r: Option<usize>)
        ensures
            match r {
                Some(i) => binding_index(self@.store, name@) == Some(i as int) && i
                    < self.store.len(),
                None => binding_index(self@.store, name@) is None,
            },
    {
        let key = String::from_str(name);
        let mut i: usize = 0;
        proof {
            lemma_binding_index(self@.store, name@);
        }
        while i < self.store.len()
            invariant
                i <= self.store.len(),
                key@ == name@,
                forall|j: int| 0 <= j < i ==> self@.store[j].0 != name@,
            decreases self.store.len() - i,
        {
            if self.store[i].0 == key {
                proof {
                    assert(self@.store[i as int].0 == name@);
                    lemma_binding_index(self@.store, name@);
                }
                return Some(i);
            }
            i += 1;
        }
        None
    }

    /// The value bound to `name` in this scope itself, if there is one.
    pub fn get(&self, name: &str) -> (r: Option<Object>)
        ensures
            match r {
                Some(v) => store_get(self@.store, name@) == Some(v@),
                None => store_get(self@.store, name@) is None,
            },
    {
        match self.find(name) {
            Some(i) => Some(self.store[i].1.duplicate()),
            None => None,
        }
    }

    /// Binds `name` to a copy of `value` in this scope, in the place of an older
    /// binding of the name if there is one.
    pub fn set(&mut self, name: String, value: &Object)
        ensures
            final(self)@ == (EnvV {
                store: store_set(old(self)@.store, name@, value@),
                outer: old(self)@.outer,
            }),
    {
        let copy = value.duplicate();
        match self.find(name.as_str()) {
            Some(i) => {
                self.store[i] = (name, copy);
                assert(self@.store =~= store_set(old(self)@.store, name@, value@));
            },
            None => {
                self.store.push((name, copy));
                assert(self@.store =~= store_set(old(self)@.store, name@, value@));
            },
        }
    }
}

} // verus!
