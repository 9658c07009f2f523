//! Runtime values, their equality and their rendering.

use crate::ast::{
    duplicate_idents,
    duplicate_stmts,
    idents_view,
    same_idents,
    same_stmts,
    stmts_view,
    BlockStmt,
    Ident,
    StmtV,
};
use crate::lexer::unescape::{escape_str, spec_quote};
use crate::text::{int_text, push_int};
use vstd::prelude::*;
use vstd::string::StringExecFns;

verus! {

/// The native functions that a program can call.
#[derive(PartialEq, Eq, Structural, Clone, Copy, Debug)]
pub enum Builtin {
    Len,
    First,
    Last,
    Rest,
    Push,
    Puts,
    Quit,
    Print,
    Repr,
    Str,
    Atoi,
}

/// A value that can be the key of a hash: an integer, a boolean or a string.
#[derive(PartialEq, Debug)]
pub enum HashKey {
    Int(i64),
    Bool(bool),
    String(String),
}

/// A runtime value. `ReturnValue`, `BreakStatement`, `ContinueStatement`, `Error` and
/// `Exit` carry control flow: they end the evaluation of everything around them up
/// to the place that takes them.
#[derive(PartialEq, Debug)]
pub enum Object {
    Int(i64),
    String(String),
    Bool(bool),
    Array(Vec<Object>),
    /// The pairs of a hash, in the order in which their keys were first set.
    Hash(Vec<(HashKey, Object)>),
    /// A function: its parameters, its body and the handle of the environment in
    /// which it was made.
    Func(Vec<Ident>, BlockStmt, usize),
    /// A native function and the number of arguments that it takes; a negative
    /// number stands for any number.
    Builtin(i32, Builtin),
    Null,
    ReturnValue(Box<Object>),
    BreakStatement,
    ContinueStatement,
    Error(String),
    /// The program asked to end the host process with this code.
    Exit(i32),
}

/// The model of a [`HashKey`].
pub enum HashKeyV {
    Int(i64),
    Bool(bool),
    String(Seq<char>),
}

/// The model of an [`Object`].
pub enum ObjectV {
    Int(i64),
    String(Seq<char>),
    Bool(bool),
    Array(Seq<ObjectV>),
    Hash(Seq<(HashKeyV, ObjectV)>),
    Func(Seq<Seq<char>>, Seq<StmtV>, nat),
    Builtin(i32, Builtin),
    Null,
    ReturnValue(Box<ObjectV>),
    BreakStatement,
    ContinueStatement,
    Error(Seq<char>),
    Exit(i32),
}

impl View for HashKey {
    type V = HashKeyV;

    open spec fn view(&self) -> HashKeyV {
        match self {
            HashKey::Int(n) => HashKeyV::Int(*n),
            HashKey::Bool(b) => HashKeyV::Bool(*b),
            HashKey::String(s) => HashKeyV::String(s@),
        }
    }
}

pub open spec fn object_view(o: Object) -> ObjectV
    decreases o,
{
    match o {
        Object::Int(n) => ObjectV::Int(n),
        Object::String(s) => ObjectV::String(s@),
        Object::Bool(b) => ObjectV::Bool(b),
        Object::Array(items) => ObjectV::Array(objects_view(items@)),
        Object::Hash(pairs) => ObjectV::Hash(entries_view(pairs@)),
        Object::Func(params, body, env) => ObjectV::Func(
            idents_view(params@),
            stmts_view(body@),
            env as nat,
        ),
        Object::Builtin(arity, f) => ObjectV::Builtin(arity, f),
        Object::Null => ObjectV::Null,
        Object::ReturnValue(value) => ObjectV::ReturnValue(Box::new(object_view(*value))),
        Object::BreakStatement => ObjectV::BreakStatement,
        Object::ContinueStatement => ObjectV::ContinueStatement,
        Object::Error(message) => ObjectV::Error(message@),
        Object::Exit(code) => ObjectV::Exit(code),
    }
}

pub open spec fn objects_view(items: Seq<Object>) -> Seq<ObjectV>
    decreases items,
{
    Seq::new(
        items.len(),
        |i: int|
            if 0 <= i < items.len() {
                object_view(items[i])
            } else {
                arbitrary()
            },
    )
}

pub open spec fn entries_view(pairs: Seq<(HashKey, Object)>) -> Seq<(HashKeyV, ObjectV)>
    decreases pairs,
{
    Seq::new(
        pairs.len(),
        |i: int|
            if 0 <= i < pairs.len() {
                (pairs[i].0@, object_view(pairs[i].1))
            } else {
                arbitrary()
            },
    )
}

impl View for Object {
    type V = ObjectV;

    open spec fn view(&self) -> ObjectV {
        object_view(*self)
    }
}

/// Appending a value appends its model.
pub proof fn lemma_objects_view_push(items: Seq<Object>, o: Object)
    ensures
        objects_view(items.push(o)) == objects_view(items).push(o@),
{
    assert(objects_view(items.push(o)) =~= objects_view(items).push(o@));
}

/// Appending an entry appends its model.
pub proof fn lemma_entries_view_push(pairs: Seq<(HashKey, Object)>, k: HashKey, v: Object)
    ensures
        entries_view(pairs.push((k, v))) == entries_view(pairs).push((k@, v@)),
{
    assert(entries_view(pairs.push((k, v))) =~= entries_view(pairs).push((k@, v@)));
}

/// Where the key `key` stands among `pairs`, if it does.
pub open spec fn entry_index(pairs: Seq<(HashKeyV, ObjectV)>, key: HashKeyV) -> Option<int>
    decreases pairs.len(),
{
    if pairs.len() == 0 {
        None
    } else if pairs[0].0 == key {
        Some(0)
    } else {
        match entry_index(pairs.skip(1), key) {
            Some(i) => Some(i + 1),
            None => None,
        }
    }
}

/// The value under `key` among `pairs`, if there is one.
pub open spec fn entry_get(pairs: Seq<(HashKeyV, ObjectV)>, key: HashKeyV) -> Option<ObjectV> {
    match entry_index(pairs, key) {
        Some(i) => Some(pairs[i].1),
        None => None,
    }
}

/// `pairs` with `value` under `key`: in the place of the old value where the key is
/// there already, else at the end.
pub open spec fn entry_set(
    pairs: Seq<(HashKeyV, ObjectV)>,
    key: HashKeyV,
    value: ObjectV,
) -> Seq<(HashKeyV, ObjectV)> {
    match entry_index(pairs, key) {
        Some(i) => pairs.update(i, (key, value)),
        None => pairs.push((key, value)),
    }
}

/// What `entry_index` finds is the first place that holds the key.
pub proof fn lemma_entry_index(pairs: Seq<(HashKeyV, ObjectV)>, key: HashKeyV)
    ensures
        match entry_index(pairs, key) {
            Some(i) => 0 <= i < pairs.len() && pairs[i].0 == key && forall|j: int|
                0 <= j < i ==> pairs[j].0 != key,
            None => forall|j: int| 0 <= j < pairs.len() ==> pairs[j].0 != key,
        },
    decreases pairs.len(),
{
    if pairs.len() > 0 && pairs[0].0 != key {
        lemma_entry_index(pairs.skip(1), key);
        match entry_index(pairs.skip(1), key) {
            Some(i) => {
                assert forall|j: int| 0 <= j < i + 1 implies pairs[j].0 != key by {
                    if j > 0 {
                        assert(pairs.skip(1)[j - 1].0 != key);
                    }
                }
            },
            None => {
                assert forall|j: int| 0 <= j < pairs.len() implies pairs[j].0 != key by {
                    if j > 0 {
                        assert(pairs.skip(1)[j - 1].0 != key);
                    }
                }
            },
        }
    }
}

/// The first place that holds the key is what `entry_index` finds.
pub proof fn lemma_entry_index_is(pairs: Seq<(HashKeyV, ObjectV)>, key: HashKeyV, i: int)
    requires
        0 <= i <= pairs.len(),
        forall|j: int| 0 <= j < i ==> pairs[j].0 != key,
        i < pairs.len() ==> pairs[i].0 == key,
    ensures
        entry_index(pairs, key) == if i < pairs.len() {
            Some(i)
        } else {
            None
        },
{
    lemma_entry_index(pairs, key);
}

/// Whether a value may be the key of a hash.
pub open spec fn spec_key_of(o: ObjectV) -> Option<HashKeyV> {
    match o {
        ObjectV::Int(n) => Some(HashKeyV::Int(n)),
        ObjectV::Bool(b) => Some(HashKeyV::Bool(b)),
        ObjectV::String(s) => Some(HashKeyV::String(s)),
        _ => None,
    }
}

/// Everything counts as true but `null` and `false`.
pub open spec fn spec_is_truthy(o: ObjectV) -> bool {
    !(o is Null || o == ObjectV::Bool(false))
}

/// Whether a value carries control flow.
pub open spec fn spec_is_signal(o: ObjectV) -> bool {
    o is ReturnValue || o is BreakStatement || o is ContinueStatement || o is Error || o is Exit
}

/// Whether two values are equal for the language: values of one kind with equal
/// contents. Arrays are equal item by item; hashes where they have as many entries
/// and every key of the one has an equal value in the other, in whatever order.
pub open spec fn spec_equal(a: ObjectV, b: ObjectV) -> bool
    decreases a,
{
    match (a, b) {
        (ObjectV::Int(x), ObjectV::Int(y)) => x == y,
        (ObjectV::String(x), ObjectV::String(y)) => x == y,
        (ObjectV::Bool(x), ObjectV::Bool(y)) => x == y,
        (ObjectV::Array(x), ObjectV::Array(y)) => x.len() == y.len() && forall|i: int|
            0 <= i < x.len() ==> spec_equal(#[trigger] x[i], y[i]),
        (ObjectV::Hash(x), ObjectV::Hash(y)) => x.len() == y.len() && forall|i: int|
            0 <= i < x.len() ==> match entry_get(y, (#[trigger] x[i]).0) {
                Some(v) => spec_equal(x[i].1, v),
                None => false,
            },
        (ObjectV::Func(p, body, env), ObjectV::Func(q, other, at)) => p == q && body == other
            && env == at,
        (ObjectV::Builtin(n, f), ObjectV::Builtin(m, g)) => n == m && f == g,
        (ObjectV::Null, ObjectV::Null) => true,
        (ObjectV::ReturnValue(x), ObjectV::ReturnValue(y)) => spec_equal(*x, *y),
        (ObjectV::BreakStatement, ObjectV::BreakStatement) => true,
        (ObjectV::ContinueStatement, ObjectV::ContinueStatement) => true,
        (ObjectV::Error(x), ObjectV::Error(y)) => x == y,
        (ObjectV::Exit(x), ObjectV::Exit(y)) => x == y,
        _ => false,
    }
}

/// Whether two values are of one kind.
pub open spec fn spec_same_kind(a: ObjectV, b: ObjectV) -> bool {
    match (a, b) {
        (ObjectV::Int(_), ObjectV::Int(_)) => true,
        (ObjectV::String(_), ObjectV::String(_)) => true,
        (ObjectV::Bool(_), ObjectV::Bool(_)) => true,
        (ObjectV::Array(_), ObjectV::Array(_)) => true,
        (ObjectV::Hash(_), ObjectV::Hash(_)) => true,
        (ObjectV::Func(_, _, _), ObjectV::Func(_, _, _)) => true,
        (ObjectV::Builtin(_, _), ObjectV::Builtin(_, _)) => true,
        (ObjectV::Null, ObjectV::Null) => true,
        (ObjectV::ReturnValue(_), ObjectV::ReturnValue(_)) => true,
        (ObjectV::BreakStatement, ObjectV::BreakStatement) => true,
        (ObjectV::ContinueStatement, ObjectV::ContinueStatement) => true,
        (ObjectV::Error(_), ObjectV::Error(_)) => true,
        (ObjectV::Exit(_), ObjectV::Exit(_)) => true,
        _ => false,
    }
}

/// The text of a value: the one rendering that is used for it everywhere, but for a
/// string that is printed by itself. A string is quoted and escaped, a function
/// shows its parameters and never its body.
pub open spec fn spec_render(o: ObjectV) -> Seq<char>
    decreases o,
{
    match o {
        ObjectV::Int(n) => int_text(n as int),
        ObjectV::String(s) => spec_quote(s),
        ObjectV::Bool(b) => if b {
            "true"@
        } else {
            "false"@
        },
        ObjectV::Array(items) => "["@ + spec_render_items(items) + "]"@,
        ObjectV::Hash(pairs) => "{"@ + spec_render_entries(pairs) + "}"@,
        ObjectV::Func(params, _, _) => "fn("@ + spec_render_names(params) + ") { ... }"@,
        ObjectV::Builtin(_, _) => "[builtin function]"@,
        ObjectV::Null => "null"@,
        ObjectV::ReturnValue(value) => "ReturnValue("@ + spec_render(*value) + ")"@,
        ObjectV::BreakStatement => "[break statement]"@,
        ObjectV::ContinueStatement => "[continue statement]"@,
        ObjectV::Error(message) => "啊啊啊啊啊啊啊啊("@ + message + ")"@,
        ObjectV::Exit(code) => "[exit "@ + int_text(code as int) + "]"@,
    }
}

/// The texts of `items`, with a comma and a space between two of them.
pub open spec fn spec_render_items(items: Seq<ObjectV>) -> Seq<char>
    decreases items,
{
    if items.len() == 0 {
        Seq::empty()
    } else if items.len() == 1 {
        spec_render(items[0])
    } else {
        spec_render_items(items.drop_last()) + ", "@ + spec_render(items.last())
    }
}

/// The text of a key: that of the value that it is.
pub open spec fn spec_render_key(k: HashKeyV) -> Seq<char> {
    match k {
        HashKeyV::Int(n) => int_text(n as int),
        HashKeyV::Bool(b) => if b {
            "true"@
        } else {
            "false"@
        },
        HashKeyV::String(s) => spec_quote(s),
    }
}

/// The entries of a hash as `key: value`, with a comma and a space between two.
pub open spec fn spec_render_entries(pairs: Seq<(HashKeyV, ObjectV)>) -> Seq<char>
    decreases pairs,
{
    if pairs.len() == 0 {
        Seq::empty()
    } else if pairs.len() == 1 {
        spec_render_key(pairs[0].0) + ": "@ + spec_render(pairs[0].1)
    } else {
        spec_render_entries(pairs.drop_last()) + ", "@ + spec_render_key(pairs.last().0) + ": "@
            + spec_render(pairs.last().1)
    }
}

/// Names with a comma and a space between two of them.
pub open spec fn spec_render_names(names: Seq<Seq<char>>) -> Seq<char>
    decreases names.len(),
{
    if names.len() == 0 {
        Seq::empty()
    } else if names.len() == 1 {
        names[0]
    } else {
        spec_render_names(names.drop_last()) + ", "@ + names.last()
    }
}

impl HashKey {
    /// A copy of this key.
    pub fn duplicate(&self) -> (r: HashKey)
        ensures
            r@ == self@,
    {
        match self {
            HashKey::Int(n) => HashKey::Int(*n),
            HashKey::Bool(b) => HashKey::Bool(*b),
            HashKey::String(s) => HashKey::String(s.clone()),
        }
    }

    /// Whether two keys are the same.
    pub fn same(&self, other: &HashKey) -> (r: bool)
        ensures
            r == (self@ == other@),
    {
        match (self, other) {
            (HashKey::Int(a), HashKey::Int(b)) => *a == *b,
            (HashKey::Bool(a), HashKey::Bool(b)) => *a == *b,
            (HashKey::String(a), HashKey::String(b)) => *a == *b,
            _ => false,
        }
    }

    /// The key that a value is, where it can be one.
    pub fn from_object(o: &Object) -> (r: Option<HashKey>)
        ensures
            match r {
                Some(k) => spec_key_of(o@) == Some(k@),
                None => spec_key_of(o@) is None,
            },
    {
        match o {
            Object::Int(n) => Some(HashKey::Int(*n)),
            Object::Bool(b) => Some(HashKey::Bool(*b)),
            Object::String(s) => Some(HashKey::String(s.clone())),
            _ => None,
        }
    }

    /// Appends the text of this key to `out`.
    pub fn render_into(&self, out: &mut String)
        ensures
            final(out)@ == old(out)@ + spec_render_key(self@),
    {
        match self {
            HashKey::Int(n) => push_int(out, *n),
            HashKey::Bool(b) => if *b {
                out.append("true")
            } else {
                out.append("false")
            },
            HashKey::String(s) => {
                let quoted = escape_str(s.as_str());
                out.append(quoted.as_str());
            },
        }
    }
}

/// The place of `key` among `pairs`, if it is there.
pub fn find_entry(pairs: &Vec<(HashKey, Object)>, key: &HashKey) -> (r: Option<usize>)
    ensures
        match r {
            Some(i) => entry_index(entries_view(pairs@), key@) == Some(i as int) && i < pairs.len(),
            None => entry_index(entries_view(pairs@), key@) is None,
        },
{
    let mut i: usize = 0;
    while i < pairs.len()
        invariant
            i <= pairs.len(),
            forall|j: int| 0 <= j < i ==> entries_view(pairs@)[j].0 != key@,
        decreases pairs.len() - i,
    {
        if pairs[i].0.same(key) {
            proof {
                lemma_entry_index_is(entries_view(pairs@), key@, i as int);
            }
            return Some(i);
        }
        i += 1;
    }
    proof {
        lemma_entry_index_is(entries_view(pairs@), key@, i as int);
    }
    None
}

impl Object {
    /// A copy of this value.
    pub fn duplicate(&self) -> (r: Object)
        ensures
            r@ == self@,
        decreases self,
    {
        match self {
            Object::Int(n) => Object::Int(*n),
            Object::String(s) => Object::String(s.clone()),
            Object::Bool(b) => Object::Bool(*b),
            Object::Array(items) => Object::Array(duplicate_objects(items)),
            Object::Hash(pairs) => Object::Hash(duplicate_entries(pairs)),
            Object::Func(params, body, env) => Object::Func(
                duplicate_idents(params),
                duplicate_stmts(body),
                *env,
            ),
            Object::Builtin(arity, f) => Object::Builtin(*arity, *f),
            Object::Null => Object::Null,
            Object::ReturnValue(value) => Object::ReturnValue(Box::new(value.duplicate())),
            Object::BreakStatement => Object::BreakStatement,
            Object::ContinueStatement => Object::ContinueStatement,
            Object::Error(message) => Object::Error(message.clone()),
            Object::Exit(code) => Object::Exit(*code),
        }
    }

    /// Everything counts as true but `null` and `false`.
    pub fn is_truthy(&self) -> (r: bool)
        ensures
            r == spec_is_truthy(self@),
    {
        match self {
            Object::Null => false,
            Object::Bool(b) => *b,
            _ => true,
        }
    }

    /// Whether this value carries control flow.
    pub fn is_signal(&self) -> (r: bool)
        ensures
            r == spec_is_signal(self@),
    {
        match self {
            Object::ReturnValue(_) => true,
            Object::BreakStatement => true,
            Object::ContinueStatement => true,
            Object::Error(_) => true,
            Object::Exit(_) => true,
            _ => false,
        }
    }

    /// Whether two values are of one kind.
    pub fn same_kind(&self, other: &Object) -> (r: bool)
        ensures
            r == spec_same_kind(self@, other@),
    {
        match (self, other) {
            (Object::Int(_), Object::Int(_)) => true,
            (Object::String(_), Object::String(_)) => true,
            (Object::Bool(_), Object::Bool(_)) => true,
            (Object::Array(_), Object::Array(_)) => true,
            (Object::Hash(_), Object::Hash(_)) => true,
            (Object::Func(_, _, _), Object::Func(_, _, _)) => true,
            (Object::Builtin(_, _), Object::Builtin(_, _)) => true,
            (Object::Null, Object::Null) => true,
            (Object::ReturnValue(_), Object::ReturnValue(_)) => true,
            (Object::BreakStatement, Object::BreakStatement) => true,
            (Object::ContinueStatement, Object::ContinueStatement) => true,
            (Object::Error(_), Object::Error(_)) => true,
            (Object::Exit(_), Object::Exit(_)) => true,
            _ => false,
        }
    }

    /// Whether two values are equal for the language.
    pub fn equals(&self, other: &Object) -> (r: bool)
        ensures
            r == spec_equal(self@, other@),
        decreases self,
    {
        match (self, other) {
            (Object::Int(a), Object::Int(b)) => *a == *b,
            (Object::String(a), Object::String(b)) => *a == *b,
            (Object::Bool(a), Object::Bool(b)) => *a == *b,
            (Object::Array(a), Object::Array(b)) => equal_items(a, b),
            (Object::Hash(a), Object::Hash(b)) => equal_entries(a, b),
            (Object::Func(p, body, env), Object::Func(q, other_body, at)) => same_idents(p, q)
                && same_stmts(body, other_body) && *env == *at,
            (Object::Builtin(n, f), Object::Builtin(m, g)) => *n == *m && *f == *g,
            (Object::Null, Object::Null) => true,
            (Object::ReturnValue(a), Object::ReturnValue(b)) => a.equals(b),
            (Object::BreakStatement, Object::BreakStatement) => true,
            (Object::ContinueStatement, Object::ContinueStatement) => true,
            (Object::Error(a), Object::Error(b)) => *a == *b,
            (Object::Exit(a), Object::Exit(b)) => *a == *b,
            _ => false,
        }
    }

    /// Appends the text of this value to `out`.
    pub fn render_into(&self, out: &mut String)
        ensures
            final(out)@ == old(out)@ + spec_render(self@),
        decreases self,
    {
        match self {
            Object::Int(n) => push_int(out, *n),
            Object::String(s) => {
                let quoted = escape_str(s.as_str());
                out.append(quoted.as_str());
            },
            Object::Bool(b) => if *b {
                out.append("true")
            } else {
                out.append("false")
            },
            Object::Array(items) => {
                out.append("[");
                render_items_into(items, out);
                out.append("]");
                assert(final(out)@ =~= old(out)@ + spec_render(self@));
            },
            Object::Hash(pairs) => {
                out.append("{");
                render_entries_into(pairs, out);
                out.append("}");
                assert(final(out)@ =~= old(out)@ + spec_render(self@));
            },
            Object::Func(params, _, _) => {
                out.append("fn(");
                render_names_into(params, out);
                out.append(") { ... }");
                assert(final(out)@ =~= old(out)@ + spec_render(self@));
            },
            Object::Builtin(_, _) => out.append("[builtin function]"),
            Object::Null => out.append("null"),
            Object::ReturnValue(value) => {
                out.append("ReturnValue(");
                value.render_into(out);
                out.append(")");
                assert(final(out)@ =~= old(out)@ + spec_render(self@));
            },
            Object::BreakStatement => out.append("[break statement]"),
            Object::ContinueStatement => out.append("[continue statement]"),
            Object::Error(message) => {
                out.append("啊啊啊啊啊啊啊啊(");
                out.append(message.as_str());
                out.append(")");
                assert(final(out)@ =~= old(out)@ + spec_render(self@));
            },
            Object::Exit(code) => {
                out.append("[exit ");
                push_int(out, *code as i64);
                out.append("]");
                assert(final(out)@ =~= old(out)@ + spec_render(self@));
            },
        }
    }

    /// The text of this value.
    pub fn to_string(&self) -> (r: String)
        ensures
            r@ == spec_render(self@),
    {
        let mut out = String::new();
        self.render_into(&mut out);
        assert(out@ =~= spec_render(self@));
        out
    }
}

/// A copy of a list of values.
pub fn duplicate_objects(items: &Vec<Object>) -> (r: Vec<Object>)
    ensures
        objects_view(r@) == objects_view(items@),
    decreases items,
{
    let mut r: Vec<Object> = Vec::new();
    let mut i: usize = 0;
    while i < items.len()
        invariant
            i <= items.len(),
            r.len() == i,
            forall|j: int| 0 <= j < i ==> r@[j]@ == items@[j]@,
        decreases items.len() - i,
    {
        r.push(items[i].duplicate());
        i += 1;
    }
    assert(objects_view(r@) =~= objects_view(items@));
    r
}

/// A copy of the entries of a hash.
pub fn duplicate_entries(pairs: &Vec<(HashKey, Object)>) -> (r: Vec<(HashKey, Object)>)
    ensures
        entries_view(r@) == entries_view(pairs@),
    decreases pairs,
{
    let mut r: Vec<(HashKey, Object)> = Vec::new();
    let mut i: usize = 0;
    while i < pairs.len()
        invariant
            i <= pairs.len(),
            r.len() == i,
            forall|j: int| 0 <= j < i ==> r@[j].0@ == pairs@[j].0@ && r@[j].1@ == pairs@[j].1@,
        decreases pairs.len() - i,
    {
        let key = pairs[i].0.duplicate();
        let value = pairs[i].1.duplicate();
        r.push((key, value));
        i += 1;
    }
    assert(entries_view(r@) =~= entries_view(pairs@));
    r
}

/// Whether two lists hold equal values, item by item.
pub fn equal_items(a: &Vec<Object>, b: &Vec<Object>) -> (r: bool)
    ensures
        r == spec_equal(ObjectV::Array(objects_view(a@)), ObjectV::Array(objects_view(b@))),
    decreases a,
{
    if a.len() != b.len() {
        return false;
    }
    let mut i: usize = 0;
    while i < a.len()
        invariant
            i <= a.len(),
            a.len() == b.len(),
            forall|j: int|
                0 <= j < i ==> spec_equal(
                    #[trigger] objects_view(a@)[j],
                    objects_view(b@)[j],
                ),
        decreases a.len() - i,
    {
        if !a[i].equals(&b[i]) {
            assert(!spec_equal(objects_view(a@)[i as int], objects_view(b@)[i as int]));
            return false;
        }
        i += 1;
    }
    true
}

/// Whether two hashes hold equal values under the same keys.
pub fn equal_entries(a: &Vec<(HashKey, Object)>, b: &Vec<(HashKey, Object)>) -> (r: bool)
    ensures
        r == spec_equal(ObjectV::Hash(entries_view(a@)), ObjectV::Hash(entries_view(b@))),
    decreases a,
{
    if a.len() != b.len() {
        return false;
    }
    let mut i: usize = 0;
    while i < a.len()
        invariant
            i <= a.len(),
            a.len() == b.len(),
            forall|j: int|
                0 <= j < i ==> match entry_get(
                    entries_view(b@),
                    (#[trigger] entries_view(a@)[j]).0,
                ) {
                    Some(v) => spec_equal(entries_view(a@)[j].1, v),
                    None => false,
                },
        decreases a.len() - i,
    {
        let found = match find_entry(b, &a[i].0) {
            Some(at) => a[i].1.equals(&b[at].1),
            None => false,
        };
        if !found {
            assert(!(match entry_get(entries_view(b@), entries_view(a@)[i as int].0) {
                Some(v) => spec_equal(entries_view(a@)[i as int].1, v),
                None => false,
            }));
            return false;
        }
        i += 1;
    }
    true
}

/// The text of the first items of a list and of one more.
pub proof fn lemma_render_items_step(items: Seq<ObjectV>, i: int)
    requires
        0 <= i < items.len(),
    ensures
        spec_render_items(items.take(i + 1)) == if i == 0 {
            spec_render(items[0])
        } else {
            spec_render_items(items.take(i)) + ", "@ + spec_render(items[i])
        },
{
    assert(items.take(i + 1).drop_last() =~= items.take(i));
}

/// The text of the first entries of a hash and of one more.
pub proof fn lemma_render_entries_step(pairs: Seq<(HashKeyV, ObjectV)>, i: int)
    requires
        0 <= i < pairs.len(),
    ensures
        spec_render_entries(pairs.take(i + 1)) == if i == 0 {
            spec_render_key(pairs[0].0) + ": "@ + spec_render(pairs[0].1)
        } else {
            spec_render_entries(pairs.take(i)) + ", "@ + spec_render_key(pairs[i].0) + ": "@
                + spec_render(pairs[i].1)
        },
{
    assert(pairs.take(i + 1).drop_last() =~= pairs.take(i));
}

/// The first names of a list and one more, joined.
pub proof fn lemma_render_names_step(names: Seq<Seq<char>>, i: int)
    requires
        0 <= i < names.len(),
    ensures
        spec_render_names(names.take(i + 1)) == if i == 0 {
            names[0]
        } else {
            spec_render_names(names.take(i)) + ", "@ + names[i]
        },
{
    assert(names.take(i + 1).drop_last() =~= names.take(i));
}

/// Appends the texts of `items` to `out`, with a comma and a space between two.
pub fn render_items_into(items: &Vec<Object>, out: &mut String)
    ensures
        final(out)@ == old(out)@ + spec_render_items(objects_view(items@)),
    decreases items,
{
    let ghost all = objects_view(items@);
    let mut i: usize = 0;
    proof {
        assert(out@ =~= old(out)@ + spec_render_items(all.take(0)));
    }
    while i < items.len()
        invariant
            i <= items.len(),
            all == objects_view(items@),
            out@ == old(out)@ + spec_render_items(all.take(i as int)),
        decreases items.len() - i,
    {
        let ghost before = out@;
        if i > 0 {
            out.append(", ");
        }
        items[i].render_into(out);
        proof {
            lemma_render_items_step(all, i as int);
            assert(out@ =~= old(out)@ + spec_render_items(all.take(i + 1)));
        }
        i += 1;
    }
    proof {
        assert(all.take(i as int) =~= all);
    }
}

/// Appends the entries of a hash to `out` as `key: value`.
pub fn render_entries_into(pairs: &Vec<(HashKey, Object)>, out: &mut String)
    ensures
        final(out)@ == old(out)@ + spec_render_entries(entries_view(pairs@)),
    decreases pairs,
{
    let ghost all = entries_view(pairs@);
    let mut i: usize = 0;
    proof {
        assert(out@ =~= old(out)@ + spec_render_entries(all.take(0)));
    }
    while i < pairs.len()
        invariant
            i <= pairs.len(),
            all == entries_view(pairs@),
            out@ == old(out)@ + spec_render_entries(all.take(i as int)),
        decreases pairs.len() - i,
    {
        if i > 0 {
            out.append(", ");
        }
        pairs[i].0.render_into(out);
        out.append(": ");
        pairs[i].1.render_into(out);
        proof {
            lemma_render_entries_step(all, i as int);
            assert(out@ =~= old(out)@ + spec_render_entries(all.take(i + 1)));
        }
        i += 1;
    }
    proof {
        assert(all.take(i as int) =~= all);
    }
}

/// Appends names to `out`, with a comma and a space between two.
pub fn render_names_into(names: &Vec<Ident>, out: &mut String)
    ensures
        final(out)@ == old(out)@ + spec_render_names(idents_view(names@)),
{
    let ghost all = idents_view(names@);
    let mut i: usize = 0;
    proof {
        assert(out@ =~= old(out)@ + spec_render_names(all.take(0)));
    }
    while i < names.len()
        invariant
            i <= names.len(),
            all == idents_view(names@),
            out@ == old(out)@ + spec_render_names(all.take(i as int)),
        decreases names.len() - i,
    {
        if i > 0 {
            out.append(", ");
        }
        out.append(names[i].0.as_str());
        proof {
            lemma_render_names_step(all, i as int);
            assert(out@ =~= old(out)@ + spec_render_names(all.take(i + 1)));
        }
        i += 1;
    }
    proof {
        assert(all.take(i as int) =~= all);
    }
}

impl Clone for HashKey {
    fn clone(&self) -> (r: Self)
        ensures
            r@ == self@,
    {
        self.duplicate()
    }
}

impl Clone for Object {
    fn clone(&self) -> (r: Self)
        ensures
            r@ == self@,
    {
        self.duplicate()
    }
}

} // verus!
