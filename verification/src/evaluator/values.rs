//! What the operators of the language compute from values.
//!
//! Integers are 64 bits wide. A sum, difference, product, quotient or negation that
//! does not fit is an error value, and so is a division by zero. Division rounds
//! towards zero.

use crate::ast::{Infix, Prefix};
use crate::evaluator::object::{
    entries_view,
    entry_get,
    find_entry,
    objects_view,
    spec_equal,
    spec_is_truthy,
    spec_key_of,
    spec_render,
    spec_same_kind,
    HashKey,
    Object,
    ObjectV,
};
use vstd::prelude::*;
use vstd::string::StringExecFns;

verus! {

/// How a binary operator is written.
pub open spec fn spec_infix_text(op: Infix) -> Seq<char> {
    match op {
        Infix::Plus => "+"@,
        Infix::Minus => "-"@,
        Infix::Divide => "/"@,
        Infix::Multiply => "*"@,
        Infix::Equal => "=="@,
        Infix::NotEqual => "!="@,
        Infix::GreaterThanEqual => ">="@,
        Infix::GreaterThan => ">"@,
        Infix::LessThanEqual => "<="@,
        Infix::LessThan => "<"@,
    }
}

pub open spec fn overflow_text() -> Seq<char> {
    "integer overflow"@
}

pub open spec fn division_by_zero_text() -> Seq<char> {
    "division by zero"@
}

pub open spec fn type_mismatch_text(op: Infix, left: ObjectV, right: ObjectV) -> Seq<char> {
    "type mismatch: "@ + spec_render(left) + " "@ + spec_infix_text(op) + " "@ + spec_render(right)
}

pub open spec fn unknown_infix_text(op: Infix, left: ObjectV, right: ObjectV) -> Seq<char> {
    "unknown operator: "@ + spec_render(left) + " "@ + spec_infix_text(op) + " "@ + spec_render(
        right,
    )
}

pub open spec fn unknown_prefix_text(op: Prefix, right: ObjectV) -> Seq<char> {
    match op {
        Prefix::Minus => "unknown operator: -"@ + spec_render(right),
        Prefix::Plus => "unknown operator: +"@ + spec_render(right),
        Prefix::Not => "unknown operator: !"@ + spec_render(right),
    }
}

pub open spec fn bad_index_text(left: ObjectV) -> Seq<char> {
    "index operator not supported: "@ + spec_render(left)
}

/// An integer as a value, or the overflow error where it does not fit in 64 bits.
pub open spec fn int_or_overflow(n: int) -> ObjectV {
    if i64::MIN <= n <= i64::MAX {
        ObjectV::Int(n as i64)
    } else {
        ObjectV::Error(overflow_text())
    }
}

/// The quotient of two integers, rounded towards zero.
pub open spec fn truncated_quotient(a: int, b: int) -> int
    recommends
        b != 0,
{
    if a >= 0 {
        if b > 0 {
            a / b
        } else {
            -(a / (-b))
        }
    } else {
        if b > 0 {
            -((-a) / b)
        } else {
            (-a) / (-b)
        }
    }
}

/// What a unary operator gives for a value. `!` gives whether the value counts as
/// false; `-` and `+` are for integers only.
pub open spec fn spec_prefix_value(op: Prefix, right: ObjectV) -> ObjectV {
    match op {
        Prefix::Not => ObjectV::Bool(!spec_is_truthy(right)),
        Prefix::Minus => match right {
            ObjectV::Int(n) => int_or_overflow(-(n as int)),
            _ => ObjectV::Error(unknown_prefix_text(op, right)),
        },
        Prefix::Plus => match right {
            ObjectV::Int(n) => ObjectV::Int(n),
            _ => ObjectV::Error(unknown_prefix_text(op, right)),
        },
    }
}

/// What a binary operator gives for two integers.
pub open spec fn spec_int_infix_value(op: Infix, a: i64, b: i64) -> ObjectV {
    match op {
        Infix::Plus => int_or_overflow(a + b),
        Infix::Minus => int_or_overflow(a - b),
        Infix::Multiply => int_or_overflow(a * b),
        Infix::Divide => if b == 0 {
            ObjectV::Error(division_by_zero_text())
        } else {
            int_or_overflow(truncated_quotient(a as int, b as int))
        },
        Infix::Equal => ObjectV::Bool(a == b),
        Infix::NotEqual => ObjectV::Bool(a != b),
        Infix::GreaterThanEqual => ObjectV::Bool(a >= b),
        Infix::GreaterThan => ObjectV::Bool(a > b),
        Infix::LessThanEqual => ObjectV::Bool(a <= b),
        Infix::LessThan => ObjectV::Bool(a < b),
    }
}

/// What a binary operator gives for two values. Arithmetic and order are for two
/// integers; `==` and `!=` are for two values of one kind. Everything else is an
/// error value.
pub open spec fn spec_infix_value(op: Infix, left: ObjectV, right: ObjectV) -> ObjectV {
    match (left, right) {
        (ObjectV::Int(a), ObjectV::Int(b)) => spec_int_infix_value(op, a, b),
        _ => if !spec_same_kind(left, right) {
            ObjectV::Error(type_mismatch_text(op, left, right))
        } else if op == Infix::Equal {
            ObjectV::Bool(spec_equal(left, right))
        } else if op == Infix::NotEqual {
            ObjectV::Bool(!spec_equal(left, right))
        } else {
            ObjectV::Error(unknown_infix_text(op, left, right))
        },
    }
}

/// What indexing gives. An index outside an array and a key that a hash does not
/// hold give `null`; only arrays and hashes can be indexed.
pub open spec fn spec_index_value(left: ObjectV, index: ObjectV) -> ObjectV {
    match left {
        ObjectV::Array(items) => match index {
            ObjectV::Int(n) => if 0 <= n < items.len() {
                items[n as int]
            } else {
                ObjectV::Null
            },
            _ => ObjectV::Error(bad_index_text(left)),
        },
        ObjectV::Hash(pairs) => match spec_key_of(index) {
            Some(key) => match entry_get(pairs, key) {
                Some(v) => v,
                None => ObjectV::Null,
            },
            None => ObjectV::Null,
        },
        _ => ObjectV::Error(bad_index_text(left)),
    }
}

/// How a binary operator is written.
pub fn infix_text(op: Infix) -> (r: &'static str)
    ensures
        r@ == spec_infix_text(op),
{
    match op {
        Infix::Plus => "+",
        Infix::Minus => "-",
        Infix::Divide => "/",
        Infix::Multiply => "*",
        Infix::Equal => "==",
        Infix::NotEqual => "!=",
        Infix::GreaterThanEqual => ">=",
        Infix::GreaterThan => ">",
        Infix::LessThanEqual => "<=",
        Infix::LessThan => "<",
    }
}

/// An error value with the text `start` and then the text of `value`.
pub fn error_about(start: &str, value: &Object) -> (r: Object)
    ensures
        r@ == ObjectV::Error(start@ + spec_render(value@)),
{
    let mut message = String::from_str(start);
    value.render_into(&mut message);
    Object::Error(message)
}

/// An error value with the text `start`, then `left`, the operator and `right`.
fn infix_error(start: &str, op: Infix, left: &Object, right: &Object) -> (r: Object)
    ensures
        r@ == ObjectV::Error(
            start@ + spec_render(left@) + " "@ + spec_infix_text(op) + " "@ + spec_render(right@),
        ),
{
    let mut message = String::from_str(start);
    left.render_into(&mut message);
    message.append(" ");
    message.append(infix_text(op));
    message.append(" ");
    right.render_into(&mut message);
    Object::Error(message)
}

fn int_object(n: i128) -> (r: Object)
    ensures
        r@ == int_or_overflow(n as int),
{
    if n < i64::MIN as i128 || n > i64::MAX as i128 {
        Object::Error(String::from_str("integer overflow"))
    } else {
        Object::Int(n as i64)
    }
}

fn magnitude(n: i64) -> (r: u64)
    ensures
        r == if n < 0 {
            -(n as int)
        } else {
            n as int
        },
{
    if n == i64::MIN {
        9223372036854775808u64
    } else if n < 0 {
        (-n) as u64
    } else {
        n as u64
    }
}

/// What a unary operator gives for a value.
pub fn prefix_value(op: Prefix, right: &Object) -> (r: Object)
    ensures
        r@ == spec_prefix_value(op, right@),
{
    match op {
        Prefix::Not => Object::Bool(!right.is_truthy()),
        Prefix::Minus => match right {
            Object::Int(n) => int_object(-(*n as i128)),
            _ => error_about("unknown operator: -", right),
        },
        Prefix::Plus => match right {
            Object::Int(n) => Object::Int(*n),
            _ => error_about("unknown operator: +", right),
        },
    }
}

/// What a binary operator gives for two integers.
pub fn int_infix_value(op: Infix, a: i64, b: i64) -> (r: Object)
    ensures
        r@ == spec_int_infix_value(op, a, b),
{
    match op {
        Infix::Plus => int_object(a as i128 + b as i128),
        Infix::Minus => int_object(a as i128 - b as i128),
        Infix::Multiply => {
            assert(-0x8000_0000_0000_0000 <= a < 0x8000_0000_0000_0000);
            assert(-0x8000_0000_0000_0000 <= b < 0x8000_0000_0000_0000);
            assert(-0x4000_0000_0000_0000_0000_0000_0000_0000 <= a * b
                <= 0x4000_0000_0000_0000_0000_0000_0000_0000) by (nonlinear_arith)
                requires
                    -0x8000_0000_0000_0000 <= a < 0x8000_0000_0000_0000,
                    -0x8000_0000_0000_0000 <= b < 0x8000_0000_0000_0000,
            ;
            int_object(a as i128 * b as i128)
        },
        Infix::Divide => {
            if b == 0 {
                Object::Error(String::from_str("division by zero"))
            } else {
                let q: u64 = magnitude(a) / magnitude(b);
                if (a < 0) != (b < 0) {
                    int_object(-(q as i128))
                } else {
                    int_object(q as i128)
                }
            }
        },
        Infix::Equal => Object::Bool(a == b),
        Infix::NotEqual => Object::Bool(a != b),
        Infix::GreaterThanEqual => Object::Bool(a >= b),
        Infix::GreaterThan => Object::Bool(a > b),
        Infix::LessThanEqual => Object::Bool(a <= b),
        Infix::LessThan => Object::Bool(a < b),
    }
}

/// What a binary operator gives for two values.
pub fn infix_value(op: Infix, left: &Object, right: &Object) -> (r: Object)
    ensures
        r@ == spec_infix_value(op, left@, right@),
{
    match (left, right) {
        (Object::Int(a), Object::Int(b)) => int_infix_value(op, *a, *b),
        _ => {
            if !left.same_kind(right) {
                infix_error("type mismatch: ", op, left, right)
            } else if op == Infix::Equal {
                Object::Bool(left.equals(right))
            } else if op == Infix::NotEqual {
                Object::Bool(!left.equals(right))
            } else {
                infix_error("unknown operator: ", op, left, right)
            }
        },
    }
}

/// What indexing gives.
pub fn index_value(left: &Object, index: &Object) -> (r: Object)
    ensures
        r@ == spec_index_value(left@, index@),
{
    match left {
        Object::Array(items) => match index {
            Object::Int(n) => {
                assert(objects_view(items@).len() == items.len());
                if *n < 0 {
                    Object::Null
                } else if (*n as u64) < items.len() as u64 {
                    assert(objects_view(items@)[*n as int] == items@[*n as int]@);
                    items[*n as usize].duplicate()
                } else {
                    Object::Null
                }
            },
            _ => error_about("index operator not supported: ", left),
        },
        Object::Hash(pairs) => match HashKey::from_object(index) {
            Some(key) => match find_entry(pairs, &key) {
                Some(at) => {
                    assert(entries_view(pairs@)[at as int].1 == pairs@[at as int].1@);
                    pairs[at].1.duplicate()
                },
                None => Object::Null,
            },
            None => Object::Null,
        },
        _ => error_about("index operator not supported: ", left),
    }
}

} // verus!
