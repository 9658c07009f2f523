//! The native functions, under their plain names and their slang names.

use crate::evaluator::env::store_view;
use crate::evaluator::object::{
    duplicate_objects,
    lemma_objects_view_push,
    objects_view,
    spec_render,
    Builtin,
    Object,
    ObjectV,
};
use crate::evaluator::values::error_about;
use crate::text::{int_text, parse_int, push_nat, spec_parse_int, str_debug, str_debug_of};
use vstd::prelude::*;
use vstd::string::StringExecFns;
use vstd::string::StringSliceAdditionalSpecFns;

verus! {

/// The names under which the native functions are bound, each with the number of
/// arguments that it takes. Every function but `len`, `first`, `last`, `rest` and
/// `push` has a second, slang name.
pub open spec fn spec_builtins() -> Seq<(Seq<char>, ObjectV)> {
    seq![
        ("len"@, ObjectV::Builtin(1, Builtin::Len)),
        ("first"@, ObjectV::Builtin(1, Builtin::First)),
        ("last"@, ObjectV::Builtin(1, Builtin::Last)),
        ("rest"@, ObjectV::Builtin(1, Builtin::Rest)),
        ("push"@, ObjectV::Builtin(2, Builtin::Push)),
        ("puts"@, ObjectV::Builtin(-1i32, Builtin::Puts)),
        ("quit"@, ObjectV::Builtin(-1i32, Builtin::Quit)),
        ("print"@, ObjectV::Builtin(1, Builtin::Print)),
        ("repr"@, ObjectV::Builtin(1, Builtin::Repr)),
        ("str"@, ObjectV::Builtin(1, Builtin::Str)),
        ("atoi"@, ObjectV::Builtin(1, Builtin::Atoi)),
        ("哼"@, ObjectV::Builtin(-1i32, Builtin::Quit)),
        ("小作文"@, ObjectV::Builtin(-1i32, Builtin::Puts)),
        ("聚焦"@, ObjectV::Builtin(1, Builtin::Print)),
        ("复用"@, ObjectV::Builtin(1, Builtin::Repr)),
        ("疏通"@, ObjectV::Builtin(1, Builtin::Str)),
        ("抹零"@, ObjectV::Builtin(1, Builtin::Atoi)),
    ]
}

/// The bindings of the native functions, for the outermost scope.
pub fn new_builtins() -> (builtins: Vec<(String, Object)>)
    ensures
        store_view(builtins@) == spec_builtins(),
{
    let mut builtins: Vec<(String, Object)> = Vec::new();
    builtins.push((String::from_str("len"), Object::Builtin(1, Builtin::Len)));
    builtins.push((String::from_str("first"), Object::Builtin(1, Builtin::First)));
    builtins.push((String::from_str("last"), Object::Builtin(1, Builtin::Last)));
    builtins.push((String::from_str("rest"), Object::Builtin(1, Builtin::Rest)));
    builtins.push((String::from_str("push"), Object::Builtin(2, Builtin::Push)));
    builtins.push((String::from_str("puts"), Object::Builtin(-1, Builtin::Puts)));
    builtins.push((String::from_str("quit"), Object::Builtin(-1, Builtin::Quit)));
    builtins.push((String::from_str("print"), Object::Builtin(1, Builtin::Print)));
    builtins.push((String::from_str("repr"), Object::Builtin(1, Builtin::Repr)));
    builtins.push((String::from_str("str"), Object::Builtin(1, Builtin::Str)));
    builtins.push((String::from_str("atoi"), Object::Builtin(1, Builtin::Atoi)));
    builtins.push((String::from_str("哼"), Object::Builtin(-1, Builtin::Quit)));
    builtins.push((String::from_str("小作文"), Object::Builtin(-1, Builtin::Puts)));
    builtins.push((String::from_str("聚焦"), Object::Builtin(1, Builtin::Print)));
    builtins.push((String::from_str("复用"), Object::Builtin(1, Builtin::Repr)));
    builtins.push((String::from_str("疏通"), Object::Builtin(1, Builtin::Str)));
    builtins.push((String::from_str("抹零"), Object::Builtin(1, Builtin::Atoi)));
    assert(store_view(builtins@) =~= spec_builtins());
    builtins
}

/// What a call of a native function gives: the lines that it prints and its value.
pub struct BuiltinOutcome {
    pub printed: Seq<Seq<char>>,
    pub value: ObjectV,
}

/// The least number of arguments that a native function needs.
pub open spec fn spec_min_args(f: Builtin) -> nat {
    match f {
        Builtin::Puts | Builtin::Quit => 0,
        Builtin::Push => 2,
        _ => 1,
    }
}

pub open spec fn wrong_arguments_text(expected: int, given: int) -> Seq<char> {
    "wrong number of arguments: "@ + int_text(expected) + " expected but "@ + int_text(given)
        + " given"@
}

pub open spec fn too_many_for_quit_text(given: int) -> Seq<char> {
    "Too many arguments to `quit` (want 0 or 1, got "@ + int_text(given) + ")"@
}

/// The texts of `args`, one line for each.
pub open spec fn spec_lines(args: Seq<ObjectV>) -> Seq<Seq<char>> {
    Seq::new(args.len(), |i: int| spec_render(args[i]))
}

/// A 64-bit integer as an exit code: itself where it fits in 32 bits, else the
/// nearest code that does.
pub open spec fn spec_exit_code(n: i64) -> i32 {
    if n < i32::MIN {
        i32::MIN
    } else if n > i32::MAX {
        i32::MAX
    } else {
        n as i32
    }
}

/// A length as an integer value: itself where it fits in 64 bits, else the largest
/// integer.
pub open spec fn spec_length(n: nat) -> ObjectV {
    if n <= i64::MAX {
        ObjectV::Int(n as i64)
    } else {
        ObjectV::Int(i64::MAX)
    }
}

/// `len`: the length of an array, or of a string in bytes of UTF-8.
pub open spec fn spec_len(arg: ObjectV) -> ObjectV {
    match arg {
        ObjectV::String(s) => spec_length(vstd::utf8::encode_utf8(s).len()),
        ObjectV::Array(items) => spec_length(items.len()),
        other => ObjectV::Error("argument to `len` not supported, got "@ + spec_render(other)),
    }
}

/// `first`: the first item of an array, `null` for an empty one.
pub open spec fn spec_first(arg: ObjectV) -> ObjectV {
    match arg {
        ObjectV::Array(items) => if items.len() > 0 {
            items[0]
        } else {
            ObjectV::Null
        },
        other => ObjectV::Error("argument to `first` must be array. got "@ + spec_render(other)),
    }
}

/// `last`: the last item of an array, `null` for an empty one.
pub open spec fn spec_last(arg: ObjectV) -> ObjectV {
    match arg {
        ObjectV::Array(items) => if items.len() > 0 {
            items.last()
        } else {
            ObjectV::Null
        },
        other => ObjectV::Error("argument to `last` must be array. got "@ + spec_render(other)),
    }
}

/// `rest`: an array without its first item, `null` for an empty one.
pub open spec fn spec_rest(arg: ObjectV) -> ObjectV {
    match arg {
        ObjectV::Array(items) => if items.len() > 0 {
            ObjectV::Array(items.skip(1))
        } else {
            ObjectV::Null
        },
        other => ObjectV::Error("argument to `rest` must be array. got "@ + spec_render(other)),
    }
}

/// `push`: an array with one more item at its end. The array given stays as it is.
pub open spec fn spec_push(array: ObjectV, item: ObjectV) -> ObjectV {
    match array {
        ObjectV::Array(items) => ObjectV::Array(items.push(item)),
        other => ObjectV::Error("argument to `push` must be array. got "@ + spec_render(other)),
    }
}

/// `str`: a string as it is, and the text of every other value.
pub open spec fn spec_str(arg: ObjectV) -> ObjectV {
    match arg {
        ObjectV::String(s) => ObjectV::String(s),
        other => ObjectV::String(spec_render(other)),
    }
}

/// `repr`: the text of a value.
pub open spec fn spec_repr(arg: ObjectV) -> ObjectV {
    ObjectV::String(spec_render(arg))
}

/// `atoi`: the integer that a string denotes.
pub open spec fn spec_atoi(arg: ObjectV) -> ObjectV {
    match arg {
        ObjectV::String(s) => match spec_parse_int(s) {
            Some(n) => ObjectV::Int(n),
            None => ObjectV::Error(
                "argument to `atoi` must be valid digits. got "@ + str_debug_of(s),
            ),
        },
        other => ObjectV::Error(
            "illegal argument to `atoi` (want 1 string, got "@ + spec_render(other) + ")"@,
        ),
    }
}

/// `quit`: the value that ends the program, with the code 0 or the code given.
pub open spec fn spec_quit(args: Seq<ObjectV>) -> ObjectV {
    if args.len() == 0 {
        ObjectV::Exit(0)
    } else if args.len() == 1 {
        match args[0] {
            ObjectV::Int(n) => ObjectV::Exit(spec_exit_code(n)),
            other => ObjectV::Error("argument to `quit` must be int. got "@ + spec_render(other)),
        }
    } else {
        ObjectV::Error(too_many_for_quit_text(args.len() as int))
    }
}

/// `print`: prints a string as it is, on a line of its own.
pub open spec fn spec_print(arg: ObjectV) -> BuiltinOutcome {
    match arg {
        ObjectV::String(s) => BuiltinOutcome { printed: seq![s], value: ObjectV::Null },
        other => BuiltinOutcome {
            printed: Seq::empty(),
            value: ObjectV::Error("argument to `push` must be array. got "@ + spec_render(other)),
        },
    }
}

/// What a native function gives for its arguments. Only `print` and `puts`, which
/// prints the text of every argument on a line of its own, print anything.
pub open spec fn spec_apply_builtin(f: Builtin, args: Seq<ObjectV>) -> BuiltinOutcome {
    if args.len() < spec_min_args(f) {
        BuiltinOutcome {
            printed: Seq::empty(),
            value: ObjectV::Error(
                wrong_arguments_text(spec_min_args(f) as int, args.len() as int),
            ),
        }
    } else {
        match f {
            Builtin::Puts => BuiltinOutcome { printed: spec_lines(args), value: ObjectV::Null },
            Builtin::Print => spec_print(args[0]),
            _ => BuiltinOutcome {
                printed: Seq::empty(),
                value: match f {
                    Builtin::Len => spec_len(args[0]),
                    Builtin::First => spec_first(args[0]),
                    Builtin::Last => spec_last(args[0]),
                    Builtin::Rest => spec_rest(args[0]),
                    Builtin::Push => spec_push(args[0], args[1]),
                    Builtin::Repr => spec_repr(args[0]),
                    Builtin::Str => spec_str(args[0]),
                    Builtin::Atoi => spec_atoi(args[0]),
                    _ => spec_quit(args),
                },
            },
        }
    }
}

pub open spec fn lines_view(lines: Seq<String>) -> Seq<Seq<char>> {
    Seq::new(lines.len(), |i: int| lines[i]@)
}

/// The least number of arguments that a native function needs.
pub fn min_args(f: Builtin) -> (r: usize)
    ensures
        r == spec_min_args(f),
{
    match f {
        Builtin::Puts | Builtin::Quit => 0,
        Builtin::Push => 2,
        _ => 1,
    }
}

fn length_object(n: usize) -> (r: Object)
    ensures
        r@ == spec_length(n as nat),
{
    if n as u64 <= i64::MAX as u64 {
        Object::Int(n as i64)
    } else {
        Object::Int(i64::MAX)
    }
}

/// The error value for a call with the wrong number of arguments.
pub fn wrong_arguments(expected: u64, given: u64) -> (r: Object)
    ensures
        r@ == ObjectV::Error(wrong_arguments_text(expected as int, given as int)),
{
    let mut message = String::from_str("wrong number of arguments: ");
    push_nat(&mut message, expected);
    message.append(" expected but ");
    push_nat(&mut message, given);
    message.append(" given");
    assert(message@ =~= wrong_arguments_text(expected as int, given as int));
    Object::Error(message)
}

fn monkey_len(arg: &Object) -> (r: Object)
    ensures
        r@ == spec_len(arg@),
{
    match arg {
        Object::String(s) => {
            let bytes = s.as_str().as_bytes();
            assert(bytes@.len() == vstd::utf8::encode_utf8(s@).len());
            length_object(bytes.len())
        },
        Object::Array(items) => {
            assert(objects_view(items@).len() == items.len());
            length_object(items.len())
        },
        other => error_about("argument to `len` not supported, got ", other),
    }
}

fn monkey_first(arg: &Object) -> (r: Object)
    ensures
        r@ == spec_first(arg@),
{
    match arg {
        Object::Array(items) => {
            assert(objects_view(items@).len() == items.len());
            if items.len() > 0 {
                assert(objects_view(items@)[0] == items@[0]@);
                items[0].duplicate()
            } else {
                Object::Null
            }
        },
        other => error_about("argument to `first` must be array. got ", other),
    }
}

fn monkey_last(arg: &Object) -> (r: Object)
    ensures
        r@ == spec_last(arg@),
{
    match arg {
        Object::Array(items) => {
            assert(objects_view(items@).len() == items.len());
            if items.len() > 0 {
                assert(objects_view(items@).last() == items@[items.len() - 1]@);
                items[items.len() - 1].duplicate()
            } else {
                Object::Null
            }
        },
        other => error_about("argument to `last` must be array. got ", other),
    }
}

fn monkey_rest(arg: &Object) -> (r: Object)
    ensures
        r@ == spec_rest(arg@),
{
    match arg {
        Object::Array(items) => {
            assert(objects_view(items@).len() == items.len());
            if items.len() > 0 {
                let mut rest: Vec<Object> = Vec::new();
                let mut i: usize = 1;
                while i < items.len()
                    invariant
                        1 <= i <= items.len(),
                        rest.len() == i - 1,
                        forall|j: int| 0 <= j < i - 1 ==> rest@[j]@ == items@[j + 1]@,
                    decreases items.len() - i,
                {
                    rest.push(items[i].duplicate());
                    i += 1;
                }
                assert(objects_view(rest@) =~= objects_view(items@).skip(1));
                Object::Array(rest)
            } else {
                Object::Null
            }
        },
        other => error_about("argument to `rest` must be array. got ", other),
    }
}

fn monkey_push(array: &Object, item: &Object) -> (r: Object)
    ensures
        r@ == spec_push(array@, item@),
{
    match array {
        Object::Array(items) => {
            let mut longer = duplicate_objects(items);
            let added = item.duplicate();
            proof {
                lemma_objects_view_push(longer@, added);
            }
            longer.push(added);
            Object::Array(longer)
        },
        other => error_about("argument to `push` must be array. got ", other),
    }
}

fn her_str(arg: &Object) -> (r: Object)
    ensures
        r@ == spec_str(arg@),
{
    match arg {
        Object::String(s) => Object::String(s.clone()),
        other => Object::String(other.to_string()),
    }
}

fn her_repr(arg: &Object) -> (r: Object)
    ensures
        r@ == spec_repr(arg@),
{
    Object::String(arg.to_string())
}

fn her_print(arg: &Object, output: &mut Vec<String>) -> (r: Object)
    ensures
        r@ == spec_print(arg@).value,
        lines_view(final(output)@) == lines_view(old(output)@) + spec_print(arg@).printed,
{
    match arg {
        Object::String(s) => {
            output.push(s.clone());
            assert(lines_view(output@) =~= lines_view(old(output)@) + seq![s@]);
            Object::Null
        },
        other => {
            assert(lines_view(output@) + Seq::<Seq<char>>::empty() =~= lines_view(output@));
            error_about("argument to `push` must be array. got ", other)
        },
    }
}

fn her_output(args: &Vec<Object>, output: &mut Vec<String>) -> (r: Object)
    ensures
        r@ == ObjectV::Null,
        lines_view(final(output)@) == lines_view(old(output)@) + spec_lines(objects_view(args@)),
{
    let ghost models = objects_view(args@);
    let mut i: usize = 0;
    proof {
        assert(lines_view(output@) =~= lines_view(old(output)@) + spec_lines(models).take(0));
    }
    while i < args.len()
        invariant
            i <= args.len(),
            models == objects_view(args@),
            lines_view(output@) == lines_view(old(output)@) + spec_lines(models).take(i as int),
        decreases args.len() - i,
    {
        let ghost before = output@;
        let line = args[i].to_string();
        output.push(line);
        proof {
            assert(models[i as int] == args@[i as int]@);
            assert(lines_view(output@) =~= lines_view(before).push(line@));
            assert(spec_lines(models).take(i + 1) =~= spec_lines(models).take(i as int).push(
                spec_render(models[i as int]),
            ));
            assert(lines_view(output@) =~= lines_view(old(output)@) + spec_lines(models).take(
                i + 1,
            ));
        }
        i += 1;
    }
    proof {
        assert(spec_lines(models).take(i as int) =~= spec_lines(models));
    }
    Object::Null
}

fn her_quit(args: &Vec<Object>) -> (r: Object)
    ensures
        r@ == spec_quit(objects_view(args@)),
{
    if args.len() == 0 {
        Object::Exit(0)
    } else if args.len() == 1 {
        assert(objects_view(args@)[0] == args@[0]@);
        match &args[0] {
            Object::Int(n) => {
                let code: i32 = if *n < i32::MIN as i64 {
                    i32::MIN
                } else if *n > i32::MAX as i64 {
                    i32::MAX
                } else {
                    *n as i32
                };
                Object::Exit(code)
            },
            other => error_about("argument to `quit` must be int. got ", other),
        }
    } else {
        let mut message = String::from_str("Too many arguments to `quit` (want 0 or 1, got ");
        push_nat(&mut message, args.len() as u64);
        message.append(")");
        assert(message@ =~= too_many_for_quit_text(args.len() as int));
        Object::Error(message)
    }
}

fn her_atoi(arg: &Object) -> (r: Object)
    ensures
        r@ == spec_atoi(arg@),
{
    match arg {
        Object::String(s) => match parse_int(s.as_str()) {
            Some(n) => Object::Int(n),
            None => {
                let mut message = String::from_str("argument to `atoi` must be valid digits. got ");
                let shown = str_debug(s.as_str());
                message.append(shown.as_str());
                Object::Error(message)
            },
        },
        other => {
            let mut message = String::from_str("illegal argument to `atoi` (want 1 string, got ");
            other.render_into(&mut message);
            message.append(")");
            Object::Error(message)
        },
    }
}

/// Calls the native function `f` with `args` and adds what it prints to `output`.
pub fn apply_builtin(f: Builtin, args: &Vec<Object>, output: &mut Vec<String>) -> (r: Object)
    ensures
        r@ == spec_apply_builtin(f, objects_view(args@)).value,
        lines_view(final(output)@) == lines_view(old(output)@) + spec_apply_builtin(
            f,
            objects_view(args@),
        ).printed,
{
    let ghost models = objects_view(args@);
    proof {
        assert(lines_view(output@) + Seq::<Seq<char>>::empty() =~= lines_view(output@));
    }
    if args.len() < min_args(f) {
        return wrong_arguments(min_args(f) as u64, args.len() as u64);
    }
    proof {
        if args.len() > 0 {
            assert(models[0] == args@[0]@);
        }
        if args.len() > 1 {
            assert(models[1] == args@[1]@);
        }
    }
    match f {
        Builtin::Len => monkey_len(&args[0]),
        Builtin::First => monkey_first(&args[0]),
        Builtin::Last => monkey_last(&args[0]),
        Builtin::Rest => monkey_rest(&args[0]),
        Builtin::Push => monkey_push(&args[0], &args[1]),
        Builtin::Puts => her_output(args, output),
        Builtin::Print => her_print(&args[0], output),
        Builtin::Repr => her_repr(&args[0]),
        Builtin::Str => her_str(&args[0]),
        Builtin::Atoi => her_atoi(&args[0]),
        Builtin::Quit => her_quit(args),
    }
}

} // verus!
