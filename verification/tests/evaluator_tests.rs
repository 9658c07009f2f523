use herlang::ast::Program;
use herlang::evaluator::builtins::new_builtins;
use herlang::evaluator::env::Env;
use herlang::evaluator::object::{Builtin, HashKey, Object};
use herlang::evaluator::Evaluator;
use herlang::lexer::Lexer;
use herlang::parser::Parser;
use herlang::session::{evaluate, parse};

fn program(input: &str) -> Program {
    let mut parser = Parser::new(Lexer::new(input));
    let program = parser.parse();
    let errors = parser.get_errors();
    if !errors.is_empty() {
        for err in errors {
            println!("parse error: {}", err.to_string());
        }
        panic!("failed");
    }
    program
}

fn run(input: &str) -> Option<Object> {
    let mut evaluator = Evaluator::new(Env::from(new_builtins()));
    evaluator.eval(&program(input))
}

fn error(text: &str) -> Option<Object> {
    Some(Object::Error(String::from(text)))
}

#[test]
fn test_integer_arithmetic() {
    let tests = vec![
        ("5", 5),
        ("-5", -5),
        ("+5", 5),
        ("5 + 5 + 5 + 5 - 10", 10),
        ("2 * 2 * 2 * 2 * 2", 32),
        ("-50 + 100 + -50", 0),
        ("5 * 2 + 10", 20),
        ("5 + 2 * 10", 25),
        ("20 + 2 * -10", 0),
        ("50 / 2 * 2 + 10", 60),
        ("2 * (5 + 10)", 30),
        ("(5 + 10 * 2 + 15 / 3) * 2 + -10", 50),
        ("7 / 2", 3),
        ("-7 / 2", -3),
        ("7 / -2", -3),
        ("-7 / -2", 3),
    ];
    for (input, expect) in tests {
        assert_eq!(Some(Object::Int(expect)), run(input), "{}", input);
    }
}

#[test]
fn test_integer_limits() {
    assert_eq!(Some(Object::Int(i64::MAX)), run("9223372036854775807"));
    assert_eq!(error("integer overflow"), run("9223372036854775807 + 1"));
    assert_eq!(error("integer overflow"), run("-9223372036854775807 - 2"));
    assert_eq!(error("integer overflow"), run("9223372036854775807 * 2"));
    assert_eq!(Some(Object::Int(i64::MIN)), run("-9223372036854775807 - 1"));
    assert_eq!(error("integer overflow"), run("(-9223372036854775807 - 1) / -1"));
    assert_eq!(error("integer overflow"), run("-(-9223372036854775807 - 1)"));
    assert_eq!(error("division by zero"), run("1 / 0"));
}

#[test]
fn test_boolean_expressions() {
    let tests = vec![
        ("true", true),
        ("false", false),
        ("1 < 2", true),
        ("1 > 2", false),
        ("1 <= 1", true),
        ("1 >= 2", false),
        ("1 == 1", true),
        ("1 != 1", false),
        ("true == true", true),
        ("true != false", true),
        ("(1 < 2) == true", true),
        ("\"a\" == \"a\"", true),
        ("\"a\" != \"b\"", true),
        ("[1, 2] == [1, 2]", true),
        ("[1, 2] == [2, 1]", false),
        ("[1, [2]] != [1, [2]]", false),
        ("{\"a\": 1, \"b\": 2} == {\"b\": 2, \"a\": 1}", true),
        ("{\"a\": 1} == {\"a\": 2}", false),
        ("{\"a\": 1} == {\"a\": 1, \"b\": 2}", false),
        ("fn(x) { x } == fn(x) { x }", true),
        ("fn(x) { x } == fn(y) { y }", false),
        ("len == len", true),
        ("len == first", false),
        ("!true", false),
        ("!false", true),
        ("!5", false),
        ("!!5", true),
        ("![]", false),
        ("!if (false) { 1 }", true),
    ];
    for (input, expect) in tests {
        assert_eq!(Some(Object::Bool(expect)), run(input), "{}", input);
    }
}

#[test]
fn test_operator_errors() {
    assert_eq!(error("type mismatch: 5 + true"), run("5 + true;"));
    assert_eq!(error("type mismatch: 5 + true"), run("5 + true; 5;"));
    assert_eq!(error("type mismatch: 5 == \"5\""), run("5 == \"5\""));
    assert_eq!(error("unknown operator: -true"), run("-true"));
    assert_eq!(error("unknown operator: +\"a\""), run("+\"a\""));
    assert_eq!(error("unknown operator: true + false"), run("true + false;"));
    assert_eq!(error("unknown operator: \"a\" + \"b\""), run("\"a\" + \"b\""));
    assert_eq!(error("unknown operator: true < false"), run("true < false"));
    assert_eq!(
        error("unknown operator: true + false"),
        run("if (10 > 1) { if (10 > 1) { return true + false; } return 1; }")
    );
}

#[test]
fn test_errors_end_everything_around_them() {
    assert_eq!(error("identifier not found: foobar"), run("foobar"));
    assert_eq!(error("identifier not found: a"), run("[1, a, b]"));
    assert_eq!(error("identifier not found: a"), run("{\"k\": a}"));
    assert_eq!(error("identifier not found: a"), run("{a: 1}"));
    assert_eq!(error("identifier not found: a"), run("len(a)"));
    assert_eq!(error("identifier not found: a"), run("a(1)"));
    assert_eq!(error("identifier not found: a"), run("1 + a * 2; 5"));
    assert_eq!(error("identifier not found: a"), run("let x = a; 5"));
    assert_eq!(error("identifier not found: a"), run("let x = a; x"));
    assert_eq!(error("identifier not found: a"), run("[1][a]"));
    assert_eq!(error("identifier not found: a"), run("if (a) { 1 }"));
    assert_eq!(error("identifier not found: a"), run("while (a) { 1 }"));
    assert_eq!(error("identifier not found: a"), run("return a; 5"));
    assert_eq!(error("identifier not found: a"), run("let f = fn() { a; 5 }; f(); 6"));
}

#[test]
fn test_if_else_expressions() {
    assert_eq!(Some(Object::Int(10)), run("if (true) { 10 }"));
    assert_eq!(Some(Object::Null), run("if (false) { 10 }"));
    assert_eq!(Some(Object::Int(10)), run("if (1) { 10 }"));
    assert_eq!(Some(Object::Int(10)), run("if (1 < 2) { 10 }"));
    assert_eq!(Some(Object::Null), run("if (1 > 2) { 10 }"));
    assert_eq!(Some(Object::Int(20)), run("if (1 > 2) { 10 } else { 20 }"));
    assert_eq!(Some(Object::Int(10)), run("if (1 < 2) { 10 } else { 20 }"));
    assert_eq!(Some(Object::Null), run("if (true) { }"));
    assert_eq!(Some(Object::Null), run("if (true) { let a = 1; }"));
}

#[test]
fn test_return_statements() {
    assert_eq!(Some(Object::Int(10)), run("return 10;"));
    assert_eq!(Some(Object::Int(10)), run("return 10; 9;"));
    assert_eq!(Some(Object::Int(10)), run("return 2 * 5; 9;"));
    assert_eq!(Some(Object::Int(10)), run("9; return 2 * 5; 9;"));
    assert_eq!(
        Some(Object::Int(10)),
        run("if (10 > 1) { if (10 > 1) { return 10; } return 1; }")
    );
    assert_eq!(
        Some(Object::Int(3)),
        run("let f = fn() { while (true) { return 3; } }; f() ")
    );
    assert_eq!(Some(Object::Int(4)), run("let f = fn() { return 3; }; f() + 1"));
}

#[test]
fn test_result_of_a_program() {
    assert_eq!(None, run(""));
    assert_eq!(None, run("let a = 5;"));
    assert_eq!(None, run("5; let a = 5;"));
    assert_eq!(Some(Object::Int(5)), run("5;\n\n"));
    assert_eq!(Some(Object::Int(5)), run("let a = 5; a;"));
    assert_eq!(Some(Object::Int(25)), run("let a = 5 * 5; a;"));
    assert_eq!(Some(Object::Int(15)), run("let a = 5; let b = a; let c = a + b + 5; c;"));
    assert_eq!(Some(Object::Int(2)), run("let a = 1; let a = a + 1; a"));
}

#[test]
fn test_functions() {
    assert_eq!(Some(Object::Int(5)), run("let identity = fn(x) { x; }; identity(5);"));
    assert_eq!(Some(Object::Int(5)), run("let identity = fn(x) { return x; }; identity(5);"));
    assert_eq!(Some(Object::Int(10)), run("let double = fn(x) { x * 2; }; double(5);"));
    assert_eq!(Some(Object::Int(10)), run("let add = fn(x, y) { x + y; }; add(5, 5);"));
    assert_eq!(
        Some(Object::Int(20)),
        run("let add = fn(x, y) { x + y; }; add(5 + 5, add(5, 5));")
    );
    assert_eq!(Some(Object::Int(5)), run("fn(x) { x; }(5)"));
    assert_eq!(Some(Object::Null), run("fn() { }()"));
    assert_eq!(Some(Object::Null), run("fn() { let a = 1; }()"));
    assert_eq!(
        Some(Object::Int(55)),
        run("let fib = fn(n) { if (n < 2) { return n; } fib(n - 1) + fib(n - 2) }; fib(10)")
    );
}

#[test]
fn test_function_calls_that_fail() {
    assert_eq!(
        error("wrong number of arguments: 1 expected but 2 given"),
        run("fn(x) { x }(1, 2)")
    );
    assert_eq!(error("wrong number of arguments: 2 expected but 0 given"), run("fn(x, y) { x }()"));
    assert_eq!(error("wrong number of arguments: 1 expected but 0 given"), run("len()"));
    assert_eq!(error("wrong number of arguments: 2 expected but 1 given"), run("push([])"));
    assert_eq!(error("5 is not valid function"), run("5(1)"));
    assert_eq!(error("\"f\" is not valid function"), run("let f = \"f\"; f()"));
    assert_eq!(error("call depth exceeded"), run("let f = fn(n) { f(n + 1) }; f(0)"));
}

#[test]
fn test_function_value() {
    match run("fn(x, y) { x + y; }") {
        Some(Object::Func(params, body, env)) => {
            assert_eq!(2, params.len());
            assert_eq!("x", params[0].0);
            assert_eq!("y", params[1].0);
            assert_eq!(1, body.len());
            assert_eq!(0, env);
        }
        other => panic!("no function: {:?}", other),
    }
}

#[test]
fn test_closures() {
    assert_eq!(
        Some(Object::Int(4)),
        run("let newAdder = fn(x) { fn(y) { x + y }; }; let addTwo = newAdder(2); addTwo(2);")
    );
    assert_eq!(Some(Object::Int(5)), run("let f = fn(x) { fn() { x } }; f(5)()"));
    assert_eq!(
        Some(Object::Int(3)),
        run("let f = fn(x) { fn() { x } }; let a = f(1); let b = f(2); a() + b()")
    );
}

#[test]
fn test_scope_is_shared_with_closures() {
    assert_eq!(
        Some(Object::Int(1)),
        run("let c = fn(){0}; let g = fn(){c}; let c = fn(){1}; g()()")
    );
    assert_eq!(Some(Object::Int(2)), run("let g = fn() { x }; let x = 2; g()"));
    assert_eq!(
        Some(Object::Int(1)),
        run("let x = 1; let f = fn() { let x = 2; x }; f(); x")
    );
    assert_eq!(
        error("identifier not found: y"),
        run("let f = fn() { let y = 2; y }; f(); y")
    );
    assert_eq!(
        Some(Object::Int(7)),
        run("let x = 7; let f = fn() { x }; let g = fn() { let x = 8; f() }; g()")
    );
}

#[test]
fn test_blocks_run_in_the_scope_around_them() {
    assert_eq!(Some(Object::Int(1)), run("if (true) { let x = 1; } x"));
    assert_eq!(
        Some(Object::Int(3)),
        run("let i = 0; while (i < 3) { let i = i + 1; } i")
    );
}

#[test]
fn test_while_loops() {
    assert_eq!(Some(Object::Null), run("while (false) { 1 }"));
    assert_eq!(
        Some(Object::Int(10)),
        run("let i = 0; let s = 0; while (i < 5) { let s = s + i; let i = i + 1; } s")
    );
    assert_eq!(
        Some(Object::Int(3)),
        run("let i = 0; while (true) { let i = i + 1; if (i == 3) { break; } } i")
    );
    assert_eq!(
        Some(Object::Int(8)),
        run(
            "let i = 0; let s = 0; while (i < 5) { let i = i + 1; if (i == 3) { continue; } if (i == 5) { break } let s = s + i; 100 } s + 1"
        )
    );
    assert_eq!(Some(Object::Null), run("let i = 0; while (i < 2) { let i = i + 1; i }"));
    assert_eq!(
        Some(Object::Int(9)),
        run("let i = 0; while (i < 2) { let i = i + 1; return 9; } 1")
    );
    assert_eq!(
        error("identifier not found: q"),
        run("let i = 0; while (i < 2) { let i = i + 1; q; } 1")
    );
    assert_eq!(
        Some(Object::Int(4)),
        run(
            "let i = 0; let n = 0; while (i < 2) { let i = i + 1; let j = 0; while (true) { let j = j + 1; if (j > 2) { break; } let n = n + 1; } } n"
        )
    );
}

#[test]
fn test_limits() {
    let mut evaluator = Evaluator::with_limits(Env::from(new_builtins()), 3, 5);
    assert_eq!(
        error("loop limit exceeded"),
        evaluator.eval(&program("let i = 0; while (true) { let i = i + 1; }"))
    );
    assert_eq!(Some(Object::Int(5)), evaluator.eval(&program("i")));
    assert_eq!(
        Some(Object::Int(5)),
        evaluator.eval(&program("let i = 0; while (i < 5) { let i = i + 1; } i"))
    );
    assert_eq!(
        Some(Object::Int(2)),
        evaluator.eval(&program("let f = fn(n) { if (n == 0) { 0 } else { 1 + f(n - 1) } }; f(2)"))
    );
    assert_eq!(error("call depth exceeded"), evaluator.eval(&program("f(3)")));
}

#[test]
fn test_stray_break_and_continue() {
    assert_eq!(Some(Object::BreakStatement), run("break"));
    assert_eq!(Some(Object::ContinueStatement), run("continue;"));
    assert_eq!(Some(Object::BreakStatement), run("5; break; 6"));
    assert_eq!(Some(Object::ContinueStatement), run("5; if (true) { continue; 1 } 6"));
    assert_eq!(Some(Object::BreakStatement), run("let f = fn() { break; 1 }; f(); 2"));
    assert_eq!(Some(Object::BreakStatement), run("let x = if (true) { break }; 2"));
    assert_eq!("[break statement]", evaluate("1; break; 2").text);
    assert_eq!("[continue statement]", evaluate("continue").text);
}

#[test]
fn test_strings() {
    assert_eq!(Some(Object::String(String::from("Hello World!"))), run("\"Hello World!\""));
    assert_eq!(Some(Object::String(String::from("a\nb\t\"c\"\\"))), run(r#""a\nb\t\"c\"\\""#));
    assert_eq!(Some(Object::String(String::from("180kg"))), run("微胖"));
}

#[test]
fn test_arrays() {
    assert_eq!(
        Some(Object::Array(vec![Object::Int(1), Object::Int(4), Object::Int(6)])),
        run("[1, 2 * 2, 3 + 3]")
    );
    assert_eq!(Some(Object::Array(vec![])), run("[]"));
    assert_eq!(Some(Object::Int(1)), run("[1, 2, 3][0]"));
    assert_eq!(Some(Object::Int(3)), run("[1, 2, 3][2]"));
    assert_eq!(Some(Object::Int(3)), run("let i = 0; [1, 2, 3][i + 2]"));
    assert_eq!(Some(Object::Int(6)), run("let a = [1, 2, 3]; a[0] + a[1] + a[2]"));
    assert_eq!(Some(Object::Null), run("[1, 2, 3][3]"));
    assert_eq!(Some(Object::Null), run("[1, 2, 3][-1]"));
    assert_eq!(Some(Object::Null), run("[1,2][10]"));
    assert_eq!(Some(Object::Null), run("[][0]"));
    assert_eq!(error("index operator not supported: [1]"), run("[1][true]"));
    assert_eq!(error("index operator not supported: 5"), run("5[0]"));
    assert_eq!(error("index operator not supported: \"abc\""), run("\"abc\"[0]"));
}

#[test]
fn test_hashes() {
    let input = r#"
let two = "two";
{
  "one": 10 - 9,
  two: 1 + 1,
  4: 4,
  true: 5,
  false: 6
}
"#;
    assert_eq!(
        Some(Object::Hash(vec![
            (HashKey::String(String::from("one")), Object::Int(1)),
            (HashKey::String(String::from("two")), Object::Int(2)),
            (HashKey::Int(4), Object::Int(4)),
            (HashKey::Bool(true), Object::Int(5)),
            (HashKey::Bool(false), Object::Int(6)),
        ])),
        run(input)
    );
    assert_eq!(Some(Object::Hash(vec![])), run("{}"));
    assert_eq!(
        Some(Object::Hash(vec![
            (HashKey::Int(1), Object::Int(3)),
            (HashKey::Int(2), Object::Int(2)),
        ])),
        run("{1: 1, 2: 2, 1: 3}")
    );
    assert_eq!(Some(Object::Int(5)), run("{\"foo\": 5}[\"foo\"]"));
    assert_eq!(Some(Object::Int(5)), run("{\"foo\": 5}.foo"));
    assert_eq!(Some(Object::Int(7)), run("let h = {\"a\": {\"b\": 7}}; h.a.b"));
    assert_eq!(Some(Object::Null), run("{\"foo\": 5}[\"bar\"]"));
    assert_eq!(Some(Object::Null), run("{\"a\":1}[\"b\"]"));
    assert_eq!(Some(Object::Null), run("{}[\"foo\"]"));
    assert_eq!(Some(Object::Int(5)), run("{5: 5}[5]"));
    assert_eq!(Some(Object::Int(5)), run("{true: 5}[true]"));
    assert_eq!(Some(Object::Null), run("{true: 5}[[1]]"));
    assert_eq!(error("unusable as hash key: [1]"), run("{[1]: 2}"));
    assert_eq!(error("unusable as hash key: fn(x) { ... }"), run("{fn(x) { x }: 2}"));
    assert_eq!(error("unusable as hash key: null"), run("{if (false) { 1 }: q}"));
}

#[test]
fn test_builtin_len() {
    assert_eq!(Some(Object::Int(0)), run("len(\"\")"));
    assert_eq!(Some(Object::Int(2)), run("len(\"ab\")"));
    assert_eq!(Some(Object::Int(4)), run("len(\"four\")"));
    assert_eq!(Some(Object::Int(6)), run("len(\"微胖\")"));
    assert_eq!(Some(Object::Int(3)), run("len([1, 2, 3])"));
    assert_eq!(Some(Object::Int(0)), run("len([])"));
    assert_eq!(error("argument to `len` not supported, got 5"), run("len(5)"));
    assert_eq!(error("argument to `len` not supported, got 1"), run("len(1)"));
    assert_eq!(
        error("wrong number of arguments: 1 expected but 2 given"),
        run("len(\"one\", \"two\")")
    );
}

#[test]
fn test_builtin_array_functions() {
    assert_eq!(Some(Object::Int(1)), run("first([1, 2, 3])"));
    assert_eq!(Some(Object::Null), run("first([])"));
    assert_eq!(error("argument to `first` must be array. got 1"), run("first(1)"));
    assert_eq!(Some(Object::Int(3)), run("last([1, 2, 3])"));
    assert_eq!(Some(Object::Null), run("last([])"));
    assert_eq!(error("argument to `last` must be array. got \"a\""), run("last(\"a\")"));
    assert_eq!(
        Some(Object::Array(vec![Object::Int(2), Object::Int(3)])),
        run("rest([1, 2, 3])")
    );
    assert_eq!(Some(Object::Array(vec![])), run("rest([1])"));
    assert_eq!(Some(Object::Null), run("rest([])"));
    assert_eq!(error("argument to `rest` must be array. got true"), run("rest(true)"));
    assert_eq!(Some(Object::Array(vec![Object::Int(1)])), run("push([], 1)"));
    assert_eq!(
        Some(Object::Array(vec![Object::Int(1), Object::Int(2)])),
        run("let a = [1]; let b = push(a, 2); b")
    );
    assert_eq!(
        Some(Object::Array(vec![Object::Int(1)])),
        run("let a = [1]; let b = push(a, 2); a")
    );
    assert_eq!(error("argument to `push` must be array. got 1"), run("push(1, 1)"));
}

#[test]
fn test_builtin_texts() {
    assert_eq!(Some(Object::String(String::from("5"))), run("str(5)"));
    assert_eq!(Some(Object::String(String::from("a b"))), run("str(\"a b\")"));
    assert_eq!(Some(Object::String(String::from("[1, \"a\"]"))), run("str([1, \"a\"])"));
    assert_eq!(Some(Object::String(String::from("\"a b\""))), run("repr(\"a b\")"));
    assert_eq!(Some(Object::String(String::from("5"))), run("repr(5)"));
    assert_eq!(Some(Object::String(String::from("5"))), run("疏通(5)"));
    assert_eq!(Some(Object::String(String::from("true"))), run("复用(true)"));
}

#[test]
fn test_builtin_atoi() {
    assert_eq!(Some(Object::Int(12)), run("atoi(\"12\")"));
    assert_eq!(Some(Object::Int(-12)), run("atoi(\"-12\")"));
    assert_eq!(Some(Object::Int(12)), run("atoi(\"+12\")"));
    assert_eq!(Some(Object::Int(7)), run("atoi(\"007\")"));
    assert_eq!(Some(Object::Int(0)), run("atoi(\"-0\")"));
    assert_eq!(Some(Object::Int(i64::MAX)), run("atoi(\"9223372036854775807\")"));
    assert_eq!(Some(Object::Int(i64::MIN)), run("atoi(\"-9223372036854775808\")"));
    assert_eq!(Some(Object::Int(3)), run("抹零(\"3\")"));
    assert_eq!(
        error("argument to `atoi` must be valid digits. got \"9223372036854775808\""),
        run("atoi(\"9223372036854775808\")")
    );
    assert_eq!(
        error("argument to `atoi` must be valid digits. got \"99999999999999999999999999\""),
        run("atoi(\"99999999999999999999999999\")")
    );
    assert_eq!(error("argument to `atoi` must be valid digits. got \"\""), run("atoi(\"\")"));
    assert_eq!(error("argument to `atoi` must be valid digits. got \"-\""), run("atoi(\"-\")"));
    assert_eq!(error("argument to `atoi` must be valid digits. got \"1a\""), run("atoi(\"1a\")"));
    assert_eq!(error("argument to `atoi` must be valid digits. got \" 1\""), run("atoi(\" 1\")"));
    assert_eq!(
        error("argument to `atoi` must be valid digits. got \"a\\\"b\\n\""),
        run(r#"atoi("a\"b\n")"#)
    );
    assert_eq!(error("illegal argument to `atoi` (want 1 string, got 5)"), run("atoi(5)"));
}

#[test]
fn test_builtin_output() {
    let mut evaluator = Evaluator::new(Env::from(new_builtins()));
    assert_eq!(
        Some(Object::Null),
        evaluator.eval(&program("puts(1, \"a\\nb\", [true, 2])"))
    );
    assert_eq!(
        &vec![String::from("1"), String::from("\"a\\nb\""), String::from("[true, 2]")],
        evaluator.output()
    );
    assert_eq!(Some(Object::Null), evaluator.eval(&program("print(\"a\\nb\")")));
    assert_eq!(Some(Object::Null), evaluator.eval(&program("小作文()")));
    assert_eq!(Some(Object::Null), evaluator.eval(&program("聚焦(\"x\")")));
    assert_eq!(
        error("argument to `push` must be array. got 5"),
        evaluator.eval(&program("print(5)"))
    );
    let lines = evaluator.take_output();
    assert_eq!(
        vec![
            String::from("1"),
            String::from("\"a\\nb\""),
            String::from("[true, 2]"),
            String::from("a\nb"),
            String::from("x"),
        ],
        lines
    );
    assert!(evaluator.output().is_empty());
}

#[test]
fn test_builtin_quit() {
    assert_eq!(Some(Object::Exit(0)), run("quit()"));
    assert_eq!(Some(Object::Exit(3)), run("quit(3)"));
    assert_eq!(Some(Object::Exit(-1)), run("哼(-1)"));
    assert_eq!(Some(Object::Exit(i32::MAX)), run("quit(4294967296)"));
    assert_eq!(Some(Object::Exit(i32::MIN)), run("quit(-4294967296)"));
    assert_eq!(Some(Object::Exit(2)), run("1; quit(2); 3"));
    assert_eq!(Some(Object::Exit(2)), run("let f = fn() { while (true) { [1, quit(2)] } }; f(); 3"));
    assert_eq!(error("argument to `quit` must be int. got \"a\""), run("quit(\"a\")"));
    assert_eq!(
        error("Too many arguments to `quit` (want 0 or 1, got 2)"),
        run("quit(1, 2)")
    );
}

#[test]
fn test_native_functions_under_both_names() {
    let builtins = new_builtins();
    assert_eq!(17, builtins.len());
    let find = |name: &str| {
        for (n, o) in builtins.iter() {
            if n == name {
                return Some(o);
            }
        }
        None
    };
    assert_eq!(Some(&Object::Builtin(1, Builtin::Len)), find("len"));
    assert_eq!(Some(&Object::Builtin(2, Builtin::Push)), find("push"));
    assert_eq!(find("quit"), find("哼"));
    assert_eq!(find("puts"), find("小作文"));
    assert_eq!(find("print"), find("聚焦"));
    assert_eq!(find("repr"), find("复用"));
    assert_eq!(find("str"), find("疏通"));
    assert_eq!(find("atoi"), find("抹零"));
    assert_eq!(None, find("nothing"));
}

#[test]
fn test_host_bindings() {
    let mut env = Env::from(new_builtins());
    env.set(String::from("answer"), &Object::Int(42));
    env.set(String::from("count"), &Object::Builtin(-1, Builtin::Len));
    assert_eq!(Some(Object::Int(42)), env.get("answer"));
    assert_eq!(None, env.get("question"));
    let mut evaluator = Evaluator::new(env);
    assert_eq!(Some(Object::Int(43)), evaluator.eval(&program("answer + 1")));
    assert_eq!(Some(Object::Int(2)), evaluator.eval(&program("count(\"ab\")")));
    assert_eq!(
        error("wrong number of arguments: 1 expected but 0 given"),
        evaluator.eval(&program("count()"))
    );
    evaluator.bind(0, String::from("answer"), &Object::Int(1));
    evaluator.bind(7, String::from("lost"), &Object::Int(1));
    assert_eq!(Some(Object::Int(1)), evaluator.lookup(0, "answer"));
    assert_eq!(None, evaluator.lookup(0, "lost"));
    assert_eq!(None, evaluator.lookup(7, "answer"));
    assert_eq!(Some(Object::Int(1)), evaluator.eval(&program("answer")));
}

#[test]
fn test_rendering() {
    let tests = vec![
        ("5", "5"),
        ("-5", "-5"),
        ("-9223372036854775807 - 1", "-9223372036854775808"),
        ("true", "true"),
        ("\"a\"", "\"a\""),
        (r#""a\"b\\c\nd""#, r#""a\"b\\c\nd""#),
        ("[1, \"a\", [true]]", "[1, \"a\", [true]]"),
        ("[]", "[]"),
        ("{}", "{}"),
        ("{\"a\": 1, 2: [3], true: \"x\"}", "{\"a\": 1, 2: [3], true: \"x\"}"),
        ("fn() { 1 }", "fn() { ... }"),
        ("fn(x) { 1 }", "fn(x) { ... }"),
        ("fn(x, y, z) { x + y }", "fn(x, y, z) { ... }"),
        ("len", "[builtin function]"),
        ("if (false) { 1 }", "null"),
        ("let a = 1;", "null"),
        ("", "null"),
        ("nothing", "啊啊啊啊啊啊啊啊(identifier not found: nothing)"),
        ("quit(3)", "[exit 3]"),
        ("return 5", "5"),
    ];
    for (input, expect) in tests {
        assert_eq!(expect, evaluate(input).text, "{}", input);
    }
    assert_eq!(
        "ReturnValue([1])",
        Object::ReturnValue(Box::new(Object::Array(vec![Object::Int(1)]))).to_string()
    );
    assert_eq!("[break statement]", Object::BreakStatement.to_string());
    assert_eq!("[continue statement]", Object::ContinueStatement.to_string());
}

#[test]
fn test_value_predicates() {
    assert!(Object::Int(0).is_truthy());
    assert!(Object::String(String::new()).is_truthy());
    assert!(!Object::Null.is_truthy());
    assert!(!Object::Bool(false).is_truthy());
    assert!(Object::Error(String::new()).is_signal());
    assert!(Object::Exit(0).is_signal());
    assert!(Object::ReturnValue(Box::new(Object::Null)).is_signal());
    assert!(!Object::Null.is_signal());
    assert!(Object::Int(1).same_kind(&Object::Int(2)));
    assert!(!Object::Int(1).same_kind(&Object::Bool(true)));
    assert!(Object::Int(1).equals(&Object::Int(1)));
    assert!(!Object::Int(1).equals(&Object::Bool(true)));
    assert_eq!(Some(HashKey::Int(1)), HashKey::from_object(&Object::Int(1)));
    assert_eq!(None, HashKey::from_object(&Object::Null));
    let copy = Object::Array(vec![Object::String(String::from("a"))]).duplicate();
    assert_eq!(Object::Array(vec![Object::String(String::from("a"))]), copy);
}

#[test]
fn test_evaluate_source() {
    let report = evaluate("puts(1); let a = [1, 2]; a[1] * 21");
    assert_eq!("42", report.text);
    assert_eq!(vec![String::from("1")], report.output);
    assert_eq!(None, report.exit_code);

    let report = evaluate("puts(\"bye\"); quit(7); puts(\"never\")");
    assert_eq!("[exit 7]", report.text);
    assert_eq!(vec![String::from("\"bye\"")], report.output);
    assert_eq!(Some(7), report.exit_code);

    let report = evaluate("let x = ; puts(1)");
    assert!(report.output.is_empty());
    assert_eq!(None, report.exit_code);
    assert_eq!(
        "啊啊啊啊啊啊啊啊啊啊啊啊 Unexpected Token: no prefix rule for Ident(\"puts\")\n",
        report.text
    );
}

#[test]
fn test_parse_source() {
    assert_eq!(Ok(program("1 + 2; let a = 3")), parse("1 + 2; let a = 3"));
    assert_eq!(
        Err(String::from(
            "啊啊啊啊啊啊啊啊啊啊啊啊 Unexpected Token: expected Rparen, got Int(2)\n啊啊啊啊啊啊啊啊啊啊啊啊 Unexpected Token: expected Rbracket, got Eof\n"
        )),
        parse("(1 2; [1")
    );
}

#[test]
fn test_reserved_names() {
    assert_eq!(
        Err(String::from("啊啊啊啊啊啊啊啊啊啊啊啊 SyntaxError: \"女性是不能被定义的！！！\"\n")),
        parse("let her = 1;").map(|p| p.len())
    );
    assert_eq!(error("identifier not found: her"), run("her;"));
    assert_eq!(Some(Object::Int(2)), run("let f = fn(her) { her + 1 }; f(1)"));
    assert_eq!(Some(Object::Int(1)), run("{\"her\": 1}.her"));
}

#[test]
fn test_cjk_program() {
    let input = r#"
宝宝你是一个 fib = 想要你一个态度(n) {
  姐妹们觉得呢 (n 我接受 0) {
    反手举报 0;
  }

  姐妹们觉得呢 (n 我接受 1) {
    反手举报 1;
  } 我接受不等于我同意 {
    反手举报 fib(n - 1) + fib(n - 2);
  }
};

fib(10);
"#;
    assert_eq!(Some(Object::Int(55)), run(input));
}
