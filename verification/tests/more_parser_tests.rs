use herlang::ast::{
    duplicate_stmts, same_stmts, Expr, Ident, Infix, Literal, Precedence, Prefix, Program, Stmt,
};
use herlang::constants::is_reserved_name;
use herlang::lexer::Lexer;
use herlang::parser::{ParseError, Parser};
use herlang::token::Token;

fn parse_all(input: &str) -> (Program, Vec<ParseError>) {
    let mut parser = Parser::new(Lexer::new(input));
    let program = parser.parse();
    let errors = parser.get_errors();
    (program, errors)
}

fn messages(input: &str) -> Vec<String> {
    parse_all(input).1.iter().map(|e| e.to_string()).collect()
}

fn clean(input: &str) -> Program {
    let (program, errors) = parse_all(input);
    assert!(errors.is_empty(), "{}: {:?}", input, errors);
    program
}

fn name(text: &str) -> Expr {
    Expr::Ident(Ident(String::from(text)))
}

fn num(n: i64) -> Expr {
    Expr::Literal(Literal::Int(n))
}

fn infix(op: Infix, left: Expr, right: Expr) -> Expr {
    Expr::Infix(op, Box::new(left), Box::new(right))
}

const EXPECTED: &str = "啊啊啊啊啊啊啊啊啊啊啊啊 Unexpected Token: expected ";
const NO_RULE: &str = "啊啊啊啊啊啊啊啊啊啊啊啊 Unexpected Token: no prefix rule for ";

#[test]
fn test_precedence_equivalences() {
    let pairs = vec![
        ("a + b * c", "a + (b * c)"),
        ("-a * b", "(-a) * b"),
        ("a == b + c", "a == (b + c)"),
        ("a + b < c * d", "(a + b) < (c * d)"),
        ("a < b == c > d", "(a < b) == (c > d)"),
        ("a - b - c", "(a - b) - c"),
        ("a / b / c", "(a / b) / c"),
        ("!a == b", "(!a) == b"),
        ("-a[0]", "-(a[0])"),
        ("-f(x)", "-(f(x))"),
        ("a.b.c", "(a.b).c"),
        ("a.b[0](1)", "((a.b)[0])(1)"),
        ("a + f(x)[1].k * 2", "a + (((f(x))[1]).k * 2)"),
        ("a.b", "a[\"b\"]"),
    ];
    for (plain, grouped) in pairs {
        assert_eq!(clean(grouped), clean(plain), "{}", plain);
    }
    assert_eq!(
        vec![Stmt::Expr(infix(
            Infix::Plus,
            name("a"),
            infix(Infix::Multiply, name("b"), name("c"))
        ))],
        clean("a + b * c")
    );
    assert!(Precedence::Lowest < Precedence::Equals);
    assert!(Precedence::Equals < Precedence::LessGreater);
    assert!(Precedence::LessGreater < Precedence::Sum);
    assert!(Precedence::Sum < Precedence::Product);
    assert!(Precedence::Product < Precedence::Prefix);
    assert!(Precedence::Prefix < Precedence::Index);
    assert!(Precedence::Index < Precedence::Call);
    assert_eq!(0, Precedence::Lowest.level());
    assert_eq!(7, Precedence::Call.level());
}

#[test]
fn test_both_lexicons_give_one_tree() {
    let plain = r#"
let fib = fn(n) {
  if (n == 0) {
    return 0;
  } else {
    while (true) { break; }
    return fib(n - 1) + n * 2 / 1;
  }
};
let w = "180kg";
if (false) { true }
"#;
    let slang = r#"
宝宝你是一个 fib = 想要你一个态度(n) {
  姐妹们觉得呢 (n 我接受 0) {
    反手举报 0;
  } 那能一样吗 {
    你再说一遍 (那么普通却那么自信) { 下头; }
    反手举报 fib(n 差异 1) 拼单 n 种草 2 踩雷 1;
  }
};
宝宝你是一个 w = 微胖;
抛开事实不谈 (那咋了) { 那么普通却那么自信 }
"#;
    assert_eq!(clean(plain), clean(slang));
    assert_eq!(clean("a + b == c / d"), clean("a 接 b 我同意 c 避雷 d"));
    assert_eq!(
        clean("if (a) { 1 } else { 2 }"),
        clean("姐妹们觉得呢 (a) { 1 } 我接受不等于我同意 { 2 }")
    );
}

#[test]
fn test_statements() {
    assert_eq!(
        vec![Stmt::Break, Stmt::Continue, Stmt::Break, Stmt::Continue],
        clean("break; continue break continue;")
    );
    assert_eq!(vec![Stmt::Let(Ident(String::from("a")), num(1)), Stmt::Expr(num(2))], clean("let a = 1 2"));
    assert_eq!(vec![Stmt::Return(num(1)), Stmt::Expr(num(2))], clean("return 1 2;"));
    assert_eq!(
        vec![Stmt::Expr(num(1)), Stmt::Expr(num(2)), Stmt::Expr(num(3))],
        clean("1 2 3")
    );
    assert_eq!(vec![Stmt::Expr(num(1))], clean("1;"));
    assert_eq!(
        vec![Stmt::Expr(Expr::While {
            cond: Box::new(infix(Infix::LessThan, name("a"), num(3))),
            consequence: vec![Stmt::Let(
                Ident(String::from("a")),
                infix(Infix::Plus, name("a"), num(1))
            )],
        })],
        clean("while (a < 3) { let a = a + 1; }")
    );
    assert_eq!(
        vec![Stmt::Expr(Expr::Literal(Literal::Hash(vec![(num(1), num(2)), (num(3), num(4))])))],
        clean("{1: 2, 3: 4,}")
    );
    assert_eq!(
        vec![Stmt::Expr(Expr::Call { func: Box::new(name("f")), args: vec![] })],
        clean("f()")
    );
    assert_eq!(
        vec![Stmt::Expr(Expr::Prefix(
            Prefix::Not,
            Box::new(Expr::Literal(Literal::Bool(true)))
        ))],
        clean("!true")
    );
}

#[test]
fn test_expected_token_diagnostics() {
    assert_eq!(format!("{}Rparen, got Int(2)", EXPECTED), messages("(1 2")[0]);
    assert_eq!(format!("{}Rbracket, got Eof", EXPECTED), messages("[1, 2")[0]);
    assert_eq!(format!("{}Rbracket, got Eof", EXPECTED), messages("a[1")[0]);
    assert_eq!(
        vec![format!("{}Rparen, got Semicolon", EXPECTED), format!("{}Eof", NO_RULE)],
        messages("f(1;")
    );
    assert_eq!(format!("{}Colon, got Rbrace", EXPECTED), messages("{1}")[0]);
    assert_eq!(format!("{}Comma, got Int(3)", EXPECTED), messages("{1: 2 3")[0]);
    assert_eq!(format!("{}Lparen, got Ident(\"x\")", EXPECTED), messages("if x")[0]);
    assert_eq!(format!("{}Lparen, got Lbrace", EXPECTED), messages("while {")[0]);
    assert_eq!(format!("{}Lparen, got Ident(\"f\")", EXPECTED), messages("fn f")[0]);
    assert_eq!(format!("{}Rparen, got Lbrace", EXPECTED), messages("if (x {")[0]);
    assert_eq!(format!("{}Lbrace, got Ident(\"y\")", EXPECTED), messages("if (x) y")[0]);
    assert_eq!(format!("{}Lbrace, got If", EXPECTED), messages("if (x) { 1 } else if")[0]);
    assert_eq!(format!("{}Lbrace, got Int(1)", EXPECTED), messages("fn(x) 1")[0]);
    assert_eq!(format!("{}Rparen, got Eof", EXPECTED), messages("fn(x")[0]);
    assert_eq!(format!("{}Rbrace, got Eof", EXPECTED), messages("fn(x) { 1")[0]);
    assert_eq!(format!("{}Rbrace, got Eof", EXPECTED), messages("if (x) { 1;")[0]);
    assert_eq!(format!("{}Assign, got Int(1)", EXPECTED), messages("let a 1")[0]);
}

#[test]
fn test_no_prefix_rule_diagnostics() {
    assert_eq!(vec![format!("{}Eof", NO_RULE)], messages(")"));
    assert_eq!(vec![format!("{}Int(1)", NO_RULE)], messages("= 1"));
    assert_eq!(vec![format!("{}Eof", NO_RULE)], messages("1 +"));
    assert_eq!(vec![format!("{}Eof", NO_RULE)], messages("let a = ;"));
    assert_eq!(vec![format!("{}Eof", NO_RULE)], messages("@"));
    assert_eq!(vec![format!("{}Eof", NO_RULE)], messages("99999999999999999999"));
    assert_eq!(vec![format!("{}Eof", NO_RULE)], messages("return"));
    assert_eq!(vec![format!("{}Let", NO_RULE)], messages("] let a = 1"));
}

#[test]
fn test_missing_names_are_reported() {
    assert_eq!(vec![format!("{}Ident(\"\"), got Eof", EXPECTED)], messages("let"));
    assert_eq!(
        vec![format!("{}Ident(\"\"), got Int(5)", EXPECTED), format!("{}Int(3)", NO_RULE)],
        messages("let 5 = 3")
    );
    assert_eq!(vec![format!("{}Ident(\"\"), got Int(5)", EXPECTED)], messages("a.5"));
    assert_eq!(vec![format!("{}Ident(\"\"), got Eof", EXPECTED)], messages("a."));
    assert_eq!(vec![format!("{}Ident(\"\"), got Int(5)", EXPECTED)], messages("fn(5"));
    assert_eq!(vec![format!("{}Ident(\"\"), got Rparen", EXPECTED)], messages("fn(a,)")[..1]);
}

#[test]
fn test_reserved_names_in_let() {
    let refused = "啊啊啊啊啊啊啊啊啊啊啊啊 SyntaxError: \"女性是不能被定义的！！！\"";
    for word in ["女性", "her", "女", "female", "woman", "girl", "lady"] {
        assert!(is_reserved_name(word));
        let (program, errors) = parse_all(&format!("let {} = 1;", word));
        assert!(matches!(errors[0], ParseError::HerUnexpectedToken { .. }));
        assert_eq!(refused, errors[0].to_string());
        assert!(!program.iter().any(|s| matches!(s, Stmt::Let(_, _))));
        assert_eq!(vec![Stmt::Expr(name(word))], clean(&format!("{};", word)));
        assert_eq!(1, clean(&format!("fn({}) {{ {} }}", word, word)).len());
        assert_eq!(1, clean(&format!("x.{}", word)).len());
    }
    for word in ["hers", "Her", "man", "he", "男"] {
        assert!(!is_reserved_name(word));
        assert_eq!(1, clean(&format!("let {} = 1;", word)).len());
    }
    assert_eq!(
        vec![format!("{}Assign, got Int(1)", EXPECTED)],
        messages("let her 1")
    );
}

#[test]
fn test_parsing_goes_on_after_a_diagnostic() {
    let (program, errors) = parse_all("let a = 1; (2 3; let b = 4; ] let c = 5");
    assert_eq!(2, errors.len());
    assert_eq!(
        vec![
            Stmt::Let(Ident(String::from("a")), num(1)),
            Stmt::Expr(num(3)),
            Stmt::Let(Ident(String::from("b")), num(4)),
            Stmt::Let(Ident(String::from("c")), num(5)),
        ],
        program
    );
    let (program, errors) = parse_all("if (x) { 1; 2");
    assert_eq!(1, errors.len());
    assert_eq!(
        vec![Stmt::Expr(Expr::If {
            cond: Box::new(name("x")),
            consequence: vec![Stmt::Expr(num(1)), Stmt::Expr(num(2))],
            alternative: None,
        })],
        program
    );
}

#[test]
fn test_every_input_parses_without_panic() {
    let inputs = vec![
        "if + 1",
        "(if) * 2",
        "while - 3",
        "fn [ 1",
        "a.5 + 1",
        "{ 1: } + 2",
        "[1, ] . x ( )",
        "let let let",
        "((((((",
        "}}}}",
        "1 + * 2",
        "a[[[[",
        "fn(a, b, ) { } (",
        "if (a) { } else { } else { }",
        "return return return",
        "a + \0 b",
        "{a: fn(x) { if (x) { return [1, {b: 2}] } } (3) . y [4]",
    ];
    for input in inputs {
        let (_, errors) = parse_all(input);
        assert!(!errors.is_empty(), "{}", input);
        for e in errors {
            assert!(!e.to_string().is_empty());
            assert_eq!(e.to_string(), e.duplicate().to_string());
        }
    }
}

#[test]
fn test_nul_ends_the_program() {
    assert_eq!(vec![Stmt::Expr(name("a"))], clean("a\0b + ("));
    assert!(clean("\0 1").is_empty());
}

#[test]
fn test_parser_starts_where_the_lexer_stands() {
    let mut lexer = Lexer::new("1 + 2; 3");
    assert_eq!(Token::Int(1), lexer.next_token());
    assert_eq!(Token::Plus, lexer.next_token());
    let mut parser = Parser::new(lexer);
    assert_eq!(vec![Stmt::Expr(num(2)), Stmt::Expr(num(3))], parser.parse());
    assert!(parser.get_errors().is_empty());
    assert!(parser.parse().is_empty());
}

#[test]
fn test_tree_copies_and_comparison() {
    let program = clean(
        "let f = fn(a, b) { if (a < b) { return [a, {\"k\": -b}]; } else { while (!a) { break; continue } } a.b[0](1) };\n\n\"s\"; true",
    );
    let copy = duplicate_stmts(&program);
    assert_eq!(program, copy);
    assert!(same_stmts(&program, &copy));
    assert!(!same_stmts(&program, &clean("1")));
    assert!(!same_stmts(&clean("a + b"), &clean("a - b")));
    assert!(!same_stmts(&clean("fn(a) { a }"), &clean("fn(b) { a }")));
    assert!(!same_stmts(&clean("[1, 2]"), &clean("[1, 3]")));
    assert!(!same_stmts(&clean("{1: 2}"), &clean("{1: 3}")));
    assert!(!same_stmts(&clean("if (a) { 1 }"), &clean("if (a) { 1 } else { 2 }")));
    assert!(same_stmts(&clean("a.b"), &clean("a[\"b\"]")));
    assert!(name("a").same(&name("a").duplicate()));
    assert!(Ident(String::from("a")).same(&Ident(String::from("a")).duplicate()));
}
