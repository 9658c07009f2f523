//! What the parser computes, as functions on a sequence of tokens.
//!
//! Every function takes the tokens and the index of the current token, and gives what
//! was parsed, how many tokens the parser moved on, and the diagnostics that it
//! recorded on the way. Past the end of the sequence every token is `Eof`.

use crate::ast::{ExprV, Infix, LiteralV, Precedence, Prefix, StmtV};
use crate::constants::spec_is_reserved_name;
use crate::token::TokenV;
use vstd::prelude::*;

verus! {

/// The model of a diagnostic.
#[allow(inconsistent_fields)]
pub enum ParseErrorV {
    UnexpectedToken { want: Option<TokenV>, got: TokenV },
    HerUnexpectedToken { got: Seq<char> },
}

/// The outcome of one parsing function.
pub struct Parsed<T> {
    /// What was parsed, or `None` where the input does not fit.
    pub value: Option<T>,
    /// How many tokens the parser moved on.
    pub used: nat,
    /// The diagnostics recorded, oldest first.
    pub errors: Seq<ParseErrorV>,
}

impl<T> Parsed<T> {
    pub open spec fn ok(value: T, used: nat, errors: Seq<ParseErrorV>) -> Self {
        Parsed { value: Some(value), used, errors }
    }

    pub open spec fn fail(used: nat, errors: Seq<ParseErrorV>) -> Self {
        Parsed { value: None, used, errors }
    }

    /// This outcome after `used` more tokens and `errors` before it.
    pub open spec fn after(self, used: nat, errors: Seq<ParseErrorV>) -> Self {
        Parsed { value: self.value, used: used + self.used, errors: errors + self.errors }
    }
}

/// The token at index `i`; `Eof` past the end.
pub open spec fn tok_at(toks: Seq<TokenV>, i: nat) -> TokenV {
    if i < toks.len() {
        toks[i as int]
    } else {
        TokenV::Eof
    }
}

/// How many tokens are left from index `i` on.
pub open spec fn remaining(toks: Seq<TokenV>, i: nat) -> nat {
    if i < toks.len() {
        (toks.len() - i) as nat
    } else {
        0
    }
}

/// The precedence of a token as an operator between two expressions.
pub open spec fn token_precedence(t: TokenV) -> Precedence {
    match t {
        TokenV::Equal | TokenV::NotEqual => Precedence::Equals,
        TokenV::LessThan | TokenV::LessThanEqual => Precedence::LessGreater,
        TokenV::GreaterThan | TokenV::GreaterThanEqual => Precedence::LessGreater,
        TokenV::Plus | TokenV::Minus => Precedence::Sum,
        TokenV::Slash | TokenV::Asterisk => Precedence::Product,
        TokenV::Lbracket => Precedence::Index,
        TokenV::Dot => Precedence::Index,
        TokenV::Lparen => Precedence::Call,
        _ => Precedence::Lowest,
    }
}

/// The binary operator that a token stands for.
pub open spec fn infix_of(t: TokenV) -> Option<Infix> {
    match t {
        TokenV::Plus => Some(Infix::Plus),
        TokenV::Minus => Some(Infix::Minus),
        TokenV::Slash => Some(Infix::Divide),
        TokenV::Asterisk => Some(Infix::Multiply),
        TokenV::Equal => Some(Infix::Equal),
        TokenV::NotEqual => Some(Infix::NotEqual),
        TokenV::LessThan => Some(Infix::LessThan),
        TokenV::LessThanEqual => Some(Infix::LessThanEqual),
        TokenV::GreaterThan => Some(Infix::GreaterThan),
        TokenV::GreaterThanEqual => Some(Infix::GreaterThanEqual),
        _ => None,
    }
}

/// The unary operator that a token stands for.
pub open spec fn prefix_of(t: TokenV) -> Option<Prefix> {
    match t {
        TokenV::Bang => Some(Prefix::Not),
        TokenV::Minus => Some(Prefix::Minus),
        TokenV::Plus => Some(Prefix::Plus),
        _ => None,
    }
}

/// The diagnostic "expected `want`, got the next token".
pub open spec fn unexpected(toks: Seq<TokenV>, i: nat, want: TokenV) -> ParseErrorV {
    ParseErrorV::UnexpectedToken { want: Some(want), got: tok_at(toks, i + 1) }
}

/// The diagnostic "no prefix rule". It names the token after the one that no
/// expression can start with.
pub open spec fn no_prefix(toks: Seq<TokenV>, i: nat) -> ParseErrorV {
    ParseErrorV::UnexpectedToken { want: None, got: tok_at(toks, i + 1) }
}

/// The diagnostic "expected an identifier, got `got`". The expected token is an
/// identifier without a name.
pub open spec fn expected_ident(got: TokenV) -> ParseErrorV {
    ParseErrorV::UnexpectedToken { want: Some(TokenV::Ident(Seq::empty())), got }
}

/// The text of the diagnostic for a `let` that binds a reserved name.
pub open spec fn reserved_name_text() -> Seq<char> {
    "女性是不能被定义的！！！"@
}

/// How many tokens an optional semicolon after index `i` takes.
pub open spec fn semicolon_after(toks: Seq<TokenV>, i: nat) -> nat {
    if tok_at(toks, i + 1) == TokenV::Semicolon {
        1
    } else {
        0
    }
}

/// A whole program: statements up to the first `Eof`. A statement that does not
/// parse leaves nothing behind but its diagnostics.
pub open spec fn spec_parse(toks: Seq<TokenV>, i: nat) -> Parsed<Seq<StmtV>>
    decreases remaining(toks, i), 9nat,
{
    if tok_at(toks, i) == TokenV::Eof {
        Parsed::ok(Seq::empty(), 0, Seq::empty())
    } else {
        let first = spec_parse_stmt(toks, i);
        let rest = spec_parse(toks, i + first.used + 1);
        Parsed::ok(
            match first.value {
                Some(s) => seq![s] + rest.value->0,
                None => rest.value->0,
            },
            first.used + 1 + rest.used,
            first.errors + rest.errors,
        )
    }
}

/// The statements of a block whose opening brace is the current token.
pub open spec fn spec_parse_block_stmt(toks: Seq<TokenV>, i: nat) -> Parsed<Seq<StmtV>>
    decreases remaining(toks, i), 0nat,
    when tok_at(toks, i) != TokenV::Eof
{
    spec_block_rest(toks, i + 1).after(1, Seq::empty())
}

/// The statements of a block from the current token up to the closing brace. Where
/// the input ends first, the block holds what was read and a diagnostic is recorded.
pub open spec fn spec_block_rest(toks: Seq<TokenV>, i: nat) -> Parsed<Seq<StmtV>>
    decreases remaining(toks, i), 9nat,
{
    if tok_at(toks, i) == TokenV::Rbrace {
        Parsed::ok(Seq::empty(), 0, Seq::empty())
    } else if tok_at(toks, i) == TokenV::Eof {
        Parsed::ok(Seq::empty(), 0, seq![unexpected(toks, i, TokenV::Rbrace)])
    } else {
        let first = spec_parse_stmt(toks, i);
        let rest = spec_block_rest(toks, i + first.used + 1);
        Parsed::ok(
            match first.value {
                Some(s) => seq![s] + rest.value->0,
                None => rest.value->0,
            },
            first.used + 1 + rest.used,
            first.errors + rest.errors,
        )
    }
}

/// One statement that starts at the current token. Every statement may end with a
/// semicolon and none has to.
pub open spec fn spec_parse_stmt(toks: Seq<TokenV>, i: nat) -> Parsed<StmtV>
    decreases remaining(toks, i), 8nat,
{
    match tok_at(toks, i) {
        TokenV::Let => spec_parse_let_stmt(toks, i),
        TokenV::Return => spec_parse_return_stmt(toks, i),
        TokenV::Blank => Parsed::ok(StmtV::Blank, 0, Seq::empty()),
        TokenV::Break => Parsed::ok(StmtV::Break, semicolon_after(toks, i), Seq::empty()),
        TokenV::Continue => Parsed::ok(StmtV::Continue, semicolon_after(toks, i), Seq::empty()),
        _ => spec_parse_expr_stmt(toks, i),
    }
}

/// `let <name> = <expression>` with an optional semicolon. A reserved name is
/// refused with a diagnostic of its own, after the `=`.
pub open spec fn spec_parse_let_stmt(toks: Seq<TokenV>, i: nat) -> Parsed<StmtV>
    decreases remaining(toks, i), 7nat,
{
    match tok_at(toks, i + 1) {
        TokenV::Ident(name) => {
            if tok_at(toks, i + 2) != TokenV::Assign {
                Parsed::fail(1, seq![unexpected(toks, i + 1, TokenV::Assign)])
            } else if spec_is_reserved_name(name) {
                Parsed::fail(
                    2,
                    seq![ParseErrorV::HerUnexpectedToken { got: reserved_name_text() }],
                )
            } else {
                let value = spec_parse_expr(toks, i + 3, Precedence::Lowest);
                match value.value {
                    Some(e) => Parsed::ok(
                        StmtV::Let(name, e),
                        3 + value.used + semicolon_after(toks, i + 3 + value.used),
                        value.errors,
                    ),
                    None => Parsed::fail(3 + value.used, value.errors),
                }
            }
        },
        other => Parsed::fail(0, seq![expected_ident(other)]),
    }
}

/// `return <expression>` with an optional semicolon.
pub open spec fn spec_parse_return_stmt(toks: Seq<TokenV>, i: nat) -> Parsed<StmtV>
    decreases remaining(toks, i), 7nat,
    when tok_at(toks, i) != TokenV::Eof
{
    let value = spec_parse_expr(toks, i + 1, Precedence::Lowest);
    match value.value {
        Some(e) => Parsed::ok(
            StmtV::Return(e),
            1 + value.used + semicolon_after(toks, i + 1 + value.used),
            value.errors,
        ),
        None => Parsed::fail(1 + value.used, value.errors),
    }
}

/// An expression as a statement, with an optional semicolon.
pub open spec fn spec_parse_expr_stmt(toks: Seq<TokenV>, i: nat) -> Parsed<StmtV>
    decreases remaining(toks, i), 7nat,
{
    let value = spec_parse_expr(toks, i, Precedence::Lowest);
    match value.value {
        Some(e) => Parsed::ok(
            StmtV::Expr(e),
            value.used + semicolon_after(toks, i + value.used),
            value.errors,
        ),
        None => Parsed::fail(value.used, value.errors),
    }
}

/// An expression that starts at the current token and whose operators all bind
/// tighter than `precedence`.
pub open spec fn spec_parse_expr(toks: Seq<TokenV>, i: nat, precedence: Precedence) -> Parsed<
    ExprV,
>
    decreases remaining(toks, i), 6nat,
{
    let left = spec_parse_operand(toks, i);
    match left.value {
        Some(e) => spec_parse_operators(toks, i + left.used, e, precedence).after(
            left.used,
            left.errors,
        ),
        None => left,
    }
}

/// What an expression starts with, chosen by the current token: a name, a literal,
/// a unary operator, a parenthesis, `if`, `while` or a function literal.
pub open spec fn spec_parse_operand(toks: Seq<TokenV>, i: nat) -> Parsed<ExprV>
    decreases remaining(toks, i), 5nat,
{
    match tok_at(toks, i) {
        TokenV::Ident(name) => Parsed::ok(ExprV::Ident(name), 0, Seq::empty()),
        TokenV::Int(n) => Parsed::ok(ExprV::Literal(LiteralV::Int(n)), 0, Seq::empty()),
        TokenV::String(s) => Parsed::ok(ExprV::Literal(LiteralV::String(s)), 0, Seq::empty()),
        TokenV::Bool(b) => Parsed::ok(ExprV::Literal(LiteralV::Bool(b)), 0, Seq::empty()),
        TokenV::Lbracket => spec_parse_array_expr(toks, i),
        TokenV::Lbrace => spec_parse_hash_expr(toks, i),
        TokenV::Bang | TokenV::Minus | TokenV::Plus => spec_parse_prefix_expr(toks, i),
        TokenV::Lparen => spec_parse_grouped_expr(toks, i),
        TokenV::If => spec_parse_if_expr(toks, i),
        TokenV::While => spec_parse_while_expr(toks, i),
        TokenV::Func => spec_parse_func_expr(toks, i),
        _ => Parsed::fail(0, seq![no_prefix(toks, i)]),
    }
}

/// The operators, indexings and calls that follow the operand `left`, whose last
/// token is the current one, as long as they bind tighter than `precedence` and no
/// semicolon comes first.
pub open spec fn spec_parse_operators(
    toks: Seq<TokenV>,
    i: nat,
    left: ExprV,
    precedence: Precedence,
) -> Parsed<ExprV>
    decreases remaining(toks, i), 5nat,
{
    let t = tok_at(toks, i + 1);
    if t == TokenV::Semicolon || precedence.spec_level() >= token_precedence(t).spec_level() {
        Parsed::ok(left, 0, Seq::empty())
    } else {
        let step = spec_parse_operator(toks, i + 1, left);
        match step.value {
            Some(e) => spec_parse_operators(toks, i + 1 + step.used, e, precedence).after(
                1 + step.used,
                step.errors,
            ),
            None => step.after(1, Seq::empty()),
        }
    }
}

/// One operator, the current token, applied to the operand `left` before it: an
/// index in brackets, a name behind a dot, the arguments of a call, or a binary
/// operator and its right operand.
pub open spec fn spec_parse_operator(toks: Seq<TokenV>, i: nat, left: ExprV) -> Parsed<ExprV>
    decreases remaining(toks, i), 4nat,
{
    match tok_at(toks, i) {
        TokenV::Lbracket => spec_parse_index_expr(toks, i, left),
        TokenV::Dot => spec_parse_dot_access_expr(toks, i, left),
        TokenV::Lparen => spec_parse_call_expr(toks, i, left),
        _ => spec_parse_infix_expr(toks, i, left),
    }
}

/// An array literal whose `[` is the current token.
pub open spec fn spec_parse_array_expr(toks: Seq<TokenV>, i: nat) -> Parsed<ExprV>
    decreases remaining(toks, i), 3nat,
    when tok_at(toks, i) != TokenV::Eof
{
    let list = spec_parse_expr_list(toks, i, TokenV::Rbracket);
    match list.value {
        Some(items) => Parsed::ok(ExprV::Literal(LiteralV::Array(items)), list.used, list.errors),
        None => Parsed::fail(list.used, list.errors),
    }
}

/// A hash literal whose `{` is the current token.
pub open spec fn spec_parse_hash_expr(toks: Seq<TokenV>, i: nat) -> Parsed<ExprV>
    decreases remaining(toks, i), 3nat,
    when tok_at(toks, i) != TokenV::Eof
{
    let pairs = spec_hash_pairs(toks, i, Seq::empty());
    match pairs.value {
        Some(p) => Parsed::ok(ExprV::Literal(LiteralV::Hash(p)), pairs.used, pairs.errors),
        None => Parsed::fail(pairs.used, pairs.errors),
    }
}

/// The pairs of a hash literal after `found`, up to and with the closing brace. The
/// current token is the `{` or the comma after a pair. A comma may stand before the
/// closing brace.
pub open spec fn spec_hash_pairs(toks: Seq<TokenV>, i: nat, found: Seq<(ExprV, ExprV)>) -> Parsed<
    Seq<(ExprV, ExprV)>,
>
    decreases remaining(toks, i), 2nat,
    when tok_at(toks, i) != TokenV::Eof
{
    if tok_at(toks, i + 1) == TokenV::Rbrace {
        Parsed::ok(found, 1, Seq::empty())
    } else {
        let pair = spec_parse_hash_pair(toks, i);
        let at_pair = i + pair.used;
        match pair.value {
            None => Parsed::fail(pair.used, pair.errors),
            Some(p) => if tok_at(toks, at_pair + 1) == TokenV::Rbrace {
                Parsed::ok(found.push(p), pair.used + 1, pair.errors)
            } else if tok_at(toks, at_pair + 1) == TokenV::Comma {
                spec_hash_pairs(toks, at_pair + 1, found.push(p)).after(pair.used + 1, pair.errors)
            } else {
                Parsed::fail(pair.used, pair.errors.push(unexpected(toks, at_pair, TokenV::Comma)))
            },
        }
    }
}

/// One pair of a hash literal, `<key> : <value>`, after the current token. Key and
/// value are expressions of any kind.
pub open spec fn spec_parse_hash_pair(toks: Seq<TokenV>, i: nat) -> Parsed<(ExprV, ExprV)>
    decreases remaining(toks, i), 1nat,
    when tok_at(toks, i) != TokenV::Eof
{
    let key = spec_parse_expr(toks, i + 1, Precedence::Lowest);
    let at_key = i + 1 + key.used;
    if key.value is None {
        Parsed::fail(1 + key.used, key.errors)
    } else if tok_at(toks, at_key + 1) != TokenV::Colon {
        Parsed::fail(1 + key.used, key.errors.push(unexpected(toks, at_key, TokenV::Colon)))
    } else {
        let value = spec_parse_expr(toks, at_key + 2, Precedence::Lowest);
        match value.value {
            Some(v) => Parsed::ok(
                (key.value->0, v),
                3 + key.used + value.used,
                key.errors + value.errors,
            ),
            None => Parsed::fail(3 + key.used + value.used, key.errors + value.errors),
        }
    }
}

/// A list of expressions between the current token, which opens it, and `end`.
pub open spec fn spec_parse_expr_list(toks: Seq<TokenV>, i: nat, end: TokenV) -> Parsed<
    Seq<ExprV>,
>
    decreases remaining(toks, i), 2nat,
    when tok_at(toks, i) != TokenV::Eof
{
    if tok_at(toks, i + 1) == end {
        Parsed::ok(Seq::empty(), 1, Seq::empty())
    } else {
        let first = spec_parse_expr(toks, i + 1, Precedence::Lowest);
        match first.value {
            Some(e) => spec_expr_list_rest(toks, i + 1 + first.used, seq![e], end).after(
                1 + first.used,
                first.errors,
            ),
            None => Parsed::fail(1 + first.used, first.errors),
        }
    }
}

/// The expressions of a list after `found`, each behind a comma, and the token `end`.
pub open spec fn spec_expr_list_rest(
    toks: Seq<TokenV>,
    i: nat,
    found: Seq<ExprV>,
    end: TokenV,
) -> Parsed<Seq<ExprV>>
    decreases remaining(toks, i), 2nat,
{
    if tok_at(toks, i + 1) == TokenV::Comma {
        let next = spec_parse_expr(toks, i + 2, Precedence::Lowest);
        match next.value {
            Some(e) => spec_expr_list_rest(toks, i + 2 + next.used, found.push(e), end).after(
                2 + next.used,
                next.errors,
            ),
            None => Parsed::fail(2 + next.used, next.errors),
        }
    } else if tok_at(toks, i + 1) == end {
        Parsed::ok(found, 1, Seq::empty())
    } else {
        Parsed::fail(0, seq![unexpected(toks, i, end)])
    }
}

/// A unary operator, the current token, and its operand.
pub open spec fn spec_parse_prefix_expr(toks: Seq<TokenV>, i: nat) -> Parsed<ExprV>
    decreases remaining(toks, i), 3nat,
{
    match prefix_of(tok_at(toks, i)) {
        Some(op) => {
            let right = spec_parse_expr(toks, i + 1, Precedence::Prefix);
            match right.value {
                Some(e) => Parsed::ok(ExprV::Prefix(op, Box::new(e)), 1 + right.used, right.errors),
                None => Parsed::fail(1 + right.used, right.errors),
            }
        },
        None => Parsed::fail(0, Seq::empty()),
    }
}

/// A binary operator, the current token, and its right operand. Operators of one
/// precedence group to the left.
pub open spec fn spec_parse_infix_expr(toks: Seq<TokenV>, i: nat, left: ExprV) -> Parsed<ExprV>
    decreases remaining(toks, i), 3nat,
{
    match infix_of(tok_at(toks, i)) {
        Some(op) => {
            let right = spec_parse_expr(toks, i + 1, token_precedence(tok_at(toks, i)));
            match right.value {
                Some(e) => Parsed::ok(
                    ExprV::Infix(op, Box::new(left), Box::new(e)),
                    1 + right.used,
                    right.errors,
                ),
                None => Parsed::fail(1 + right.used, right.errors),
            }
        },
        None => Parsed::fail(0, Seq::empty()),
    }
}

/// An index in brackets; the `[` is the current token.
pub open spec fn spec_parse_index_expr(toks: Seq<TokenV>, i: nat, left: ExprV) -> Parsed<ExprV>
    decreases remaining(toks, i), 3nat,
    when tok_at(toks, i) != TokenV::Eof
{
    let index = spec_parse_expr(toks, i + 1, Precedence::Lowest);
    let at_index = i + 1 + index.used;
    match index.value {
        Some(e) => if tok_at(toks, at_index + 1) == TokenV::Rbracket {
            Parsed::ok(ExprV::Index(Box::new(left), Box::new(e)), 2 + index.used, index.errors)
        } else {
            Parsed::fail(
                1 + index.used,
                index.errors.push(unexpected(toks, at_index, TokenV::Rbracket)),
            )
        },
        None => Parsed::fail(1 + index.used, index.errors),
    }
}

/// A name behind a dot, the current token: the same tree as an index by the name
/// as a string.
pub open spec fn spec_parse_dot_access_expr(toks: Seq<TokenV>, i: nat, left: ExprV) -> Parsed<
    ExprV,
> {
    match tok_at(toks, i + 1) {
        TokenV::Ident(name) => Parsed::ok(
            ExprV::Index(Box::new(left), Box::new(ExprV::Literal(LiteralV::String(name)))),
            1,
            Seq::empty(),
        ),
        other => Parsed::fail(1, seq![expected_ident(other)]),
    }
}

/// An expression in parentheses; the `(` is the current token.
pub open spec fn spec_parse_grouped_expr(toks: Seq<TokenV>, i: nat) -> Parsed<ExprV>
    decreases remaining(toks, i), 3nat,
    when tok_at(toks, i) != TokenV::Eof
{
    let inner = spec_parse_expr(toks, i + 1, Precedence::Lowest);
    let at_inner = i + 1 + inner.used;
    if tok_at(toks, at_inner + 1) == TokenV::Rparen {
        Parsed { value: inner.value, used: 2 + inner.used, errors: inner.errors }
    } else {
        Parsed::fail(1 + inner.used, inner.errors.push(unexpected(toks, at_inner, TokenV::Rparen)))
    }
}

/// A condition in parentheses and the opening brace of a block, after the current
/// token. At the end the current token is that brace.
pub open spec fn spec_parse_condition(toks: Seq<TokenV>, i: nat) -> Parsed<ExprV>
    decreases remaining(toks, i), 2nat,
{
    if tok_at(toks, i + 1) != TokenV::Lparen {
        Parsed::fail(0, seq![unexpected(toks, i, TokenV::Lparen)])
    } else {
        let cond = spec_parse_expr(toks, i + 2, Precedence::Lowest);
        let at_cond = i + 2 + cond.used;
        if cond.value is None {
            Parsed::fail(2 + cond.used, cond.errors)
        } else if tok_at(toks, at_cond + 1) != TokenV::Rparen {
            Parsed::fail(2 + cond.used, cond.errors.push(unexpected(toks, at_cond, TokenV::Rparen)))
        } else if tok_at(toks, at_cond + 2) != TokenV::Lbrace {
            Parsed::fail(
                3 + cond.used,
                cond.errors.push(unexpected(toks, at_cond + 1, TokenV::Lbrace)),
            )
        } else {
            Parsed::ok(cond.value->0, 4 + cond.used, cond.errors)
        }
    }
}

/// `if ( <condition> ) { <block> }`, and after it `else { <block> }` or nothing.
pub open spec fn spec_parse_if_expr(toks: Seq<TokenV>, i: nat) -> Parsed<ExprV>
    decreases remaining(toks, i), 3nat,
    when tok_at(toks, i) != TokenV::Eof
{
    let head = spec_parse_condition(toks, i);
    match head.value {
        None => head,
        Some(cond) => {
            let then = spec_parse_block_stmt(toks, i + head.used);
            let at_then = i + head.used + then.used;
            let used = head.used + then.used;
            let errors = head.errors + then.errors;
            if tok_at(toks, at_then + 1) != TokenV::Else {
                Parsed::ok(
                    ExprV::If {
                        cond: Box::new(cond),
                        consequence: then.value->0,
                        alternative: None,
                    },
                    used,
                    errors,
                )
            } else if tok_at(toks, at_then + 2) != TokenV::Lbrace {
                Parsed::fail(used + 1, errors.push(unexpected(toks, at_then + 1, TokenV::Lbrace)))
            } else {
                let other = spec_parse_block_stmt(toks, at_then + 2);
                Parsed::ok(
                    ExprV::If {
                        cond: Box::new(cond),
                        consequence: then.value->0,
                        alternative: Some(other.value->0),
                    },
                    used + 2 + other.used,
                    errors + other.errors,
                )
            }
        },
    }
}

/// `while ( <condition> ) { <block> }`.
pub open spec fn spec_parse_while_expr(toks: Seq<TokenV>, i: nat) -> Parsed<ExprV>
    decreases remaining(toks, i), 3nat,
    when tok_at(toks, i) != TokenV::Eof
{
    let head = spec_parse_condition(toks, i);
    match head.value {
        None => head,
        Some(cond) => {
            let body = spec_parse_block_stmt(toks, i + head.used);
            Parsed::ok(
                ExprV::While { cond: Box::new(cond), consequence: body.value->0 },
                head.used + body.used,
                head.errors + body.errors,
            )
        },
    }
}

/// `fn ( <names> ) { <block> }`.
pub open spec fn spec_parse_func_expr(toks: Seq<TokenV>, i: nat) -> Parsed<ExprV>
    decreases remaining(toks, i), 3nat,
    when tok_at(toks, i) != TokenV::Eof
{
    if tok_at(toks, i + 1) != TokenV::Lparen {
        Parsed::fail(0, seq![unexpected(toks, i, TokenV::Lparen)])
    } else {
        let params = spec_parse_func_params(toks, i + 1);
        let at_params = i + 1 + params.used;
        if params.value is None {
            Parsed::fail(1 + params.used, params.errors)
        } else if tok_at(toks, at_params + 1) != TokenV::Lbrace {
            Parsed::fail(
                1 + params.used,
                params.errors.push(unexpected(toks, at_params, TokenV::Lbrace)),
            )
        } else {
            let body = spec_parse_block_stmt(toks, at_params + 1);
            Parsed::ok(
                ExprV::Func { params: params.value->0, body: body.value->0 },
                2 + params.used + body.used,
                params.errors + body.errors,
            )
        }
    }
}

/// The names of a function's parameters, between the current `(` and `)`.
pub open spec fn spec_parse_func_params(toks: Seq<TokenV>, i: nat) -> Parsed<Seq<Seq<char>>> {
    if tok_at(toks, i + 1) == TokenV::Rparen {
        Parsed::ok(Seq::empty(), 1, Seq::empty())
    } else {
        match tok_at(toks, i + 1) {
            TokenV::Ident(name) => spec_func_params_rest(toks, i + 1, seq![name]).after(
                1,
                Seq::empty(),
            ),
            other => Parsed::fail(1, seq![expected_ident(other)]),
        }
    }
}

/// The names of a parameter list after `found`, each behind a comma, and the `)`.
pub open spec fn spec_func_params_rest(toks: Seq<TokenV>, i: nat, found: Seq<Seq<char>>) -> Parsed<
    Seq<Seq<char>>,
>
    decreases remaining(toks, i),
{
    if tok_at(toks, i + 1) == TokenV::Comma {
        match tok_at(toks, i + 2) {
            TokenV::Ident(name) => spec_func_params_rest(toks, i + 2, found.push(name)).after(
                2,
                Seq::empty(),
            ),
            other => Parsed::fail(2, seq![expected_ident(other)]),
        }
    } else if tok_at(toks, i + 1) == TokenV::Rparen {
        Parsed::ok(found, 1, Seq::empty())
    } else {
        Parsed::fail(0, seq![unexpected(toks, i, TokenV::Rparen)])
    }
}

/// The arguments of a call; the `(` is the current token.
pub open spec fn spec_parse_call_expr(toks: Seq<TokenV>, i: nat, func: ExprV) -> Parsed<ExprV>
    decreases remaining(toks, i), 3nat,
    when tok_at(toks, i) != TokenV::Eof
{
    let list = spec_parse_expr_list(toks, i, TokenV::Rparen);
    match list.value {
        Some(args) => Parsed::ok(ExprV::Call { func: Box::new(func), args }, list.used, list.errors),
        None => Parsed::fail(list.used, list.errors),
    }
}

} // verus!
