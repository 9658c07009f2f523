//! What holds of every parse.

use crate::ast::{ExprV, Precedence, StmtV};
use crate::constants::spec_is_reserved_name;
use crate::lexer::LexerV;
use crate::parser::grammar::{
    infix_of,
    spec_parse_let_stmt,
    reserved_name_text,
    ParseErrorV,
    spec_parse_infix_expr,
    remaining,
    spec_block_rest,
    spec_expr_list_rest,
    spec_func_params_rest,
    spec_hash_pairs,
    spec_parse,
    spec_parse_condition,
    spec_parse_expr,
    spec_parse_expr_list,
    spec_parse_hash_pair,
    spec_parse_operand,
    spec_parse_operator,
    spec_parse_operators,
    spec_parse_stmt,
    tok_at,
    token_precedence,
    Parsed,
};
use crate::token::TokenV;
use vstd::prelude::*;

verus! {

/// An outcome that either holds a value or at least one diagnostic.
pub open spec fn reported<T>(p: Parsed<T>) -> bool {
    p.value is None ==> p.errors.len() > 0
}

/// Nothing is dropped in silence: a statement that does not parse records at least
/// one diagnostic, whatever the tokens are.
pub proof fn lemma_failed_stmt_is_reported(toks: Seq<TokenV>, i: nat)
    ensures
        reported(spec_parse_stmt(toks, i)),
    decreases remaining(toks, i), 8nat,
{
    match tok_at(toks, i) {
        TokenV::Let => {
            match tok_at(toks, i + 1) {
                TokenV::Ident(name) => {
                    lemma_failed_expr_is_reported(toks, i + 3, Precedence::Lowest);
                },
                _ => {},
            }
        },
        TokenV::Return => {
            lemma_failed_expr_is_reported(toks, i + 1, Precedence::Lowest);
        },
        TokenV::Blank | TokenV::Break | TokenV::Continue => {},
        _ => {
            lemma_failed_expr_is_reported(toks, i, Precedence::Lowest);
        },
    }
}

/// Nothing is dropped in silence: an expression that does not parse records at
/// least one diagnostic, whatever the tokens and the precedence are.
pub proof fn lemma_failed_expr_is_reported(toks: Seq<TokenV>, i: nat, precedence: Precedence)
    ensures
        reported(spec_parse_expr(toks, i, precedence)),
    decreases remaining(toks, i), 6nat,
{
    lemma_operand(toks, i);
    let left = spec_parse_operand(toks, i);
    if left.value is Some {
        lemma_operators(toks, i + left.used, left.value->0, precedence);
    }
}

/// A program without diagnostics holds every statement of the input: no statement
/// was dropped on the way.
pub proof fn lemma_clean_parse_keeps_every_stmt(toks: Seq<TokenV>, i: nat)
    requires
        spec_parse(toks, i).errors.len() == 0,
        tok_at(toks, i) != TokenV::Eof,
    ensures
        spec_parse_stmt(toks, i).value is Some,
        spec_parse(toks, i).value->0.len() == 1 + spec_parse(
            toks,
            i + spec_parse_stmt(toks, i).used + 1,
        ).value->0.len(),
        spec_parse(toks, i + spec_parse_stmt(toks, i).used + 1).errors.len() == 0,
{
    lemma_failed_stmt_is_reported(toks, i);
}

/// Parsing is total: a program always comes back, whatever the tokens are.
pub proof fn lemma_parse_is_some(toks: Seq<TokenV>, i: nat)
    ensures
        spec_parse(toks, i).value is Some,
{
}

/// A block always comes back, whatever is wrong inside it.
pub proof fn lemma_block_rest_is_some(toks: Seq<TokenV>, i: nat)
    ensures
        spec_block_rest(toks, i).value is Some,
{
}

/// The program depends on the tokens alone: two inputs with the same tokens, however
/// they are spelled, parse to the same program with the same diagnostics.
pub proof fn lemma_same_tokens_same_program(a: LexerV, b: LexerV)
    requires
        a.tokens() == b.tokens(),
    ensures
        spec_parse(a.tokens(), 0) == spec_parse(b.tokens(), 0),
{
}

/// Equality and comparison bind looser than sums, and sums looser than products;
/// unary operators, indexing and calls bind tighter still, in this order.
pub proof fn lemma_precedence_order(relation: TokenV, additive: TokenV, multiplicative: TokenV)
    requires
        relation == TokenV::Equal || relation == TokenV::NotEqual || relation == TokenV::LessThan
            || relation == TokenV::LessThanEqual || relation == TokenV::GreaterThan || relation
            == TokenV::GreaterThanEqual,
        additive == TokenV::Plus || additive == TokenV::Minus,
        multiplicative == TokenV::Asterisk || multiplicative == TokenV::Slash,
    ensures
        token_precedence(TokenV::Equal).spec_level() < token_precedence(
            TokenV::LessThan,
        ).spec_level(),
        token_precedence(relation).spec_level() < token_precedence(additive).spec_level(),
        token_precedence(additive).spec_level() < token_precedence(multiplicative).spec_level(),
        token_precedence(multiplicative).spec_level() < Precedence::Prefix.spec_level(),
        Precedence::Prefix.spec_level() < token_precedence(TokenV::Lbracket).spec_level(),
        token_precedence(TokenV::Lbracket).spec_level() == token_precedence(
            TokenV::Dot,
        ).spec_level(),
        token_precedence(TokenV::Dot).spec_level() < token_precedence(TokenV::Lparen).spec_level(),
{
}

proof fn lemma_operators(toks: Seq<TokenV>, i: nat, left: ExprV, precedence: Precedence)
    ensures
        reported(spec_parse_operators(toks, i, left, precedence)),
    decreases remaining(toks, i), 5nat,
{
    let t = tok_at(toks, i + 1);
    if !(t == TokenV::Semicolon || precedence.spec_level() >= token_precedence(t).spec_level()) {
        lemma_operator(toks, i + 1, left);
        let step = spec_parse_operator(toks, i + 1, left);
        if step.value is Some {
            lemma_operators(toks, i + 1 + step.used, step.value->0, precedence);
        }
    }
}

proof fn lemma_operator(toks: Seq<TokenV>, i: nat, left: ExprV)
    requires
        token_precedence(tok_at(toks, i)) != Precedence::Lowest,
    ensures
        reported(spec_parse_operator(toks, i, left)),
    decreases remaining(toks, i), 4nat,
{
    match tok_at(toks, i) {
        TokenV::Lbracket => {
            lemma_failed_expr_is_reported(toks, i + 1, Precedence::Lowest);
        },
        TokenV::Dot => {},
        TokenV::Lparen => {
            lemma_expr_list(toks, i, TokenV::Rparen);
        },
        _ => {
            lemma_failed_expr_is_reported(toks, i + 1, token_precedence(tok_at(toks, i)));
        },
    }
}

proof fn lemma_operand(toks: Seq<TokenV>, i: nat)
    ensures
        reported(spec_parse_operand(toks, i)),
    decreases remaining(toks, i), 5nat,
{
    match tok_at(toks, i) {
        TokenV::Lbracket => {
            lemma_expr_list(toks, i, TokenV::Rbracket);
        },
        TokenV::Lbrace => {
            lemma_hash_pairs(toks, i, Seq::empty());
        },
        TokenV::Bang | TokenV::Minus | TokenV::Plus => {
            lemma_failed_expr_is_reported(toks, i + 1, Precedence::Prefix);
        },
        TokenV::Lparen => {
            lemma_failed_expr_is_reported(toks, i + 1, Precedence::Lowest);
        },
        TokenV::If => {
            lemma_condition(toks, i);
        },
        TokenV::While => {
            lemma_condition(toks, i);
        },
        TokenV::Func => {
            match tok_at(toks, i + 2) {
                TokenV::Ident(name) => {
                    lemma_func_params_rest(toks, i + 2, seq![name]);
                },
                _ => {},
            }
        },
        _ => {},
    }
}

proof fn lemma_condition(toks: Seq<TokenV>, i: nat)
    ensures
        reported(spec_parse_condition(toks, i)),
    decreases remaining(toks, i), 2nat,
{
    if tok_at(toks, i + 1) == TokenV::Lparen {
        lemma_failed_expr_is_reported(toks, i + 2, Precedence::Lowest);
    }
}

proof fn lemma_func_params_rest(toks: Seq<TokenV>, i: nat, found: Seq<Seq<char>>)
    ensures
        reported(spec_func_params_rest(toks, i, found)),
    decreases remaining(toks, i),
{
    if tok_at(toks, i + 1) == TokenV::Comma {
        match tok_at(toks, i + 2) {
            TokenV::Ident(name) => {
                lemma_func_params_rest(toks, i + 2, found.push(name));
            },
            _ => {},
        }
    }
}

proof fn lemma_expr_list(toks: Seq<TokenV>, i: nat, end: TokenV)
    requires
        tok_at(toks, i) != TokenV::Eof,
    ensures
        reported(spec_parse_expr_list(toks, i, end)),
    decreases remaining(toks, i), 2nat,
{
    if tok_at(toks, i + 1) != end {
        lemma_failed_expr_is_reported(toks, i + 1, Precedence::Lowest);
        let first = spec_parse_expr(toks, i + 1, Precedence::Lowest);
        if first.value is Some {
            lemma_expr_list_rest(toks, i + 1 + first.used, seq![first.value->0], end);
        }
    }
}

proof fn lemma_expr_list_rest(toks: Seq<TokenV>, i: nat, found: Seq<ExprV>, end: TokenV)
    ensures
        reported(spec_expr_list_rest(toks, i, found, end)),
    decreases remaining(toks, i), 2nat,
{
    if tok_at(toks, i + 1) == TokenV::Comma {
        lemma_failed_expr_is_reported(toks, i + 2, Precedence::Lowest);
        let next = spec_parse_expr(toks, i + 2, Precedence::Lowest);
        if next.value is Some {
            lemma_expr_list_rest(toks, i + 2 + next.used, found.push(next.value->0), end);
        }
    }
}

proof fn lemma_hash_pairs(toks: Seq<TokenV>, i: nat, found: Seq<(ExprV, ExprV)>)
    requires
        tok_at(toks, i) != TokenV::Eof,
    ensures
        reported(spec_hash_pairs(toks, i, found)),
    decreases remaining(toks, i), 2nat,
{
    if tok_at(toks, i + 1) != TokenV::Rbrace {
        lemma_hash_pair(toks, i);
        let pair = spec_parse_hash_pair(toks, i);
        if pair.value is Some && tok_at(toks, i + pair.used + 1) == TokenV::Comma {
            lemma_hash_pairs(toks, i + pair.used + 1, found.push(pair.value->0));
        }
    }
}

proof fn lemma_hash_pair(toks: Seq<TokenV>, i: nat)
    requires
        tok_at(toks, i) != TokenV::Eof,
    ensures
        reported(spec_parse_hash_pair(toks, i)),
    decreases remaining(toks, i), 1nat,
{
    lemma_failed_expr_is_reported(toks, i + 1, Precedence::Lowest);
    let key = spec_parse_expr(toks, i + 1, Precedence::Lowest);
    if key.value is Some && tok_at(toks, i + 1 + key.used + 1) == TokenV::Colon {
        lemma_failed_expr_is_reported(toks, i + 1 + key.used + 2, Precedence::Lowest);
    }
}

/// A name alone is an operand, and no token is used for it.
proof fn lemma_name_operand(toks: Seq<TokenV>, i: nat, name: Seq<char>)
    requires
        tok_at(toks, i) == TokenV::Ident(name),
    ensures
        spec_parse_operand(toks, i) == Parsed::ok(ExprV::Ident(name), 0, Seq::empty()),
{
}

/// Where nothing that binds tighter than `precedence` follows, the operand stands
/// alone.
proof fn lemma_no_operator(toks: Seq<TokenV>, i: nat, left: ExprV, precedence: Precedence)
    requires
        precedence.spec_level() >= token_precedence(tok_at(toks, i + 1)).spec_level(),
    ensures
        spec_parse_operators(toks, i, left, precedence) == Parsed::ok(left, 0, Seq::empty()),
{
}

/// A name that no tighter operator follows is the whole expression.
proof fn lemma_name_expr(toks: Seq<TokenV>, i: nat, name: Seq<char>, precedence: Precedence)
    requires
        tok_at(toks, i) == TokenV::Ident(name),
        precedence.spec_level() >= token_precedence(tok_at(toks, i + 1)).spec_level(),
    ensures
        spec_parse_expr(toks, i, precedence) == Parsed::ok(ExprV::Ident(name), 0, Seq::empty()),
{
    lemma_name_operand(toks, i, name);
    lemma_no_operator(toks, i, ExprV::Ident(name), precedence);
    assert(spec_parse_expr(toks, i, precedence).errors =~= Seq::empty());
}

/// Of two binary operators between three names the one that binds tighter groups
/// first; where both bind alike, the left one does. So `a + b * c` is `a + (b * c)`
/// and `a - b - c` is `(a - b) - c`, whatever stands around them.
pub proof fn lemma_tighter_operator_groups_first(
    toks: Seq<TokenV>,
    i: nat,
    a: Seq<char>,
    b: Seq<char>,
    c: Seq<char>,
)
    requires
        tok_at(toks, i) == TokenV::Ident(a),
        infix_of(tok_at(toks, i + 1)) is Some,
        tok_at(toks, i + 2) == TokenV::Ident(b),
        infix_of(tok_at(toks, i + 3)) is Some,
        tok_at(toks, i + 4) == TokenV::Ident(c),
        token_precedence(tok_at(toks, i + 5)) == Precedence::Lowest,
    ensures
        spec_parse_expr(toks, i, Precedence::Lowest).errors.len() == 0,
        spec_parse_expr(toks, i, Precedence::Lowest).used == 4,
        spec_parse_expr(toks, i, Precedence::Lowest).value == Some(
            if token_precedence(tok_at(toks, i + 1)).spec_level() < token_precedence(
                tok_at(toks, i + 3),
            ).spec_level() {
                ExprV::Infix(
                    infix_of(tok_at(toks, i + 1))->0,
                    Box::new(ExprV::Ident(a)),
                    Box::new(
                        ExprV::Infix(
                            infix_of(tok_at(toks, i + 3))->0,
                            Box::new(ExprV::Ident(b)),
                            Box::new(ExprV::Ident(c)),
                        ),
                    ),
                )
            } else {
                ExprV::Infix(
                    infix_of(tok_at(toks, i + 3))->0,
                    Box::new(
                        ExprV::Infix(
                            infix_of(tok_at(toks, i + 1))->0,
                            Box::new(ExprV::Ident(a)),
                            Box::new(ExprV::Ident(b)),
                        ),
                    ),
                    Box::new(ExprV::Ident(c)),
                )
            },
        ),
{
    let first = tok_at(toks, i + 1);
    let second = tok_at(toks, i + 3);
    let op1 = infix_of(first)->0;
    let op2 = infix_of(second)->0;
    let p1 = token_precedence(first);
    let p2 = token_precedence(second);
    let na = ExprV::Ident(a);
    let nb = ExprV::Ident(b);
    let nc = ExprV::Ident(c);
    lemma_name_operand(toks, i, a);
    lemma_name_operand(toks, i + 2, b);
    // the last name ends every expression that reaches it
    lemma_name_expr(toks, i + 4, c, p2);
    lemma_name_expr(toks, i + 4, c, p1);
    if p1.spec_level() < p2.spec_level() {
        // the right operand of the first operator takes the second operator in
        let inner = ExprV::Infix(op2, Box::new(nb), Box::new(nc));
        assert(spec_parse_infix_expr(toks, i + 3, nb) == Parsed::ok(inner, 1, Seq::empty()));
        assert(spec_parse_operator(toks, i + 3, nb) == Parsed::ok(inner, 1, Seq::empty()));
        lemma_no_operator(toks, i + 4, inner, p1);
        assert(spec_parse_operators(toks, i + 2, nb, p1).value == Some(inner));
        assert(spec_parse_operators(toks, i + 2, nb, p1).used == 2);
        assert(spec_parse_operators(toks, i + 2, nb, p1).errors =~= Seq::empty());
        assert(spec_parse_expr(toks, i + 2, p1).value == Some(inner));
        assert(spec_parse_expr(toks, i + 2, p1).used == 2);
        assert(spec_parse_expr(toks, i + 2, p1).errors =~= Seq::empty());
        let outer = ExprV::Infix(op1, Box::new(na), Box::new(inner));
        assert(spec_parse_infix_expr(toks, i + 1, na).value == Some(outer));
        assert(spec_parse_infix_expr(toks, i + 1, na).used == 3);
        assert(spec_parse_operator(toks, i + 1, na) == spec_parse_infix_expr(toks, i + 1, na));
        lemma_no_operator(toks, i + 4, outer, Precedence::Lowest);
        assert(spec_parse_operators(toks, i, na, Precedence::Lowest).value == Some(outer));
        assert(spec_parse_operators(toks, i, na, Precedence::Lowest).used == 4);
        assert(spec_parse_operators(toks, i, na, Precedence::Lowest).errors =~= Seq::empty());
    } else {
        // the right operand of the first operator ends before the second operator
        lemma_name_expr(toks, i + 2, b, p1);
        let inner = ExprV::Infix(op1, Box::new(na), Box::new(nb));
        assert(spec_parse_infix_expr(toks, i + 1, na) == Parsed::ok(inner, 1, Seq::empty()));
        assert(spec_parse_operator(toks, i + 1, na) == Parsed::ok(inner, 1, Seq::empty()));
        let outer = ExprV::Infix(op2, Box::new(inner), Box::new(nc));
        lemma_name_expr(toks, i + 4, c, p2);
        assert(spec_parse_infix_expr(toks, i + 3, inner) == Parsed::ok(outer, 1, Seq::empty()));
        assert(spec_parse_operator(toks, i + 3, inner) == Parsed::ok(outer, 1, Seq::empty()));
        lemma_no_operator(toks, i + 4, outer, Precedence::Lowest);
        assert(spec_parse_operators(toks, i + 2, inner, Precedence::Lowest).value == Some(outer));
        assert(spec_parse_operators(toks, i + 2, inner, Precedence::Lowest).used == 2);
        assert(spec_parse_operators(toks, i + 2, inner, Precedence::Lowest).errors =~= Seq::empty());
        assert(spec_parse_operators(toks, i, na, Precedence::Lowest).value == Some(outer));
        assert(spec_parse_operators(toks, i, na, Precedence::Lowest).used == 4);
        assert(spec_parse_operators(toks, i, na, Precedence::Lowest).errors =~= Seq::empty());
    }
}

/// A reserved name is refused where `let` is to bind it, with a diagnostic of its
/// own and after the `=`. Everywhere else it is a name like any other: as an operand
/// it parses without a diagnostic.
pub proof fn lemma_reserved_names_are_refused_by_let_alone(
    toks: Seq<TokenV>,
    i: nat,
    name: Seq<char>,
)
    requires
        spec_is_reserved_name(name),
    ensures
        tok_at(toks, i + 1) == TokenV::Ident(name) && tok_at(toks, i + 2) == TokenV::Assign
            ==> spec_parse_let_stmt(toks, i) == Parsed::<StmtV>::fail(
            2,
            seq![ParseErrorV::HerUnexpectedToken { got: reserved_name_text() }],
        ),
        tok_at(toks, i) == TokenV::Ident(name) ==> spec_parse_operand(toks, i) == Parsed::ok(
            ExprV::Ident(name),
            0,
            Seq::empty(),
        ),
{
}

} // verus!
