//! Expressions: operands and the operators that follow them.

use crate::ast::{Expr, ExprV, Ident, Infix, Literal, LiteralV, Precedence, Prefix};
use crate::parser::grammar::{
    remaining,
    spec_parse_call_expr,
    spec_parse_dot_access_expr,
    spec_parse_expr,
    spec_parse_grouped_expr,
    spec_parse_index_expr,
    spec_parse_infix_expr,
    spec_parse_operand,
    spec_parse_operator,
    spec_parse_operators,
    spec_parse_prefix_expr,
};
use crate::parser::{opt_expr_view, Parser};
use crate::token::{Token, TokenV};
use vstd::prelude::*;

verus! {

impl Parser {
    /// Parses an expression whose operators all bind tighter than `precedence`.
    pub(crate) fn parse_expr(&mut self, precedence: Precedence) -> (expr: Option<Expr>)
        requires
            old(self).wf(),
        ensures
            final(self).wf(),
            old(self)@.leads_to(
                final(self)@,
                spec_parse_expr(old(self)@.tokens, old(self)@.pos, precedence),
            ),
            opt_expr_view(expr) == spec_parse_expr(old(self)@.tokens, old(self)@.pos, precedence).value,
        decreases remaining(old(self)@.tokens, old(self)@.pos), 6nat,
    {
        let ghost toks = self@.tokens;
        let mut left = match self.parse_operand() {
            Some(left) => left,
            None => {
                return None;
            },
        };
        while !self.next_token_is(&Token::Semicolon) && precedence.level()
            < self.next_token_precedence().level()
            invariant
                self.wf(),
                self@.tokens == toks,
                toks == old(self)@.tokens,
                old(self)@.pos <= self@.pos,
                old(self)@.same_end(
                    spec_parse_expr(toks, old(self)@.pos, precedence),
                    self@,
                    spec_parse_operators(toks, self@.pos, left@, precedence),
                ),
                spec_parse_expr(toks, old(self)@.pos, precedence).value == spec_parse_operators(
                    toks,
                    self@.pos,
                    left@,
                    precedence,
                ).value,
            decreases remaining(toks, self@.pos),
        {
            self.bump();
            left = match self.parse_operator(left) {
                Some(e) => e,
                None => {
                    return None;
                },
            };
        }
        Some(left)
    }

    /// Parses what an expression starts with, chosen by the current token.
    #[verifier::rlimit(40)]
    pub(crate) fn parse_operand(&mut self) -> (expr: Option<Expr>)
        requires
            old(self).wf(),
        ensures
            final(self).wf(),
            old(self)@.leads_to(
                final(self)@,
                spec_parse_operand(old(self)@.tokens, old(self)@.pos),
            ),
            opt_expr_view(expr) == spec_parse_operand(old(self)@.tokens, old(self)@.pos).value,
        decreases remaining(old(self)@.tokens, old(self)@.pos), 5nat,
    {
        match self.current() {
            Token::Ident(_) => self.parse_ident_expr(),
            Token::Int(_) => self.parse_int_expr(),
            Token::String(_) => self.parse_string_expr(),
            Token::Bool(_) => self.parse_bool_expr(),
            Token::Lbracket => self.parse_array_expr(),
            Token::Lbrace => self.parse_hash_expr(),
            Token::Bang | Token::Minus | Token::Plus => self.parse_prefix_expr(),
            Token::Lparen => self.parse_grouped_expr(),
            Token::If => self.parse_if_expr(),
            Token::While => self.parse_while_expr(),
            Token::Func => self.parse_func_expr(),
            _ => {
                self.error_no_prefix_parser();
                None
            },
        }
    }

    /// Applies the operator that is the current token to the operand `left`.
    pub(crate) fn parse_operator(&mut self, left: Expr) -> (expr: Option<Expr>)
        requires
            old(self).wf(),
        ensures
            final(self).wf(),
            old(self)@.leads_to(
                final(self)@,
                spec_parse_operator(old(self)@.tokens, old(self)@.pos, left@),
            ),
            opt_expr_view(expr) == spec_parse_operator(old(self)@.tokens, old(self)@.pos, left@).value,
        decreases remaining(old(self)@.tokens, old(self)@.pos), 4nat,
    {
        match self.current() {
            Token::Lbracket => self.parse_index_expr(left),
            Token::Dot => self.parse_dot_access_expr(left),
            Token::Lparen => self.parse_call_expr(left),
            _ => self.parse_infix_expr(left),
        }
    }

    pub(crate) fn parse_ident(&self) -> (name: Option<Ident>)
        requires
            self.wf(),
        ensures
            match self@.cur() {
                TokenV::Ident(text) => name matches Some(n) && n@ == text,
                _ => name is None,
            },
    {
        match self.current() {
            Token::Ident(name) => Some(Ident(name.clone())),
            _ => None,
        }
    }

    pub(crate) fn parse_ident_expr(&self) -> (expr: Option<Expr>)
        requires
            self.wf(),
        ensures
            match self@.cur() {
                TokenV::Ident(text) => opt_expr_view(expr) == Some(ExprV::Ident(text)),
                _ => expr is None,
            },
    {
        match self.parse_ident() {
            Some(name) => Some(Expr::Ident(name)),
            None => None,
        }
    }

    pub(crate) fn parse_int_expr(&self) -> (expr: Option<Expr>)
        requires
            self.wf(),
        ensures
            match self@.cur() {
                TokenV::Int(n) => opt_expr_view(expr) == Some(ExprV::Literal(LiteralV::Int(n))),
                _ => expr is None,
            },
    {
        match self.current() {
            Token::Int(n) => Some(literal_expr(Literal::Int(*n))),
            _ => None,
        }
    }

    pub(crate) fn parse_string_expr(&self) -> (expr: Option<Expr>)
        requires
            self.wf(),
        ensures
            match self@.cur() {
                TokenV::String(s) => opt_expr_view(expr) == Some(
                    ExprV::Literal(LiteralV::String(s)),
                ),
                _ => expr is None,
            },
    {
        match self.current() {
            Token::String(s) => Some(literal_expr(Literal::String(s.clone()))),
            _ => None,
        }
    }

    pub(crate) fn parse_bool_expr(&self) -> (expr: Option<Expr>)
        requires
            self.wf(),
        ensures
            match self@.cur() {
                TokenV::Bool(b) => opt_expr_view(expr) == Some(ExprV::Literal(LiteralV::Bool(b))),
                _ => expr is None,
            },
    {
        match self.current() {
            Token::Bool(b) => Some(literal_expr(Literal::Bool(*b))),
            _ => None,
        }
    }

    pub(crate) fn parse_prefix_expr(&mut self) -> (expr: Option<Expr>)
        requires
            old(self).wf(),
        ensures
            final(self).wf(),
            old(self)@.leads_to(
                final(self)@,
                spec_parse_prefix_expr(old(self)@.tokens, old(self)@.pos),
            ),
            opt_expr_view(expr) == spec_parse_prefix_expr(old(self)@.tokens, old(self)@.pos).value,
        decreases remaining(old(self)@.tokens, old(self)@.pos), 3nat,
    {
        let prefix = match self.current() {
            Token::Bang => Prefix::Not,
            Token::Minus => Prefix::Minus,
            Token::Plus => Prefix::Plus,
            _ => {
                return None;
            },
        };
        self.bump();
        match self.parse_expr(Precedence::Prefix) {
            Some(expr) => Some(Expr::Prefix(prefix, Box::new(expr))),
            None => None,
        }
    }

    pub(crate) fn parse_infix_expr(&mut self, left: Expr) -> (expr: Option<Expr>)
        requires
            old(self).wf(),
        ensures
            final(self).wf(),
            old(self)@.leads_to(
                final(self)@,
                spec_parse_infix_expr(old(self)@.tokens, old(self)@.pos, left@),
            ),
            opt_expr_view(expr) == spec_parse_infix_expr(old(self)@.tokens, old(self)@.pos, left@).value,
        decreases remaining(old(self)@.tokens, old(self)@.pos), 3nat,
    {
        let infix = match self.current() {
            Token::Plus => Infix::Plus,
            Token::Minus => Infix::Minus,
            Token::Slash => Infix::Divide,
            Token::Asterisk => Infix::Multiply,
            Token::Equal => Infix::Equal,
            Token::NotEqual => Infix::NotEqual,
            Token::LessThan => Infix::LessThan,
            Token::LessThanEqual => Infix::LessThanEqual,
            Token::GreaterThan => Infix::GreaterThan,
            Token::GreaterThanEqual => Infix::GreaterThanEqual,
            _ => {
                return None;
            },
        };
        let precedence = self.current_token_precedence();
        self.bump();
        match self.parse_expr(precedence) {
            Some(expr) => Some(Expr::Infix(infix, Box::new(left), Box::new(expr))),
            None => None,
        }
    }

    pub(crate) fn parse_index_expr(&mut self, left: Expr) -> (expr: Option<Expr>)
        requires
            old(self).wf(),
            old(self)@.cur() != TokenV::Eof,
        ensures
            final(self).wf(),
            old(self)@.leads_to(
                final(self)@,
                spec_parse_index_expr(old(self)@.tokens, old(self)@.pos, left@),
            ),
            opt_expr_view(expr) == spec_parse_index_expr(old(self)@.tokens, old(self)@.pos, left@).value,
        decreases remaining(old(self)@.tokens, old(self)@.pos), 3nat,
    {
        self.bump();
        let index = match self.parse_expr(Precedence::Lowest) {
            Some(index) => index,
            None => {
                return None;
            },
        };
        if !self.expect_next_token(Token::Rbracket) {
            return None;
        }
        Some(Expr::Index(Box::new(left), Box::new(index)))
    }

    pub(crate) fn parse_dot_access_expr(&mut self, left: Expr) -> (expr: Option<Expr>)
        requires
            old(self).wf(),
        ensures
            final(self).wf(),
            old(self)@.leads_to(
                final(self)@,
                spec_parse_dot_access_expr(old(self)@.tokens, old(self)@.pos, left@),
            ),
            opt_expr_view(expr) == spec_parse_dot_access_expr(old(self)@.tokens, old(self)@.pos, left@).value,
    {
        self.bump();
        match self.parse_ident() {
            Some(Ident(name)) => Some(
                Expr::Index(Box::new(left), Box::new(literal_expr(Literal::String(name)))),
            ),
            None => {
                let got = self.current().duplicate();
                self.error_expected_ident(got);
                None
            },
        }
    }

    pub(crate) fn parse_grouped_expr(&mut self) -> (expr: Option<Expr>)
        requires
            old(self).wf(),
            old(self)@.cur() != TokenV::Eof,
        ensures
            final(self).wf(),
            old(self)@.leads_to(
                final(self)@,
                spec_parse_grouped_expr(old(self)@.tokens, old(self)@.pos),
            ),
            opt_expr_view(expr) == spec_parse_grouped_expr(old(self)@.tokens, old(self)@.pos).value,
        decreases remaining(old(self)@.tokens, old(self)@.pos), 3nat,
    {
        self.bump();
        let expr = self.parse_expr(Precedence::Lowest);
        if !self.expect_next_token(Token::Rparen) {
            None
        } else {
            expr
        }
    }

    pub(crate) fn parse_call_expr(&mut self, func: Expr) -> (expr: Option<Expr>)
        requires
            old(self).wf(),
            old(self)@.cur() != TokenV::Eof,
        ensures
            final(self).wf(),
            old(self)@.leads_to(
                final(self)@,
                spec_parse_call_expr(old(self)@.tokens, old(self)@.pos, func@),
            ),
            opt_expr_view(expr) == spec_parse_call_expr(old(self)@.tokens, old(self)@.pos, func@).value,
        decreases remaining(old(self)@.tokens, old(self)@.pos), 3nat,
    {
        match self.parse_expr_list(Token::Rparen) {
            Some(args) => Some(Expr::Call { func: Box::new(func), args }),
            None => None,
        }
    }
}

/// The expression that is the literal `lit`.
pub fn literal_expr(lit: Literal) -> (e: Expr)
    ensures
        e@ == ExprV::Literal(lit@),
{
    Expr::Literal(lit)
}

} // verus!
