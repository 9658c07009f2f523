//! `if`, `while` and function literals.

use crate::ast::{idents_view, lemma_idents_view_push, Expr, Ident, Precedence};
use crate::parser::grammar::{
    remaining,
    spec_func_params_rest,
    spec_parse_condition,
    spec_parse_func_expr,
    spec_parse_func_params,
    spec_parse_if_expr,
    spec_parse_while_expr,
};
use crate::parser::{opt_expr_view, opt_idents_view, Parser};
use crate::token::{Token, TokenV};
use vstd::prelude::*;

verus! {

impl Parser {
    /// Parses `( <condition> )` and moves onto the `{` behind it.
    pub(crate) fn parse_condition(&mut self) -> (cond: Option<Expr>)
        requires
            old(self).wf(),
        ensures
            final(self).wf(),
            old(self)@.leads_to(
                final(self)@,
                spec_parse_condition(old(self)@.tokens, old(self)@.pos),
            ),
            opt_expr_view(cond) == spec_parse_condition(old(self)@.tokens, old(self)@.pos).value,
            cond is Some ==> final(self)@.cur() == TokenV::Lbrace,
        decreases remaining(old(self)@.tokens, old(self)@.pos), 2nat,
    {
        if !self.expect_next_token(Token::Lparen) {
            return None;
        }
        self.bump();
        let cond = match self.parse_expr(Precedence::Lowest) {
            Some(cond) => cond,
            None => {
                return None;
            },
        };
        if !self.expect_next_token(Token::Rparen) || !self.expect_next_token(Token::Lbrace) {
            return None;
        }
        Some(cond)
    }

    #[verifier::rlimit(40)]
    pub(crate) fn parse_if_expr(&mut self) -> (expr: Option<Expr>)
        requires
            old(self).wf(),
            old(self)@.cur() != TokenV::Eof,
        ensures
            final(self).wf(),
            old(self)@.leads_to(
                final(self)@,
                spec_parse_if_expr(old(self)@.tokens, old(self)@.pos),
            ),
            opt_expr_view(expr) == spec_parse_if_expr(old(self)@.tokens, old(self)@.pos).value,
        decreases remaining(old(self)@.tokens, old(self)@.pos), 3nat,
    {
        let cond = match self.parse_condition() {
            Some(cond) => cond,
            None => {
                return None;
            },
        };
        let consequence = self.parse_block_stmt();
        let mut alternative = None;
        if self.next_token_is(&Token::Else) {
            self.bump();
            if !self.expect_next_token(Token::Lbrace) {
                return None;
            }
            alternative = Some(self.parse_block_stmt());
        }
        Some(Expr::If { cond: Box::new(cond), consequence, alternative })
    }

    pub(crate) fn parse_while_expr(&mut self) -> (expr: Option<Expr>)
        requires
            old(self).wf(),
            old(self)@.cur() != TokenV::Eof,
        ensures
            final(self).wf(),
            old(self)@.leads_to(
                final(self)@,
                spec_parse_while_expr(old(self)@.tokens, old(self)@.pos),
            ),
            opt_expr_view(expr) == spec_parse_while_expr(old(self)@.tokens, old(self)@.pos).value,
        decreases remaining(old(self)@.tokens, old(self)@.pos), 3nat,
    {
        let cond = match self.parse_condition() {
            Some(cond) => cond,
            None => {
                return None;
            },
        };
        let consequence = self.parse_block_stmt();
        Some(Expr::While { cond: Box::new(cond), consequence })
    }

    pub(crate) fn parse_func_expr(&mut self) -> (expr: Option<Expr>)
        requires
            old(self).wf(),
            old(self)@.cur() != TokenV::Eof,
        ensures
            final(self).wf(),
            old(self)@.leads_to(
                final(self)@,
                spec_parse_func_expr(old(self)@.tokens, old(self)@.pos),
            ),
            opt_expr_view(expr) == spec_parse_func_expr(old(self)@.tokens, old(self)@.pos).value,
        decreases remaining(old(self)@.tokens, old(self)@.pos), 3nat,
    {
        if !self.expect_next_token(Token::Lparen) {
            return None;
        }
        let params = match self.parse_func_params() {
            Some(params) => params,
            None => {
                return None;
            },
        };
        if !self.expect_next_token(Token::Lbrace) {
            return None;
        }
        let body = self.parse_block_stmt();
        Some(Expr::Func { params, body })
    }

    pub(crate) fn parse_func_params(&mut self) -> (params: Option<Vec<Ident>>)
        requires
            old(self).wf(),
        ensures
            final(self).wf(),
            old(self)@.leads_to(
                final(self)@,
                spec_parse_func_params(old(self)@.tokens, old(self)@.pos),
            ),
            opt_idents_view(params) == spec_parse_func_params(old(self)@.tokens, old(self)@.pos).value,
    {
        let ghost toks = self@.tokens;
        let mut params: Vec<Ident> = Vec::new();
        if self.next_token_is(&Token::Rparen) {
            self.bump();
            assert(idents_view(params@) =~= Seq::empty());
            return Some(params);
        }
        self.bump();
        match self.parse_ident() {
            Some(ident) => {
                proof {
                    lemma_idents_view_push(params@, ident);
                    assert(idents_view(params@).push(ident@) =~= seq![ident@]);
                }
                params.push(ident);
            },
            None => {
                let got = self.current().duplicate();
                self.error_expected_ident(got);
                return None;
            },
        };
        while self.next_token_is(&Token::Comma)
            invariant
                self.wf(),
                self@.tokens == toks,
                toks == old(self)@.tokens,
                old(self)@.same_end(
                    spec_parse_func_params(toks, old(self)@.pos),
                    self@,
                    spec_func_params_rest(toks, self@.pos, idents_view(params@)),
                ),
                spec_parse_func_params(toks, old(self)@.pos).value == spec_func_params_rest(
                    toks,
                    self@.pos,
                    idents_view(params@),
                ).value,
            decreases remaining(toks, self@.pos),
        {
            self.bump();
            self.bump();
            match self.parse_ident() {
                Some(ident) => {
                    proof {
                        lemma_idents_view_push(params@, ident);
                    }
                    params.push(ident);
                },
                None => {
                    let got = self.current().duplicate();
                    self.error_expected_ident(got);
                    return None;
                },
            };
        }
        if !self.expect_next_token(Token::Rparen) {
            return None;
        }
        Some(params)
    }
}

} // verus!
