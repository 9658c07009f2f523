//! Array and hash literals, and lists of expressions.

use crate::ast::{
    exprs_view,
    lemma_exprs_view_push,
    lemma_pairs_view_push,
    pairs_view,
    Expr,
    ExprV,
    Literal,
    Precedence,
};
use crate::parser::grammar::{
    remaining,
    spec_expr_list_rest,
    spec_hash_pairs,
    spec_parse_array_expr,
    spec_parse_expr_list,
    spec_parse_hash_expr,
    spec_parse_hash_pair,
};
use crate::parser::expressions::literal_expr;
use crate::parser::{opt_expr_view, opt_exprs_view, Parser};
use crate::token::{Token, TokenV};
use vstd::prelude::*;

verus! {

pub open spec fn opt_pair_view(pair: Option<(Expr, Expr)>) -> Option<(ExprV, ExprV)> {
    match pair {
        Some(p) => Some((p.0@, p.1@)),
        None => None,
    }
}

impl Parser {
    pub(crate) fn parse_array_expr(&mut self) -> (expr: Option<Expr>)
        requires
            old(self).wf(),
            old(self)@.cur() != TokenV::Eof,
        ensures
            final(self).wf(),
            old(self)@.leads_to(
                final(self)@,
                spec_parse_array_expr(old(self)@.tokens, old(self)@.pos),
            ),
            opt_expr_view(expr) == spec_parse_array_expr(old(self)@.tokens, old(self)@.pos).value,
        decreases remaining(old(self)@.tokens, old(self)@.pos), 3nat,
    {
        match self.parse_expr_list(Token::Rbracket) {
            Some(list) => Some(literal_expr(Literal::Array(list))),
            None => None,
        }
    }

    pub(crate) fn parse_hash_expr(&mut self) -> (expr: Option<Expr>)
        requires
            old(self).wf(),
            old(self)@.cur() != TokenV::Eof,
        ensures
            final(self).wf(),
            old(self)@.leads_to(
                final(self)@,
                spec_parse_hash_expr(old(self)@.tokens, old(self)@.pos),
            ),
            opt_expr_view(expr) == spec_parse_hash_expr(old(self)@.tokens, old(self)@.pos).value,
        decreases remaining(old(self)@.tokens, old(self)@.pos), 3nat,
    {
        let ghost toks = self@.tokens;
        let mut pairs: Vec<(Expr, Expr)> = Vec::new();
        proof {
            assert(pairs_view(pairs@) =~= Seq::empty());
        }
        while !self.next_token_is(&Token::Rbrace)
            invariant
                self.wf(),
                self@.tokens == toks,
                toks == old(self)@.tokens,
                old(self)@.cur() != TokenV::Eof,
                old(self)@.pos <= self@.pos,
                self@.cur() != TokenV::Eof,
                old(self)@.same_end(
                    spec_hash_pairs(toks, old(self)@.pos, Seq::empty()),
                    self@,
                    spec_hash_pairs(toks, self@.pos, pairs_view(pairs@)),
                ),
                spec_hash_pairs(toks, old(self)@.pos, Seq::empty()).value == spec_hash_pairs(
                    toks,
                    self@.pos,
                    pairs_view(pairs@),
                ).value,
            decreases remaining(toks, self@.pos),
        {
            let pair = match self.parse_hash_pair() {
                Some(pair) => pair,
                None => {
                    return None;
                },
            };
            proof {
                lemma_pairs_view_push(pairs@, pair.0, pair.1);
            }
            pairs.push(pair);
            if self.next_token_is(&Token::Rbrace) {
                self.bump();
                return Some(literal_expr(Literal::Hash(pairs)));
            }
            if !self.expect_next_token(Token::Comma) {
                return None;
            }
        }
        if !self.expect_next_token(Token::Rbrace) {
            return None;
        }
        Some(literal_expr(Literal::Hash(pairs)))
    }

    /// Parses `<key> : <value>` after the current token.
    pub(crate) fn parse_hash_pair(&mut self) -> (pair: Option<(Expr, Expr)>)
        requires
            old(self).wf(),
            old(self)@.cur() != TokenV::Eof,
        ensures
            final(self).wf(),
            old(self)@.leads_to(
                final(self)@,
                spec_parse_hash_pair(old(self)@.tokens, old(self)@.pos),
            ),
            opt_pair_view(pair) == spec_parse_hash_pair(old(self)@.tokens, old(self)@.pos).value,
        decreases remaining(old(self)@.tokens, old(self)@.pos), 1nat,
    {
        self.bump();
        let key = match self.parse_expr(Precedence::Lowest) {
            Some(key) => key,
            None => {
                return None;
            },
        };
        if !self.expect_next_token(Token::Colon) {
            return None;
        }
        self.bump();
        let value = match self.parse_expr(Precedence::Lowest) {
            Some(value) => value,
            None => {
                return None;
            },
        };
        Some((key, value))
    }

    /// Parses a list of expressions between the current token and `end`.
    pub(crate) fn parse_expr_list(&mut self, end: Token) -> (list: Option<Vec<Expr>>)
        requires
            old(self).wf(),
            old(self)@.cur() != TokenV::Eof,
        ensures
            final(self).wf(),
            old(self)@.leads_to(
                final(self)@,
                spec_parse_expr_list(old(self)@.tokens, old(self)@.pos, end@),
            ),
            opt_exprs_view(list) == spec_parse_expr_list(old(self)@.tokens, old(self)@.pos, end@).value,
        decreases remaining(old(self)@.tokens, old(self)@.pos), 2nat,
    {
        let ghost toks = self@.tokens;
        let mut list: Vec<Expr> = Vec::new();
        if self.next_token_is(&end) {
            self.bump();
            assert(exprs_view(list@) =~= Seq::empty());
            return Some(list);
        }
        self.bump();
        match self.parse_expr(Precedence::Lowest) {
            Some(expr) => {
                proof {
                    lemma_exprs_view_push(list@, expr);
                    assert(exprs_view(list@).push(expr@) =~= seq![expr@]);
                }
                list.push(expr);
            },
            None => {
                return None;
            },
        }
        while self.next_token_is(&Token::Comma)
            invariant
                self.wf(),
                self@.tokens == toks,
                toks == old(self)@.tokens,
                old(self)@.cur() != TokenV::Eof,
                old(self)@.pos < self@.pos,
                old(self)@.same_end(
                    spec_parse_expr_list(toks, old(self)@.pos, end@),
                    self@,
                    spec_expr_list_rest(toks, self@.pos, exprs_view(list@), end@),
                ),
                spec_parse_expr_list(toks, old(self)@.pos, end@).value == spec_expr_list_rest(
                    toks,
                    self@.pos,
                    exprs_view(list@),
                    end@,
                ).value,
            decreases remaining(toks, self@.pos),
        {
            self.bump();
            self.bump();
            match self.parse_expr(Precedence::Lowest) {
                Some(expr) => {
                    proof {
                        lemma_exprs_view_push(list@, expr);
                    }
                    list.push(expr);
                },
                None => {
                    return None;
                },
            }
        }
        if !self.expect_next_token(end) {
            return None;
        }
        Some(list)
    }
}

} // verus!
