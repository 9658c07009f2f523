//! Statements and blocks.

use crate::ast::{
    Program,
    lemma_stmts_view_push,
    stmts_view,
    BlockStmt,
    Expr,
    Ident,
    Precedence,
    Stmt,
    StmtV,
};
use crate::constants::is_reserved_name;
use crate::parser::grammar::{
    spec_parse,
    remaining,
    semicolon_after,
    spec_block_rest,
    spec_parse_block_stmt,
    spec_parse_expr_stmt,
    spec_parse_let_stmt,
    spec_parse_return_stmt,
    spec_parse_stmt,
};
use crate::token::{Token, TokenV};
use vstd::prelude::*;
use vstd::string::StringExecFns;

use crate::parser::laws::lemma_block_rest_is_some;
use crate::parser::{opt_stmt_view, ParseError, Parser, ParserV};

verus! {

impl Parser {
    /// Parses the whole input from the current token up to the first `Eof`.
    pub fn parse(&mut self) -> (program: Program)
        requires
            old(self).wf(),
        ensures
            final(self).wf(),
            old(self)@.leads_to(final(self)@, spec_parse(old(self)@.tokens, old(self)@.pos)),
            Some(stmts_view(program@)) == spec_parse(old(self)@.tokens, old(self)@.pos).value,
    {
        let mut program: Program = Vec::new();
        let ghost toks = self@.tokens;
        let ghost total = spec_parse(toks, self@.pos);
        proof {
            assert(stmts_view(program@) + spec_parse(toks, self@.pos).value->0 =~= total.value->0);
        }
        while !self.current_token_is(&Token::Eof)
            invariant
                self.wf(),
                self@.tokens == toks,
                toks == old(self)@.tokens,
                total == spec_parse(toks, old(self)@.pos),
                old(self)@.same_end(total, self@, spec_parse(toks, self@.pos)),
                total.value is Some,
                spec_parse(toks, self@.pos).value is Some,
                stmts_view(program@) + spec_parse(toks, self@.pos).value->0 == total.value->0,
            decreases remaining(toks, self@.pos),
        {
            let ghost here = self@;
            let ghost before = program@;
            match self.parse_stmt() {
                Some(stmt) => {
                    proof {
                        lemma_stmts_view_push(program@, stmt);
                    }
                    program.push(stmt);
                },
                None => {},
            }
            self.bump();
            proof {
                let rest = spec_parse(toks, self@.pos);
                assert(stmts_view(program@) + rest.value->0 =~= stmts_view(before) + spec_parse(
                    toks,
                    here.pos,
                ).value->0);
            }
        }
        proof {
            assert(stmts_view(program@) =~= total.value->0);
        }
        program
    }

    /// Parses a block whose opening brace is the current token. At the end the
    /// current token is the closing brace or, where it is missing, `Eof`.
    pub(crate) fn parse_block_stmt(&mut self) -> (block: BlockStmt)
        requires
            old(self).wf(),
            old(self)@.cur() != TokenV::Eof,
        ensures
            final(self).wf(),
            old(self)@.leads_to(
                final(self)@,
                spec_parse_block_stmt(old(self)@.tokens, old(self)@.pos),
            ),
            Some(stmts_view(block@)) == spec_parse_block_stmt(
                old(self)@.tokens,
                old(self)@.pos,
            ).value,
        decreases remaining(old(self)@.tokens, old(self)@.pos), 0nat,
    {
        let ghost toks = self@.tokens;
        let ghost entry = self@;
        self.bump();
        let ghost start = self@;
        let ghost total = spec_block_rest(toks, start.pos);
        let mut block: BlockStmt = Vec::new();
        proof {
            assert(stmts_view(block@) + total.value->0 =~= total.value->0);
            lemma_block_rest_is_some(toks, start.pos);
        }
        while !self.current_token_is(&Token::Rbrace)
            invariant
                self.wf(),
                self@.tokens == toks,
                toks == old(self)@.tokens,
                entry == old(self)@,
                entry.cur() != TokenV::Eof,
                start.pos == entry.pos + 1,
                start.pos <= self@.pos,
                total == spec_block_rest(toks, start.pos),
                start.same_end(total, self@, spec_block_rest(toks, self@.pos)),
                total.value is Some,
                spec_block_rest(toks, self@.pos).value is Some,
                stmts_view(block@) + spec_block_rest(toks, self@.pos).value->0 == total.value->0,
                start.errors == entry.errors,
            decreases remaining(toks, self@.pos),
        {
            if self.current_token_is(&Token::Eof) {
                self.error_next_token(Token::Rbrace);
                proof {
                    assert(stmts_view(block@) =~= total.value->0);
                }
                return block;
            }
            let ghost here = self@;
            let ghost before = block@;
            match self.parse_stmt() {
                Some(stmt) => {
                    proof {
                        lemma_stmts_view_push(block@, stmt);
                    }
                    block.push(stmt);
                },
                None => {},
            }
            self.bump();
            proof {
                lemma_block_rest_is_some(toks, self@.pos);
                let rest = spec_block_rest(toks, self@.pos);
                assert(stmts_view(block@) + rest.value->0 =~= stmts_view(before)
                    + spec_block_rest(toks, here.pos).value->0);
            }
        }
        proof {
            assert(stmts_view(block@) =~= total.value->0);
        }
        block
    }

    pub(crate) fn parse_stmt(&mut self) -> (stmt: Option<Stmt>)
        requires
            old(self).wf(),
        ensures
            final(self).wf(),
            old(self)@.leads_to(final(self)@, spec_parse_stmt(old(self)@.tokens, old(self)@.pos)),
            opt_stmt_view(stmt) == spec_parse_stmt(old(self)@.tokens, old(self)@.pos).value,
        decreases remaining(old(self)@.tokens, old(self)@.pos), 8nat,
    {
        match self.current() {
            Token::Let => self.parse_let_stmt(),
            Token::Return => self.parse_return_stmt(),
            Token::Blank => Some(Stmt::Blank),
            Token::Break => self.parse_break_stmt(),
            Token::Continue => self.parse_continue_stmt(),
            _ => self.parse_expr_stmt(),
        }
    }

    pub(crate) fn parse_let_stmt(&mut self) -> (stmt: Option<Stmt>)
        requires
            old(self).wf(),
        ensures
            final(self).wf(),
            old(self)@.leads_to(
                final(self)@,
                spec_parse_let_stmt(old(self)@.tokens, old(self)@.pos),
            ),
            opt_stmt_view(stmt) == spec_parse_let_stmt(old(self)@.tokens, old(self)@.pos).value,
        decreases remaining(old(self)@.tokens, old(self)@.pos), 7nat,
    {
        match self.upcoming() {
            Token::Ident(_) => self.bump(),
            _ => {
                let got = self.upcoming().duplicate();
                self.error_expected_ident(got);
                return None;
            },
        };
        let name = match self.parse_ident() {
            Some(name) => name,
            None => {
                return None;
            },
        };
        if !self.expect_next_token(Token::Assign) {
            return None;
        }
        if is_reserved_name(name.0.as_str()) {
            self.record(
                ParseError::HerUnexpectedToken {
                    got: String::from_str("女性是不能被定义的！！！"),
                },
            );
            return None;
        }
        self.bump();
        let expr = match self.parse_expr(Precedence::Lowest) {
            Some(expr) => expr,
            None => {
                return None;
            },
        };
        self.skip_semicolon();
        Some(Stmt::Let(name, expr))
    }

    pub(crate) fn parse_return_stmt(&mut self) -> (stmt: Option<Stmt>)
        requires
            old(self).wf(),
            old(self)@.cur() != TokenV::Eof,
        ensures
            final(self).wf(),
            old(self)@.leads_to(
                final(self)@,
                spec_parse_return_stmt(old(self)@.tokens, old(self)@.pos),
            ),
            opt_stmt_view(stmt) == spec_parse_return_stmt(old(self)@.tokens, old(self)@.pos).value,
        decreases remaining(old(self)@.tokens, old(self)@.pos), 7nat,
    {
        self.bump();
        let expr = match self.parse_expr(Precedence::Lowest) {
            Some(expr) => expr,
            None => {
                return None;
            },
        };
        self.skip_semicolon();
        Some(Stmt::Return(expr))
    }

    pub(crate) fn parse_break_stmt(&mut self) -> (stmt: Option<Stmt>)
        requires
            old(self).wf(),
        ensures
            final(self).wf(),
            final(self)@ == (ParserV {
                pos: old(self)@.pos + semicolon_after(old(self)@.tokens, old(self)@.pos),
                ..old(self)@
            }),
            opt_stmt_view(stmt) == Some(StmtV::Break),
    {
        self.skip_semicolon();
        Some(Stmt::Break)
    }

    pub(crate) fn parse_continue_stmt(&mut self) -> (stmt: Option<Stmt>)
        requires
            old(self).wf(),
        ensures
            final(self).wf(),
            final(self)@ == (ParserV {
                pos: old(self)@.pos + semicolon_after(old(self)@.tokens, old(self)@.pos),
                ..old(self)@
            }),
            opt_stmt_view(stmt) == Some(StmtV::Continue),
    {
        self.skip_semicolon();
        Some(Stmt::Continue)
    }

    pub(crate) fn parse_expr_stmt(&mut self) -> (stmt: Option<Stmt>)
        requires
            old(self).wf(),
        ensures
            final(self).wf(),
            old(self)@.leads_to(
                final(self)@,
                spec_parse_expr_stmt(old(self)@.tokens, old(self)@.pos),
            ),
            opt_stmt_view(stmt) == spec_parse_expr_stmt(old(self)@.tokens, old(self)@.pos).value,
        decreases remaining(old(self)@.tokens, old(self)@.pos), 7nat,
    {
        match self.parse_expr(Precedence::Lowest) {
            Some(expr) => {
                self.skip_semicolon();
                Some(Stmt::Expr(expr))
            },
            None => None,
        }
    }
}

} // verus!
