//! The parser: from tokens to a syntax tree, by precedence climbing.
//!
//! The parser never stops at a diagnostic: it records it and goes on, so a program
//! comes back in any case. A statement or expression that does not parse leaves
//! nothing in the tree, and always at least one diagnostic.

pub mod expressions;
pub mod forms;
pub mod grammar;
pub mod laws;
pub mod literals;
pub mod statements;

use crate::ast::{exprs_view, idents_view, Expr, ExprV, Ident, Precedence, Stmt, StmtV};
use crate::lexer::{lemma_lex_progress, Lexer, LexerV};
use crate::parser::grammar::{
    expected_ident,
    no_prefix,
    semicolon_after,
    tok_at,
    token_precedence,
    unexpected,
    ParseErrorV,
    Parsed,
};
use crate::text::{str_debug, str_debug_of};
use crate::token::{spec_debug_text, Token, TokenV};
use vstd::prelude::*;
use vstd::string::StringExecFns;

verus! {

/// A diagnostic of the parser.
#[allow(inconsistent_fields)]
#[derive(Debug, Clone)]
pub enum ParseError {
    /// The token `got` stands where `want` was expected or, where `want` is `None`,
    /// where an expression was to start. An expected `Ident` without a name stands
    /// for any identifier.
    UnexpectedToken { want: Option<Token>, got: Token },
    /// A rule of the language was broken; `got` says which.
    HerUnexpectedToken { got: String },
}

pub type ParseErrors = Vec<ParseError>;

impl View for ParseError {
    type V = ParseErrorV;

    open spec fn view(&self) -> ParseErrorV {
        match self {
            ParseError::UnexpectedToken { want, got } => ParseErrorV::UnexpectedToken {
                want: match want {
                    Some(t) => Some(t@),
                    None => None,
                },
                got: got@,
            },
            ParseError::HerUnexpectedToken { got } => ParseErrorV::HerUnexpectedToken { got: got@ },
        }
    }
}

/// The text of a diagnostic.
pub open spec fn spec_message(e: ParseErrorV) -> Seq<char> {
    match e {
        ParseErrorV::UnexpectedToken { want: Some(want), got } => "啊啊啊啊啊啊啊啊啊啊啊啊 Unexpected Token: expected "@
            + spec_debug_text(want) + ", got "@ + spec_debug_text(got),
        ParseErrorV::UnexpectedToken { want: None, got } => "啊啊啊啊啊啊啊啊啊啊啊啊 Unexpected Token: no prefix rule for "@
            + spec_debug_text(got),
        ParseErrorV::HerUnexpectedToken { got } => "啊啊啊啊啊啊啊啊啊啊啊啊 SyntaxError: "@
            + str_debug_of(got),
    }
}

impl ParseError {
    /// The text of this diagnostic.
    pub fn to_string(&self) -> (r: String)
        ensures
            r@ == spec_message(self@),
    {
        match self {
            ParseError::UnexpectedToken { want: Some(want), got } => {
                let mut out = String::from_str("啊啊啊啊啊啊啊啊啊啊啊啊 Unexpected Token: expected ");
                want.debug_into(&mut out);
                out.append(", got ");
                got.debug_into(&mut out);
                out
            },
            ParseError::UnexpectedToken { want: None, got } => {
                let mut out = String::from_str(
                    "啊啊啊啊啊啊啊啊啊啊啊啊 Unexpected Token: no prefix rule for ",
                );
                got.debug_into(&mut out);
                out
            },
            ParseError::HerUnexpectedToken { got } => {
                let mut out = String::from_str("啊啊啊啊啊啊啊啊啊啊啊啊 SyntaxError: ");
                let shown = str_debug(got.as_str());
                out.append(shown.as_str());
                out
            },
        }
    }

    /// A copy of this diagnostic with the same model.
    pub fn duplicate(&self) -> (r: ParseError)
        ensures
            r@ == self@,
    {
        match self {
            ParseError::UnexpectedToken { want, got } => ParseError::UnexpectedToken {
                want: match want {
                    Some(t) => Some(t.duplicate()),
                    None => None,
                },
                got: got.duplicate(),
            },
            ParseError::HerUnexpectedToken { got } => ParseError::HerUnexpectedToken {
                got: got.clone(),
            },
        }
    }
}

pub open spec fn errors_view(errors: Seq<ParseError>) -> Seq<ParseErrorV> {
    Seq::new(errors.len(), |i: int| errors[i]@)
}

pub open spec fn opt_expr_view(e: Option<Expr>) -> Option<ExprV> {
    match e {
        Some(e) => Some(e@),
        None => None,
    }
}

pub open spec fn opt_stmt_view(s: Option<Stmt>) -> Option<StmtV> {
    match s {
        Some(s) => Some(s@),
        None => None,
    }
}

pub open spec fn opt_exprs_view(list: Option<Vec<Expr>>) -> Option<Seq<ExprV>> {
    match list {
        Some(list) => Some(exprs_view(list@)),
        None => None,
    }
}

pub open spec fn opt_idents_view(names: Option<Vec<Ident>>) -> Option<Seq<Seq<char>>> {
    match names {
        Some(names) => Some(idents_view(names@)),
        None => None,
    }
}

/// The model of a [`Parser`]: every token of its input, the index of the current
/// one, and the diagnostics so far.
pub struct ParserV {
    pub tokens: Seq<TokenV>,
    pub pos: nat,
    pub errors: Seq<ParseErrorV>,
}

impl ParserV {
    /// The current token.
    pub open spec fn cur(self) -> TokenV {
        tok_at(self.tokens, self.pos)
    }

    /// The token after the current one.
    pub open spec fn next(self) -> TokenV {
        tok_at(self.tokens, self.pos + 1)
    }

    /// Whether `later` is this parser after the outcome `p`: moved on by the tokens
    /// that `p` used, with the diagnostics of `p` added.
    pub open spec fn leads_to<T>(self, later: ParserV, p: Parsed<T>) -> bool {
        &&& later.tokens == self.tokens
        &&& later.pos == self.pos + p.used
        &&& later.errors =~= self.errors + p.errors
    }

    /// Whether going on from `later` with outcome `rest` ends as going on from this
    /// parser with outcome `total` does.
    pub open spec fn same_end<T, U>(
        self,
        total: Parsed<T>,
        later: ParserV,
        rest: Parsed<U>,
    ) -> bool {
        &&& later.tokens == self.tokens
        &&& later.pos + rest.used == self.pos + total.used
        &&& later.errors + rest.errors =~= self.errors + total.errors
    }
}

/// The tokens from index `i` on, as a lexer at that place would give them.
pub open spec fn tokens_from(toks: Seq<TokenV>, i: nat) -> Seq<TokenV> {
    if i < toks.len() {
        toks.skip(i as int)
    } else {
        seq![TokenV::Eof]
    }
}

/// One step of a lexer whose tokens are those of `toks` from `i` on.
pub proof fn lemma_tokens_step(lexer: LexerV, toks: Seq<TokenV>, i: nat)
    requires
        lexer.wf(),
        lexer.tokens() == tokens_from(toks, i),
    ensures
        lexer.token() == tok_at(toks, i),
        lexer.advance().wf(),
        lexer.advance().tokens() == tokens_from(toks, i + 1),
{
    reveal(LexerV::tokens);
    lemma_lex_progress(lexer.input, lexer.pos);
    let rest = lexer.advance().tokens();
    if lexer.pos < lexer.input.len() {
        assert(lexer.tokens() == seq![lexer.token()] + rest);
        assert(rest.len() >= 1);
        assert(lexer.tokens().len() >= 2);
        assert(i < toks.len());
        assert(toks[i as int] == lexer.tokens()[0]);
        assert(rest =~= lexer.tokens().skip(1));
        assert(rest =~= toks.skip(i + 1 as int));
    } else {
        assert(lexer.advance() == lexer);
        assert(lexer.tokens() =~= seq![TokenV::Eof]);
        if i < toks.len() {
            assert(toks.skip(i as int).len() == 1);
            assert(toks[i as int] == toks.skip(i as int)[0]);
        }
    }
}

/// A parser over the tokens of a lexer.
pub struct Parser {
    lexer: Lexer,
    current_token: Token,
    next_token: Token,
    errors: ParseErrors,
    tokens: Ghost<Seq<TokenV>>,
    pos: Ghost<nat>,
}

impl View for Parser {
    type V = ParserV;

    closed spec fn view(&self) -> ParserV {
        ParserV { tokens: self.tokens@, pos: self.pos@, errors: errors_view(self.errors@) }
    }
}

impl Parser {
    /// The two tokens held are those at the current index and after it, and the
    /// lexer stands behind them.
    #[verifier::opaque]
    pub closed spec fn wf(&self) -> bool {
        &&& self.current_token@ == tok_at(self.tokens@, self.pos@)
        &&& self.next_token@ == tok_at(self.tokens@, self.pos@ + 1)
        &&& self.lexer@.wf()
        &&& self.lexer@.tokens() == tokens_from(self.tokens@, self.pos@ + 2)
    }

    /// A parser at the first token that `lexer` gives, with no diagnostics.
    pub fn new(lexer: Lexer) -> (parser: Parser)
        ensures
            parser.wf(),
            parser@ == (ParserV { tokens: lexer@.tokens(), pos: 0, errors: Seq::empty() }),
    {
        proof {
            reveal(Parser::wf);
        }
        let ghost toks = lexer@.tokens();
        let ghost start = lexer@;
        let mut lexer = lexer;
        let first = lexer.next_token();
        proof {
            assert(toks.len() >= 1) by {
                reveal(LexerV::tokens);
                lemma_lex_progress(start.input, start.pos);
            }
            assert(tokens_from(toks, 0) =~= toks);
            lemma_tokens_step(start, toks, 0);
        }
        let second = lexer.next_token();
        proof {
            lemma_tokens_step(start.advance(), toks, 1);
        }
        let parser = Parser {
            lexer,
            current_token: first,
            next_token: second,
            errors: Vec::new(),
            tokens: Ghost(toks),
            pos: Ghost(0),
        };
        assert(parser@.errors =~= Seq::empty());
        parser
    }

    pub(crate) fn token_to_precedence(tok: &Token) -> (r: Precedence)
        ensures
            r == token_precedence(tok@),
    {
        match tok {
            Token::Equal | Token::NotEqual => Precedence::Equals,
            Token::LessThan | Token::LessThanEqual => Precedence::LessGreater,
            Token::GreaterThan | Token::GreaterThanEqual => Precedence::LessGreater,
            Token::Plus | Token::Minus => Precedence::Sum,
            Token::Slash | Token::Asterisk => Precedence::Product,
            Token::Lbracket => Precedence::Index,
            Token::Dot => Precedence::Index,
            Token::Lparen => Precedence::Call,
            _ => Precedence::Lowest,
        }
    }

    /// The current token.
    pub(crate) fn current(&self) -> (tok: &Token)
        requires
            self.wf(),
        ensures
            tok@ == self@.cur(),
    {
        proof {
            reveal(Parser::wf);
        }
        &self.current_token
    }

    /// The token after the current one.
    pub(crate) fn upcoming(&self) -> (tok: &Token)
        requires
            self.wf(),
        ensures
            tok@ == self@.next(),
    {
        proof {
            reveal(Parser::wf);
        }
        &self.next_token
    }

    /// The diagnostics recorded so far, oldest first.
    pub fn get_errors(&mut self) -> (errors: ParseErrors)
        ensures
            *final(self) == *old(self),
            errors_view(errors@) == old(self)@.errors,
    {
        let mut errors: Vec<ParseError> = Vec::new();
        let mut i: usize = 0;
        while i < self.errors.len()
            invariant
                i <= self.errors.len(),
                errors.len() == i,
                forall|j: int| 0 <= j < i ==> errors@[j]@ == self.errors@[j]@,
            decreases self.errors.len() - i,
        {
            errors.push(self.errors[i].duplicate());
            i += 1;
        }
        assert(errors_view(errors@) =~= errors_view(self.errors@));
        errors
    }

    pub(crate) fn bump(&mut self)
        requires
            old(self).wf(),
        ensures
            final(self).wf(),
            final(self)@ == (ParserV { pos: old(self)@.pos + 1, ..old(self)@ }),
    {
        proof {
            reveal(Parser::wf);
            lemma_tokens_step(self.lexer@, self.tokens@, self.pos@ + 2);
        }
        let mut token = self.lexer.next_token();
        std::mem::swap(&mut self.next_token, &mut token);
        self.current_token = token;
        self.pos = Ghost((self.pos@ + 1) as nat);
    }

    pub(crate) fn current_token_is(&self, tok: &Token) -> (r: bool)
        requires
            self.wf(),
        ensures
            r == (self@.cur() == tok@),
    {
        self.current().same(tok)
    }

    pub(crate) fn next_token_is(&self, tok: &Token) -> (r: bool)
        requires
            self.wf(),
        ensures
            r == (self@.next() == tok@),
    {
        self.upcoming().same(tok)
    }

    pub(crate) fn expect_next_token(&mut self, tok: Token) -> (r: bool)
        requires
            old(self).wf(),
        ensures
            final(self).wf(),
            r == (old(self)@.next() == tok@),
            final(self)@.tokens == old(self)@.tokens,
            r ==> final(self)@.pos == old(self)@.pos + 1 && final(self)@.errors == old(
                self,
            )@.errors,
            !r ==> final(self)@.pos == old(self)@.pos && final(self)@.errors == old(
                self,
            )@.errors.push(unexpected(old(self)@.tokens, old(self)@.pos, tok@)),
    {
        if self.next_token_is(&tok) {
            self.bump();
            true
        } else {
            self.error_next_token(tok);
            false
        }
    }

    pub(crate) fn current_token_precedence(&self) -> (r: Precedence)
        requires
            self.wf(),
        ensures
            r == token_precedence(self@.cur()),
    {
        Self::token_to_precedence(self.current())
    }

    pub(crate) fn next_token_precedence(&self) -> (r: Precedence)
        requires
            self.wf(),
        ensures
            r == token_precedence(self@.next()),
    {
        Self::token_to_precedence(self.upcoming())
    }

    pub(crate) fn record(&mut self, error: ParseError)
        requires
            old(self).wf(),
        ensures
            final(self).wf(),
            final(self)@ == (ParserV { errors: old(self)@.errors.push(error@), ..old(self)@ }),
    {
        proof {
            reveal(Parser::wf);
        }
        self.errors.push(error);
        assert(errors_view(self.errors@) =~= errors_view(old(self).errors@).push(error@));
    }

    pub(crate) fn error_next_token(&mut self, tok: Token)
        requires
            old(self).wf(),
        ensures
            final(self).wf(),
            final(self)@ == (ParserV {
                errors: old(self)@.errors.push(unexpected(old(self)@.tokens, old(self)@.pos, tok@)),
                ..old(self)@
            }),
    {
        let got = self.upcoming().duplicate();
        self.record(ParseError::UnexpectedToken { want: Some(tok), got });
    }

    pub(crate) fn error_no_prefix_parser(&mut self)
        requires
            old(self).wf(),
        ensures
            final(self).wf(),
            final(self)@ == (ParserV {
                errors: old(self)@.errors.push(no_prefix(old(self)@.tokens, old(self)@.pos)),
                ..old(self)@
            }),
    {
        let got = self.upcoming().duplicate();
        self.record(ParseError::UnexpectedToken { want: None, got });
    }

    /// Records that an identifier was expected where `got` stands.
    pub(crate) fn error_expected_ident(&mut self, got: Token)
        requires
            old(self).wf(),
        ensures
            final(self).wf(),
            final(self)@ == (ParserV {
                errors: old(self)@.errors.push(expected_ident(got@)),
                ..old(self)@
            }),
    {
        self.record(
            ParseError::UnexpectedToken { want: Some(Token::Ident(String::new())), got },
        );
    }

    /// Moves over a semicolon, if one comes next.
    pub(crate) fn skip_semicolon(&mut self)
        requires
            old(self).wf(),
        ensures
            final(self).wf(),
            final(self)@ == (ParserV {
                pos: old(self)@.pos + semicolon_after(old(self)@.tokens, old(self)@.pos),
                ..old(self)@
            }),
    {
        if self.next_token_is(&Token::Semicolon) {
            self.bump();
        }
    }
}

} // verus!
