//! Lexical tokens and their mathematical model.

use crate::text::{int_text, push_int, str_debug, str_debug_of};
use vstd::prelude::*;
use vstd::string::StringExecFns;

verus! {

/// A lexical unit. Both keyword lexicons produce the same variants.
#[derive(Debug, Clone, PartialEq)]
pub enum Token {
    Illegal,
    Blank,
    Eof,
    Ident(String),
    Int(i64),
    String(String),
    Bool(bool),
    Assign,
    Plus,
    Minus,
    Bang,
    Asterisk,
    Slash,
    Equal,
    NotEqual,
    LessThan,
    LessThanEqual,
    GreaterThan,
    GreaterThanEqual,
    Comma,
    Colon,
    Semicolon,
    Dot,
    Lparen,
    Rparen,
    Lbrace,
    Rbrace,
    Lbracket,
    Rbracket,
    Func,
    Let,
    If,
    Else,
    While,
    Break,
    Continue,
    Return,
}

/// The model of a [`Token`]: the same variants, with text as a sequence of characters.
pub enum TokenV {
    Illegal,
    Blank,
    Eof,
    Ident(Seq<char>),
    Int(i64),
    String(Seq<char>),
    Bool(bool),
    Assign,
    Plus,
    Minus,
    Bang,
    Asterisk,
    Slash,
    Equal,
    NotEqual,
    LessThan,
    LessThanEqual,
    GreaterThan,
    GreaterThanEqual,
    Comma,
    Colon,
    Semicolon,
    Dot,
    Lparen,
    Rparen,
    Lbrace,
    Rbrace,
    Lbracket,
    Rbracket,
    Func,
    Let,
    If,
    Else,
    While,
    Break,
    Continue,
    Return,
}

impl View for Token {
    type V = TokenV;

    open spec fn view(&self) -> TokenV {
        match self {
            Token::Illegal => TokenV::Illegal,
            Token::Blank => TokenV::Blank,
            Token::Eof => TokenV::Eof,
            Token::Ident(s) => TokenV::Ident(s@),
            Token::Int(n) => TokenV::Int(*n),
            Token::String(s) => TokenV::String(s@),
            Token::Bool(b) => TokenV::Bool(*b),
            Token::Assign => TokenV::Assign,
            Token::Plus => TokenV::Plus,
            Token::Minus => TokenV::Minus,
            Token::Bang => TokenV::Bang,
            Token::Asterisk => TokenV::Asterisk,
            Token::Slash => TokenV::Slash,
            Token::Equal => TokenV::Equal,
            Token::NotEqual => TokenV::NotEqual,
            Token::LessThan => TokenV::LessThan,
            Token::LessThanEqual => TokenV::LessThanEqual,
            Token::GreaterThan => TokenV::GreaterThan,
            Token::GreaterThanEqual => TokenV::GreaterThanEqual,
            Token::Comma => TokenV::Comma,
            Token::Colon => TokenV::Colon,
            Token::Semicolon => TokenV::Semicolon,
            Token::Dot => TokenV::Dot,
            Token::Lparen => TokenV::Lparen,
            Token::Rparen => TokenV::Rparen,
            Token::Lbrace => TokenV::Lbrace,
            Token::Rbrace => TokenV::Rbrace,
            Token::Lbracket => TokenV::Lbracket,
            Token::Rbracket => TokenV::Rbracket,
            Token::Func => TokenV::Func,
            Token::Let => TokenV::Let,
            Token::If => TokenV::If,
            Token::Else => TokenV::Else,
            Token::While => TokenV::While,
            Token::Break => TokenV::Break,
            Token::Continue => TokenV::Continue,
            Token::Return => TokenV::Return,
        }
    }
}

impl Token {
    /// Whether two tokens are the same, payload included.
    pub fn same(&self, other: &Token) -> (r: bool)
        ensures
            r == (self@ == other@),
    {
        match (self, other) {
            (Token::Ident(a), Token::Ident(b)) => *a == *b,
            (Token::String(a), Token::String(b)) => *a == *b,
            (Token::Int(a), Token::Int(b)) => *a == *b,
            (Token::Bool(a), Token::Bool(b)) => *a == *b,
            (Token::Illegal, Token::Illegal) => true,
            (Token::Blank, Token::Blank) => true,
            (Token::Eof, Token::Eof) => true,
            (Token::Assign, Token::Assign) => true,
            (Token::Plus, Token::Plus) => true,
            (Token::Minus, Token::Minus) => true,
            (Token::Bang, Token::Bang) => true,
            (Token::Asterisk, Token::Asterisk) => true,
            (Token::Slash, Token::Slash) => true,
            (Token::Equal, Token::Equal) => true,
            (Token::NotEqual, Token::NotEqual) => true,
            (Token::LessThan, Token::LessThan) => true,
            (Token::LessThanEqual, Token::LessThanEqual) => true,
            (Token::GreaterThan, Token::GreaterThan) => true,
            (Token::GreaterThanEqual, Token::GreaterThanEqual) => true,
            (Token::Comma, Token::Comma) => true,
            (Token::Colon, Token::Colon) => true,
            (Token::Semicolon, Token::Semicolon) => true,
            (Token::Dot, Token::Dot) => true,
            (Token::Lparen, Token::Lparen) => true,
            (Token::Rparen, Token::Rparen) => true,
            (Token::Lbrace, Token::Lbrace) => true,
            (Token::Rbrace, Token::Rbrace) => true,
            (Token::Lbracket, Token::Lbracket) => true,
            (Token::Rbracket, Token::Rbracket) => true,
            (Token::Func, Token::Func) => true,
            (Token::Let, Token::Let) => true,
            (Token::If, Token::If) => true,
            (Token::Else, Token::Else) => true,
            (Token::While, Token::While) => true,
            (Token::Break, Token::Break) => true,
            (Token::Continue, Token::Continue) => true,
            (Token::Return, Token::Return) => true,
            _ => false,
        }
    }

    /// A copy of this token with the same model.
    pub fn duplicate(&self) -> (r: Token)
        ensures
            r@ == self@,
    {
        match self {
            Token::Ident(s) => Token::Ident(s.clone()),
            Token::String(s) => Token::String(s.clone()),
            Token::Int(n) => Token::Int(*n),
            Token::Bool(b) => Token::Bool(*b),
            Token::Illegal => Token::Illegal,
            Token::Blank => Token::Blank,
            Token::Eof => Token::Eof,
            Token::Assign => Token::Assign,
            Token::Plus => Token::Plus,
            Token::Minus => Token::Minus,
            Token::Bang => Token::Bang,
            Token::Asterisk => Token::Asterisk,
            Token::Slash => Token::Slash,
            Token::Equal => Token::Equal,
            Token::NotEqual => Token::NotEqual,
            Token::LessThan => Token::LessThan,
            Token::LessThanEqual => Token::LessThanEqual,
            Token::GreaterThan => Token::GreaterThan,
            Token::GreaterThanEqual => Token::GreaterThanEqual,
            Token::Comma => Token::Comma,
            Token::Colon => Token::Colon,
            Token::Semicolon => Token::Semicolon,
            Token::Dot => Token::Dot,
            Token::Lparen => Token::Lparen,
            Token::Rparen => Token::Rparen,
            Token::Lbrace => Token::Lbrace,
            Token::Rbrace => Token::Rbrace,
            Token::Lbracket => Token::Lbracket,
            Token::Rbracket => Token::Rbracket,
            Token::Func => Token::Func,
            Token::Let => Token::Let,
            Token::If => Token::If,
            Token::Else => Token::Else,
            Token::While => Token::While,
            Token::Break => Token::Break,
            Token::Continue => Token::Continue,
            Token::Return => Token::Return,
        }
    }
}

/// The name of a token's variant.
pub open spec fn spec_variant_name(t: TokenV) -> Seq<char> {
    match t {
        TokenV::Illegal => "Illegal"@,
        TokenV::Blank => "Blank"@,
        TokenV::Eof => "Eof"@,
        TokenV::Ident(_) => "Ident"@,
        TokenV::Int(_) => "Int"@,
        TokenV::String(_) => "String"@,
        TokenV::Bool(_) => "Bool"@,
        TokenV::Assign => "Assign"@,
        TokenV::Plus => "Plus"@,
        TokenV::Minus => "Minus"@,
        TokenV::Bang => "Bang"@,
        TokenV::Asterisk => "Asterisk"@,
        TokenV::Slash => "Slash"@,
        TokenV::Equal => "Equal"@,
        TokenV::NotEqual => "NotEqual"@,
        TokenV::LessThan => "LessThan"@,
        TokenV::LessThanEqual => "LessThanEqual"@,
        TokenV::GreaterThan => "GreaterThan"@,
        TokenV::GreaterThanEqual => "GreaterThanEqual"@,
        TokenV::Comma => "Comma"@,
        TokenV::Colon => "Colon"@,
        TokenV::Semicolon => "Semicolon"@,
        TokenV::Dot => "Dot"@,
        TokenV::Lparen => "Lparen"@,
        TokenV::Rparen => "Rparen"@,
        TokenV::Lbrace => "Lbrace"@,
        TokenV::Rbrace => "Rbrace"@,
        TokenV::Lbracket => "Lbracket"@,
        TokenV::Rbracket => "Rbracket"@,
        TokenV::Func => "Func"@,
        TokenV::Let => "Let"@,
        TokenV::If => "If"@,
        TokenV::Else => "Else"@,
        TokenV::While => "While"@,
        TokenV::Break => "Break"@,
        TokenV::Continue => "Continue"@,
        TokenV::Return => "Return"@,
    }
}

/// How a token is shown in a diagnostic: the name of its variant and, in
/// parentheses, what it carries; a text in the `Debug` form of std.
pub open spec fn spec_debug_text(t: TokenV) -> Seq<char> {
    match t {
        TokenV::Ident(name) => "Ident("@ + str_debug_of(name) + ")"@,
        TokenV::String(text) => "String("@ + str_debug_of(text) + ")"@,
        TokenV::Int(n) => "Int("@ + int_text(n as int) + ")"@,
        TokenV::Bool(b) => if b {
            "Bool(true)"@
        } else {
            "Bool(false)"@
        },
        other => spec_variant_name(other),
    }
}

impl Token {
    /// The name of this token's variant.
    pub fn variant_name(&self) -> (r: &'static str)
        ensures
            r@ == spec_variant_name(self@),
    {
        match self {
            Token::Illegal => "Illegal",
            Token::Blank => "Blank",
            Token::Eof => "Eof",
            Token::Ident(_) => "Ident",
            Token::Int(_) => "Int",
            Token::String(_) => "String",
            Token::Bool(_) => "Bool",
            Token::Assign => "Assign",
            Token::Plus => "Plus",
            Token::Minus => "Minus",
            Token::Bang => "Bang",
            Token::Asterisk => "Asterisk",
            Token::Slash => "Slash",
            Token::Equal => "Equal",
            Token::NotEqual => "NotEqual",
            Token::LessThan => "LessThan",
            Token::LessThanEqual => "LessThanEqual",
            Token::GreaterThan => "GreaterThan",
            Token::GreaterThanEqual => "GreaterThanEqual",
            Token::Comma => "Comma",
            Token::Colon => "Colon",
            Token::Semicolon => "Semicolon",
            Token::Dot => "Dot",
            Token::Lparen => "Lparen",
            Token::Rparen => "Rparen",
            Token::Lbrace => "Lbrace",
            Token::Rbrace => "Rbrace",
            Token::Lbracket => "Lbracket",
            Token::Rbracket => "Rbracket",
            Token::Func => "Func",
            Token::Let => "Let",
            Token::If => "If",
            Token::Else => "Else",
            Token::While => "While",
            Token::Break => "Break",
            Token::Continue => "Continue",
            Token::Return => "Return",
        }
    }

    /// Appends to `out` how this token is shown in a diagnostic.
    pub fn debug_into(&self, out: &mut String)
        ensures
            final(out)@ == old(out)@ + spec_debug_text(self@),
    {
        match self {
            Token::Ident(name) => {
                out.append("Ident(");
                let shown = str_debug(name.as_str());
                out.append(shown.as_str());
                out.append(")");
                assert(final(out)@ =~= old(out)@ + spec_debug_text(self@));
            },
            Token::String(text) => {
                out.append("String(");
                let shown = str_debug(text.as_str());
                out.append(shown.as_str());
                out.append(")");
                assert(final(out)@ =~= old(out)@ + spec_debug_text(self@));
            },
            Token::Int(n) => {
                out.append("Int(");
                push_int(out, *n);
                out.append(")");
                assert(final(out)@ =~= old(out)@ + spec_debug_text(self@));
            },
            Token::Bool(b) => {
                if *b {
                    out.append("Bool(true)");
                } else {
                    out.append("Bool(false)");
                }
            },
            other => {
                out.append(other.variant_name());
            },
        }
    }
}

} // verus!
