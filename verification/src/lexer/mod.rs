//! The lexer: from characters to tokens.
//!
//! Whitespace and single line feeds separate tokens. Two line feeds in a row give a
//! `Blank` token. A run of digits whose value does not fit in an `i64` gives `Illegal`.
//! A string literal that is not closed before the input ends gives a string token
//! that holds a fixed error text.

pub mod classes;
pub mod keywords;
pub mod laws;
pub mod unescape;

pub use crate::lexer::classes::is_whitespace;

use crate::lexer::classes::{
    is_digit,
    is_id_continue,
    is_id_start,
    spec_is_digit,
    spec_is_id_continue,
    spec_is_id_start,
    spec_is_whitespace,
};
use crate::lexer::keywords::{keyword, lookup_keyword};
use crate::lexer::unescape::{spec_unescape, unescape_range};
use crate::text::{chars_of, decimal_value};
use crate::token::{Token, TokenV};
use vstd::prelude::*;
use vstd::string::StringExecFns;

verus! {

/// What the quick check of `unicode-normalization` says of a text.
pub enum QuickCheck {
    Yes,
    No,
    Maybe,
}

/// The answer of `unicode_normalization::is_nfc_quick` for a text.
pub uninterp spec fn nfc_quick_check_of(text: Seq<char>) -> QuickCheck;

/// The characters that `unicode_normalization`'s `nfc` iterator yields for a text.
pub uninterp spec fn nfc_of(text: Seq<char>) -> Seq<char>;

/// The canonical spelling of an identifier: the text itself where the quick check
/// says that it is in Normalization Form C, else its composition.
pub open spec fn spec_nfc_normalize(text: Seq<char>) -> Seq<char> {
    if nfc_quick_check_of(text) is Yes {
        text
    } else {
        nfc_of(text)
    }
}

/// Trusted: calls `unicode_normalization::is_nfc_quick` on the characters of `text`
/// and maps its three answers one for one; the answer is named, not described.
#[verifier::external_body]
fn nfc_quick_check(text: &str) -> (r: QuickCheck)
    ensures
        r == nfc_quick_check_of(text@),
{
    match unicode_normalization::is_nfc_quick(text.chars()) {
        unicode_normalization::IsNormalized::Yes => QuickCheck::Yes,
        unicode_normalization::IsNormalized::No => QuickCheck::No,
        unicode_normalization::IsNormalized::Maybe => QuickCheck::Maybe,
    }
}

/// Trusted: collects what `unicode_normalization::UnicodeNormalization::nfc` yields
/// for the characters of `text`; the result is named, not described.
#[verifier::external_body]
fn nfc_compose(text: &str) -> (r: String)
    ensures
        r@ == nfc_of(text@),
{
    unicode_normalization::UnicodeNormalization::nfc(text.chars()).collect()
}

/// The canonical spelling of an identifier.
pub fn nfc_normalize(string: &str) -> (r: String)
    ensures
        r@ == spec_nfc_normalize(string@),
{
    match nfc_quick_check(string) {
        QuickCheck::Yes => String::from_str(string),
        _ => nfc_compose(string),
    }
}

/// The classes of characters that the lexer reads in runs.
pub enum CharClass {
    Whitespace,
    Digit,
    IdContinue,
}

pub open spec fn in_class(class: CharClass, c: char) -> bool {
    match class {
        CharClass::Whitespace => spec_is_whitespace(c),
        CharClass::Digit => spec_is_digit(c),
        CharClass::IdContinue => spec_is_id_continue(c),
    }
}

/// The character at `pos`, or NUL past the end.
pub open spec fn char_at(input: Seq<char>, pos: nat) -> char {
    if pos < input.len() {
        input[pos as int]
    } else {
        '\0'
    }
}

/// Where the longest run of characters of `class` that starts at `pos` ends.
pub open spec fn run_end(input: Seq<char>, pos: nat, class: CharClass) -> nat
    decreases input.len() - pos,
{
    if pos < input.len() && in_class(class, input[pos as int]) {
        run_end(input, pos + 1, class)
    } else {
        pos
    }
}

/// Where the next token starts: after whitespace and after every line feed that is
/// not followed by another one.
pub open spec fn token_start(input: Seq<char>, pos: nat) -> nat
    decreases input.len() - pos,
{
    let p = run_end(input, pos, CharClass::Whitespace);
    if p < input.len() && input[p as int] == '\n' && char_at(input, p + 1) != '\n' {
        proof {
            lemma_run_end_bounds(input, pos, CharClass::Whitespace);
        }
        token_start(input, p + 1)
    } else {
        p
    }
}

/// How the body of a string literal ends.
pub enum StringEnd {
    /// The closing quote is at this position.
    Closed(nat),
    /// The input ended, or a NUL was met, at this position.
    Open(nat),
}

/// Scans the body of a string literal from `pos`. `escaped` says that the character
/// before `pos` was a backslash that escapes the one at `pos`.
pub open spec fn string_end(input: Seq<char>, pos: nat, escaped: bool) -> StringEnd
    decreases input.len() - pos,
{
    if pos >= input.len() || input[pos as int] == '\0' {
        StringEnd::Open(pos)
    } else if escaped {
        string_end(input, pos + 1, false)
    } else if input[pos as int] == '"' {
        StringEnd::Closed(pos)
    } else {
        string_end(input, pos + 1, input[pos as int] == '\\')
    }
}

/// The text of the token that stands for a string literal left open.
pub open spec fn unterminated_string() -> Seq<char> {
    "<Lexer error: string: premature EOF>"@
}

/// The token for a run of digits.
pub open spec fn number_token(digits: Seq<char>) -> TokenV {
    if decimal_value(digits) <= i64::MAX {
        TokenV::Int(decimal_value(digits) as i64)
    } else {
        TokenV::Illegal
    }
}

/// The token for a word: a keyword of either lexicon, else an identifier in its
/// canonical spelling.
pub open spec fn word_token(word: Seq<char>) -> TokenV {
    match keyword(word) {
        Some(t) => t,
        None => TokenV::Ident(spec_nfc_normalize(word)),
    }
}

/// A token and the position after it.
pub struct Lexed {
    pub token: TokenV,
    pub next: nat,
}

/// The token that starts exactly at `p`, where `p` is a token start.
pub open spec fn lex_at(input: Seq<char>, p: nat) -> Lexed {
    let c = char_at(input, p);
    let followed_by_eq = char_at(input, p + 1) == '=';
    if p >= input.len() {
        Lexed { token: TokenV::Eof, next: p }
    } else if c == '=' {
        if followed_by_eq {
            Lexed { token: TokenV::Equal, next: p + 2 }
        } else {
            Lexed { token: TokenV::Assign, next: p + 1 }
        }
    } else if c == '!' {
        if followed_by_eq {
            Lexed { token: TokenV::NotEqual, next: p + 2 }
        } else {
            Lexed { token: TokenV::Bang, next: p + 1 }
        }
    } else if c == '<' {
        if followed_by_eq {
            Lexed { token: TokenV::LessThanEqual, next: p + 2 }
        } else {
            Lexed { token: TokenV::LessThan, next: p + 1 }
        }
    } else if c == '>' {
        if followed_by_eq {
            Lexed { token: TokenV::GreaterThanEqual, next: p + 2 }
        } else {
            Lexed { token: TokenV::GreaterThan, next: p + 1 }
        }
    } else if spec_is_digit(c) {
        let e = run_end(input, p, CharClass::Digit);
        Lexed { token: number_token(input.subrange(p as int, e as int)), next: e }
    } else if c == '"' {
        match string_end(input, p + 1, false) {
            StringEnd::Closed(q) => Lexed {
                token: TokenV::String(spec_unescape(input.subrange(p + 1 as int, q as int))),
                next: q + 1,
            },
            StringEnd::Open(q) => Lexed { token: TokenV::String(unterminated_string()), next: q },
        }
    } else {
        match symbol(c) {
            Some(t) => Lexed { token: t, next: p + 1 },
            None => if spec_is_id_start(c) {
                let e = run_end(input, p + 1, CharClass::IdContinue);
                Lexed { token: word_token(input.subrange(p as int, e as int)), next: e }
            } else {
                Lexed { token: TokenV::Illegal, next: p + 1 }
            },
        }
    }
}

/// The token that a character stands for by itself, where no second character can
/// change it. A line feed at a token start is followed by another one.
pub open spec fn symbol(c: char) -> Option<TokenV> {
    if c == '+' {
        Some(TokenV::Plus)
    } else if c == '-' {
        Some(TokenV::Minus)
    } else if c == '/' {
        Some(TokenV::Slash)
    } else if c == '*' {
        Some(TokenV::Asterisk)
    } else if c == '(' {
        Some(TokenV::Lparen)
    } else if c == ')' {
        Some(TokenV::Rparen)
    } else if c == '{' {
        Some(TokenV::Lbrace)
    } else if c == '}' {
        Some(TokenV::Rbrace)
    } else if c == '[' {
        Some(TokenV::Lbracket)
    } else if c == ']' {
        Some(TokenV::Rbracket)
    } else if c == '.' {
        Some(TokenV::Dot)
    } else if c == ',' {
        Some(TokenV::Comma)
    } else if c == ';' {
        Some(TokenV::Semicolon)
    } else if c == ':' {
        Some(TokenV::Colon)
    } else if c == '\n' {
        Some(TokenV::Blank)
    } else if c == '\0' {
        Some(TokenV::Eof)
    } else {
        None
    }
}

/// The next token of `input` from `pos` on, and the position after it.
pub open spec fn spec_lex(input: Seq<char>, pos: nat) -> Lexed {
    lex_at(input, token_start(input, pos))
}

/// A run ends at or after its start and within the input.
pub proof fn lemma_run_end_bounds(input: Seq<char>, pos: nat, class: CharClass)
    ensures
        pos <= run_end(input, pos, class),
        pos <= input.len() ==> run_end(input, pos, class) <= input.len(),
    decreases input.len() - pos,
{
    if pos < input.len() && in_class(class, input[pos as int]) {
        lemma_run_end_bounds(input, pos + 1, class);
    }
}

/// A token starts at or after the position from which it is looked for.
pub proof fn lemma_token_start_bounds(input: Seq<char>, pos: nat)
    ensures
        pos <= token_start(input, pos),
        pos <= input.len() ==> token_start(input, pos) <= input.len(),
    decreases input.len() - pos,
{
    lemma_run_end_bounds(input, pos, CharClass::Whitespace);
    let p = run_end(input, pos, CharClass::Whitespace);
    if p < input.len() && input[p as int] == '\n' && char_at(input, p + 1) != '\n' {
        lemma_token_start_bounds(input, p + 1);
    }
}

/// The body of a string literal ends at or after its start and within the input.
pub proof fn lemma_string_end_bounds(input: Seq<char>, pos: nat, escaped: bool)
    requires
        pos <= input.len(),
    ensures
        match string_end(input, pos, escaped) {
            StringEnd::Closed(q) => pos <= q < input.len(),
            StringEnd::Open(q) => pos <= q <= input.len(),
        },
    decreases input.len() - pos,
{
    if pos >= input.len() || input[pos as int] == '\0' {
    } else if escaped {
        lemma_string_end_bounds(input, pos + 1, false);
    } else if input[pos as int] == '"' {
    } else {
        lemma_string_end_bounds(input, pos + 1, input[pos as int] == '\\');
    }
}

/// Lexing always moves on: before the end of the input the position after a token
/// lies beyond the position from which it was looked for, and never beyond the end.
/// At the end the token is `Eof` and the position stays.
pub proof fn lemma_lex_progress(input: Seq<char>, pos: nat)
    requires
        pos <= input.len(),
    ensures
        spec_lex(input, pos).next <= input.len(),
        pos < input.len() ==> pos < spec_lex(input, pos).next,
        pos == input.len() ==> spec_lex(input, pos) == (Lexed { token: TokenV::Eof, next: pos }),
{
    lemma_token_start_bounds(input, pos);
    let p = token_start(input, pos);
    lemma_run_end_bounds(input, p, CharClass::Digit);
    lemma_run_end_bounds(input, p + 1, CharClass::IdContinue);
    if p < input.len() {
        lemma_string_end_bounds(input, p + 1, false);
        if char_at(input, p + 1) == '=' {
            assert(p + 1 < input.len());
        }
        if spec_is_digit(input[p as int]) {
            assert(run_end(input, p, CharClass::Digit) == run_end(
                input,
                p + 1,
                CharClass::Digit,
            ));
            lemma_run_end_bounds(input, p + 1, CharClass::Digit);
        }
    }
}

/// The model of a [`Lexer`]: the whole input and the position of the next unread
/// character.
pub struct LexerV {
    pub input: Seq<char>,
    pub pos: nat,
}

impl LexerV {
    /// The position lies within the input or at its end.
    pub open spec fn wf(self) -> bool {
        self.pos <= self.input.len()
    }

    /// The next token.
    pub open spec fn token(self) -> TokenV {
        spec_lex(self.input, self.pos).token
    }

    /// The lexer after its next token.
    pub open spec fn advance(self) -> LexerV {
        LexerV { input: self.input, pos: spec_lex(self.input, self.pos).next }
    }

    /// Every token up to the end of the input, and the `Eof` that ends them.
    #[verifier::opaque]
    pub open spec fn tokens(self) -> Seq<TokenV>
        decreases self.input.len() - self.pos,
    {
        if self.pos >= self.input.len() {
            seq![TokenV::Eof]
        } else {
            proof {
                lemma_lex_progress(self.input, self.pos);
            }
            seq![self.token()] + self.advance().tokens()
        }
    }
}

/// A lexer over a text.
pub struct Lexer {
    input: Vec<char>,
    pos: usize,
}

impl View for Lexer {
    type V = LexerV;

    closed spec fn view(&self) -> LexerV {
        LexerV { input: self.input@, pos: self.pos as nat }
    }
}

impl Lexer {
    #[verifier::type_invariant]
    spec fn within_input(&self) -> bool {
        self.pos <= self.input.len()
    }

    /// A lexer at the start of `origin_input`.
    pub fn new(origin_input: &str) -> (lexer: Lexer)
        ensures
            lexer@ == (LexerV { input: origin_input@, pos: 0 }),
            lexer@.wf(),
    {
        let input = chars_of(origin_input);
        Lexer { input, pos: 0 }
    }

    fn ch(&self) -> (c: char)
        ensures
            c == char_at(self@.input, self@.pos),
    {
        if self.pos < self.input.len() {
            self.input[self.pos]
        } else {
            '\0'
        }
    }

    fn read_char(&mut self)
        ensures
            final(self)@.input == old(self)@.input,
            final(self)@.pos == if old(self)@.pos < old(self)@.input.len() {
                old(self)@.pos + 1
            } else {
                old(self)@.pos
            },
    {
        if self.pos < self.input.len() {
            self.pos += 1;
        }
    }

    fn nextch(&self) -> (c: char)
        ensures
            c == char_at(self@.input, self@.pos + 1),
    {
        if self.pos < self.input.len() && self.pos + 1 < self.input.len() {
            self.input[self.pos + 1]
        } else {
            '\0'
        }
    }

    fn nextch_is(&self, ch: char) -> (r: bool)
        ensures
            r == (char_at(self@.input, self@.pos + 1) == ch),
    {
        self.nextch() == ch
    }

    fn skip_whitespace(&mut self)
        ensures
            final(self)@.input == old(self)@.input,
            final(self)@.pos == run_end(old(self)@.input, old(self)@.pos, CharClass::Whitespace),
    {
        proof {
            use_type_invariant(&*self);
        }
        let ghost start = self.pos as nat;
        while self.pos < self.input.len() && is_whitespace(self.input[self.pos])
            invariant
                self.input@ == old(self).input@,
                self.pos <= self.input.len(),
                run_end(self.input@, self.pos as nat, CharClass::Whitespace) == run_end(
                    self.input@,
                    start,
                    CharClass::Whitespace,
                ),
            decreases self.input.len() - self.pos,
        {
            self.pos += 1;
        }
    }

    /// Moves to the start of the next token.
    fn skip_separators(&mut self)
        ensures
            final(self)@.input == old(self)@.input,
            final(self)@.pos == token_start(old(self)@.input, old(self)@.pos),
    {
        proof {
            use_type_invariant(&*self);
        }
        let ghost start = self.pos as nat;
        loop
            invariant_except_break
                token_start(self.input@, self.pos as nat) == token_start(self.input@, start),
            invariant
                self.input@ == old(self).input@,
                self.pos <= self.input.len(),
            ensures
                self.input@ == old(self).input@,
                self.pos == token_start(self.input@, start),
            decreases self.input.len() - self.pos,
        {
            let ghost before = self.pos as nat;
            self.skip_whitespace();
            proof {
                lemma_run_end_bounds(self.input@, before, CharClass::Whitespace);
                use_type_invariant(&*self);
            }
            if self.ch() == '\n' && !self.nextch_is('\n') && self.pos < self.input.len() {
                self.pos += 1;
            } else {
                break ;
            }
        }
    }

    /// The next token. After the end of the input every token is `Eof`.
    pub fn next_token(&mut self) -> (tok: Token)
        ensures
            old(self)@.wf(),
            tok@ == old(self)@.token(),
            final(self)@ == old(self)@.advance(),
    {
        proof {
            use_type_invariant(&*self);
        }
        self.skip_separators();
        proof {
            use_type_invariant(&*self);
        }
        let c = self.ch();
        if self.pos >= self.input.len() {
            return Token::Eof;
        }
        if c == '=' || c == '!' || c == '<' || c == '>' {
            let two = self.nextch_is('=');
            self.read_char();
            if two {
                self.read_char();
            }
            return if c == '=' {
                if two {
                    Token::Equal
                } else {
                    Token::Assign
                }
            } else if c == '!' {
                if two {
                    Token::NotEqual
                } else {
                    Token::Bang
                }
            } else if c == '<' {
                if two {
                    Token::LessThanEqual
                } else {
                    Token::LessThan
                }
            } else {
                if two {
                    Token::GreaterThanEqual
                } else {
                    Token::GreaterThan
                }
            };
        }
        if is_digit(c) {
            return self.consume_number();
        }
        if c == '"' {
            return self.consume_string();
        }
        let tok = if c == '+' {
            Token::Plus
        } else if c == '-' {
            Token::Minus
        } else if c == '/' {
            Token::Slash
        } else if c == '*' {
            Token::Asterisk
        } else if c == '(' {
            Token::Lparen
        } else if c == ')' {
            Token::Rparen
        } else if c == '{' {
            Token::Lbrace
        } else if c == '}' {
            Token::Rbrace
        } else if c == '[' {
            Token::Lbracket
        } else if c == ']' {
            Token::Rbracket
        } else if c == '.' {
            Token::Dot
        } else if c == ',' {
            Token::Comma
        } else if c == ';' {
            Token::Semicolon
        } else if c == ':' {
            Token::Colon
        } else if c == '\n' {
            Token::Blank
        } else if c == '\0' {
            Token::Eof
        } else if is_id_start(c) {
            return self.consume_identifier();
        } else {
            Token::Illegal
        };
        self.read_char();
        tok
    }

    /// Reads a word whose first character is at the current position.
    fn consume_identifier(&mut self) -> (tok: Token)
        requires
            old(self)@.pos < old(self)@.input.len(),
        ensures
            final(self)@.input == old(self)@.input,
            final(self)@.pos == run_end(
                old(self)@.input,
                old(self)@.pos + 1,
                CharClass::IdContinue,
            ),
            tok@ == word_token(
                old(self)@.input.subrange(old(self)@.pos as int, final(self)@.pos as int),
            ),
    {
        proof {
            use_type_invariant(&*self);
        }
        let start_pos = self.pos;
        self.pos += 1;
        while self.pos < self.input.len() && is_id_continue(self.input[self.pos])
            invariant
                self.input@ == old(self).input@,
                start_pos < self.pos <= self.input.len(),
                run_end(self.input@, self.pos as nat, CharClass::IdContinue) == run_end(
                    self.input@,
                    (start_pos + 1) as nat,
                    CharClass::IdContinue,
                ),
            decreases self.input.len() - self.pos,
        {
            self.pos += 1;
        }
        match lookup_keyword(&self.input, start_pos, self.pos) {
            Some(t) => t,
            None => {
                let literal = string_of(&self.input, start_pos, self.pos);
                Token::Ident(nfc_normalize(literal.as_str()))
            },
        }
    }

    /// Reads a run of digits that starts at the current position.
    fn consume_number(&mut self) -> (tok: Token)
        ensures
            final(self)@.input == old(self)@.input,
            final(self)@.pos == run_end(old(self)@.input, old(self)@.pos, CharClass::Digit),
            tok@ == number_token(
                old(self)@.input.subrange(old(self)@.pos as int, final(self)@.pos as int),
            ),
    {
        proof {
            use_type_invariant(&*self);
        }
        let start_pos = self.pos;
        let mut value: i64 = 0;
        let mut fits = true;
        proof {
            assert(self.input@.subrange(start_pos as int, start_pos as int) =~= Seq::<char>::empty());
        }
        while self.pos < self.input.len() && is_digit(self.input[self.pos])
            invariant
                self.input@ == old(self).input@,
                start_pos <= self.pos <= self.input.len(),
                run_end(self.input@, self.pos as nat, CharClass::Digit) == run_end(
                    self.input@,
                    start_pos as nat,
                    CharClass::Digit,
                ),
                0 <= value,
                fits ==> value == decimal_value(
                    self.input@.subrange(start_pos as int, self.pos as int),
                ),
                !fits ==> decimal_value(self.input@.subrange(start_pos as int, self.pos as int))
                    > i64::MAX,
            decreases self.input.len() - self.pos,
        {
            let c = self.input[self.pos];
            let d: i64 = ((c as u8) - 48) as i64;
            proof {
                let longer = self.input@.subrange(start_pos as int, self.pos + 1);
                assert(longer.drop_last() =~= self.input@.subrange(
                    start_pos as int,
                    self.pos as int,
                ));
                assert(longer.last() == c);
            }
            if fits && value <= (i64::MAX - d) / 10 {
                value = value * 10 + d;
            } else {
                fits = false;
            }
            self.pos += 1;
        }
        if fits {
            Token::Int(value)
        } else {
            Token::Illegal
        }
    }

    /// Reads a string literal whose opening quote is at the current position.
    fn consume_string(&mut self) -> (tok: Token)
        requires
            old(self)@.pos < old(self)@.input.len(),
        ensures
            final(self)@.input == old(self)@.input,
            match string_end(old(self)@.input, old(self)@.pos + 1, false) {
                StringEnd::Closed(q) => final(self)@.pos == q + 1 && tok@ == TokenV::String(
                    spec_unescape(old(self)@.input.subrange(old(self)@.pos + 1 as int, q as int)),
                ),
                StringEnd::Open(q) => final(self)@.pos == q && tok@ == TokenV::String(
                    unterminated_string(),
                ),
            },
    {
        proof {
            use_type_invariant(&*self);
        }
        self.pos += 1;
        let start_pos = self.pos;
        let mut escaped = false;
        while self.pos < self.input.len() && self.input[self.pos] != '\0'
            invariant
                self.input@ == old(self).input@,
                start_pos == old(self).pos + 1,
                start_pos <= self.pos <= self.input.len(),
                string_end(self.input@, self.pos as nat, escaped) == string_end(
                    self.input@,
                    start_pos as nat,
                    false,
                ),
            decreases self.input.len() - self.pos,
        {
            let c = self.input[self.pos];
            if escaped {
                escaped = false;
            } else if c == '"' {
                let literal = unescape_range(&self.input, start_pos, self.pos);
                self.pos += 1;
                return Token::String(literal);
            } else if c == '\\' {
                escaped = true;
            }
            self.pos += 1;
        }
        Token::String(String::from_str("<Lexer error: string: premature EOF>"))
    }
}

/// The characters `input[start..end]` as a string.
pub fn string_of(input: &Vec<char>, start: usize, end: usize) -> (s: String)
    requires
        start <= end <= input.len(),
    ensures
        s@ == input@.subrange(start as int, end as int),
{
    let mut s = String::new();
    let mut i: usize = start;
    while i < end
        invariant
            start <= i <= end <= input.len(),
            s@ == input@.subrange(start as int, i as int),
        decreases end - i,
    {
        s.push(input[i]);
        i += 1;
    }
    s
}

} // verus!
