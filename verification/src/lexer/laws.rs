//! What holds of every input of the lexer.

use crate::lexer::classes::spec_is_ascii_letter;
use crate::lexer::keywords::{keyword, plain_keyword, slang_keyword};
use crate::lexer::unescape::{
    lemma_unescape_escape,
    spec_escape,
    spec_escape_char,
    spec_quote,
    spec_unescape,
};
use crate::lexer::{
    in_class,
    run_end,
    spec_lex,
    string_end,
    token_start,
    CharClass,
    Lexed,
    StringEnd,
};
use crate::token::TokenV;
use vstd::prelude::*;

verus! {

/// How a token that a slang word stands for is written without the slang lexicon:
/// a plain keyword, an operator sign, or a string literal in quotes.
pub open spec fn plain_spelling(t: TokenV) -> Seq<char> {
    match t {
        TokenV::Func => "fn"@,
        TokenV::Let => "let"@,
        TokenV::Bool(true) => "true"@,
        TokenV::Bool(false) => "false"@,
        TokenV::If => "if"@,
        TokenV::Else => "else"@,
        TokenV::While => "while"@,
        TokenV::Break => "break"@,
        TokenV::Return => "return"@,
        TokenV::Equal => "=="@,
        TokenV::Plus => "+"@,
        TokenV::Minus => "-"@,
        TokenV::Asterisk => "*"@,
        TokenV::Slash => "/"@,
        _ => "\"180kg\""@,
    }
}

/// A run of a class that fills the input from `pos` on ends where the input ends.
pub proof fn lemma_run_to_end(input: Seq<char>, pos: nat, class: CharClass)
    requires
        pos <= input.len(),
        forall|i: int| pos <= i < input.len() ==> in_class(class, #[trigger] input[i]),
    ensures
        run_end(input, pos, class) == input.len(),
    decreases input.len() - pos,
{
    if pos < input.len() {
        lemma_run_to_end(input, pos + 1, class);
    }
}

/// A text without a backslash stands for itself.
pub proof fn lemma_unescape_plain(s: Seq<char>)
    requires
        forall|i: int| 0 <= i < s.len() ==> #[trigger] s[i] != '\\',
    ensures
        spec_unescape(s) == s,
    decreases s.len(),
{
    if s.len() > 0 {
        lemma_unescape_plain(s.skip(1));
        assert(seq![s[0]] + s.skip(1) =~= s);
    }
}

/// The first double quote after a run of characters that are neither a quote, a
/// backslash nor NUL closes the string.
pub proof fn lemma_string_closes(input: Seq<char>, pos: nat, quote: nat)
    requires
        pos <= quote < input.len(),
        input[quote as int] == '"',
        forall|i: int|
            pos <= i < quote ==> #[trigger] input[i] != '"' && input[i] != '\\' && input[i]
                != '\0',
    ensures
        string_end(input, pos, false) == StringEnd::Closed(quote),
    decreases quote - pos,
{
    if pos < quote {
        lemma_string_closes(input, pos + 1, quote);
    }
}

/// A plain keyword alone is lexed as its token.
pub proof fn lemma_lex_plain_keyword(word: Seq<char>)
    requires
        word.len() > 0,
        forall|i: int| 0 <= i < word.len() ==> spec_is_ascii_letter(#[trigger] word[i]),
        plain_keyword(word) is Some,
    ensures
        spec_lex(word, 0).token == plain_keyword(word)->0,
{
    assert(in_class(CharClass::IdContinue, word[0]));
    assert forall|i: int| 1 <= i < word.len() implies in_class(
        CharClass::IdContinue,
        #[trigger] word[i],
    ) by {
        assert(spec_is_ascii_letter(word[i]));
    }
    lemma_run_to_end(word, 1, CharClass::IdContinue);
    assert(spec_is_ascii_letter(word[0]));
    assert(run_end(word, 0, CharClass::Whitespace) == 0);
    assert(token_start(word, 0) == 0);
    assert(word.subrange(0, word.len() as int) =~= word);
}

/// The two lexicons agree: the token that a slang word stands for is the token that
/// the lexer gives for its plain spelling.
pub proof fn lemma_slang_agrees_with_plain(word: Seq<char>)
    requires
        slang_keyword(word) is Some,
    ensures
        spec_lex(plain_spelling(slang_keyword(word)->0), 0).token == slang_keyword(word)->0,
{
    let t = slang_keyword(word)->0;
    let text = plain_spelling(t);
    reveal_strlit("fn");
    reveal_strlit("let");
    reveal_strlit("true");
    reveal_strlit("false");
    reveal_strlit("if");
    reveal_strlit("while");
    reveal_strlit("break");
    reveal_strlit("continue");
    reveal_strlit("else");
    reveal_strlit("return");
    reveal_strlit("==");
    reveal_strlit("+");
    reveal_strlit("-");
    reveal_strlit("*");
    reveal_strlit("/");
    reveal_strlit("\"180kg\"");
    reveal_strlit("180kg");
    match t {
        TokenV::Func | TokenV::Let | TokenV::Bool(_) | TokenV::If | TokenV::Else | TokenV::While
        | TokenV::Break | TokenV::Return => {
            assert(text.len() > 0);
            assert(plain_keyword(text) == Some(t));
            lemma_lex_plain_keyword(text);
        },
        TokenV::Equal | TokenV::Plus | TokenV::Minus | TokenV::Asterisk | TokenV::Slash => {
            assert(run_end(text, 0, CharClass::Whitespace) == 0);
            assert(token_start(text, 0) == 0);
        },
        _ => {
            assert(t == TokenV::String("180kg"@));
            assert(run_end(text, 0, CharClass::Whitespace) == 0);
            assert(token_start(text, 0) == 0);
            lemma_string_closes(text, 1, 6);
            assert(text.subrange(1, 6) =~= "180kg"@);
            lemma_unescape_plain("180kg"@);
        },
    }
}

/// An escaped text that a double quote follows is the body of a string literal,
/// wherever it stands: the scan for the end of the literal stops at that quote.
pub proof fn lemma_escaped_text_closes(input: Seq<char>, pos: nat, text: Seq<char>)
    requires
        pos + spec_escape(text).len() < input.len(),
        input.subrange(pos as int, (pos + spec_escape(text).len()) as int) == spec_escape(text),
        input[(pos + spec_escape(text).len()) as int] == '"',
    ensures
        string_end(input, pos, false) == StringEnd::Closed(pos + spec_escape(text).len()),
    decreases text.len(),
{
    let escaped = spec_escape(text);
    let start = pos as int;
    if text.len() > 0 {
        let head = spec_escape_char(text[0]);
        let rest = spec_escape(text.skip(1));
        assert(escaped == head + rest);
        assert(input[start] == escaped[0]);
        assert(input.subrange(start + head.len(), start + escaped.len()) =~= rest) by {
            assert forall|k: int| 0 <= k < rest.len() implies input[start + head.len() + k]
                == rest[k] by {
                assert(input[start + head.len() + k] == escaped[head.len() + k]);
            }
        }
        lemma_escaped_text_closes(input, pos + head.len(), text.skip(1));
        if head.len() == 2 {
            assert(input[start + 1] == escaped[1]);
            assert(string_end(input, pos, false) == string_end(input, pos + 1, true));
            assert(string_end(input, pos + 1, true) == string_end(input, pos + 2, false));
        } else {
            assert(string_end(input, pos, false) == string_end(input, pos + 1, false));
        }
    } else {
        assert(escaped.len() == 0);
    }
}

/// What is written can be read: the quoted form of any text, as the evaluator
/// renders a string, is lexed as a string literal that holds the text.
pub proof fn lemma_quoted_text_is_lexed_back(text: Seq<char>)
    ensures
        spec_lex(spec_quote(text), 0) == (Lexed {
            token: TokenV::String(text),
            next: spec_quote(text).len(),
        }),
{
    let quoted = spec_quote(text);
    let escaped = spec_escape(text);
    let n = escaped.len() as int;
    assert(quoted.len() == n + 2);
    assert(quoted[0] == '"');
    assert(quoted[n + 1] == '"');
    assert(quoted.subrange(1, 1 + n) =~= escaped);
    lemma_escaped_text_closes(quoted, 1, text);
    lemma_unescape_escape(text);
    assert(run_end(quoted, 0, CharClass::Whitespace) == 0);
    assert(token_start(quoted, 0) == 0);
}

} // verus!
