//! The two keyword lexicons. Both map to the same tokens.

use crate::token::{Token, TokenV};
use vstd::prelude::*;
use vstd::string::StrSliceExecFns;
use vstd::string::StringExecFns;

verus! {

/// The token that a word of the plain lexicon stands for.
pub open spec fn plain_keyword(word: Seq<char>) -> Option<TokenV> {
    if word == "fn"@ {
        Some(TokenV::Func)
    } else if word == "let"@ {
        Some(TokenV::Let)
    } else if word == "true"@ {
        Some(TokenV::Bool(true))
    } else if word == "false"@ {
        Some(TokenV::Bool(false))
    } else if word == "if"@ {
        Some(TokenV::If)
    } else if word == "while"@ {
        Some(TokenV::While)
    } else if word == "break"@ {
        Some(TokenV::Break)
    } else if word == "continue"@ {
        Some(TokenV::Continue)
    } else if word == "else"@ {
        Some(TokenV::Else)
    } else if word == "return"@ {
        Some(TokenV::Return)
    } else {
        None
    }
}

/// The token that a word of the slang lexicon stands for. Some of its words stand for
/// operators, and one for a string literal.
pub open spec fn slang_keyword(word: Seq<char>) -> Option<TokenV> {
    if word == "想要你一个态度"@ {
        Some(TokenV::Func)
    } else if word == "宝宝你是一个"@ {
        Some(TokenV::Let)
    } else if word == "那么普通却那么自信"@ {
        Some(TokenV::Bool(true))
    } else if word == "那咋了"@ {
        Some(TokenV::Bool(false))
    } else if word == "姐妹们觉得呢"@ || word == "抛开事实不谈"@ {
        Some(TokenV::If)
    } else if word == "那能一样吗"@ || word == "我接受不等于我同意"@ {
        Some(TokenV::Else)
    } else if word == "你再说一遍"@ {
        Some(TokenV::While)
    } else if word == "下头"@ {
        Some(TokenV::Break)
    } else if word == "反手举报"@ {
        Some(TokenV::Return)
    } else if word == "我同意"@ || word == "我接受"@ {
        Some(TokenV::Equal)
    } else if word == "拼单"@ || word == "接"@ {
        Some(TokenV::Plus)
    } else if word == "差异"@ {
        Some(TokenV::Minus)
    } else if word == "种草"@ {
        Some(TokenV::Asterisk)
    } else if word == "踩雷"@ || word == "避雷"@ {
        Some(TokenV::Slash)
    } else if word == "微胖"@ {
        Some(TokenV::String("180kg"@))
    } else {
        None
    }
}

/// The token that a word stands for in either lexicon, the plain one first.
pub open spec fn keyword(word: Seq<char>) -> Option<TokenV> {
    match plain_keyword(word) {
        Some(t) => Some(t),
        None => slang_keyword(word),
    }
}

/// Whether `input[start..end]` spells `word`.
pub fn spells(input: &Vec<char>, start: usize, end: usize, word: &str) -> (r: bool)
    requires
        start <= end <= input.len(),
    ensures
        r == (input@.subrange(start as int, end as int) == word@),
{
    let n = word.unicode_len();
    if n != end - start {
        return false;
    }
    let mut i: usize = 0;
    while i < n
        invariant
            start <= end <= input.len(),
            n == end - start,
            n == word@.len(),
            i <= n,
            forall|j: int| 0 <= j < i ==> input@[start + j] == word@[j],
        decreases n - i,
    {
        if input[start + i] != word.get_char(i) {
            assert(input@.subrange(start as int, end as int)[i as int] != word@[i as int]);
            return false;
        }
        i += 1;
    }
    assert(input@.subrange(start as int, end as int) =~= word@);
    true
}

/// Looks `input[start..end]` up in the plain lexicon.
pub fn lookup_plain(input: &Vec<char>, start: usize, end: usize) -> (r: Option<Token>)
    requires
        start <= end <= input.len(),
    ensures
        match r {
            Some(t) => plain_keyword(input@.subrange(start as int, end as int)) == Some(t@),
            None => plain_keyword(input@.subrange(start as int, end as int)) is None,
        },
{
    if spells(input, start, end, "fn") {
        Some(Token::Func)
    } else if spells(input, start, end, "let") {
        Some(Token::Let)
    } else if spells(input, start, end, "true") {
        Some(Token::Bool(true))
    } else if spells(input, start, end, "false") {
        Some(Token::Bool(false))
    } else if spells(input, start, end, "if") {
        Some(Token::If)
    } else if spells(input, start, end, "while") {
        Some(Token::While)
    } else if spells(input, start, end, "break") {
        Some(Token::Break)
    } else if spells(input, start, end, "continue") {
        Some(Token::Continue)
    } else if spells(input, start, end, "else") {
        Some(Token::Else)
    } else if spells(input, start, end, "return") {
        Some(Token::Return)
    } else {
        None
    }
}

/// Looks `input[start..end]` up in the slang lexicon.
pub fn lookup_slang(input: &Vec<char>, start: usize, end: usize) -> (r: Option<Token>)
    requires
        start <= end <= input.len(),
    ensures
        match r {
            Some(t) => slang_keyword(input@.subrange(start as int, end as int)) == Some(t@),
            None => slang_keyword(input@.subrange(start as int, end as int)) is None,
        },
{
    if spells(input, start, end, "想要你一个态度") {
        Some(Token::Func)
    } else if spells(input, start, end, "宝宝你是一个") {
        Some(Token::Let)
    } else if spells(input, start, end, "那么普通却那么自信") {
        Some(Token::Bool(true))
    } else if spells(input, start, end, "那咋了") {
        Some(Token::Bool(false))
    } else if spells(input, start, end, "姐妹们觉得呢") || spells(
        input,
        start,
        end,
        "抛开事实不谈",
    ) {
        Some(Token::If)
    } else if spells(input, start, end, "那能一样吗") || spells(
        input,
        start,
        end,
        "我接受不等于我同意",
    ) {
        Some(Token::Else)
    } else if spells(input, start, end, "你再说一遍") {
        Some(Token::While)
    } else if spells(input, start, end, "下头") {
        Some(Token::Break)
    } else if spells(input, start, end, "反手举报") {
        Some(Token::Return)
    } else if spells(input, start, end, "我同意") || spells(input, start, end, "我接受") {
        Some(Token::Equal)
    } else if spells(input, start, end, "拼单") || spells(input, start, end, "接") {
        Some(Token::Plus)
    } else if spells(input, start, end, "差异") {
        Some(Token::Minus)
    } else if spells(input, start, end, "种草") {
        Some(Token::Asterisk)
    } else if spells(input, start, end, "踩雷") || spells(input, start, end, "避雷") {
        Some(Token::Slash)
    } else if spells(input, start, end, "微胖") {
        Some(Token::String(String::from_str("180kg")))
    } else {
        None
    }
}

/// Looks `input[start..end]` up in both lexicons.
pub fn lookup_keyword(input: &Vec<char>, start: usize, end: usize) -> (r: Option<Token>)
    requires
        start <= end <= input.len(),
    ensures
        match r {
            Some(t) => keyword(input@.subrange(start as int, end as int)) == Some(t@),
            None => keyword(input@.subrange(start as int, end as int)) is None,
        },
{
    match lookup_plain(input, start, end) {
        Some(t) => Some(t),
        None => lookup_slang(input, start, end),
    }
}

} // verus!
