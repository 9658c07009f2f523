//! Character classes of the lexer.

use vstd::prelude::*;

verus! {

/// Pattern whitespace without the line feed, which the lexer treats on its own.
pub open spec fn spec_is_whitespace(c: char) -> bool {
    c == '\u{0009}' || c == '\u{000B}' || c == '\u{000C}' || c == '\u{000D}' || c == '\u{0020}'
        || c == '\u{0085}' || c == '\u{200E}' || c == '\u{200F}' || c == '\u{2028}' || c
        == '\u{2029}'
}

/// Characters outside ASCII that may be part of an emoji sequence.
pub open spec fn spec_is_emoji_like(c: char) -> bool {
    c >= '\u{7f}' && (c == '\u{200D}' || c == '\u{FE0F}' || c == '\u{FE0E}' || ('\u{1F000}' <= c
        && c <= '\u{1FAFF}') || c == '\u{2139}' || ('\u{2190}' <= c && c <= '\u{21FF}') || (
    '\u{2300}' <= c && c <= '\u{23FF}') || ('\u{25A0}' <= c && c <= '\u{25FF}') || ('\u{2600}' <= c
        && c <= '\u{26FF}') || ('\u{2700}' <= c && c <= '\u{27FF}'))
}

pub open spec fn spec_is_ascii_letter(c: char) -> bool {
    ('a' <= c && c <= 'z') || ('A' <= c && c <= 'Z')
}

pub open spec fn spec_is_digit(c: char) -> bool {
    '0' <= c && c <= '9'
}

/// The Unicode property XID_Start of a character, as the `unicode-xid` tables give it.
pub uninterp spec fn xid_start_of(c: char) -> bool;

/// The Unicode property XID_Continue of a character, as the `unicode-xid` tables give it.
pub uninterp spec fn xid_continue_of(c: char) -> bool;

/// Characters that may begin an identifier: ASCII letters, `_`, `$`, the yen sign,
/// XID_Start outside ASCII, and emoji-like characters.
pub open spec fn spec_is_id_start(c: char) -> bool {
    spec_is_ascii_letter(c) || c == '_' || c == '$' || c == '\u{a5}' || (c > '\u{7f}'
        && xid_start_of(c)) || spec_is_emoji_like(c)
}

/// Characters that may continue an identifier: those that may begin one, ASCII digits
/// and XID_Continue outside ASCII.
pub open spec fn spec_is_id_continue(c: char) -> bool {
    spec_is_ascii_letter(c) || spec_is_digit(c) || c == '_' || c == '$' || c == '\u{a5}' || (c
        > '\u{7f}' && xid_continue_of(c)) || spec_is_emoji_like(c)
}

/// Trusted: calls `unicode_xid::UnicodeXID::is_xid_start` on `c`; the result is
/// named, not described.
#[verifier::external_body]
fn xid_start(c: char) -> (r: bool)
    ensures
        r == xid_start_of(c),
{
    unicode_xid::UnicodeXID::is_xid_start(c)
}

/// Trusted: calls `unicode_xid::UnicodeXID::is_xid_continue` on `c`; the result is
/// named, not described.
#[verifier::external_body]
fn xid_continue(c: char) -> (r: bool)
    ensures
        r == xid_continue_of(c),
{
    unicode_xid::UnicodeXID::is_xid_continue(c)
}

/// Whether `c` is whitespace for the lexer. The line feed is not.
pub fn is_whitespace(c: char) -> (r: bool)
    ensures
        r == spec_is_whitespace(c),
{
    c == '\u{0009}' || c == '\u{000B}' || c == '\u{000C}' || c == '\u{000D}' || c == '\u{0020}'
        || c == '\u{0085}' || c == '\u{200E}' || c == '\u{200F}' || c == '\u{2028}' || c
        == '\u{2029}'
}

/// Whether `c` may show up in an emoji sequence.
pub fn is_emoji_like(c: char) -> (r: bool)
    ensures
        r == spec_is_emoji_like(c),
{
    if '\u{7f}' > c {
        false
    } else {
        c == '\u{200D}' || c == '\u{FE0F}' || c == '\u{FE0E}' || ('\u{1F000}' <= c && c
            <= '\u{1FAFF}') || c == '\u{2139}' || ('\u{2190}' <= c && c <= '\u{21FF}') || (
        '\u{2300}' <= c && c <= '\u{23FF}') || ('\u{25A0}' <= c && c <= '\u{25FF}') || ('\u{2600}'
            <= c && c <= '\u{26FF}') || ('\u{2700}' <= c && c <= '\u{27FF}')
    }
}

fn is_ascii_letter(c: char) -> (r: bool)
    ensures
        r == spec_is_ascii_letter(c),
{
    ('a' <= c && c <= 'z') || ('A' <= c && c <= 'Z')
}

/// Whether `c` is an ASCII decimal digit.
pub fn is_digit(c: char) -> (r: bool)
    ensures
        r == spec_is_digit(c),
{
    '0' <= c && c <= '9'
}

/// Whether `c` may begin an identifier.
pub fn is_id_start(c: char) -> (r: bool)
    ensures
        r == spec_is_id_start(c),
{
    is_ascii_letter(c) || c == '_' || c == '$' || c == '\u{a5}' || (c > '\u{7f}' && xid_start(c))
        || is_emoji_like(c)
}

/// Whether `c` may continue an identifier.
pub fn is_id_continue(c: char) -> (r: bool)
    ensures
        r == spec_is_id_continue(c),
{
    is_ascii_letter(c) || is_digit(c) || c == '_' || c == '$' || c == '\u{a5}' || (c > '\u{7f}'
        && xid_continue(c)) || is_emoji_like(c)
}

} // verus!
