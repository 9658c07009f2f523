//! Escape sequences of string literals, in both directions.

use vstd::prelude::*;
use vstd::std_specs::iter::IteratorSpec;

verus! {

/// The character that a backslash followed by `c` stands for. A backslash before a
/// character without a special meaning stands for that character itself.
pub open spec fn spec_unescape_char(c: char) -> char {
    if c == 'n' {
        '\n'
    } else if c == 't' {
        '\t'
    } else if c == 'r' {
        '\r'
    } else if c == '0' {
        '\0'
    } else {
        c
    }
}

/// The text that the body of a string literal stands for: every backslash is dropped
/// and the character after it is replaced by what the pair stands for. A backslash
/// at the very end stays.
pub open spec fn spec_unescape(s: Seq<char>) -> Seq<char>
    decreases s.len(),
{
    if s.len() == 0 {
        s
    } else if s[0] == '\\' && s.len() >= 2 {
        seq![spec_unescape_char(s[1])] + spec_unescape(s.skip(2))
    } else {
        seq![s[0]] + spec_unescape(s.skip(1))
    }
}

/// How one character is written inside a quoted string.
pub open spec fn spec_escape_char(c: char) -> Seq<char> {
    if c == '\n' {
        seq!['\\', 'n']
    } else if c == '\t' {
        seq!['\\', 't']
    } else if c == '\r' {
        seq!['\\', 'r']
    } else if c == '\0' {
        seq!['\\', '0']
    } else if c == '"' {
        seq!['\\', '"']
    } else if c == '\\' {
        seq!['\\', '\\']
    } else {
        seq![c]
    }
}

/// The escaped form of a text, without surrounding quotes.
pub open spec fn spec_escape(s: Seq<char>) -> Seq<char>
    decreases s.len(),
{
    if s.len() == 0 {
        s
    } else {
        spec_escape_char(s[0]) + spec_escape(s.skip(1))
    }
}

/// The quoted form of a text: a double quote, the escaped text, a double quote.
pub open spec fn spec_quote(s: Seq<char>) -> Seq<char> {
    seq!['"'] + spec_escape(s) + seq!['"']
}

/// Unescaping undoes escaping, for every text.
pub proof fn lemma_unescape_escape(s: Seq<char>)
    ensures
        spec_unescape(spec_escape(s)) == s,
    decreases s.len(),
{
    if s.len() > 0 {
        let c = s[0];
        let rest = spec_escape(s.skip(1));
        let e = spec_escape(s);
        lemma_unescape_escape(s.skip(1));
        assert(e == spec_escape_char(c) + rest);
        if spec_escape_char(c).len() == 2 {
            assert(e[0] == '\\');
            assert(e.skip(2) =~= rest);
            assert(spec_unescape_char(e[1]) == c);
            assert(spec_unescape(e) == seq![c] + spec_unescape(rest));
        } else {
            assert(e[0] == c);
            assert(e.skip(1) =~= rest);
        }
        assert(seq![c] + s.skip(1) =~= s);
    }
}

fn unescape_char(c: char) -> (r: char)
    ensures
        r == spec_unescape_char(c),
{
    if c == 'n' {
        '\n'
    } else if c == 't' {
        '\t'
    } else if c == 'r' {
        '\r'
    } else if c == '0' {
        '\0'
    } else {
        c
    }
}

/// The text that `input[start..end]`, the body of a string literal, stands for.
pub fn unescape_range(input: &Vec<char>, start: usize, end: usize) -> (r: String)
    requires
        start <= end <= input.len(),
    ensures
        r@ == spec_unescape(input@.subrange(start as int, end as int)),
{
    let mut out = String::new();
    let mut i: usize = start;
    let ghost body = input@.subrange(start as int, end as int);
    proof {
        assert(body.skip(0) =~= body);
    }
    while i < end
        invariant
            start <= i <= end <= input.len(),
            body == input@.subrange(start as int, end as int),
            out@ + spec_unescape(body.skip(i - start)) == spec_unescape(body),
        decreases end - i,
    {
        let ghost rest = body.skip(i - start);
        let ghost before = out@;
        let c = input[i];
        assert(rest[0] == c);
        if c == '\\' && i + 1 < end {
            let d = input[i + 1];
            assert(rest[1] == d);
            assert(rest.skip(2) =~= body.skip(i + 2 - start));
            out.push(unescape_char(d));
            assert(out@ + spec_unescape(rest.skip(2)) =~= before + spec_unescape(rest));
            i += 2;
        } else {
            assert(rest.skip(1) =~= body.skip(i + 1 - start));
            out.push(c);
            assert(out@ + spec_unescape(rest.skip(1)) =~= before + spec_unescape(rest));
            i += 1;
        }
    }
    out
}

/// Appends to `out` how `c` is written inside a quoted string.
fn push_escaped(out: &mut String, c: char)
    ensures
        final(out)@ == old(out)@ + spec_escape_char(c),
{
    if c == '\n' {
        out.push('\\');
        out.push('n');
    } else if c == '\t' {
        out.push('\\');
        out.push('t');
    } else if c == '\r' {
        out.push('\\');
        out.push('r');
    } else if c == '\0' {
        out.push('\\');
        out.push('0');
    } else if c == '"' {
        out.push('\\');
        out.push('"');
    } else if c == '\\' {
        out.push('\\');
        out.push('\\');
    } else {
        out.push(c);
    }
    assert(final(out)@ =~= old(out)@ + spec_escape_char(c));
}

/// Escaping reads a text from left to right.
pub proof fn lemma_escape_push(s: Seq<char>, c: char)
    ensures
        spec_escape(s.push(c)) == spec_escape(s) + spec_escape_char(c),
    decreases s.len(),
{
    if s.len() == 0 {
        assert(s.push(c).skip(1) =~= Seq::<char>::empty());
        assert(spec_escape(s.push(c)) =~= spec_escape_char(c) + spec_escape(Seq::empty()));
        assert(spec_escape(s.push(c)) =~= spec_escape(s) + spec_escape_char(c));
    } else {
        lemma_escape_push(s.skip(1), c);
        assert(s.push(c).skip(1) =~= s.skip(1).push(c));
        assert(spec_escape(s.push(c)) =~= spec_escape(s) + spec_escape_char(c));
    }
}

/// The quoted form of `text`: in double quotes, with quotes, backslashes, line feeds,
/// tabs, carriage returns and NUL written as escape sequences.
pub fn escape_str(text: &str) -> (r: String)
    ensures
        r@ == spec_quote(text@),
{
    broadcast use vstd::string::group_string_axioms;

    let mut out = String::new();
    out.push('"');
    let ghost mut seen: Seq<char> = Seq::empty();
    for c in it: text.chars()
        invariant
            it.seq() == text@,
            seen == it.seq().take(it.index() as int),
            out@ == seq!['"'] + spec_escape(seen),
    {
        push_escaped(&mut out, c);
        proof {
            lemma_escape_push(seen, c);
            assert(it.seq().take(it.index() + 1) =~= seen.push(c));
            seen = seen.push(c);
            assert(out@ =~= seq!['"'] + spec_escape(seen));
        }
    }
    assert(seen =~= text@);
    out.push('"');
    assert(out@ =~= spec_quote(text@));
    out
}

} // verus!
