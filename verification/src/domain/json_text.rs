//! Text in JSON reports.

use vstd::prelude::*;
use vstd::string::*;

use crate::text::{chars_of, text};

verus! {

/// A digit of a hexadecimal number.
pub open spec fn hex_digit(n: int) -> char {
    if n < 10 {
        ('0' as u32 + n) as char
    } else {
        ('a' as u32 + (n - 10)) as char
    }
}

/// A character as it stands in a JSON string. Control characters without a short form are
/// written by number, where `full` says so.
pub open spec fn escaped_char(c: char, full: bool) -> Seq<char> {
    if c == '"' {
        seq!['\\', '"']
    } else if c == '\\' {
        seq!['\\', '\\']
    } else if c == '\n' {
        seq!['\\', 'n']
    } else if c == '\r' {
        seq!['\\', 'r']
    } else if c == '\t' {
        seq!['\\', 't']
    } else if full && (c as int) < 0x20 {
        seq!['\\', 'u', '0', '0', hex_digit(c as int / 16), hex_digit(c as int % 16)]
    } else {
        seq![c]
    }
}

/// A text as it stands in a JSON string.
pub open spec fn escaped(s: Seq<char>, full: bool) -> Seq<char>
    decreases s.len(),
{
    if s.len() == 0 {
        seq![]
    } else {
        escaped_char(s[0], full) + escaped(s.skip(1), full)
    }
}

/// A text as a JSON string.
pub open spec fn quoted(s: Seq<char>, full: bool) -> Seq<char> {
    "\""@ + escaped(s, full) + "\""@
}

fn push_hex(out: &mut String, n: u32)
    requires
        n < 16,
    ensures
        final(out)@ == old(out)@.push(hex_digit(n as int)),
{
    let c: char = if n == 0 {
        '0'
    } else if n == 1 {
        '1'
    } else if n == 2 {
        '2'
    } else if n == 3 {
        '3'
    } else if n == 4 {
        '4'
    } else if n == 5 {
        '5'
    } else if n == 6 {
        '6'
    } else if n == 7 {
        '7'
    } else if n == 8 {
        '8'
    } else if n == 9 {
        '9'
    } else if n == 10 {
        'a'
    } else if n == 11 {
        'b'
    } else if n == 12 {
        'c'
    } else if n == 13 {
        'd'
    } else if n == 14 {
        'e'
    } else {
        'f'
    };
    out.push(c);
}

fn push_escaped(out: &mut String, c: char, full: bool)
    ensures
        final(out)@ == old(out)@ + escaped_char(c, full),
{
    let ghost start = out@;
    if c == '"' {
        out.push('\\');
        out.push('"');
    } else if c == '\\' {
        out.push('\\');
        out.push('\\');
    } else if c == '\n' {
        out.push('\\');
        out.push('n');
    } else if c == '\r' {
        out.push('\\');
        out.push('r');
    } else if c == '\t' {
        out.push('\\');
        out.push('t');
    } else if full && (c as u32) < 0x20 {
        out.push('\\');
        out.push('u');
        out.push('0');
        out.push('0');
        push_hex(out, c as u32 / 16);
        push_hex(out, c as u32 % 16);
    } else {
        out.push(c);
    }
    assert(out@ =~= start + escaped_char(c, full));
}

/// Writes a text as it stands in a JSON string.
pub fn escape_json(value: &str, full: bool) -> (r: String)
    ensures
        r@ == escaped(value@, full),
{
    let x = chars_of(value);
    let mut out = String::new();
    let mut i: usize = 0;
    assert(x@.skip(0) =~= x@);
    assert(out@ + escaped(x@, full) =~= escaped(x@, full));
    while i < x.len()
        invariant
            i <= x@.len(),
            x@ == value@,
            out@ + escaped(x@.skip(i as int), full) == escaped(value@, full),
        decreases x@.len() - i,
    {
        let ghost done = out@;
        let ghost rest = x@.skip(i as int);
        push_escaped(&mut out, x[i], full);
        assert(rest.skip(1) =~= x@.skip(i + 1));
        assert(out@ + escaped(rest.skip(1), full) =~= done + escaped(rest, full));
        i += 1;
    }
    assert(out@ + escaped(x@.skip(i as int), full) =~= out@);
    out
}

/// Writes a text as a JSON string.
pub fn quote(value: &str, full: bool) -> (r: String)
    ensures
        r@ == quoted(value@, full),
{
    let mut out = text("\"");
    let inner = escape_json(value, full);
    out.append(inner.as_str());
    out.append("\"");
    out
}

/// The value of a hexadecimal digit.
pub open spec fn hex_value(c: char) -> int {
    if '0' <= c && c <= '9' {
        c as u32 - '0' as u32
    } else {
        c as u32 - 'a' as u32 + 10
    }
}

/// The text that a JSON string stands for.
pub open spec fn unescaped(t: Seq<char>) -> Seq<char>
    decreases t.len(),
{
    if t.len() == 0 {
        seq![]
    } else if t[0] != '\\' || t.len() < 2 {
        seq![t[0]] + unescaped(t.skip(1))
    } else if t[1] == 'n' {
        seq!['\n'] + unescaped(t.skip(2))
    } else if t[1] == 'r' {
        seq!['\r'] + unescaped(t.skip(2))
    } else if t[1] == 't' {
        seq!['\t'] + unescaped(t.skip(2))
    } else if t[1] == 'u' && t.len() >= 6 {
        seq![
            (hex_value(t[2]) * 4096 + hex_value(t[3]) * 256 + hex_value(t[4]) * 16 + hex_value(
                t[5],
            )) as char,
        ] + unescaped(t.skip(6))
    } else {
        seq![t[1]] + unescaped(t.skip(2))
    }
}

/// A text reads back from its form in a JSON string.
pub proof fn escaped_text_reads_back(s: Seq<char>, full: bool)
    ensures
        unescaped(escaped(s, full)) == s,
    decreases s.len(),
{
    if s.len() > 0 {
        let c = s[0];
        let rest = escaped(s.skip(1), full);
        let t = escaped(s, full);
        escaped_text_reads_back(s.skip(1), full);
        assert(t == escaped_char(c, full) + rest);
        assert(seq![c] + s.skip(1) =~= s);
        if c == '"' || c == '\\' || c == '\n' || c == '\r' || c == '\t' {
            assert(t.skip(2) =~= rest);
        } else if full && (c as int) < 0x20 {
            let n = c as int;
            let e = escaped_char(c, full);
            assert(t.skip(6) =~= rest);
            assert(e.len() == 6);
            assert(t[0] == e[0] && t[1] == e[1] && t[2] == e[2] && t[3] == e[3] && t[4] == e[4]
                && t[5] == e[5]);
            char_is_natural(c);
            hex_reads_back(n / 16);
            hex_reads_back(n % 16);
            assert(n == hex_value(t[4]) * 16 + hex_value(t[5]));
            assert(hex_value('0') == 0);
            assert(n as char == c);
        } else {
            assert(t.skip(1) =~= rest);
        }
    } else {
        assert(escaped(s, full) =~= s);
    }
}

proof fn char_is_natural(c: char)
    ensures
        0 <= c as int,
{
}

proof fn hex_reads_back(n: int)
    requires
        0 <= n < 16,
    ensures
        hex_value(hex_digit(n)) == n,
{
}

} // verus!
