//! What is read from the text with which the hook reports its health.

use vstd::prelude::*;

use crate::protocol::json::{
    is_blank, json_string, object_ends, past_blank, past_value, string_rest, top_level_field,
};

verus! {

/// A text of printable characters that needs no escapes, as bytes.
pub open spec fn plain_bytes(s: Seq<char>) -> Seq<u8> {
    s.map_values(|c: char| c as u8)
}

/// A text of printable characters that needs no escapes.
pub open spec fn is_simple(s: Seq<char>) -> bool {
    forall|k: int|
        0 <= k < s.len() ==> ' ' <= #[trigger] s[k] <= '~' && s[k] != '"' && s[k] != '\\'
}

/// A text in quotes, as bytes.
pub open spec fn in_quotes(s: Seq<char>) -> Seq<u8> {
    seq![0x22u8] + plain_bytes(s) + seq![0x22u8]
}

proof fn strings_are_read(b: Seq<u8>, i: int, s: Seq<char>, done: Seq<char>)
    requires
        is_simple(s),
        0 <= i,
        i + s.len() + 1 <= b.len(),
        b.subrange(i, i + s.len() as int) == plain_bytes(s),
        b[i + s.len()] == 0x22,
    ensures
        string_rest(b, i, done) == Some((i + s.len() + 1, done + s)),
    decreases s.len(),
{
    if s.len() == 0 {
        assert(done + s =~= done);
    } else {
        let part = b.subrange(i, i + s.len() as int);
        assert(part[0] == b[i]);
        assert(plain_bytes(s)[0] == s[0] as u8);
        let rest = s.skip(1);
        assert(b.subrange(i + 1, i + 1 + rest.len() as int) =~= plain_bytes(rest)) by {
            assert forall|k: int| 0 <= k < rest.len() implies b[i + 1 + k] == rest[k] as u8 by {
                assert(part[k + 1] == plain_bytes(s)[k + 1]);
            }
        }
        assert(b[i] as char == s[0]);
        strings_are_read(b, i + 1, rest, done.push(s[0]));
        assert(done.push(s[0]) + rest =~= done + s);
    }
}

proof fn quoted_strings_are_read(b: Seq<u8>, i: int, s: Seq<char>)
    requires
        is_simple(s),
        0 <= i,
        i + s.len() + 2 <= b.len(),
        b.subrange(i, i + s.len() + 2) == in_quotes(s),
    ensures
        json_string(b, i) == Some((i + s.len() + 2, s)),
        b[i] == 0x22,
{
    let part = b.subrange(i, i + s.len() + 2);
    assert(part[0] == 0x22 && b[i] == part[0]);
    let end = s.len() as int + 1;
    assert(part[end] == 0x22 && b[i + end] == part[end]);
    assert(b.subrange(i + 1, i + 1 + s.len() as int) =~= plain_bytes(s)) by {
        assert forall|k: int| 0 <= k < s.len() implies b[i + 1 + k] == plain_bytes(s)[k] by {
            assert(part[k + 1] == b[i + 1 + k]);
            assert(in_quotes(s)[k + 1] == plain_bytes(s)[k]);
        }
    }
    strings_are_read(b, i + 1, s, seq![]);
    assert(Seq::<char>::empty() + s =~= s);
}

/// One member of an object: a name, a colon and a text.
pub open spec fn member(name: Seq<char>, value: Seq<char>) -> Seq<u8> {
    in_quotes(name) + seq![0x3au8] + in_quotes(value)
}

/// A field of the report is the text that stands behind its name; without the name there is no
/// such field; and a report that goes on after its end is none.
#[verifier::rlimit(60)]
#[verifier::spinoff_prover]
pub proof fn fields_stand_behind_their_name(
    name: Seq<char>,
    value: Seq<char>,
    field: Seq<char>,
    more: u8,
)
    requires
        is_simple(name),
        is_simple(value),
        !is_blank(more),
    ensures
        ({
            let b = seq![0x7bu8] + member(name, value) + seq![0x7du8];
            &&& name == field ==> top_level_field(b, field) == Some(Some(value))
            &&& name != field ==> top_level_field(b, field) == Some(None::<Seq<char>>)
            &&& top_level_field(b.push(more), field) is None
        }),
{
    let b = seq![0x7bu8] + member(name, value) + seq![0x7du8];
    let n = name.len() as int + value.len() + 7;
    assert(b.len() == n);
    assert(b.subrange(0, n) =~= b);
    one_member(b, name, value, field);
    let c = b.push(more);
    assert(c.subrange(0, n) =~= b);
    one_member(c, name, value, field);
    ends_are_ends(b, c, n, more);
}

proof fn ends_are_ends(b: Seq<u8>, c: Seq<u8>, n: int, more: u8)
    requires
        b.len() == n,
        c == b.push(more),
        !is_blank(more),
    ensures
        past_blank(b, n) == n,
        past_blank(c, n) == n,
        c.len() == n + 1,
{
}

#[verifier::rlimit(60)]
#[verifier::spinoff_prover]
proof fn one_member(b: Seq<u8>, name: Seq<char>, value: Seq<char>, field: Seq<char>)
    requires
        is_simple(name),
        is_simple(value),
        b.len() >= name.len() + value.len() + 7,
        b.subrange(0, name.len() as int + value.len() + 7) == seq![0x7bu8] + member(name, value) + seq![
            0x7du8,
        ],
    ensures
        top_level_field(b, field) == object_ends(
            b,
            name.len() as int + value.len() + 6,
            if name == field {
                Some(value)
            } else {
                None
            },
        ),
{
    let whole = seq![0x7bu8] + member(name, value) + seq![0x7du8];
    let n = name.len() as int;
    let v = value.len() as int;
    assert forall|k: int| 0 <= k < n + v + 7 implies b[k] == whole[k] by {
        assert(b.subrange(0, n + v + 7)[k] == whole[k]);
    }
    assert(b[0] == 0x7b);
    assert(b.subrange(1, 1 + n + 2) =~= in_quotes(name));
    quoted_strings_are_read(b, 1, name);
    let k = n + 3;
    assert(b[k] == 0x3a);
    assert(b.subrange(k + 1, k + 1 + v + 2) =~= in_quotes(value));
    quoted_strings_are_read(b, k + 1, value);
    assert(b[n + v + 6] == 0x7d);
    assert(past_blank(b, 0) == 0);
    assert(past_blank(b, 1) == 1);
    assert(past_blank(b, k) == k);
    assert(past_blank(b, k + 1) == k + 1);
    assert(past_blank(b, n + v + 6) == n + v + 6);
    assert(past_value(b, k + 1, 0) == Some(n + v + 6));
}

} // verus!
