//! Names of applications that the manager sends.

use vstd::prelude::*;
use vstd::string::*;
use vstd::utf8::{decode_utf8, valid_utf8};

use crate::text::{
    char_is_space, chars_of, decimal, is_space, join, join_strings, lines, lossy, lossy_text,
    number, split_lines, string_range, text, texts, trim, trimmed,
};

verus! {

/// The position of the first space.
pub open spec fn space_index(s: Seq<char>, from: int) -> int
    decreases s.len() - from,
{
    if from >= s.len() {
        s.len() as int
    } else if from >= 0 && is_space(s[from]) {
        from
    } else {
        space_index(s, from + 1)
    }
}

/// The name on a line: what follows the first word.
pub open spec fn label_of(line: Seq<char>) -> Option<Seq<char>> {
    let t = trim(line);
    let i = space_index(t, 0);
    if i >= t.len() {
        None
    } else {
        let label = trim(t.skip(i + 1));
        if label.len() == 0 {
            None
        } else {
            Some(label)
        }
    }
}

fn read_label(line: &str) -> (r: Option<String>)
    ensures
        match r {
            Some(s) => label_of(line@) == Some(s@),
            None => label_of(line@) is None,
        },
{
    let t = trimmed(line);
    let x = chars_of(t.as_str());
    let mut i: usize = 0;
    while i < x.len() && !char_is_space(x[i])
        invariant
            i <= x@.len(),
            space_index(x@, 0) == space_index(x@, i as int),
        decreases x@.len() - i,
    {
        i += 1;
    }
    if i >= x.len() {
        return None;
    }
    let rest = string_range(&x, i + 1, x.len());
    assert(rest@ =~= x@.skip(i + 1));
    let label = trimmed(rest.as_str());
    if label.as_str().is_empty() {
        None
    } else {
        Some(label)
    }
}

/// The names on lines.
pub open spec fn labels_of(rows: Seq<Seq<char>>) -> Seq<Seq<char>>
    decreases rows.len(),
{
    if rows.len() == 0 {
        seq![]
    } else {
        let rest = labels_of(rows.drop_last());
        match label_of(rows.last()) {
            Some(label) => rest.push(label),
            None => rest,
        }
    }
}

/// Reads the names on the lines of a text.
pub fn read_labels(s: &str) -> (r: Vec<String>)
    ensures
        texts(r@) == labels_of(lines(s@)),
{
    let rows = split_lines(s);
    let ghost all = texts(rows@);
    let mut out: Vec<String> = Vec::new();
    let mut i: usize = 0;
    assert(texts(out@) =~= labels_of(all.take(0)));
    while i < rows.len()
        invariant
            i <= rows@.len(),
            all == texts(rows@),
            texts(out@) == labels_of(all.take(i as int)),
        decreases rows@.len() - i,
    {
        assert(all.take(i + 1).drop_last() =~= all.take(i as int));
        assert(all[i as int] == rows@[i as int]@);
        match read_label(rows[i].as_str()) {
            Some(label) => {
                let ghost done = texts(out@);
                out.push(label);
                assert(texts(out@) =~= done.push(label@));
            },
            None => {},
        }
        i += 1;
    }
    assert(all.take(i as int) =~= all);
    out
}

/// Reads the names in a payload.
pub fn decode_app_label_payload(payload: &[u8]) -> (r: Vec<String>)
    ensures
        texts(r@) == labels_of(lines(lossy_text(payload@))),
        valid_utf8(payload@) ==> texts(r@) == labels_of(lines(decode_utf8(payload@))),
{
    let s = lossy(payload);
    read_labels(s.as_str())
}

/// A character that does not break a line of the log.
pub open spec fn plain_char(c: char) -> char {
    if c == '\n' || c == '\r' || c == '\t' {
        ' '
    } else {
        c
    }
}

/// A text that does not break a line of the log.
pub open spec fn plain_text(s: Seq<char>) -> Seq<char> {
    s.map_values(|c: char| plain_char(c))
}

/// Replaces what would break a line of the log by spaces.
pub fn sanitize_legacy_log_field(value: &str) -> (r: String)
    ensures
        r@ == plain_text(value@),
{
    let x = chars_of(value);
    let mut out = String::new();
    let mut i: usize = 0;
    assert(out@ =~= plain_text(value@).take(0));
    while i < x.len()
        invariant
            i <= x@.len(),
            x@ == value@,
            out@ == plain_text(value@).take(i as int),
        decreases x@.len() - i,
    {
        let c = x[i];
        out.push(
            if c == '\n' || c == '\r' || c == '\t' {
                ' '
            } else {
                c
            },
        );
        assert(out@ =~= plain_text(value@).take(i + 1));
        i += 1;
    }
    assert(out@ =~= plain_text(value@));
    out
}

/// The message about new names.
pub open spec fn label_message(labels: Seq<Seq<char>>) -> Seq<char> {
    if labels.len() == 0 {
        "更新 0 款应用名称"@
    } else {
        "更新 "@ + decimal(labels.len()) + " 款应用名称:\n\n"@ + join(
            labels.map_values(|l: Seq<char>| "["@ + plain_text(l) + "]"@),
            " "@,
        )
    }
}

/// Says which names were updated.
pub fn format_label_update_log(labels: &[String]) -> (r: String)
    ensures
        r@ == label_message(texts(labels@)),
{
    assert(texts(labels@).len() == labels@.len());
    if labels.len() == 0 {
        return text("更新 0 款应用名称");
    }
    let ghost all = texts(labels@).map_values(|l: Seq<char>| "["@ + plain_text(l) + "]"@);
    let mut parts: Vec<String> = Vec::new();
    let mut i: usize = 0;
    while i < labels.len()
        invariant
            i <= labels@.len(),
            all == texts(labels@).map_values(|l: Seq<char>| "["@ + plain_text(l) + "]"@),
            texts(parts@) == all.take(i as int),
        decreases labels@.len() - i,
    {
        let ghost done = texts(parts@);
        let mut part = text("[");
        let label = sanitize_legacy_log_field(labels[i].as_str());
        part.append(label.as_str());
        part.append("]");
        assert(texts(labels@)[i as int] == labels@[i as int]@);
        assert(part@ == all[i as int]);
        parts.push(part);
        assert(texts(parts@) =~= done.push(part@));
        assert(all.take(i + 1) =~= all.take(i as int).push(all[i as int]));
        i += 1;
    }
    assert(all.take(i as int) =~= all);
    let mut out = text("更新 ");
    let count = number(labels.len() as u128);
    out.append(count.as_str());
    out.append(" 款应用名称:\n\n");
    let joined = join_strings(parts.as_slice(), " ");
    out.append(joined.as_str());
    out
}

} // verus!
