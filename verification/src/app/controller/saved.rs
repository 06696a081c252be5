//! The configuration file and the records in memory stay in accord: what is saved is what is
//! loaded again.

use vstd::prelude::*;
use vstd::utf8::{decode_utf8, encode_utf8, valid_utf8};

use crate::app::controller::startup::{loaded_record, loaded_records, package_replies};
use crate::app::package_inventory::{first_uid, last_uid};
use crate::config::migration::{policy_line, policy_target, PolicyLine, TargetView};
use crate::app::error::ErrorView;
use crate::protocol::manager_v1::app_config::{
    config_records, five_digits, has_record, merge_keeps_other_records, merged, record_of,
    record_of_facts, switch, uid_token, NO_UID,
};
use crate::protocol::manager_v1::persistence::{
    anchor, anchors, appended, concat, either, ended, has_line, has_token, line_body, line_end,
    line_tokens, line_uids, new_line, new_lines, new_row, of_recorded, parsed_lines, placed, plan,
    policy_rows, resolved_uid, rewrite, row_tail, token_uid, tokens_of, unplaced, with_new_tokens,
    with_tokens, PlanView,
};
use crate::protocol::manager_v1::port::{read_at, write_at, ManagerEffect};
use crate::protocol::manager_v1::state::ManagerView;
use crate::protocol::manager_v1::update::records_update;
use crate::protocol::records::ManagerAppConfigRecord;
use crate::text::{
    all_digits, decimal, decimal_reads_back, digit_value, digits_value, find_from, full_lines,
    index_from, index_from_facts, is_digit, is_space, is_word, lines, lines_after_an_end,
    lines_of_an_ended_row, lines_of_an_ended_text, lines_of_an_open_row, occurs_at, parse_unsigned,
    signed_decimal, signed_reads_back, starts_with, strip_return, trim,
    trim_has_no_space_at_its_ends, trim_ignores_trailing_space, trimmed_text_stays,
    unsigned_reads_back, word_len, word_len_bounds, words, words_are_words, words_of_word,
    words_of_word_and_rest,
};

verus! {

broadcast use vstd::string::group_string_axioms;

// ---------------------------------------------------------------------------
// Lines
// ---------------------------------------------------------------------------

/// The records on the lines of a text, and nothing for the other lines.
pub open spec fn entries(text: Seq<char>) -> Seq<Option<PolicyLine>> {
    lines(text).map_values(|l: Seq<char>| policy_line(l))
}

/// A line with its end.
pub open spec fn is_full(l: Seq<char>) -> bool {
    &&& l.len() > 0
    &&& l.last() == '\n'
    &&& forall|k: int| 0 <= k < l.len() - 1 ==> l[k] != '\n'
}

/// A line without an end.
pub open spec fn is_open(l: Seq<char>) -> bool {
    &&& l.len() > 0
    &&& forall|k: int| 0 <= k < l.len() ==> l[k] != '\n'
}

/// Lines of which only the last may lack its end.
pub open spec fn line_list(rows: Seq<Seq<char>>) -> bool {
    &&& forall|i: int| 0 <= i < rows.len() - 1 ==> is_full(#[trigger] rows[i])
    &&& rows.len() > 0 ==> is_full(rows.last()) || is_open(rows.last())
}

/// The full lines of a text are its lines with their ends.
proof fn full_lines_facts(s: Seq<char>)
    ensures
        line_list(full_lines(s)),
        lines(s) == full_lines(s).map_values(|l: Seq<char>| line_body(l)),
    decreases s.len(),
{
    index_from_facts(s, '\n', 0);
    let i = index_from(s, '\n', 0);
    if s.len() == 0 {
        assert(lines(s) =~= full_lines(s).map_values(|l: Seq<char>| line_body(l)));
    } else if i >= s.len() {
        assert(full_lines(s) == seq![s]);
        assert(is_open(s));
        assert(s.last() != '\n');
        assert(lines(s) =~= full_lines(s).map_values(|l: Seq<char>| line_body(l)));
    } else {
        let first = s.take(i + 1);
        let rest = s.skip(i + 1);
        full_lines_facts(rest);
        let tail = full_lines(rest);
        let all = full_lines(s);
        assert(all == seq![first] + tail);
        assert(is_full(first));
        assert(first.take(i) =~= s.take(i));
        assert(line_body(first) =~= strip_return(s.take(i)));
        assert forall|k: int| 0 <= k < all.len() - 1 implies is_full(#[trigger] all[k]) by {
            if k > 0 {
                assert(all[k] == tail[k - 1]);
            }
        }
        if tail.len() > 0 {
            assert(all.last() == tail.last());
        }
        assert(lines(s) =~= all.map_values(|l: Seq<char>| line_body(l)));
    }
}

proof fn lines_of_one(l: Seq<char>)
    requires
        is_full(l) || is_open(l),
    ensures
        lines(l) == seq![line_body(l)],
{
    if is_full(l) {
        let row = l.drop_last();
        assert(l =~= row.push('\n'));
        lines_of_an_ended_row(row);
        assert(line_body(l) =~= strip_return(row));
    } else {
        lines_of_an_open_row(l);
        assert(l.last() != '\n');
    }
}

/// Lines one after another are the lines of the text that they make.
proof fn lines_of_list(parts: Seq<Seq<char>>)
    requires
        line_list(parts),
    ensures
        lines(concat(parts)) == parts.map_values(|l: Seq<char>| line_body(l)),
        parts.len() > 0 && is_full(parts.last()) ==> concat(parts).len() > 0 && concat(
            parts,
        ).last() == '\n',
    decreases parts.len(),
{
    if parts.len() == 0 {
        assert(lines(concat(parts)) =~= parts.map_values(|l: Seq<char>| line_body(l)));
    } else {
        let rest = parts.drop_last();
        let last = parts.last();
        assert forall|i: int| 0 <= i < rest.len() implies is_full(#[trigger] rest[i]) by {
            assert(rest[i] == parts[i]);
        }
        lines_of_list(rest);
        lines_after_an_end(concat(rest), last);
        lines_of_one(last);
        assert(concat(parts) == concat(rest) + last);
        assert(lines(concat(parts)) =~= parts.map_values(|l: Seq<char>| line_body(l)));
    }
}

/// A carriage return at the end does not matter for the record on a line.
proof fn policy_line_ignores_return(l: Seq<char>)
    ensures
        policy_line(strip_return(l)) == policy_line(l),
{
    if l.len() > 0 && l.last() == '\r' {
        let t = l.drop_last();
        assert(l =~= t.push('\r'));
        assert(is_space('\r'));
        trim_ignores_trailing_space(t, '\r');
    }
}

/// Ending a text changes no record in it.
proof fn entries_of_ended(s: Seq<char>)
    ensures
        entries(ended(s)) == entries(s),
{
    if s.len() > 0 && s.last() != '\n' {
        lines_of_an_ended_text(s);
        policy_line_ignores_return(lines(s).last());
        assert(entries(ended(s)) =~= entries(s));
    }
}

/// A row after an ended text.
proof fn entries_of_next_row(s: Seq<char>, row: Seq<char>)
    requires
        forall|k: int| 0 <= k < row.len() ==> row[k] != '\n',
    ensures
        entries(ended(s) + row.push('\n')) == entries(s).push(policy_line(row)),
{
    let e = ended(s);
    lines_after_an_end(e, row.push('\n'));
    lines_of_an_ended_row(row);
    entries_of_ended(s);
    policy_line_ignores_return(row);
    assert(entries(e + row.push('\n')) =~= entries(e).push(policy_line(row)));
}

// ---------------------------------------------------------------------------
// Rows
// ---------------------------------------------------------------------------

/// A token that can begin a row.
pub open spec fn is_token(t: Seq<char>) -> bool {
    is_word(t) && t[0] != '#'
}

/// A row that is written for a token reads back.
proof fn row_reads_back(token: Seq<char>, r: ManagerAppConfigRecord)
    requires
        is_token(token),
    ensures
        policy_line(token + row_tail(r)) == Some(
            PolicyLine { package_or_uid: token, mode: r.mode, permissive: r.permissive },
        ),
        forall|k: int| 0 <= k < (token + row_tail(r)).len() ==> (token + row_tail(r))[k] != '\n',
        (token + row_tail(r)).last() != '\r',
{
    reveal_strlit(" ");
    reveal_strlit("0");
    reveal_strlit("#");
    let mode = signed_decimal(r.mode as int);
    let on = decimal(switch(r.permissive) as nat);
    signed_reads_back(r.mode as int, i32::MIN as int, i32::MAX as int);
    unsigned_reads_back(switch(r.permissive) as nat, 1);
    let row = token + row_tail(r);
    assert(row =~= token + " "@ + (mode + " "@ + on));
    words_of_word(on);
    words_of_word_and_rest(mode, on);
    words_of_word_and_rest(token, mode + " "@ + on);
    assert(words(row) =~= seq![token, mode, on]);
    assert(row[0] == token[0]);
    assert(row.last() == on.last());
    assert(!is_space(row[0]));
    assert(is_digit(on.last()));
    trimmed_text_stays(row);
    assert(!starts_with(row, "#"@)) by {
        if starts_with(row, "#"@) {
            assert(row.take(1)[0] == '#');
        }
    }
    assert(words(row)[0] == token && words(row)[1] == mode && words(row)[2] == on);
    assert(on != "0"@ <==> r.permissive) by {
        reveal_with_fuel(decimal, 2);
        if r.permissive {
            assert(on[0] == '1');
        } else {
            assert(on =~= "0"@);
        }
    }
    assert forall|k: int| 0 <= k < row.len() implies row[k] != '\n' by {
        let a = token.len() as int;
        let b = a + 1 + mode.len() as int;
        if k < a {
            assert(!is_space(token[k]));
            assert(row[k] == token[k]);
        } else if k == a {
            assert(row[k] == ' ');
        } else if k < b {
            assert(row[k] == mode[k - a - 1]);
        } else if k == b {
            assert(row[k] == ' ');
        } else {
            assert(row[k] == on[k - b - 1]);
        }
    }
}

/// The token of a record on a line can begin a row.
proof fn policy_tokens(l: Seq<char>)
    ensures
        policy_line(l) matches Some(p) ==> is_token(p.package_or_uid),
{
    if policy_line(l) is Some {
        reveal_strlit("#");
        let t = trim(l);
        trim_has_no_space_at_its_ends(l);
        words_are_words(t);
        let w = words(t)[0];
        assert(words(t) == seq![t.take(word_len(t))] + words(t.skip(word_len(t))));
        word_len_bounds(t);
        assert(is_word(w));
        assert(w[0] == t[0]);
        if t[0] == '#' {
            assert(t.take(1) =~= "#"@);
            assert(starts_with(t, "#"@));
        }
    }
}

/// The digits of a uid, filled up to five.
proof fn five_digits_read_back(n: nat)
    requires
        n <= u32::MAX,
    ensures
        all_digits(five_digits(n)),
        five_digits(n).len() > 0,
        parse_unsigned(five_digits(n), u32::MAX as nat) == Some(n),
{
    reveal_strlit("0000");
    reveal_strlit("000");
    reveal_strlit("00");
    reveal_strlit("0");
    decimal_reads_back(n);
    let d = decimal(n);
    let zeros: Seq<char> = if n < 10 {
        "0000"@
    } else if n < 100 {
        "000"@
    } else if n < 1000 {
        "00"@
    } else if n < 10000 {
        "0"@
    } else {
        seq![]
    };
    assert(five_digits(n) =~= zeros + d);
    assert forall|i: int| 0 <= i < zeros.len() implies zeros[i] == '0' by {}
    leading_zeros(zeros, d);
    assert forall|i: int| 0 <= i < five_digits(n).len() implies is_digit(
        #[trigger] five_digits(n)[i],
    ) by {
        if i < zeros.len() {
            assert(five_digits(n)[i] == zeros[i]);
        } else {
            assert(five_digits(n)[i] == d[i - zeros.len()]);
        }
    }
    assert(is_digit(five_digits(n)[0]));
}

proof fn leading_zeros(zeros: Seq<char>, d: Seq<char>)
    requires
        forall|i: int| 0 <= i < zeros.len() ==> zeros[i] == '0',
    ensures
        digits_value(zeros + d) == digits_value(d),
    decreases zeros.len() + d.len(),
{
    if d.len() > 0 {
        assert((zeros + d).drop_last() =~= zeros + d.drop_last());
        leading_zeros(zeros, d.drop_last());
    } else if zeros.len() > 0 {
        assert(zeros + d =~= zeros);
        let rest = zeros.drop_last();
        leading_zeros(rest, d);
        assert(rest + d =~= rest);
        assert(zeros.last() == '0');
        assert(digit_value('0') == 0);
    } else {
        assert(zeros + d =~= d);
    }
}

/// The token of a uid stands for the uid.
proof fn uid_token_reads_back(uid: u32)
    ensures
        is_token(uid_token(uid)),
        policy_target(uid_token(uid)) == Some(TargetView::Uid(uid)),
{
    reveal_strlit("uid");
    let a = five_digits(uid as nat);
    let b = decimal(uid as nat);
    let t = uid_token(uid);
    five_digits_read_back(uid as nat);
    unsigned_reads_back(uid as nat, u32::MAX as nat);
    decimal_reads_back(uid as nat);
    let n = a.len() as int;
    assert(t =~= a + "uid"@ + b);
    assert forall|i: int| 0 <= i < t.len() implies !is_space(#[trigger] t[i]) by {
        if i < n {
            assert(t[i] == a[i] && is_digit(a[i]));
        } else if i >= n + 3 {
            assert(t[i] == b[i - n - 3] && is_digit(b[i - n - 3]));
        } else {
            assert(t[i] == "uid"@[i - n]);
        }
    }
    assert(t[0] == a[0] && is_digit(a[0]));
    trimmed_text_stays(t);
    assert(t[n] == 'u');
    assert(!all_digits(t)) by {
        assert(!is_digit(t[n]));
    }
    assert(!all_digits(t.skip(1))) by {
        assert(t.skip(1)[n - 1] == t[n]);
    }
    assert(t.subrange(n, n + 3) =~= "uid"@);
    assert forall|k: int| 0 <= k < n implies !occurs_at(t, "uid"@, k) by {
        if occurs_at(t, "uid"@, k) {
            assert(t.subrange(k, k + 3)[0] == t[k]);
            assert(t[k] == a[k] && is_digit(a[k]));
        }
    }
    find_is(t, "uid"@, 0, n);
    assert(t.take(n) =~= a);
    assert(t.skip(n + 3) =~= b);
}

/// The first position of a text, where it is known.
proof fn find_is(s: Seq<char>, p: Seq<char>, from: int, at: int)
    requires
        0 <= from <= at,
        occurs_at(s, p, at),
        forall|k: int| from <= k < at ==> !occurs_at(s, p, k),
    ensures
        find_from(s, p, from) == at,
    decreases at - from,
{
    if from < at {
        find_is(s, p, from + 1, at);
    }
}

// ---------------------------------------------------------------------------
// Accord
// ---------------------------------------------------------------------------

/// Packages whose names tell them apart, and apart from uids.
pub open spec fn well_named(packages: Seq<(Seq<char>, u32)>) -> bool {
    forall|name: Seq<char>|
        {
            &&& first_uid(packages, name) == #[trigger] last_uid(packages, name)
            &&& last_uid(packages, name) is Some ==> !(policy_target(name) matches Some(
                TargetView::Uid(_),
            ))
        }
}

/// The application of a token.
pub open spec fn owner_of(token: Seq<char>, packages: Seq<(Seq<char>, u32)>) -> Option<u32> {
    resolved_uid(token, last_uid(packages, token))
}

/// The application of an entry.
pub open spec fn entry_uid(e: Option<PolicyLine>, packages: Seq<(Seq<char>, u32)>) -> Option<u32> {
    match e {
        Some(p) => owner_of(p.package_or_uid, packages),
        None => None,
    }
}

/// The position of the last entry of an application, or -1.
pub open spec fn last_at(
    all: Seq<Option<PolicyLine>>,
    packages: Seq<(Seq<char>, u32)>,
    uid: u32,
) -> int
    decreases all.len(),
{
    if all.len() == 0 {
        -1
    } else if entry_uid(all.last(), packages) == Some(uid) {
        all.len() - 1
    } else {
        last_at(all.drop_last(), packages, uid)
    }
}

/// The entry holds the record.
pub open spec fn holds(e: Option<PolicyLine>, r: Option<ManagerAppConfigRecord>, uid: u32) -> bool {
    e matches Some(p) && r == Some(
        ManagerAppConfigRecord { uid, mode: p.mode, permissive: p.permissive },
    )
}

/// The file holds the records: the last entry of each application is its record, and its token
/// is noted.
pub open spec fn in_accord(
    all: Seq<Option<PolicyLine>>,
    packages: Seq<(Seq<char>, u32)>,
    records: Seq<ManagerAppConfigRecord>,
    noted: Map<u32, Seq<char>>,
) -> bool {
    forall|uid: u32|
        uid != NO_UID ==> {
            let i = #[trigger] last_at(all, packages, uid);
            if i < 0 {
                !has_record(records, uid)
            } else {
                &&& holds(all[i], record_of(records, uid), uid)
                &&& noted.contains_key(uid)
                &&& all[i] matches Some(p) && noted[uid] == p.package_or_uid
            }
        }
}

proof fn last_at_facts(all: Seq<Option<PolicyLine>>, packages: Seq<(Seq<char>, u32)>, uid: u32)
    ensures
        -1 <= last_at(all, packages, uid) < all.len(),
        last_at(all, packages, uid) >= 0 ==> entry_uid(
            all[last_at(all, packages, uid)],
            packages,
        ) == Some(uid),
        forall|k: int|
            last_at(all, packages, uid) < k < all.len() ==> entry_uid(#[trigger] all[k], packages)
                != Some(uid),
    decreases all.len(),
{
    if all.len() > 0 && entry_uid(all.last(), packages) != Some(uid) {
        let rest = all.drop_last();
        last_at_facts(rest, packages, uid);
        assert forall|k: int| last_at(all, packages, uid) < k < all.len() implies entry_uid(
            #[trigger] all[k],
            packages,
        ) != Some(uid) by {
            if k < rest.len() {
                assert(rest[k] == all[k]);
            }
        }
    }
}

/// Where the last entry is known.
proof fn last_at_is(
    all: Seq<Option<PolicyLine>>,
    packages: Seq<(Seq<char>, u32)>,
    uid: u32,
    at: int,
)
    requires
        -1 <= at < all.len(),
        at >= 0 ==> entry_uid(all[at], packages) == Some(uid),
        forall|k: int| at < k < all.len() ==> entry_uid(#[trigger] all[k], packages) != Some(uid),
    ensures
        last_at(all, packages, uid) == at,
{
    last_at_facts(all, packages, uid);
    let i = last_at(all, packages, uid);
    if i < at {
        assert(entry_uid(all[at], packages) != Some(uid));
    } else if i > at {
        assert(entry_uid(all[i], packages) != Some(uid));
    }
}

/// What is loaded of an application is its last entry.
proof fn loaded_is_last(rows: Seq<Seq<char>>, packages: Seq<(Seq<char>, u32)>, uid: u32)
    requires
        uid != NO_UID,
    ensures
        ({
            let all = rows.map_values(|l: Seq<char>| policy_line(l));
            let i = last_at(all, packages, uid);
            let r = record_of(loaded_records(policy_rows(rows), packages), uid);
            if i < 0 {
                r is None
            } else {
                holds(all[i], r, uid)
            }
        }),
    decreases rows.len(),
{
    let all = rows.map_values(|l: Seq<char>| policy_line(l));
    if rows.len() > 0 {
        let rest = rows.drop_last();
        loaded_is_last(rest, packages, uid);
        assert(all.drop_last() =~= rest.map_values(|l: Seq<char>| policy_line(l)));
        last_at_facts(all.drop_last(), packages, uid);
        let before = policy_rows(rest);
        match policy_line(rows.last()) {
            Some(p) => {
                let now = policy_rows(rows);
                assert(now == before.push(p));
                assert(now.drop_last() =~= before);
                let loaded = loaded_records(before, packages);
                match loaded_record(p, packages) {
                    Some(r) => {
                        let more = loaded_records(now, packages);
                        assert(more == loaded.push(r));
                        assert(more.drop_last() =~= loaded);
                    },
                    None => {},
                }
            },
            None => {},
        }
    }
}

/// A configuration that was just loaded is in accord with its file.
pub proof fn loaded_configuration_is_in_accord(text: Seq<char>, packages: Seq<(Seq<char>, u32)>)
    requires
        well_named(packages),
    ensures
        ({
            let rows = policy_rows(lines(text));
            in_accord(
                entries(text),
                packages,
                loaded_records(rows, packages),
                tokens_of(rows, package_replies(rows, packages)),
            )
        }),
{
    let rows = policy_rows(lines(text));
    let all = entries(text);
    let records = loaded_records(rows, packages);
    let noted = tokens_of(rows, package_replies(rows, packages));
    assert forall|uid: u32| uid != NO_UID implies {
        let i = #[trigger] last_at(all, packages, uid);
        if i < 0 {
            !has_record(records, uid)
        } else {
            &&& holds(all[i], record_of(records, uid), uid)
            &&& noted.contains_key(uid)
            &&& all[i] matches Some(p) && noted[uid] == p.package_or_uid
        }
    } by {
        loaded_is_last(lines(text), packages, uid);
        record_of_facts(records, uid);
        token_is_last(lines(text), packages, uid);
    }
}

/// The noted token of an application is that of its last entry.
proof fn token_is_last(rows: Seq<Seq<char>>, packages: Seq<(Seq<char>, u32)>, uid: u32)
    requires
        well_named(packages),
    ensures
        ({
            let all = rows.map_values(|l: Seq<char>| policy_line(l));
            let i = last_at(all, packages, uid);
            let noted = tokens_of(policy_rows(rows), package_replies(policy_rows(rows), packages));
            i >= 0 ==> noted.contains_key(uid) && (all[i] matches Some(p) && noted[uid]
                == p.package_or_uid)
        }),
    decreases rows.len(),
{
    let all = rows.map_values(|l: Seq<char>| policy_line(l));
    if rows.len() > 0 {
        let rest = rows.drop_last();
        token_is_last(rest, packages, uid);
        assert(all.drop_last() =~= rest.map_values(|l: Seq<char>| policy_line(l)));
        last_at_facts(all.drop_last(), packages, uid);
        let before = policy_rows(rest);
        match policy_line(rows.last()) {
            Some(p) => {
                let now = policy_rows(rows);
                assert(now == before.push(p));
                assert(now.drop_last() =~= before);
                assert(package_replies(now, packages).drop_last() =~= package_replies(
                    before,
                    packages,
                ));
                assert(first_uid(packages, p.package_or_uid) == last_uid(
                    packages,
                    p.package_or_uid,
                ));
                assert(package_replies(now, packages).last() == first_uid(
                    packages,
                    p.package_or_uid,
                ));
            },
            None => {},
        }
    }
}

// ---------------------------------------------------------------------------
// Saving
// ---------------------------------------------------------------------------

/// An entry after a change.
pub open spec fn changed(
    e: Option<PolicyLine>,
    uid: Option<u32>,
    previous: Seq<ManagerAppConfigRecord>,
    records: Seq<ManagerAppConfigRecord>,
) -> Option<PolicyLine> {
    match (e, uid) {
        (Some(p), Some(u)) => match (record_of(previous, u), record_of(records, u)) {
            (Some(was), Some(is)) => if was.mode == is.mode && was.permissive == is.permissive {
                e
            } else {
                Some(PolicyLine { mode: is.mode, permissive: is.permissive, ..p })
            },
            _ => e,
        },
        _ => e,
    }
}

/// The entries after a change.
pub open spec fn all_changed(
    all: Seq<Option<PolicyLine>>,
    uids: Seq<Option<u32>>,
    previous: Seq<ManagerAppConfigRecord>,
    records: Seq<ManagerAppConfigRecord>,
) -> Seq<Option<PolicyLine>> {
    Seq::new(all.len(), |i: int| changed(all[i], uids[i], previous, records))
}

/// The entries that are appended.
pub open spec fn new_entries(
    uids: Seq<Option<u32>>,
    previous: Seq<ManagerAppConfigRecord>,
    records: Seq<ManagerAppConfigRecord>,
) -> Seq<Option<PolicyLine>>
    decreases records.len(),
{
    if records.len() == 0 {
        seq![]
    } else {
        let rest = new_entries(uids, previous, records.drop_last());
        let r = records.last();
        if r.uid != NO_UID && !has_line(uids, previous, r.uid) {
            rest.push(
                Some(
                    PolicyLine {
                        package_or_uid: uid_token(r.uid),
                        mode: r.mode,
                        permissive: r.permissive,
                    },
                ),
            )
        } else {
            rest
        }
    }
}

/// A changed line is a line that holds the changed entry.
proof fn new_line_entry(
    line: Seq<char>,
    uid: Option<u32>,
    previous: Seq<ManagerAppConfigRecord>,
    records: Seq<ManagerAppConfigRecord>,
)
    requires
        is_full(line) || is_open(line),
    ensures
        ({
            let e = policy_line(line_body(line));
            let l = new_line(line, e, uid, previous, records);
            &&& is_full(line) ==> is_full(l)
            &&& is_open(line) ==> is_open(l)
            &&& policy_line(line_body(l)) == changed(e, uid, previous, records)
        }),
{
    reveal_strlit("\r\n");
    reveal_strlit("\n");
    reveal_strlit("");
    let e = policy_line(line_body(line));
    let l = new_line(line, e, uid, previous, records);
    if l != line {
        let p = e->0;
        let is = record_of(records, uid->0)->0;
        policy_tokens(line_body(line));
        row_reads_back(p.package_or_uid, is);
        let row = p.package_or_uid + row_tail(is);
        let end = line_end(line);
        assert(l == row + end);
        assert(row.len() > 0);
        assert(line_body(l) =~= row);
        if is_full(line) {
            assert forall|k: int| 0 <= k < l.len() - 1 implies l[k] != '\n' by {
                if k < row.len() {
                    assert(l[k] == row[k]);
                }
            }
        } else {
            assert(line.last() != '\n');
            assert(l =~= row);
        }
    } else if e is Some && uid is Some && record_of(previous, uid->0) is Some && record_of(
        records,
        uid->0,
    ) is Some {
        let was = record_of(previous, uid->0)->0;
        let is = record_of(records, uid->0)->0;
        if !(was.mode == is.mode && was.permissive == is.permissive) {
            let p = e->0;
            policy_tokens(line_body(line));
            row_reads_back(p.package_or_uid, is);
            let row = p.package_or_uid + row_tail(is);
            assert(l == row + line_end(line));
            assert(line_body(l) =~= row);
        }
    }
}

/// The entries of the lines after a change.
proof fn entries_of_new_lines(
    rows: Seq<Seq<char>>,
    uids: Seq<Option<u32>>,
    previous: Seq<ManagerAppConfigRecord>,
    records: Seq<ManagerAppConfigRecord>,
)
    requires
        line_list(rows),
        uids.len() == rows.len(),
    ensures
        entries(concat(new_lines(rows, uids, previous, records))) == all_changed(
            parsed_lines(rows),
            uids,
            previous,
            records,
        ),
{
    let parts = new_lines(rows, uids, previous, records);
    let parsed = parsed_lines(rows);
    assert forall|i: int| 0 <= i < rows.len() implies (is_full(rows[i]) ==> is_full(
        #[trigger] parts[i],
    )) && (is_open(rows[i]) ==> is_open(parts[i])) && policy_line(line_body(parts[i])) == changed(
        parsed[i],
        uids[i],
        previous,
        records,
    ) by {
        assert(is_full(rows[i]) || is_open(rows[i])) by {
            if i == rows.len() - 1 {
                assert(rows[i] == rows.last());
            }
        }
        new_line_entry(rows[i], uids[i], previous, records);
    }
    assert(line_list(parts)) by {
        assert forall|i: int| 0 <= i < parts.len() - 1 implies is_full(#[trigger] parts[i]) by {
            assert(is_full(rows[i]));
        }
        if parts.len() > 0 {
            assert(parts.last() == parts[rows.len() - 1]);
            assert(rows.last() == rows[rows.len() - 1]);
        }
    }
    lines_of_list(parts);
    assert(entries(concat(parts)) =~= all_changed(parsed, uids, previous, records)) by {
        let found = lines(concat(parts));
        assert(found == parts.map_values(|l: Seq<char>| line_body(l)));
        assert forall|i: int| 0 <= i < rows.len() implies policy_line(#[trigger] found[i])
            == changed(parsed[i], uids[i], previous, records) by {
            assert(found[i] == line_body(parts[i]));
        }
    }
}

/// The entries of a text with appended records.
proof fn entries_of_appended(
    body: Seq<char>,
    uids: Seq<Option<u32>>,
    previous: Seq<ManagerAppConfigRecord>,
    records: Seq<ManagerAppConfigRecord>,
)
    ensures
        entries(appended(body, uids, previous, records)) == entries(body) + new_entries(
            uids,
            previous,
            records,
        ),
    decreases records.len(),
{
    if records.len() == 0 {
        assert(entries(body) + new_entries(uids, previous, records) =~= entries(body));
    } else {
        let rest = records.drop_last();
        let r = records.last();
        entries_of_appended(body, uids, previous, rest);
        if r.uid != NO_UID && !has_line(uids, previous, r.uid) {
            reveal_strlit("\n");
            uid_token_reads_back(r.uid);
            row_reads_back(uid_token(r.uid), r);
            let row = uid_token(r.uid) + row_tail(r);
            assert(new_row(r) =~= row.push('\n'));
            entries_of_next_row(appended(body, uids, previous, rest), row);
            assert(entries(appended(body, uids, previous, records)) =~= entries(body)
                + new_entries(uids, previous, records));
        }
    }
}

proof fn last_at_concat(
    a: Seq<Option<PolicyLine>>,
    b: Seq<Option<PolicyLine>>,
    packages: Seq<(Seq<char>, u32)>,
    uid: u32,
)
    ensures
        last_at(a + b, packages, uid) == if last_at(b, packages, uid) >= 0 {
            a.len() + last_at(b, packages, uid)
        } else {
            last_at(a, packages, uid)
        },
    decreases b.len(),
{
    if b.len() == 0 {
        assert(a + b =~= a);
    } else {
        assert((a + b).drop_last() =~= a + b.drop_last());
        last_at_concat(a, b.drop_last(), packages, uid);
    }
}

/// The application of a token that is a uid.
proof fn uid_token_owner(uid: u32, packages: Seq<(Seq<char>, u32)>)
    requires
        well_named(packages),
    ensures
        owner_of(uid_token(uid), packages) == Some(uid),
{
    uid_token_reads_back(uid);
    let t = uid_token(uid);
    assert(last_uid(packages, t) is None) by {
        assert(first_uid(packages, t) == last_uid(packages, t));
    }
}

/// The last appended entry of an application is its record.
proof fn last_new_entry(
    uids: Seq<Option<u32>>,
    previous: Seq<ManagerAppConfigRecord>,
    records: Seq<ManagerAppConfigRecord>,
    packages: Seq<(Seq<char>, u32)>,
    uid: u32,
)
    requires
        well_named(packages),
        uid != NO_UID,
    ensures
        ({
            let all = new_entries(uids, previous, records);
            let i = last_at(all, packages, uid);
            if has_record(records, uid) && !has_line(uids, previous, uid) {
                &&& 0 <= i < all.len()
                &&& holds(all[i], record_of(records, uid), uid)
                &&& all[i]->0.package_or_uid == uid_token(uid)
            } else {
                i < 0
            }
        }),
    decreases records.len(),
{
    if records.len() > 0 {
        let rest = records.drop_last();
        let r = records.last();
        last_new_entry(uids, previous, rest, packages, uid);
        let all = new_entries(uids, previous, records);
        let before = new_entries(uids, previous, rest);
        assert(has_record(records, uid) <==> has_record(rest, uid) || r.uid == uid) by {
            if has_record(records, uid) && r.uid != uid {
                let k = choose|k: int| 0 <= k < records.len() && (#[trigger] records[k]).uid == uid;
                assert(rest[k].uid == uid);
            }
            if has_record(rest, uid) {
                let k = choose|k: int| 0 <= k < rest.len() && (#[trigger] rest[k]).uid == uid;
                assert(records[k].uid == uid);
            }
            if r.uid == uid {
                assert(records[records.len() - 1].uid == uid);
            }
        }
        if r.uid != NO_UID && !has_line(uids, previous, r.uid) {
            uid_token_owner(r.uid, packages);
            assert(all.drop_last() =~= before);
        }
    }
}

/// The token of an application after those on the lines were noted.
proof fn noted_on_lines(
    tokens: Map<u32, Seq<char>>,
    rows: Seq<Option<PolicyLine>>,
    uids: Seq<Option<u32>>,
    uid: u32,
    i: int,
)
    requires
        rows.len() == uids.len(),
        0 <= i < rows.len(),
        rows[i] is Some,
        uids[i] == Some(uid),
        forall|k: int| i < k < rows.len() ==> #[trigger] uids[k] != Some(uid),
    ensures
        with_tokens(tokens, rows, uids).contains_key(uid),
        with_tokens(tokens, rows, uids)[uid] == rows[i]->0.package_or_uid,
    decreases rows.len(),
{
    if i < rows.len() - 1 {
        let fewer = uids.drop_last();
        assert(uids[rows.len() - 1] != Some(uid));
        assert forall|k: int| i < k < rows.len() - 1 implies #[trigger] fewer[k] != Some(uid) by {
            assert(fewer[k] == uids[k]);
        }
        noted_on_lines(tokens, rows.drop_last(), fewer, uid, i);
    }
}

/// Lines without an application leave the tokens alone.
proof fn nothing_noted(
    tokens: Map<u32, Seq<char>>,
    rows: Seq<Option<PolicyLine>>,
    uids: Seq<Option<u32>>,
)
    requires
        rows.len() == uids.len(),
        forall|k: int| 0 <= k < uids.len() ==> #[trigger] uids[k] is None,
    ensures
        with_tokens(tokens, rows, uids) == tokens,
    decreases rows.len(),
{
    if rows.len() > 0 {
        let fewer = uids.drop_last();
        assert(uids[uids.len() - 1] is None);
        assert forall|k: int| 0 <= k < fewer.len() implies #[trigger] fewer[k] is None by {
            assert(fewer[k] == uids[k]);
        }
        nothing_noted(tokens, rows.drop_last(), fewer);
    }
}

/// The tokens of appended records.
proof fn noted_when_appended(
    tokens: Map<u32, Seq<char>>,
    uids: Seq<Option<u32>>,
    previous: Seq<ManagerAppConfigRecord>,
    records: Seq<ManagerAppConfigRecord>,
    uid: u32,
)
    requires
        uid != NO_UID,
    ensures
        ({
            let after = with_new_tokens(tokens, uids, previous, records);
            if has_record(records, uid) && !has_line(uids, previous, uid) {
                after.contains_key(uid) && after[uid] == uid_token(uid)
            } else {
                after.contains_key(uid) == tokens.contains_key(uid) && (tokens.contains_key(uid)
                    ==> after[uid] == tokens[uid])
            }
        }),
    decreases records.len(),
{
    if records.len() > 0 {
        let rest = records.drop_last();
        let r = records.last();
        noted_when_appended(tokens, uids, previous, rest, uid);
        assert(has_record(records, uid) <==> has_record(rest, uid) || r.uid == uid) by {
            if has_record(records, uid) && r.uid != uid {
                let k = choose|k: int| 0 <= k < records.len() && (#[trigger] records[k]).uid == uid;
                assert(rest[k].uid == uid);
            }
            if has_record(rest, uid) {
                let k = choose|k: int| 0 <= k < rest.len() && (#[trigger] rest[k]).uid == uid;
                assert(records[k].uid == uid);
            }
            if r.uid == uid {
                assert(records[records.len() - 1].uid == uid);
            }
        }
    }
}

/// What tokens say of a line is right.
proof fn anchor_is_right(
    all: Seq<Option<PolicyLine>>,
    packages: Seq<(Seq<char>, u32)>,
    previous: Seq<ManagerAppConfigRecord>,
    noted: Map<u32, Seq<char>>,
    e: Option<PolicyLine>,
)
    requires
        well_named(packages),
        in_accord(all, packages, previous, noted),
    ensures
        anchor(of_recorded(noted, previous), previous, e) matches Some(uid) ==> uid != NO_UID
            && has_record(previous, uid) && entry_uid(e, packages) == Some(uid),
{
    let tokens = of_recorded(noted, previous);
    if e is Some {
        let token = e->0.package_or_uid;
        match token_uid(tokens, token) {
            Some(uid) => {
                assert(has_token(tokens, token, uid));
                noted_token_owner(all, packages, previous, noted, uid);
            },
            None => match policy_target(token) {
                Some(TargetView::Uid(uid)) => {
                    assert(first_uid(packages, token) == last_uid(packages, token));
                },
                _ => {},
            },
        }
    }
}

/// A noted token belongs to its application.
proof fn noted_token_owner(
    all: Seq<Option<PolicyLine>>,
    packages: Seq<(Seq<char>, u32)>,
    previous: Seq<ManagerAppConfigRecord>,
    noted: Map<u32, Seq<char>>,
    uid: u32,
)
    requires
        in_accord(all, packages, previous, noted),
        uid != NO_UID,
        has_record(previous, uid),
    ensures
        noted.contains_key(uid),
        owner_of(noted[uid], packages) == Some(uid),
        0 <= last_at(all, packages, uid) < all.len(),
{
    last_at_facts(all, packages, uid);
    assert(last_at(all, packages, uid) >= 0);
}

/// Tokens say whose the last line of an application is.
proof fn last_line_is_anchored(
    all: Seq<Option<PolicyLine>>,
    packages: Seq<(Seq<char>, u32)>,
    previous: Seq<ManagerAppConfigRecord>,
    noted: Map<u32, Seq<char>>,
    uid: u32,
)
    requires
        in_accord(all, packages, previous, noted),
        uid != NO_UID,
        has_record(previous, uid),
    ensures
        ({
            let i = last_at(all, packages, uid);
            &&& 0 <= i < all.len()
            &&& anchor(of_recorded(noted, previous), previous, all[i]) == Some(uid)
        }),
{
    let tokens = of_recorded(noted, previous);
    noted_token_owner(all, packages, previous, noted, uid);
    let i = last_at(all, packages, uid);
    let token = all[i]->0.package_or_uid;
    assert(tokens.contains_key(uid) && tokens[uid] == token);
    assert forall|v: u32| #[trigger] tokens.contains_key(v) && tokens[v] == token implies v
        <= uid by {
        noted_token_owner(all, packages, previous, noted, v);
    }
    assert(has_token(tokens, token, uid));
    let v = choose|v: u32| has_token(tokens, token, v);
    assert(has_token(tokens, token, v));
    noted_token_owner(all, packages, previous, noted, v);
}

/// Where all records have noted tokens, lines are told apart by their tokens alone.
proof fn lines_are_told_by_tokens(
    all: Seq<Option<PolicyLine>>,
    packages: Seq<(Seq<char>, u32)>,
    previous: Seq<ManagerAppConfigRecord>,
    noted: Map<u32, Seq<char>>,
)
    requires
        in_accord(all, packages, previous, noted),
    ensures
        ({
            let tokens = of_recorded(noted, previous);
            let known = anchors(tokens, previous, all);
            &&& line_uids(noted, previous, all) == known
            &&& line_tokens(noted, previous, all) == with_tokens(tokens, all, known)
        }),
{
    let tokens = of_recorded(noted, previous);
    let known = anchors(tokens, previous, all);
    if noted.dom() =~= Set::empty() {
        assert forall|uid: u32| uid != NO_UID implies !has_record(previous, uid) by {
            if has_record(previous, uid) {
                noted_token_owner(all, packages, previous, noted, uid);
                assert(noted.dom().contains(uid));
            }
        }
        nothing_unplaced(previous, known);
        let there = placed(all, known, unplaced(previous, known));
        assert forall|k: int| 0 <= k < there.len() implies #[trigger] there[k] is None by {}
        nothing_noted(with_tokens(tokens, all, known), all, there);
        assert(either(known, there) =~= known);
    }
}

proof fn nothing_unplaced(previous: Seq<ManagerAppConfigRecord>, uids: Seq<Option<u32>>)
    requires
        forall|uid: u32| uid != NO_UID ==> !has_record(previous, uid),
    ensures
        unplaced(previous, uids).len() == 0,
    decreases previous.len(),
{
    if previous.len() > 0 {
        let rest = previous.drop_last();
        assert forall|uid: u32| uid != NO_UID implies !has_record(rest, uid) by {
            if has_record(rest, uid) {
                let k = choose|k: int| 0 <= k < rest.len() && (#[trigger] rest[k]).uid == uid;
                assert(previous[k].uid == uid);
                assert(has_record(previous, uid));
            }
        }
        nothing_unplaced(rest, uids);
        assert(has_record(previous, previous.last().uid)) by {
            assert(previous[previous.len() - 1].uid == previous.last().uid);
        }
    }
}

/// The records that are loaded from a file in accord are the records.
proof fn accord_is_loaded(
    text: Seq<char>,
    packages: Seq<(Seq<char>, u32)>,
    records: Seq<ManagerAppConfigRecord>,
    noted: Map<u32, Seq<char>>,
    uid: u32,
)
    requires
        in_accord(entries(text), packages, records, noted),
    ensures
        record_of(loaded_records(policy_rows(lines(text)), packages), uid) == record_of(
            records,
            uid,
        ),
{
    record_of_facts(records, uid);
    record_of_facts(loaded_records(policy_rows(lines(text)), packages), uid);
    if uid != NO_UID {
        loaded_is_last(lines(text), packages, uid);
        assert(last_at(entries(text), packages, uid) == last_at(
            lines(text).map_values(|l: Seq<char>| policy_line(l)),
            packages,
            uid,
        ));
    }
}

/// The file holds these records after a change, and loading it gives them again.
pub open spec fn saved(
    text: Seq<char>,
    packages: Seq<(Seq<char>, u32)>,
    records: Seq<ManagerAppConfigRecord>,
    noted: Map<u32, Seq<char>>,
) -> bool {
    &&& in_accord(entries(text), packages, records, noted)
    &&& forall|uid: u32|
        record_of(loaded_records(policy_rows(lines(text)), packages), uid) == #[trigger] record_of(
            records,
            uid,
        )
}

/// A change of the configuration is saved: where the file held the records before, it holds
/// the changed ones afterwards, and loading it again gives them. A change keeps the
/// applications that have a record.
pub proof fn changed_configuration_is_saved(
    file: Seq<u8>,
    packages: Seq<(Seq<char>, u32)>,
    previous: Seq<ManagerAppConfigRecord>,
    noted: Map<u32, Seq<char>>,
    records: Seq<ManagerAppConfigRecord>,
)
    requires
        valid_utf8(file),
        well_named(packages),
        in_accord(entries(decode_utf8(file)), packages, previous, noted),
        forall|uid: u32| has_record(previous, uid) ==> has_record(records, uid),
    ensures
        match plan(noted, previous, records, Some(file)) {
            PlanView::Refused(_) => false,
            PlanView::Unchanged(tokens) => saved(decode_utf8(file), packages, records, tokens),
            PlanView::Write(text, tokens) => saved(text, packages, records, tokens),
        },
{
    let text = decode_utf8(file);
    if records == previous {
        let tokens = of_recorded(noted, previous);
        assert forall|uid: u32| uid != NO_UID implies {
            let i = #[trigger] last_at(entries(text), packages, uid);
            if i < 0 {
                !has_record(records, uid)
            } else {
                &&& holds(entries(text)[i], record_of(records, uid), uid)
                &&& tokens.contains_key(uid)
                &&& entries(text)[i] matches Some(p) && tokens[uid] == p.package_or_uid
            }
        } by {
            record_of_facts(records, uid);
        }
        assert forall|uid: u32|
            record_of(loaded_records(policy_rows(lines(text)), packages), uid)
                == #[trigger] record_of(records, uid) by {
            accord_is_loaded(text, packages, records, tokens, uid);
        }
    } else {
        rewrite_is_saved(text, packages, previous, noted, records);
    }
}

proof fn rewrite_is_saved(
    text: Seq<char>,
    packages: Seq<(Seq<char>, u32)>,
    previous: Seq<ManagerAppConfigRecord>,
    noted: Map<u32, Seq<char>>,
    records: Seq<ManagerAppConfigRecord>,
)
    requires
        well_named(packages),
        in_accord(entries(text), packages, previous, noted),
        forall|uid: u32| has_record(previous, uid) ==> has_record(records, uid),
    ensures
        match rewrite(noted, previous, records, full_lines(text)) {
            PlanView::Write(t, tokens) => saved(t, packages, records, tokens),
            _ => false,
        },
{
    let rows = full_lines(text);
    full_lines_facts(text);
    let all = entries(text);
    let parsed = parsed_lines(rows);
    assert(parsed =~= all) by {
        assert forall|i: int| 0 <= i < rows.len() implies parsed[i] == all[i] by {
            assert(lines(text)[i] == line_body(rows[i]));
        }
    }
    lines_are_told_by_tokens(all, packages, previous, noted);
    let old_tokens = of_recorded(noted, previous);
    let uids = anchors(old_tokens, previous, all);
    let body = concat(new_lines(rows, uids, previous, records));
    entries_of_new_lines(rows, uids, previous, records);
    entries_of_appended(body, uids, previous, records);
    let t = appended(body, uids, previous, records);
    let kept = all_changed(all, uids, previous, records);
    let fresh = new_entries(uids, previous, records);
    let on_lines = with_tokens(old_tokens, all, uids);
    let tokens = of_recorded(with_new_tokens(on_lines, uids, previous, records), records);
    assert(rewrite(noted, previous, records, rows) == PlanView::Write(t, tokens));
    assert(entries(t) == kept + fresh);
    assert forall|k: int| 0 <= k < all.len() implies entry_uid(#[trigger] kept[k], packages)
        == entry_uid(all[k], packages) by {}
    assert forall|uid: u32| uid != NO_UID implies {
        let i = #[trigger] last_at(entries(t), packages, uid);
        if i < 0 {
            !has_record(records, uid)
        } else {
            &&& holds(entries(t)[i], record_of(records, uid), uid)
            &&& tokens.contains_key(uid)
            &&& entries(t)[i] matches Some(p) && tokens[uid] == p.package_or_uid
        }
    } by {
        record_of_facts(previous, uid);
        record_of_facts(records, uid);
        last_at_facts(all, packages, uid);
        last_at_concat(kept, fresh, packages, uid);
        last_new_entry(uids, previous, records, packages, uid);
        noted_when_appended(on_lines, uids, previous, records, uid);
        let at = last_at(all, packages, uid);
        last_at_is(kept, packages, uid, at);
        if has_record(previous, uid) {
            last_line_is_anchored(all, packages, previous, noted, uid);
            assert(uids[at] == Some(uid));
            assert(uids.contains(Some(uid)));
            assert(has_line(uids, previous, uid));
            assert(kept[at] == changed(all[at], Some(uid), previous, records));
            assert forall|k: int| at < k < all.len() implies #[trigger] uids[k] != Some(uid) by {
                anchor_is_right(all, packages, previous, noted, all[k]);
                assert(entry_uid(all[k], packages) != Some(uid));
            }
            noted_on_lines(old_tokens, all, uids, uid, at);
        } else {
            assert(!has_line(uids, previous, uid));
            assert(at < 0);
        }
    }
    assert(in_accord(entries(t), packages, records, tokens));
    assert forall|uid: u32|
        record_of(loaded_records(policy_rows(lines(t)), packages), uid) == #[trigger] record_of(
            records,
            uid,
        ) by {
        accord_is_loaded(t, packages, records, tokens, uid);
    }
}

/// A missing file is written anew: it then holds all records, and loading it gives them.
pub proof fn missing_configuration_is_saved(
    packages: Seq<(Seq<char>, u32)>,
    previous: Seq<ManagerAppConfigRecord>,
    noted: Map<u32, Seq<char>>,
    records: Seq<ManagerAppConfigRecord>,
)
    requires
        well_named(packages),
    ensures
        plan(noted, previous, records, None) matches PlanView::Write(text, tokens) && saved(
            text,
            packages,
            records,
            tokens,
        ),
{
    let rows: Seq<Seq<char>> = seq![];
    let parsed = parsed_lines(rows);
    let uids = line_uids(noted, previous, parsed);
    assert(uids.len() == 0);
    let body = concat(new_lines(rows, uids, previous, records));
    assert(new_lines(rows, uids, previous, records) =~= seq![]);
    assert(body =~= seq![]);
    entries_of_appended(body, uids, previous, records);
    let t = appended(body, uids, previous, records);
    let fresh = new_entries(uids, previous, records);
    let on_lines = line_tokens(noted, previous, parsed);
    let tokens = of_recorded(with_new_tokens(on_lines, uids, previous, records), records);
    assert(entries(body) + fresh =~= fresh);
    assert forall|uid: u32| uid != NO_UID implies {
        let i = #[trigger] last_at(entries(t), packages, uid);
        if i < 0 {
            !has_record(records, uid)
        } else {
            &&& holds(entries(t)[i], record_of(records, uid), uid)
            &&& tokens.contains_key(uid)
            &&& entries(t)[i] matches Some(p) && tokens[uid] == p.package_or_uid
        }
    } by {
        assert(!has_line(uids, previous, uid));
        last_new_entry(uids, previous, records, packages, uid);
        noted_when_appended(on_lines, uids, previous, records, uid);
    }
    assert(in_accord(entries(t), packages, records, tokens));
    assert forall|uid: u32|
        record_of(loaded_records(policy_rows(lines(t)), packages), uid) == #[trigger] record_of(
            records,
            uid,
        ) by {
        accord_is_loaded(t, packages, records, tokens, uid);
    }
}

/// What stands in the file besides changed records is kept as it is, and new records come
/// after it.
pub proof fn other_lines_are_kept(
    text: Seq<char>,
    noted: Map<u32, Seq<char>>,
    previous: Seq<ManagerAppConfigRecord>,
    records: Seq<ManagerAppConfigRecord>,
)
    ensures
        ({
            let rows = full_lines(text);
            let uids = line_uids(noted, previous, parsed_lines(rows));
            let parts = new_lines(rows, uids, previous, records);
            &&& concat(rows) == text
            &&& rewrite(noted, previous, records, rows) matches PlanView::Write(t, _)
                && concat(parts).is_prefix_of(t)
            &&& parts.len() == rows.len()
            &&& forall|i: int|
                #![trigger parts[i]]
                0 <= i < rows.len() && (parsed_lines(rows)[i] is None || uids[i] is None
                    || record_of(previous, uids[i]->0) == record_of(records, uids[i]->0))
                    ==> parts[i] == rows[i]
        }),
{
    let rows = full_lines(text);
    concat_of_full_lines(text);
    let uids = line_uids(noted, previous, parsed_lines(rows));
    let body = concat(new_lines(rows, uids, previous, records));
    appended_keeps_body(body, uids, previous, records);
}

proof fn concat_head(parts: Seq<Seq<char>>)
    requires
        parts.len() > 0,
    ensures
        concat(parts) == parts[0] + concat(parts.skip(1)),
    decreases parts.len(),
{
    let rest = parts.skip(1);
    if parts.len() == 1 {
        assert(parts.drop_last() =~= seq![]);
        assert(rest =~= seq![]);
        assert(concat(parts) =~= parts[0] + concat(rest));
    } else {
        concat_head(parts.drop_last());
        assert(parts.drop_last().skip(1) =~= rest.drop_last());
        assert(concat(parts) =~= parts[0] + concat(rest));
    }
}

proof fn concat_of_full_lines(s: Seq<char>)
    ensures
        concat(full_lines(s)) == s,
    decreases s.len(),
{
    index_from_facts(s, '\n', 0);
    let i = index_from(s, '\n', 0);
    let all = full_lines(s);
    if s.len() == 0 {
        assert(concat(all) =~= s);
    } else if i >= s.len() {
        assert(all == seq![s]);
        assert(concat(all.drop_last()) =~= seq![]);
        assert(concat(all) =~= s);
    } else {
        let rest = s.skip(i + 1);
        concat_of_full_lines(rest);
        concat_head(all);
        assert(all == seq![s.take(i + 1)] + full_lines(rest));
        assert(all.skip(1) =~= full_lines(rest));
        assert(concat(all) =~= s);
    }
}

proof fn appended_keeps_body(
    body: Seq<char>,
    uids: Seq<Option<u32>>,
    previous: Seq<ManagerAppConfigRecord>,
    records: Seq<ManagerAppConfigRecord>,
)
    ensures
        body.is_prefix_of(appended(body, uids, previous, records)),
    decreases records.len(),
{
    if records.len() > 0 {
        appended_keeps_body(body, uids, previous, records.drop_last());
        let rest = appended(body, uids, previous, records.drop_last());
        let now = appended(body, uids, previous, records);
        assert(now.take(rest.len() as int) =~= rest);
        assert(now.take(body.len() as int) =~= rest.take(body.len() as int));
    } else {
        assert(body.take(body.len() as int) =~= body);
    }
}

/// A change that is answered with success is on disk: the file that was left, or the one that
/// was written, holds the records that are in force, and loading it gives them again.
pub proof fn successful_change_is_on_disk(
    s: ManagerView,
    payload: Seq<u8>,
    now_ms: u128,
    full: Seq<ManagerEffect>,
    at: int,
    path: Seq<char>,
    file: Seq<u8>,
    packages: Seq<(Seq<char>, u32)>,
)
    requires
        s.app_config_path == Some(path),
        read_at(full, at, path) == Some(Ok::<Seq<u8>, ErrorView>(file)),
        valid_utf8(file),
        well_named(packages),
        in_accord(entries(decode_utf8(file)), packages, s.app_config, s.tokens),
    ensures
        match records_update(s, payload, now_ms, full, at) {
            Some((end, Ok(answer), after)) => answer == "success"@ ==> exists|text: Seq<char>|
                #![trigger saved(text, packages, after.app_config, after.tokens)]
                {
                    &&& saved(text, packages, after.app_config, after.tokens)
                    &&& (end == at + 2 && text == decode_utf8(file)) || (end == at + 3 && (write_at(
                        full,
                        at + 1,
                        path,
                        encode_utf8(text),
                    ) matches Some(Ok(_))))
                },
            _ => true,
        },
{
    reveal_strlit("success");
    reveal_strlit("failure");
    let records = merged(s.app_config, config_records(payload));
    assert forall|uid: u32| has_record(s.app_config, uid) implies has_record(records, uid) by {
        let k = choose|k: int| 0 <= k < s.app_config.len() && (#[trigger] s.app_config[k]).uid == uid;
        merge_keeps_other_records(s.app_config, config_records(payload), k);
        assert(records[k].uid == uid);
    }
    changed_configuration_is_saved(file, packages, s.app_config, s.tokens, records);
    if let Some((end, Ok(answer), after)) = records_update(s, payload, now_ms, full, at) {
        if answer == "success"@ {
            assert("success"@[0] != "failure"@[0]);
            match plan(s.tokens, s.app_config, records, Some(file)) {
                PlanView::Refused(_) => {},
                PlanView::Unchanged(tokens) => {
                    assert(saved(decode_utf8(file), packages, after.app_config, after.tokens));
                },
                PlanView::Write(text, tokens) => {
                    assert(saved(text, packages, after.app_config, after.tokens));
                },
            }
        }
    }
}

} // verus!
