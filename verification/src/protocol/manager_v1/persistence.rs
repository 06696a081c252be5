//! What is written to the application configuration file when records change.
//!
//! The file holds one record on a line, under a token: a uid, or a package name. A change
//! rewrites the lines of the records that changed and leaves every other line as it is;
//! records without a line are appended.

use std::collections::BTreeMap;
use vstd::prelude::*;
use vstd::string::*;
use vstd::utf8::{decode_utf8, encode_utf8, valid_utf8};

use crate::app::error::{DaemonError, ErrorView};
use crate::config::migration::{
    parse_legacy_policy_line, parse_legacy_policy_target, policy_line, policy_target,
    LegacyPolicyRecord, LegacyPolicyTarget, PolicyLine, TargetView,
};
use crate::domain::uids::{key_list, rising};
use crate::protocol::manager_v1::app_config::{
    find_record, has_record, is_recorded, record_of, same_records, switch, uid_token,
    write_uid_token, NO_UID,
};
use crate::protocol::records::ManagerAppConfigRecord;
use crate::text::{
    bytes_of, chars_of, copy, decimal, full_lines, lines, number, read_utf8, same, signed_decimal,
    signed_number, split_full_lines, split_lines, string_range, text, texts,
};

verus! {

broadcast use {
    vstd::std_specs::btree::group_btree_axioms,
    vstd::laws_cmp::group_laws_cmp,
    vstd::string::group_string_axioms,
};

/// The tokens of applications as values.
pub open spec fn token_views(m: Map<u32, String>) -> Map<u32, Seq<char>> {
    m.map_values(|s: String| s@)
}

/// The tokens of applications that have a record.
pub open spec fn of_recorded(
    tokens: Map<u32, Seq<char>>,
    records: Seq<ManagerAppConfigRecord>,
) -> Map<u32, Seq<char>> {
    Map::new(
        |u: u32| tokens.contains_key(u) && u != NO_UID && has_record(records, u),
        |u: u32| tokens[u],
    )
}

/// Copies the tokens of applications that have a record.
pub fn tokens_of_recorded(
    tokens: &BTreeMap<u32, String>,
    records: &[ManagerAppConfigRecord],
) -> (r: BTreeMap<u32, String>)
    ensures
        token_views(r@) == of_recorded(token_views(tokens@), records@),
{
    let keys = key_list(tokens);
    let mut out: BTreeMap<u32, String> = BTreeMap::new();
    let mut i: usize = 0;
    while i < keys.len()
        invariant
            i <= keys@.len(),
            keys@.to_set() == tokens@.dom(),
            forall|u: u32|
                #[trigger] out@.contains_key(u) <==> keys@.take(i as int).contains(u) && u
                    != NO_UID && has_record(records@, u),
            forall|u: u32|
                #[trigger] out@.contains_key(u) ==> tokens@.contains_key(u) && out@[u]@
                    == tokens@[u]@,
        decreases keys@.len() - i,
    {
        let uid = keys[i];
        assert(keys@.take(i + 1) =~= keys@.take(i as int).push(uid));
        assert(keys@.to_set().contains(keys@[i as int]));
        assert forall|u: u32|
            keys@.take(i + 1).contains(u) <==> keys@.take(i as int).contains(u) || u == uid by {
            let t = keys@.take(i as int);
            if t.contains(u) {
                let k = choose|k: int| 0 <= k < t.len() && t[k] == u;
                assert(t.push(uid)[k] == u);
            }
            if u == uid {
                assert(t.push(uid)[t.len() as int] == u);
            }
        }
        if uid != NO_UID && is_recorded(records, uid) {
            match tokens.get(&uid) {
                Some(token) => {
                    let ghost done = out@;
                    let token = copy(token.as_str());
                    out.insert(uid, token);
                    assert(out@ == done.insert(uid, token));
                    assert(token@ == tokens@[uid]@);
                },
                None => {
                    assert(tokens@.dom().contains(uid));
                    assert(false);
                },
            }
        }
        i += 1;
    }
    assert(keys@.take(i as int) =~= keys@);
    assert forall|u: u32| keys@.contains(u) == tokens@.contains_key(u) by {
        assert(keys@.to_set().contains(u) == tokens@.dom().contains(u));
    }
    assert(token_views(out@) =~= of_recorded(token_views(tokens@), records@));
    out
}

/// The end of a line.
pub open spec fn line_end(line: Seq<char>) -> Seq<char> {
    if line.len() > 0 && line.last() == '\n' {
        if line.len() > 1 && line[line.len() - 2] == '\r' {
            "\r\n"@
        } else {
            "\n"@
        }
    } else {
        ""@
    }
}

/// A line without its end.
pub open spec fn line_body(line: Seq<char>) -> Seq<char> {
    if line.len() > 0 && line.last() == '\n' {
        if line.len() > 1 && line[line.len() - 2] == '\r' {
            line.take(line.len() - 2)
        } else {
            line.take(line.len() - 1)
        }
    } else {
        line
    }
}

/// A line is its body and its end.
pub proof fn line_is_body_and_end(line: Seq<char>)
    ensures
        line_body(line) + line_end(line) == line,
{
    reveal_strlit("\r\n");
    reveal_strlit("\n");
    reveal_strlit("");
    assert(line_body(line) + line_end(line) =~= line);
}

/// Parts a line from its end.
pub fn split_line_ending(line: &str) -> (r: (String, String))
    ensures
        r.0@ == line_body(line@),
        r.1@ == line_end(line@),
{
    let x = chars_of(line);
    if x.len() > 0 && x[x.len() - 1] == '\n' {
        if x.len() > 1 && x[x.len() - 2] == '\r' {
            let body = string_range(&x, 0, x.len() - 2);
            assert(body@ =~= line_body(line@));
            (body, text("\r\n"))
        } else {
            let body = string_range(&x, 0, x.len() - 1);
            assert(body@ =~= line_body(line@));
            (body, text("\n"))
        }
    } else {
        (copy(line), text(""))
    }
}

/// The record on each line.
pub open spec fn parsed_lines(rows: Seq<Seq<char>>) -> Seq<Option<PolicyLine>> {
    rows.map_values(|l: Seq<char>| policy_line(line_body(l)))
}

/// Records on lines as values.
pub open spec fn parsed_views(v: Seq<Option<LegacyPolicyRecord>>) -> Seq<Option<PolicyLine>> {
    v.map_values(
        |p: Option<LegacyPolicyRecord>|
            match p {
                Some(r) => Some(r@),
                None => None,
            },
    )
}

/// The uid has the token, and no larger uid has it.
pub open spec fn has_token(tokens: Map<u32, Seq<char>>, token: Seq<char>, uid: u32) -> bool {
    &&& tokens.contains_key(uid)
    &&& tokens[uid] == token
    &&& forall|v: u32| #[trigger] tokens.contains_key(v) && tokens[v] == token ==> v <= uid
}

/// The uid with a token, the largest where there are several.
pub open spec fn token_uid(tokens: Map<u32, Seq<char>>, token: Seq<char>) -> Option<u32> {
    if exists|uid: u32| has_token(tokens, token, uid) {
        Some(choose|uid: u32| has_token(tokens, token, uid))
    } else {
        None
    }
}

fn find_token(tokens: &BTreeMap<u32, String>, token: &str) -> (r: Option<u32>)
    ensures
        r == token_uid(token_views(tokens@), token@),
{
    let ghost views = token_views(tokens@);
    let keys = key_list(tokens);
    let mut n: usize = keys.len();
    assert forall|u: u32| views.contains_key(u) implies exists|k: int|
        0 <= k < keys@.len() && keys@[k] == u by {
        assert(keys@.to_set().contains(u));
        assert(keys@.contains(u));
    }
    while n > 0
        invariant
            n <= keys@.len(),
            rising(keys@),
            keys@.to_set() == tokens@.dom(),
            views == token_views(tokens@),
            forall|u: u32|
                views.contains_key(u) ==> exists|k: int| 0 <= k < keys@.len() && keys@[k] == u,
            forall|k: int|
                n <= k < keys@.len() ==> views.contains_key(#[trigger] keys@[k]) ==> views[keys@[k]]
                    != token@,
        decreases n,
    {
        let uid = keys[n - 1];
        assert(keys@.to_set().contains(keys@[n - 1]));
        match tokens.get(&uid) {
            Some(t) => {
                if same(t.as_str(), token) {
                    proof {
                        assert forall|v: u32| #[trigger]
                            views.contains_key(v) && views[v] == token@ implies v <= uid by {
                            let k = choose|k: int| 0 <= k < keys@.len() && keys@[k] == v;
                            if k >= n {
                                assert(views[keys@[k]] != token@);
                            } else if k < n - 1 {
                                assert(keys@[k] < keys@[n - 1]);
                            }
                        }
                        assert(has_token(views, token@, uid));
                        let c = choose|u: u32| has_token(views, token@, u);
                        assert(has_token(views, token@, c));
                        assert(views.contains_key(c) && views.contains_key(uid));
                        assert(c == uid);
                    }
                    return Some(uid);
                }
                assert(views[uid] != token@);
            },
            None => {
                assert(false);
            },
        }
        n -= 1;
    }
    assert forall|u: u32| !has_token(views, token@, u) by {
        if has_token(views, token@, u) {
            assert(views.contains_key(u));
            let k = choose|k: int| 0 <= k < keys@.len() && keys@[k] == u;
            assert(views[keys@[k]] != token@);
        }
    }
    None
}

/// The application whose record a line holds, as its token says.
pub open spec fn anchor(
    tokens: Map<u32, Seq<char>>,
    previous: Seq<ManagerAppConfigRecord>,
    line: Option<PolicyLine>,
) -> Option<u32> {
    match line {
        None => None,
        Some(p) => match token_uid(tokens, p.package_or_uid) {
            Some(uid) => Some(uid),
            None => match policy_target(p.package_or_uid) {
                Some(TargetView::Uid(uid)) => if uid != NO_UID && has_record(previous, uid) {
                    Some(uid)
                } else {
                    None
                },
                _ => None,
            },
        },
    }
}

/// The applications whose records lines hold, as their tokens say.
pub open spec fn anchors(
    tokens: Map<u32, Seq<char>>,
    previous: Seq<ManagerAppConfigRecord>,
    rows: Seq<Option<PolicyLine>>,
) -> Seq<Option<u32>> {
    rows.map_values(|p: Option<PolicyLine>| anchor(tokens, previous, p))
}

/// Reads a token that is a uid.
pub fn parse_legacy_uid_token(token: &str) -> (r: Option<u32>)
    ensures
        match r {
            Some(uid) => policy_target(token@) == Some(TargetView::Uid(uid)),
            None => !(policy_target(token@) matches Some(TargetView::Uid(_))),
        },
{
    match parse_legacy_policy_target(token) {
        Some(LegacyPolicyTarget::Uid(uid)) => Some(uid),
        Some(LegacyPolicyTarget::PackageName(_)) => None,
        None => None,
    }
}

/// The tokens after those on the lines of applications were noted.
pub open spec fn with_tokens(
    tokens: Map<u32, Seq<char>>,
    rows: Seq<Option<PolicyLine>>,
    uids: Seq<Option<u32>>,
) -> Map<u32, Seq<char>>
    decreases rows.len(),
{
    if rows.len() == 0 {
        tokens
    } else {
        let rest = with_tokens(tokens, rows.drop_last(), uids.drop_last());
        match (rows.last(), uids.last()) {
            (Some(p), Some(uid)) => rest.insert(uid, p.package_or_uid),
            _ => rest,
        }
    }
}

fn note_tokens(
    tokens: &mut BTreeMap<u32, String>,
    rows: &[Option<LegacyPolicyRecord>],
    uids: &[Option<u32>],
)
    requires
        rows@.len() == uids@.len(),
    ensures
        token_views(final(tokens)@) == with_tokens(
            token_views(old(tokens)@),
            parsed_views(rows@),
            uids@,
        ),
{
    let ghost start = token_views(tokens@);
    let ghost all = parsed_views(rows@);
    let mut i: usize = 0;
    assert(token_views(tokens@) == with_tokens(start, all.take(0), uids@.take(0)));
    while i < rows.len()
        invariant
            i <= rows@.len(),
            rows@.len() == uids@.len(),
            all == parsed_views(rows@),
            token_views(tokens@) == with_tokens(start, all.take(i as int), uids@.take(i as int)),
        decreases rows@.len() - i,
    {
        let ghost done = token_views(tokens@);
        assert(all.take(i + 1).drop_last() =~= all.take(i as int));
        assert(uids@.take(i + 1).drop_last() =~= uids@.take(i as int));
        match (&rows[i], uids[i]) {
            (Some(p), Some(uid)) => {
                let token = copy(p.package_or_uid.as_str());
                tokens.insert(uid, token);
                assert(token_views(tokens@) =~= done.insert(uid, token@));
            },
            _ => {},
        }
        i += 1;
    }
    assert(all.take(i as int) =~= all);
    assert(uids@.take(i as int) =~= uids@);
}

/// The applications with records that no line is known to hold, in order.
pub open spec fn unplaced(previous: Seq<ManagerAppConfigRecord>, uids: Seq<Option<u32>>) -> Seq<
    u32,
>
    decreases previous.len(),
{
    if previous.len() == 0 {
        seq![]
    } else {
        let rest = unplaced(previous.drop_last(), uids);
        let uid = previous.last().uid;
        if uid != NO_UID && !uids.contains(Some(uid)) {
            rest.push(uid)
        } else {
            rest
        }
    }
}

/// The number of lines with a record of an unknown application.
pub open spec fn free_lines(rows: Seq<Option<PolicyLine>>, uids: Seq<Option<u32>>) -> nat
    decreases rows.len(),
{
    if rows.len() == 0 {
        0
    } else {
        let rest = free_lines(rows.drop_last(), uids.drop_last());
        if rows.last() is Some && uids.last() is None {
            rest + 1
        } else {
            rest
        }
    }
}

/// The remaining applications, in order, on the lines with records of unknown applications.
pub open spec fn placed(
    rows: Seq<Option<PolicyLine>>,
    uids: Seq<Option<u32>>,
    remaining: Seq<u32>,
) -> Seq<Option<u32>> {
    Seq::new(
        rows.len(),
        |i: int|
            {
                let k = free_lines(rows.take(i), uids.take(i)) as int;
                if rows[i] is Some && uids[i] is None && k < remaining.len() {
                    Some(remaining[k])
                } else {
                    None
                }
            },
    )
}

/// The first of two uids that is known.
pub open spec fn either(a: Seq<Option<u32>>, b: Seq<Option<u32>>) -> Seq<Option<u32>> {
    Seq::new(
        a.len(),
        |i: int|
            if a[i] is Some {
                a[i]
            } else {
                b[i]
            },
    )
}

fn lists(uids: &[Option<u32>], uid: u32) -> (r: bool)
    ensures
        r == uids@.contains(Some(uid)),
{
    let mut i: usize = 0;
    while i < uids.len()
        invariant
            i <= uids@.len(),
            forall|k: int| 0 <= k < i ==> uids@[k] != Some(uid),
        decreases uids@.len() - i,
    {
        match uids[i] {
            Some(u) => {
                if u == uid {
                    assert(uids@[i as int] == Some(uid));
                    return true;
                }
            },
            None => {},
        }
        i += 1;
    }
    false
}

fn find_unplaced(previous: &[ManagerAppConfigRecord], uids: &[Option<u32>]) -> (r: Vec<u32>)
    ensures
        r@ == unplaced(previous@, uids@),
{
    let mut out: Vec<u32> = Vec::new();
    let mut i: usize = 0;
    assert(out@ =~= unplaced(previous@.take(0), uids@));
    while i < previous.len()
        invariant
            i <= previous@.len(),
            out@ == unplaced(previous@.take(i as int), uids@),
        decreases previous@.len() - i,
    {
        assert(previous@.take(i + 1).drop_last() =~= previous@.take(i as int));
        let uid = previous[i].uid;
        if uid != NO_UID && !lists(uids, uid) {
            out.push(uid);
        }
        i += 1;
    }
    assert(previous@.take(i as int) =~= previous@);
    out
}

fn place(
    rows: &[Option<LegacyPolicyRecord>],
    uids: &[Option<u32>],
    remaining: &[u32],
) -> (r: Vec<Option<u32>>)
    requires
        rows@.len() == uids@.len(),
    ensures
        r@ == placed(parsed_views(rows@), uids@, remaining@),
{
    let ghost all = parsed_views(rows@);
    let mut out: Vec<Option<u32>> = Vec::new();
    let mut next: usize = 0;
    let mut i: usize = 0;
    while i < rows.len()
        invariant
            i <= rows@.len(),
            rows@.len() == uids@.len(),
            all == parsed_views(rows@),
            next == free_lines(all.take(i as int), uids@.take(i as int)),
            next <= i,
            out@ == placed(all, uids@, remaining@).take(i as int),
        decreases rows@.len() - i,
    {
        assert(all.take(i + 1).drop_last() =~= all.take(i as int));
        assert(uids@.take(i + 1).drop_last() =~= uids@.take(i as int));
        let mut here: Option<u32> = None;
        if rows[i].is_some() && uids[i].is_none() {
            if next < remaining.len() {
                here = Some(remaining[next]);
            }
            next += 1;
        }
        out.push(here);
        assert(out@ =~= placed(all, uids@, remaining@).take(i + 1));
        i += 1;
    }
    assert(out@ =~= placed(all, uids@, remaining@));
    out
}

fn first_known(a: &[Option<u32>], b: &[Option<u32>]) -> (r: Vec<Option<u32>>)
    requires
        a@.len() == b@.len(),
    ensures
        r@ == either(a@, b@),
{
    let mut out: Vec<Option<u32>> = Vec::new();
    let mut i: usize = 0;
    while i < a.len()
        invariant
            i <= a@.len(),
            a@.len() == b@.len(),
            out@ == either(a@, b@).take(i as int),
        decreases a@.len() - i,
    {
        out.push(
            if a[i].is_some() {
                a[i]
            } else {
                b[i]
            },
        );
        assert(out@ =~= either(a@, b@).take(i + 1));
        i += 1;
    }
    assert(out@ =~= either(a@, b@));
    out
}

/// The mode and the switch of a record as they stand in the file.
pub open spec fn row_tail(r: ManagerAppConfigRecord) -> Seq<char> {
    " "@ + signed_decimal(r.mode as int) + " "@ + decimal(switch(r.permissive) as nat)
}

fn push_row_tail(out: &mut String, r: ManagerAppConfigRecord)
    ensures
        final(out)@ == old(out)@ + row_tail(r),
{
    let ghost start = out@;
    out.append(" ");
    let mode = signed_number(r.mode as i64);
    out.append(mode.as_str());
    out.append(" ");
    let permissive = number(if r.permissive { 1 } else { 0 });
    out.append(permissive.as_str());
    assert(out@ =~= start + row_tail(r));
}

/// A line after a change: rewritten where the record of its application changed.
pub open spec fn new_line(
    line: Seq<char>,
    parsed: Option<PolicyLine>,
    uid: Option<u32>,
    previous: Seq<ManagerAppConfigRecord>,
    records: Seq<ManagerAppConfigRecord>,
) -> Seq<char> {
    match (parsed, uid) {
        (Some(p), Some(u)) => match (record_of(previous, u), record_of(records, u)) {
            (Some(was), Some(is)) => if was.mode == is.mode && was.permissive == is.permissive {
                line
            } else {
                p.package_or_uid + row_tail(is) + line_end(line)
            },
            _ => line,
        },
        _ => line,
    }
}

/// The lines after a change.
pub open spec fn new_lines(
    rows: Seq<Seq<char>>,
    uids: Seq<Option<u32>>,
    previous: Seq<ManagerAppConfigRecord>,
    records: Seq<ManagerAppConfigRecord>,
) -> Seq<Seq<char>> {
    Seq::new(
        rows.len(),
        |i: int|
            new_line(rows[i], policy_line(line_body(rows[i])), uids[i], previous, records),
    )
}

/// Texts one after another.
pub open spec fn concat(parts: Seq<Seq<char>>) -> Seq<char>
    decreases parts.len(),
{
    if parts.len() == 0 {
        seq![]
    } else {
        concat(parts.drop_last()) + parts.last()
    }
}

/// Whether the record of an application has a line.
pub open spec fn has_line(
    uids: Seq<Option<u32>>,
    previous: Seq<ManagerAppConfigRecord>,
    uid: u32,
) -> bool {
    uids.contains(Some(uid)) && record_of(previous, uid) is Some
}

/// A text that ends with its last line.
pub open spec fn ended(s: Seq<char>) -> Seq<char> {
    if s.len() > 0 && s.last() != '\n' {
        s.push('\n')
    } else {
        s
    }
}

/// The line for a new record.
pub open spec fn new_row(r: ManagerAppConfigRecord) -> Seq<char> {
    uid_token(r.uid) + row_tail(r) + "\n"@
}

/// The text after the records without a line were appended.
pub open spec fn appended(
    body: Seq<char>,
    uids: Seq<Option<u32>>,
    previous: Seq<ManagerAppConfigRecord>,
    records: Seq<ManagerAppConfigRecord>,
) -> Seq<char>
    decreases records.len(),
{
    if records.len() == 0 {
        body
    } else {
        let rest = appended(body, uids, previous, records.drop_last());
        let r = records.last();
        if r.uid != NO_UID && !has_line(uids, previous, r.uid) {
            ended(rest) + new_row(r)
        } else {
            rest
        }
    }
}

/// The tokens after the records without a line were appended.
pub open spec fn with_new_tokens(
    tokens: Map<u32, Seq<char>>,
    uids: Seq<Option<u32>>,
    previous: Seq<ManagerAppConfigRecord>,
    records: Seq<ManagerAppConfigRecord>,
) -> Map<u32, Seq<char>>
    decreases records.len(),
{
    if records.len() == 0 {
        tokens
    } else {
        let rest = with_new_tokens(tokens, uids, previous, records.drop_last());
        let r = records.last();
        if r.uid != NO_UID && !has_line(uids, previous, r.uid) {
            rest.insert(r.uid, uid_token(r.uid))
        } else {
            rest
        }
    }
}

/// What a change does to the file: what is refused, nothing, or the text that is written; with
/// the tokens of the applications.
#[verifier::ext_equal]
pub ghost enum PlanView {
    Refused(ErrorView),
    Unchanged(Map<u32, Seq<char>>),
    Write(Seq<char>, Map<u32, Seq<char>>),
}

/// The applications on the lines of the file: by their tokens and, where no token was ever
/// noted, by their order.
pub open spec fn line_uids(
    noted: Map<u32, Seq<char>>,
    previous: Seq<ManagerAppConfigRecord>,
    rows: Seq<Option<PolicyLine>>,
) -> Seq<Option<u32>> {
    let known = anchors(of_recorded(noted, previous), previous, rows);
    if noted.dom() =~= Set::empty() {
        either(known, placed(rows, known, unplaced(previous, known)))
    } else {
        known
    }
}

/// The tokens of the applications on the lines of the file.
pub open spec fn line_tokens(
    noted: Map<u32, Seq<char>>,
    previous: Seq<ManagerAppConfigRecord>,
    rows: Seq<Option<PolicyLine>>,
) -> Map<u32, Seq<char>> {
    let tokens = of_recorded(noted, previous);
    let known = anchors(tokens, previous, rows);
    let anchored = with_tokens(tokens, rows, known);
    if noted.dom() =~= Set::empty() {
        with_tokens(anchored, rows, placed(rows, known, unplaced(previous, known)))
    } else {
        anchored
    }
}

/// What is written when records change.
pub open spec fn rewrite(
    noted: Map<u32, Seq<char>>,
    previous: Seq<ManagerAppConfigRecord>,
    records: Seq<ManagerAppConfigRecord>,
    rows: Seq<Seq<char>>,
) -> PlanView {
    let parsed = parsed_lines(rows);
    let uids = line_uids(noted, previous, parsed);
    let body = concat(new_lines(rows, uids, previous, records));
    let tokens = with_new_tokens(line_tokens(noted, previous, parsed), uids, previous, records);
    PlanView::Write(appended(body, uids, previous, records), of_recorded(tokens, records))
}

/// What a change does to the file.
pub open spec fn plan(
    noted: Map<u32, Seq<char>>,
    previous: Seq<ManagerAppConfigRecord>,
    records: Seq<ManagerAppConfigRecord>,
    file: Option<Seq<u8>>,
) -> PlanView {
    match file {
        None => rewrite(noted, previous, records, seq![]),
        Some(bytes) => if records == previous {
            PlanView::Unchanged(of_recorded(noted, previous))
        } else if !valid_utf8(bytes) {
            PlanView::Refused(ErrorView::Config("existing app config is not valid UTF-8"@))
        } else {
            rewrite(noted, previous, records, full_lines(decode_utf8(bytes)))
        },
    }
}

/// What a change does to the file.
#[derive(Debug, PartialEq, Eq)]
pub enum AppConfigPlan {
    Unchanged(BTreeMap<u32, String>),
    Write(Vec<u8>, BTreeMap<u32, String>),
}

/// What a plan says.
pub open spec fn plan_is(r: Result<AppConfigPlan, DaemonError>, p: PlanView) -> bool {
    match p {
        PlanView::Refused(error) => r matches Err(e) && e@ == error,
        PlanView::Unchanged(tokens) => r matches Ok(AppConfigPlan::Unchanged(t)) && token_views(t@)
            == tokens,
        PlanView::Write(s, tokens) => r matches Ok(AppConfigPlan::Write(b, t)) && b@ == encode_utf8(
            s,
        ) && token_views(t@) == tokens,
    }
}

fn parse_rows(rows: &[String]) -> (r: Vec<Option<LegacyPolicyRecord>>)
    ensures
        parsed_views(r@) == parsed_lines(texts(rows@)),
{
    let ghost all = parsed_lines(texts(rows@));
    let mut out: Vec<Option<LegacyPolicyRecord>> = Vec::new();
    let mut i: usize = 0;
    while i < rows.len()
        invariant
            i <= rows@.len(),
            all == parsed_lines(texts(rows@)),
            parsed_views(out@) == all.take(i as int),
        decreases rows@.len() - i,
    {
        let ghost done = parsed_views(out@);
        let (body, _end) = split_line_ending(rows[i].as_str());
        let record = parse_legacy_policy_line(body.as_str());
        out.push(record);
        assert(texts(rows@)[i as int] == rows@[i as int]@);
        assert(parsed_views(out@) =~= done.push(all[i as int]));
        assert(all.take(i + 1) =~= done.push(all[i as int]));
        i += 1;
    }
    assert(all.take(i as int) =~= all);
    out
}

fn find_anchors(
    tokens: &BTreeMap<u32, String>,
    previous: &[ManagerAppConfigRecord],
    rows: &[Option<LegacyPolicyRecord>],
) -> (r: Vec<Option<u32>>)
    ensures
        r@ == anchors(token_views(tokens@), previous@, parsed_views(rows@)),
{
    let ghost all = anchors(token_views(tokens@), previous@, parsed_views(rows@));
    let mut out: Vec<Option<u32>> = Vec::new();
    let mut i: usize = 0;
    while i < rows.len()
        invariant
            i <= rows@.len(),
            all == anchors(token_views(tokens@), previous@, parsed_views(rows@)),
            out@ == all.take(i as int),
        decreases rows@.len() - i,
    {
        let mut here: Option<u32> = None;
        match &rows[i] {
            Some(p) => {
                here = find_token(tokens, p.package_or_uid.as_str());
                if here.is_none() {
                    match parse_legacy_uid_token(p.package_or_uid.as_str()) {
                        Some(uid) => {
                            if uid != NO_UID && is_recorded(previous, uid) {
                                here = Some(uid);
                            }
                        },
                        None => {},
                    }
                }
            },
            None => {},
        }
        assert(here == all[i as int]);
        out.push(here);
        assert(out@ =~= all.take(i + 1));
        i += 1;
    }
    assert(out@ =~= all);
    out
}

fn write_lines_anew(
    rows: &[String],
    parsed: &[Option<LegacyPolicyRecord>],
    uids: &[Option<u32>],
    previous: &[ManagerAppConfigRecord],
    records: &[ManagerAppConfigRecord],
) -> (r: String)
    requires
        parsed_views(parsed@) == parsed_lines(texts(rows@)),
        uids@.len() == rows@.len(),
    ensures
        r@ == concat(new_lines(texts(rows@), uids@, previous@, records@)),
{
    let ghost all = new_lines(texts(rows@), uids@, previous@, records@);
    assert(parsed_views(parsed@).len() == parsed@.len());
    assert(texts(rows@).len() == rows@.len());
    let mut out = String::new();
    let mut i: usize = 0;
    assert(out@ =~= concat(all.take(0)));
    while i < rows.len()
        invariant
            i <= rows@.len(),
            parsed@.len() == rows@.len(),
            uids@.len() == rows@.len(),
            parsed_views(parsed@) == parsed_lines(texts(rows@)),
            all == new_lines(texts(rows@), uids@, previous@, records@),
            out@ == concat(all.take(i as int)),
        decreases rows@.len() - i,
    {
        let ghost done = out@;
        assert(all.take(i + 1).drop_last() =~= all.take(i as int));
        assert(texts(rows@)[i as int] == rows@[i as int]@);
        assert(parsed_views(parsed@)[i as int] == parsed_lines(texts(rows@))[i as int]);
        let mut kept = true;
        match (&parsed[i], uids[i]) {
            (Some(p), Some(uid)) => {
                match (find_record(previous, uid), find_record(records, uid)) {
                    (Some(was), Some(is)) => {
                        if was.mode != is.mode || was.permissive != is.permissive {
                            kept = false;
                            out.append(p.package_or_uid.as_str());
                            push_row_tail(&mut out, is);
                            let (_body, end) = split_line_ending(rows[i].as_str());
                            out.append(end.as_str());
                            assert(out@ =~= done + all[i as int]);
                        }
                    },
                    _ => {},
                }
            },
            _ => {},
        }
        if kept {
            out.append(rows[i].as_str());
        }
        assert(out@ =~= done + all[i as int]);
        i += 1;
    }
    assert(all.take(i as int) =~= all);
    out
}

fn is_ended(s: &str) -> (r: bool)
    ensures
        r == (s@.len() == 0 || s@.last() == '\n'),
{
    let x = chars_of(s);
    x.len() == 0 || x[x.len() - 1] == '\n'
}

fn append_records(
    body: String,
    tokens: &mut BTreeMap<u32, String>,
    uids: &[Option<u32>],
    previous: &[ManagerAppConfigRecord],
    records: &[ManagerAppConfigRecord],
) -> (r: String)
    ensures
        r@ == appended(body@, uids@, previous@, records@),
        token_views(final(tokens)@) == with_new_tokens(
            token_views(old(tokens)@),
            uids@,
            previous@,
            records@,
        ),
{
    let ghost start = token_views(tokens@);
    let ghost first = body@;
    let mut out = body;
    let mut i: usize = 0;
    assert(records@.take(0).len() == 0);
    while i < records.len()
        invariant
            i <= records@.len(),
            out@ == appended(first, uids@, previous@, records@.take(i as int)),
            token_views(tokens@) == with_new_tokens(
                start,
                uids@,
                previous@,
                records@.take(i as int),
            ),
        decreases records@.len() - i,
    {
        let record = records[i];
        assert(records@.take(i + 1).drop_last() =~= records@.take(i as int));
        let placed_already = lists(uids, record.uid) && find_record(
            previous,
            record.uid,
        ).is_some();
        if record.uid != NO_UID && !placed_already {
            let ghost done = out@;
            let ghost noted = token_views(tokens@);
            if !is_ended(out.as_str()) {
                out.push('\n');
            }
            assert(out@ == ended(done));
            let token = write_uid_token(record.uid);
            out.append(token.as_str());
            push_row_tail(&mut out, record);
            out.append("\n");
            assert(out@ =~= ended(done) + new_row(record));
            tokens.insert(record.uid, token);
            assert(token_views(tokens@) =~= noted.insert(record.uid, uid_token(record.uid)));
        }
        i += 1;
    }
    assert(records@.take(i as int) =~= records@);
    out
}

/// Plans what a change of the records does to the file.
pub fn plan_app_config_persistence(
    noted: &BTreeMap<u32, String>,
    previous_records: &[ManagerAppConfigRecord],
    records: &[ManagerAppConfigRecord],
    previous_file: Option<&[u8]>,
) -> (r: Result<AppConfigPlan, DaemonError>)
    ensures
        plan_is(
            r,
            plan(
                token_views(noted@),
                previous_records@,
                records@,
                match previous_file {
                    Some(b) => Some(b@),
                    None => None,
                },
            ),
        ),
{
    let mut tokens = tokens_of_recorded(noted, previous_records);
    let rows: Vec<String> = match previous_file {
        None => Vec::new(),
        Some(bytes) => {
            if same_records(records, previous_records) {
                return Ok(AppConfigPlan::Unchanged(tokens));
            }
            match read_utf8(bytes) {
                Ok(s) => split_full_lines(s.as_str()),
                Err(_) => {
                    return Err(DaemonError::config("existing app config is not valid UTF-8"));
                },
            }
        },
    };
    let ghost lines = texts(rows@);
    assert(previous_file is None ==> lines =~= seq![]);
    let ghost first = token_views(tokens@);
    let parsed = parse_rows(rows.as_slice());
    let ghost all = parsed_views(parsed@);
    assert(all.len() == rows@.len());
    let mut uids = find_anchors(&tokens, previous_records, parsed.as_slice());
    let ghost known = uids@;
    note_tokens(&mut tokens, parsed.as_slice(), uids.as_slice());
    let none_noted = noted.is_empty();
    assert(none_noted == (token_views(noted@).dom() =~= Set::empty())) by {
        assert(token_views(noted@).dom() =~= noted@.dom());
        if none_noted {
            assert(noted@.dom() =~= Set::empty());
        } else {
            assert(noted@.len() != 0);
            if noted@.dom() =~= Set::empty() {
                assert(noted@.dom().len() == 0);
            }
        }
    }
    if none_noted {
        let remaining = find_unplaced(previous_records, uids.as_slice());
        let positions = place(parsed.as_slice(), uids.as_slice(), remaining.as_slice());
        note_tokens(&mut tokens, parsed.as_slice(), positions.as_slice());
        uids = first_known(uids.as_slice(), positions.as_slice());
    }
    assert(uids@ == line_uids(token_views(noted@), previous_records@, all));
    assert(token_views(tokens@) == line_tokens(token_views(noted@), previous_records@, all));
    let body = write_lines_anew(
        rows.as_slice(),
        parsed.as_slice(),
        uids.as_slice(),
        previous_records,
        records,
    );
    let full = append_records(body, &mut tokens, uids.as_slice(), previous_records, records);
    let kept = tokens_of_recorded(&tokens, records);
    Ok(AppConfigPlan::Write(bytes_of(full.as_str()), kept))
}

// ---------------------------------------------------------------------------
// Tokens of a file
// ---------------------------------------------------------------------------

/// The records on lines.
pub open spec fn policy_rows(rows: Seq<Seq<char>>) -> Seq<PolicyLine>
    decreases rows.len(),
{
    if rows.len() == 0 {
        seq![]
    } else {
        let rest = policy_rows(rows.drop_last());
        match policy_line(rows.last()) {
            Some(p) => rest.push(p),
            None => rest,
        }
    }
}

/// Records as values.
pub open spec fn policy_views(v: Seq<LegacyPolicyRecord>) -> Seq<PolicyLine> {
    v.map_values(|r: LegacyPolicyRecord| r@)
}

/// Reads the records in a text.
pub fn read_policy_rows(s: &str) -> (r: Vec<LegacyPolicyRecord>)
    ensures
        policy_views(r@) == policy_rows(lines(s@)),
{
    let rows = split_lines(s);
    let ghost all = texts(rows@);
    let mut out: Vec<LegacyPolicyRecord> = Vec::new();
    let mut i: usize = 0;
    assert(policy_views(out@) =~= policy_rows(all.take(0)));
    while i < rows.len()
        invariant
            i <= rows@.len(),
            all == texts(rows@),
            policy_views(out@) == policy_rows(all.take(i as int)),
        decreases rows@.len() - i,
    {
        assert(all.take(i + 1).drop_last() =~= all.take(i as int));
        assert(all[i as int] == rows@[i as int]@);
        match parse_legacy_policy_line(rows[i].as_str()) {
            Some(p) => {
                let ghost done = policy_views(out@);
                out.push(p);
                assert(policy_views(out@) =~= done.push(p@));
            },
            None => {},
        }
        i += 1;
    }
    assert(all.take(i as int) =~= all);
    out
}

/// The application for a token: as it was resolved, else the uid that the token is.
pub open spec fn resolved_uid(token: Seq<char>, reply: Option<u32>) -> Option<u32> {
    match reply {
        Some(uid) => Some(uid),
        None => match policy_target(token) {
            Some(TargetView::Uid(uid)) => Some(uid),
            _ => None,
        },
    }
}

/// Decides the application for a token.
pub fn resolve_token(token: &str, reply: Option<u32>) -> (r: Option<u32>)
    ensures
        r == resolved_uid(token@, reply),
{
    match reply {
        Some(uid) => Some(uid),
        None => parse_legacy_uid_token(token),
    }
}

/// The tokens of the applications, the last one where there are several.
pub open spec fn tokens_of(rows: Seq<PolicyLine>, replies: Seq<Option<u32>>) -> Map<u32, Seq<char>>
    decreases rows.len(),
{
    if rows.len() == 0 {
        Map::empty()
    } else {
        let rest = tokens_of(rows.drop_last(), replies.drop_last());
        match resolved_uid(rows.last().package_or_uid, replies.last()) {
            Some(uid) => rest.insert(uid, rows.last().package_or_uid),
            None => rest,
        }
    }
}

/// The function can return this reply for a token.
pub open spec fn resolves<F: FnMut(&str) -> Option<u32>>(
    f: F,
    token: Seq<char>,
    reply: Option<u32>,
) -> bool {
    exists|p: &str| #[trigger] call_ensures(f, (p,), reply) && p@ == token
}

/// Whether these are replies of the function for the tokens of the records.
pub open spec fn replies_of<F: FnMut(&str) -> Option<u32>>(
    f: F,
    rows: Seq<PolicyLine>,
    replies: Seq<Option<u32>>,
) -> bool {
    &&& replies.len() == rows.len()
    &&& forall|i: int|
        0 <= i < rows.len() ==> resolves(f, (#[trigger] rows[i]).package_or_uid, replies[i])
}

/// The function can be called for every token of the records.
pub open spec fn takes_tokens<F: FnMut(&str) -> Option<u32>>(f: F, rows: Seq<PolicyLine>) -> bool {
    forall|i: int, p: &str|
        #![trigger rows[i], call_requires(f, (p,))]
        0 <= i < rows.len() && p@ == rows[i].package_or_uid ==> call_requires(f, (p,))
}

/// The records in a file that may be missing.
pub open spec fn file_rows(app_config: Option<&str>) -> Seq<PolicyLine> {
    match app_config {
        Some(s) => policy_rows(lines(s@)),
        None => seq![],
    }
}

/// Notes the token of each application in a file.
pub fn source_tokens_from_legacy_config<F: FnMut(&str) -> Option<u32>>(
    app_config: Option<&str>,
    resolve_package_uid: F,
) -> (r: BTreeMap<u32, String>)
    requires
        takes_tokens(resolve_package_uid, file_rows(app_config)),
    ensures
        exists|replies: Seq<Option<u32>>| #[trigger]
            replies_of(resolve_package_uid, file_rows(app_config), replies) && token_views(r@)
                == tokens_of(file_rows(app_config), replies),
{
    let ghost f = resolve_package_uid;
    let mut resolve = resolve_package_uid;
    let rows: Vec<LegacyPolicyRecord> = match app_config {
        Some(s) => read_policy_rows(s),
        None => Vec::new(),
    };
    let ghost all = policy_views(rows@);
    assert(all =~= file_rows(app_config));
    let mut out: BTreeMap<u32, String> = BTreeMap::new();
    let ghost mut replies: Seq<Option<u32>> = seq![];
    let mut i: usize = 0;
    assert(token_views(out@) =~= tokens_of(all.take(0), replies));
    while i < rows.len()
        invariant
            i <= rows@.len(),
            all == policy_views(rows@),
            resolve == f,
            takes_tokens(resolve, all),
            replies.len() == i,
            forall|k: int|
                0 <= k < i ==> resolves(f, (#[trigger] all[k]).package_or_uid, replies[k]),
            token_views(out@) == tokens_of(all.take(i as int), replies),
        decreases rows@.len() - i,
    {
        let token = rows[i].package_or_uid.as_str();
        assert(all[i as int] == rows@[i as int]@);
        assert(all.take(i + 1).drop_last() =~= all.take(i as int));
        let reply = resolve(token);
        let ghost before = replies;
        proof {
            assert(resolves(f, all[i as int].package_or_uid, reply));
            replies = replies.push(reply);
            assert(replies.drop_last() =~= before);
        }
        match resolve_token(token, reply) {
            Some(uid) => {
                let ghost done = token_views(out@);
                let t = copy(token);
                out.insert(uid, t);
                assert(token_views(out@) =~= done.insert(uid, t@));
            },
            None => {},
        }
        i += 1;
    }
    assert(all.take(i as int) =~= all);
    assert(replies_of(f, all, replies));
    out
}

} // verus!
