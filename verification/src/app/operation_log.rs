//! The bounded log of control operations.

use vstd::prelude::*;
use vstd::string::*;

use crate::domain::json_text::{quote, quoted};
use crate::domain::operation::{
    operation_views, ControlAction, ControlOperation, OperationResult, OperationView,
};
use crate::text::{
    decimal, join, join_strings, number, signed_decimal, signed_number, text, texts,
};

verus! {

/// The most recent control operations, oldest first.
#[derive(Debug, PartialEq, Eq)]
pub struct OperationLog {
    capacity: usize,
    records: Vec<ControlOperation>,
}

/// An operation log as a value.
#[verifier::ext_equal]
pub ghost struct OperationLogView {
    pub capacity: nat,
    pub records: Seq<OperationView>,
}

impl View for OperationLog {
    type V = OperationLogView;

    closed spec fn view(&self) -> OperationLogView {
        OperationLogView { capacity: self.capacity as nat, records: operation_views(self.records@) }
    }
}

/// The last `n` members of a sequence.
pub open spec fn last_n<T>(s: Seq<T>, n: nat) -> Seq<T> {
    if s.len() <= n {
        s
    } else {
        s.skip(s.len() - n)
    }
}

/// A log with one more operation: the oldest leave where the capacity is exceeded.
pub open spec fn logged(log: OperationLogView, operation: OperationView) -> OperationLogView {
    OperationLogView { records: last_n(log.records.push(operation), log.capacity), ..log }
}

/// The operation logged last is in the log.
pub proof fn last_operation_is_kept(log: OperationLogView, operation: OperationView)
    requires
        log.capacity > 0,
    ensures
        logged(log, operation).records.len() > 0,
        logged(log, operation).records.last() == operation,
{
}

impl OperationLog {
    #[verifier::type_invariant]
    spec fn bounded(self) -> bool {
        self.records@.len() <= self.capacity && self.capacity > 0
    }

    /// An empty log that keeps up to `capacity` operations, at least one.
    pub fn new(capacity: usize) -> (r: Self)
        ensures
            r@ == (OperationLogView {
                capacity: if capacity == 0 { 1 } else { capacity as nat },
                records: seq![],
            }),
    {
        let capacity: usize = if capacity == 0 { 1 } else { capacity };
        let r = OperationLog { capacity, records: Vec::new() };
        assert(operation_views(r.records@) =~= seq![]);
        r
    }

    /// Appends an operation and drops the oldest one where the log is full.
    pub fn push(&mut self, operation: ControlOperation)
        ensures
            final(self)@ == logged(old(self)@, operation@),
    {
        proof {
            use_type_invariant(&*self);
        }
        let ghost before = self.records@;
        let mut records: Vec<ControlOperation> = Vec::new();
        core::mem::swap(&mut self.records, &mut records);
        records.push(operation);
        assert(operation_views(records@) =~= operation_views(before).push(operation@));
        if records.len() > self.capacity {
            let ghost full = records@;
            records.remove(0);
            assert(operation_views(records@) =~= operation_views(full).skip(1));
        }
        self.records = records;
    }

    /// The operations, oldest first: never more than the capacity.
    pub fn records(&self) -> (r: &[ControlOperation])
        ensures
            operation_views(r@) == self@.records,
            self@.records.len() <= self@.capacity,
    {
        proof {
            use_type_invariant(self);
        }
        self.records.as_slice()
    }
}

impl Clone for OperationLog {
    fn clone(&self) -> (r: Self)
        ensures
            r@ == self@,
    {
        proof {
            use_type_invariant(self);
        }
        let mut records: Vec<ControlOperation> = Vec::new();
        let mut i: usize = 0;
        while i < self.records.len()
            invariant
                i <= self.records@.len(),
                records@.len() == i,
                operation_views(records@) == operation_views(self.records@).take(i as int),
            decreases self.records@.len() - i,
        {
            records.push(self.records[i].clone());
            assert(operation_views(records@) =~= operation_views(self.records@).take(i + 1));
            i += 1;
        }
        assert(operation_views(self.records@).take(i as int) =~= operation_views(self.records@));
        OperationLog { capacity: self.capacity, records }
    }
}

// ---------------------------------------------------------------------------
// Operations as text
// ---------------------------------------------------------------------------

/// A number with two digits.
pub open spec fn two_digits(n: nat) -> Seq<char> {
    if n < 10 {
        "0"@ + decimal(n)
    } else {
        decimal(n)
    }
}

fn write_two_digits(n: u64) -> (r: String)
    ensures
        r@ == two_digits(n as nat),
{
    if n < 10 {
        let mut out = text("0");
        let digits = number(n as u128);
        out.append(digits.as_str());
        out
    } else {
        number(n as u128)
    }
}

/// The second of the day, eight hours ahead of universal time.
pub open spec fn second_of_day(timestamp_ms: u128) -> nat {
    ((timestamp_ms / 1000 + 28_800) % 86_400) as nat
}

/// A line of the log: the time of day, the message and a line end.
pub open spec fn timestamped(timestamp_ms: u128, message: Seq<char>) -> Seq<char> {
    let s = second_of_day(timestamp_ms);
    "["@ + two_digits(s / 3600) + ":"@ + two_digits(s / 60 % 60) + ":"@ + two_digits(s % 60)
        + "]  "@ + message + "\n"@
}

/// Writes a line of the log.
pub fn legacy_timestamped_line(timestamp_ms: u128, message: &str) -> (r: String)
    ensures
        r@ == timestamped(timestamp_ms, message@),
{
    let second: u64 = ((timestamp_ms / 1000 % 86_400 + 28_800) % 86_400) as u64;
    assert(second == second_of_day(timestamp_ms));
    let mut out = text("[");
    let hours = write_two_digits(second / 3600);
    out.append(hours.as_str());
    out.append(":");
    let minutes = write_two_digits(second / 60 % 60);
    out.append(minutes.as_str());
    out.append(":");
    let seconds = write_two_digits(second % 60);
    out.append(seconds.as_str());
    out.append("]  ");
    out.append(message);
    out.append("\n");
    out
}

/// The name of an action.
pub open spec fn action_name(action: ControlAction) -> Seq<char> {
    match action {
        ControlAction::Freeze => "❄️冻结"@,
        ControlAction::Unfreeze => "☀️解冻"@,
        ControlAction::Postpone => "⏳延迟冻结"@,
        ControlAction::Fallback => "⚠️降级处理"@,
        ControlAction::Terminate => "😭关闭"@,
        ControlAction::Skip => "⚠️跳过"@,
        ControlAction::Recover => "♻️恢复"@,
    }
}

fn name_of_action(action: ControlAction) -> (r: &'static str)
    ensures
        r@ == action_name(action),
{
    match action {
        ControlAction::Freeze => "❄️冻结",
        ControlAction::Unfreeze => "☀️解冻",
        ControlAction::Postpone => "⏳延迟冻结",
        ControlAction::Fallback => "⚠️降级处理",
        ControlAction::Terminate => "😭关闭",
        ControlAction::Skip => "⚠️跳过",
        ControlAction::Recover => "♻️恢复",
    }
}

/// The name of a result.
pub open spec fn result_name(result: OperationResult) -> Seq<char> {
    match result {
        OperationResult::Success => "成功"@,
        OperationResult::Partial => "部分成功"@,
        OperationResult::Failed => "失败"@,
        OperationResult::Skipped => "跳过"@,
        OperationResult::Postponed => "延迟"@,
    }
}

fn name_of_result(result: OperationResult) -> (r: &'static str)
    ensures
        r@ == result_name(result),
{
    match result {
        OperationResult::Success => "成功",
        OperationResult::Partial => "部分成功",
        OperationResult::Failed => "失败",
        OperationResult::Skipped => "跳过",
        OperationResult::Postponed => "延迟",
    }
}

/// An operation in short: what was done, to which package, with how many processes.
pub open spec fn summary(o: OperationView) -> Seq<char> {
    action_name(o.action) + " "@ + o.package_name + " "@ + decimal(o.pid_list.len()) + "进程"@
}

fn write_summary(o: &ControlOperation) -> (r: String)
    ensures
        r@ == summary(o@),
{
    let mut out = text(name_of_action(o.action));
    out.append(" ");
    out.append(o.package_name.as_str());
    out.append(" ");
    let count = number(o.pid_list.len() as u128);
    out.append(count.as_str());
    out.append("进程");
    out
}

/// Whether an operation stands in the plain log: freezing, thawing and closing that succeeded.
pub open spec fn is_plain(o: OperationView) -> bool {
    o.result == OperationResult::Success && (o.action == ControlAction::Freeze || o.action
        == ControlAction::Unfreeze || o.action == ControlAction::Terminate)
}

/// Whether an operation stands in the plain log.
pub fn operation_is_legacy_info(o: &ControlOperation) -> (r: bool)
    ensures
        r == is_plain(o@),
{
    o.result == OperationResult::Success && (o.action == ControlAction::Freeze || o.action
        == ControlAction::Unfreeze || o.action == ControlAction::Terminate)
}

/// The plain line of an operation.
pub fn operation_to_legacy_text(o: &ControlOperation) -> (r: String)
    ensures
        r@ == timestamped(o@.timestamp_ms, summary(o@)),
{
    let message = write_summary(o);
    legacy_timestamped_line(o.timestamp_ms, message.as_str())
}

/// The numbers of processes, separated by commas.
pub open spec fn pid_text(list: Seq<i32>) -> Seq<char> {
    join(list.map_values(|p: i32| signed_decimal(p as int)), ","@)
}

/// An operation with everything that is known about it.
pub open spec fn full_summary(o: OperationView) -> Seq<char> {
    summary(o) + " UID:"@ + decimal(o.uid as nat) + " PID:"@ + pid_text(o.pid_list) + " 方式:"@
        + o.backend + " 结果:"@ + result_name(o.result) + " 原因:"@ + o.reason + " 详情:"@
        + o.details
}

/// The numbers as text, each on its own.
pub fn pid_texts(list: &[i32]) -> (r: Vec<String>)
    ensures
        texts(r@) == list@.map_values(|p: i32| signed_decimal(p as int)),
{
    let mut parts: Vec<String> = Vec::new();
    let ghost all = list@.map_values(|p: i32| signed_decimal(p as int));
    let mut i: usize = 0;
    while i < list.len()
        invariant
            i <= list@.len(),
            all == list@.map_values(|p: i32| signed_decimal(p as int)),
            texts(parts@) == all.take(i as int),
        decreases list@.len() - i,
    {
        let ghost done = texts(parts@);
        let item = signed_number(list[i] as i64);
        parts.push(item);
        assert(texts(parts@) =~= done.push(item@));
        assert(all.take(i + 1) =~= all.take(i as int).push(all[i as int]));
        i += 1;
    }
    assert(all.take(i as int) =~= all);
    parts
}

/// The diagnostic line of an operation.
pub fn operation_to_debug_text(o: &ControlOperation) -> (r: String)
    ensures
        r@ == timestamped(o@.timestamp_ms, full_summary(o@)),
{
    let mut message = write_summary(o);
    message.append(" UID:");
    let uid = number(o.uid as u128);
    message.append(uid.as_str());
    message.append(" PID:");
    let parts = pid_texts(o.pid_list.as_slice());
    let joined = join_strings(parts.as_slice(), ",");
    message.append(joined.as_str());
    message.append(" 方式:");
    message.append(o.backend.as_str());
    message.append(" 结果:");
    message.append(name_of_result(o.result));
    message.append(" 原因:");
    message.append(o.reason.as_str());
    message.append(" 详情:");
    message.append(o.details.as_str());
    legacy_timestamped_line(o.timestamp_ms, message.as_str())
}

// ---------------------------------------------------------------------------
// Operations as JSON
// ---------------------------------------------------------------------------

/// The key of an action in reports.
pub open spec fn action_key(action: ControlAction) -> Seq<char> {
    match action {
        ControlAction::Freeze => "freeze"@,
        ControlAction::Unfreeze => "unfreeze"@,
        ControlAction::Postpone => "postpone"@,
        ControlAction::Fallback => "fallback"@,
        ControlAction::Terminate => "terminate"@,
        ControlAction::Skip => "skip"@,
        ControlAction::Recover => "recover"@,
    }
}

fn key_of_action(action: ControlAction) -> (r: &'static str)
    ensures
        r@ == action_key(action),
{
    match action {
        ControlAction::Freeze => "freeze",
        ControlAction::Unfreeze => "unfreeze",
        ControlAction::Postpone => "postpone",
        ControlAction::Fallback => "fallback",
        ControlAction::Terminate => "terminate",
        ControlAction::Skip => "skip",
        ControlAction::Recover => "recover",
    }
}

/// The key of a result in reports.
pub open spec fn result_key(result: OperationResult) -> Seq<char> {
    match result {
        OperationResult::Success => "success"@,
        OperationResult::Partial => "partial"@,
        OperationResult::Failed => "failed"@,
        OperationResult::Skipped => "skipped"@,
        OperationResult::Postponed => "postponed"@,
    }
}

fn key_of_result(result: OperationResult) -> (r: &'static str)
    ensures
        r@ == result_key(result),
{
    match result {
        OperationResult::Success => "success",
        OperationResult::Partial => "partial",
        OperationResult::Failed => "failed",
        OperationResult::Skipped => "skipped",
        OperationResult::Postponed => "postponed",
    }
}

/// An operation as a JSON object.
pub open spec fn operation_json(o: OperationView) -> Seq<char> {
    "{\"operationId\":"@ + decimal(o.operation_id as nat) + ",\"timestampMs\":"@ + decimal(
        o.timestamp_ms as nat,
    ) + ",\"packageName\":"@ + quoted(o.package_name, true) + ",\"uid\":"@ + decimal(o.uid as nat)
        + ",\"pidList\":["@ + pid_text(o.pid_list) + "],\"action\":\""@ + action_key(o.action)
        + "\",\"backend\":"@ + quoted(o.backend, true) + ",\"reason\":"@ + quoted(o.reason, true)
        + ",\"result\":\""@ + result_key(o.result) + "\",\"details\":"@ + quoted(o.details, true)
        + "}"@
}

fn write_operation_json(o: &ControlOperation) -> (r: String)
    ensures
        r@ == operation_json(o@),
{
    let mut out = text("{\"operationId\":");
    let part = number(o.operation_id as u128);
    out.append(part.as_str());
    out.append(",\"timestampMs\":");
    let part = number(o.timestamp_ms);
    out.append(part.as_str());
    out.append(",\"packageName\":");
    let part = quote(o.package_name.as_str(), true);
    out.append(part.as_str());
    out.append(",\"uid\":");
    let part = number(o.uid as u128);
    out.append(part.as_str());
    out.append(",\"pidList\":[");
    let parts = pid_texts(o.pid_list.as_slice());
    let part = join_strings(parts.as_slice(), ",");
    out.append(part.as_str());
    out.append("],\"action\":\"");
    out.append(key_of_action(o.action));
    out.append("\",\"backend\":");
    let part = quote(o.backend.as_str(), true);
    out.append(part.as_str());
    out.append(",\"reason\":");
    let part = quote(o.reason.as_str(), true);
    out.append(part.as_str());
    out.append(",\"result\":\"");
    out.append(key_of_result(o.result));
    out.append("\",\"details\":");
    let part = quote(o.details.as_str(), true);
    out.append(part.as_str());
    out.append("}");
    out
}

/// The operations as a JSON report, oldest first.
pub open spec fn operations_json(records: Seq<OperationView>) -> Seq<char> {
    "{\"operations\":["@ + join(records.map_values(|o: OperationView| operation_json(o)), ","@)
        + "]}"@
}

impl OperationLog {
    /// Writes the operations as a JSON report.
    pub fn to_json(&self) -> (r: String)
        ensures
            r@ == operations_json(self@.records),
    {
        let ghost all = self@.records.map_values(|o: OperationView| operation_json(o));
        let mut parts: Vec<String> = Vec::new();
        let mut i: usize = 0;
        while i < self.records.len()
            invariant
                i <= self.records@.len(),
                self@.records == operation_views(self.records@),
                all == self@.records.map_values(|o: OperationView| operation_json(o)),
                texts(parts@) == all.take(i as int),
            decreases self.records@.len() - i,
        {
            let ghost done = texts(parts@);
            let part = write_operation_json(&self.records[i]);
            assert(self@.records[i as int] == self.records@[i as int]@);
            assert(part@ == all[i as int]);
            parts.push(part);
            assert(texts(parts@) =~= done.push(part@));
            assert(all.take(i + 1) =~= all.take(i as int).push(all[i as int]));
            i += 1;
        }
        assert(all.take(i as int) =~= all);
        let mut out = text("{\"operations\":[");
        let joined = join_strings(parts.as_slice(), ",");
        out.append(joined.as_str());
        out.append("]}");
        out
    }
}

} // verus!
