//! The log that the manager displays.

use vstd::prelude::*;
use vstd::string::*;

use crate::app::operation_log::{
    full_summary, is_plain, last_n, legacy_timestamped_line, operation_is_legacy_info,
    operation_to_debug_text, operation_to_legacy_text, summary, timestamped,
};
use crate::domain::operation::{ControlOperation, OperationResult, OperationView};
use crate::text::{
    begins, chars_of, copy, ends, ends_with, is_digit, same, starts_with, string_range,
    text,
};

verus! {

/// The setting that selects the view of the log.
pub const LOG_LEVEL_SETTING_INDEX: usize = 30;

/// A selection of log records.
#[derive(Debug, Clone, Copy, PartialEq, Eq, Structural)]
pub enum LogView {
    Info,
    Warn,
    Error,
    Critical,
    Debug,
}

/// The view that a setting selects.
pub open spec fn selected_view(value: u8) -> LogView {
    if value == 1 {
        LogView::Debug
    } else if value == 2 {
        LogView::Warn
    } else if value == 3 {
        LogView::Error
    } else if value == 4 {
        LogView::Critical
    } else {
        LogView::Info
    }
}

/// The view that a setting selects, and whether the setting is not a known one.
pub fn decode_log_view(value: u8) -> (r: (LogView, bool))
    ensures
        r.0 == selected_view(value),
        r.1 == (value > 4),
{
    match value {
        0 => (LogView::Info, false),
        1 => (LogView::Debug, false),
        2 => (LogView::Warn, false),
        3 => (LogView::Error, false),
        4 => (LogView::Critical, false),
        _ => (LogView::Info, true),
    }
}

/// How grave a record is.
#[derive(Debug, Clone, Copy, PartialEq, Eq, Structural)]
pub enum LogLevel {
    Info,
    Warn,
    Error,
    Critical,
    Debug,
}

/// What a record is about.
#[derive(Debug, Clone, Copy, PartialEq, Eq, Structural)]
pub enum LogCategory {
    LegacyOperation,
    Diagnostic,
    Fault,
}

/// The content of a record.
#[derive(Debug, PartialEq, Eq)]
pub enum LogPayload {
    Text(String),
    VerifiedLegacyLine(String),
    Operation(ControlOperation),
}

/// The content of a record as a value.
#[verifier::ext_equal]
pub ghost enum PayloadView {
    Text(Seq<char>),
    VerifiedLegacyLine(Seq<char>),
    Operation(OperationView),
}

impl View for LogPayload {
    type V = PayloadView;

    open spec fn view(&self) -> PayloadView {
        match self {
            LogPayload::Text(s) => PayloadView::Text(s@),
            LogPayload::VerifiedLegacyLine(s) => PayloadView::VerifiedLegacyLine(s@),
            LogPayload::Operation(o) => PayloadView::Operation(o@),
        }
    }
}

/// A record of the log.
#[derive(Debug, PartialEq, Eq)]
pub struct LogRecord {
    pub level: LogLevel,
    pub category: LogCategory,
    pub timestamp_ms: u128,
    pub payload: LogPayload,
}

/// A record of the log as a value.
#[verifier::ext_equal]
pub ghost struct RecordView {
    pub level: LogLevel,
    pub category: LogCategory,
    pub timestamp_ms: u128,
    pub payload: PayloadView,
}

impl View for LogRecord {
    type V = RecordView;

    open spec fn view(&self) -> RecordView {
        RecordView {
            level: self.level,
            category: self.category,
            timestamp_ms: self.timestamp_ms,
            payload: self.payload@,
        }
    }
}

impl Clone for LogPayload {
    fn clone(&self) -> (r: Self)
        ensures
            r@ == self@,
    {
        match self {
            LogPayload::Text(s) => LogPayload::Text(copy(s.as_str())),
            LogPayload::VerifiedLegacyLine(s) => LogPayload::VerifiedLegacyLine(copy(s.as_str())),
            LogPayload::Operation(o) => LogPayload::Operation(o.clone()),
        }
    }
}

impl Clone for LogRecord {
    fn clone(&self) -> (r: Self)
        ensures
            r@ == self@,
    {
        LogRecord {
            level: self.level,
            category: self.category,
            timestamp_ms: self.timestamp_ms,
            payload: self.payload.clone(),
        }
    }
}

/// A record of a text.
pub open spec fn text_record(
    level: LogLevel,
    category: LogCategory,
    timestamp_ms: u128,
    message: Seq<char>,
) -> RecordView {
    RecordView { level, category, timestamp_ms, payload: PayloadView::Text(message) }
}

/// How grave an operation is: by its result.
pub open spec fn operation_level(result: OperationResult) -> LogLevel {
    match result {
        OperationResult::Partial => LogLevel::Warn,
        OperationResult::Failed => LogLevel::Error,
        _ => LogLevel::Info,
    }
}

fn operation_log_level(operation: &ControlOperation) -> (r: LogLevel)
    ensures
        r == operation_level(operation@.result),
{
    match operation.result {
        OperationResult::Partial => LogLevel::Warn,
        OperationResult::Failed => LogLevel::Error,
        OperationResult::Success | OperationResult::Skipped | OperationResult::Postponed => {
            LogLevel::Info
        },
    }
}

/// The record of an operation.
pub open spec fn operation_record(o: OperationView) -> RecordView {
    RecordView {
        level: operation_level(o.result),
        category: LogCategory::LegacyOperation,
        timestamp_ms: o.timestamp_ms,
        payload: PayloadView::Operation(o),
    }
}

/// A line that begins with a time of day in brackets and two spaces.
pub open spec fn has_clock(s: Seq<char>) -> bool {
    &&& s.len() >= 12
    &&& s[0] == '['
    &&& s[3] == ':'
    &&& s[6] == ':'
    &&& s[9] == ']'
    &&& s[10] == ' '
    &&& s[11] == ' '
    &&& is_digit(s[1]) && is_digit(s[2])
    &&& is_digit(s[4]) && is_digit(s[5])
    &&& is_digit(s[7]) && is_digit(s[8])
}

/// A message that is known from earlier versions of the log.
pub open spec fn known_message(m: Seq<char>) -> bool {
    ||| starts_with(m, "❄️冻结 "@)
    ||| starts_with(m, "🧊冻结 "@)
    ||| starts_with(m, "☀️解冻 "@)
    ||| starts_with(m, "😁启动 "@)
    ||| starts_with(m, "😭关闭 "@)
    ||| starts_with(m, "⚙️设置成功"@)
    ||| ends_with(m, " Binder正在传输, 延迟后再冻结"@)
}

/// A line that may be taken over as it is.
pub open spec fn verified_line(s: Seq<char>) -> bool {
    has_clock(s) && known_message(s.skip(12))
}

fn digit(c: char) -> (r: bool)
    ensures
        r == is_digit(c),
{
    '0' <= c && c <= '9'
}

fn is_verified_legacy_line(line: &str) -> (r: bool)
    ensures
        r == verified_line(line@),
{
    let s = chars_of(line);
    if s.len() < 12 {
        return false;
    }
    let clock = s[0] == '[' && s[3] == ':' && s[6] == ':' && s[9] == ']' && s[10] == ' ' && s[11]
        == ' ' && digit(s[1]) && digit(s[2]) && digit(s[4]) && digit(s[5]) && digit(s[7]) && digit(
        s[8],
    );
    if !clock {
        return false;
    }
    let message = string_range(&s, 12, s.len());
    assert(message@ =~= line@.skip(12));
    let m = message.as_str();
    begins(m, "❄️冻结 ") || begins(m, "🧊冻结 ") || begins(m, "☀️解冻 ") || begins(
        m,
        "😁启动 ",
    ) || begins(m, "😭关闭 ") || begins(m, "⚙️设置成功") || ends(
        m,
        " Binder正在传输, 延迟后再冻结",
    )
}

impl LogRecord {
    /// A diagnostic record.
    pub fn new(level: LogLevel, message: &str, now_ms: u128) -> (r: Self)
        ensures
            r@ == text_record(level, LogCategory::Diagnostic, now_ms, message@),
    {
        LogRecord::diagnostic(level, now_ms, message)
    }

    /// A record in the plain log.
    pub fn legacy_text(timestamp_ms: u128, message: &str) -> (r: Self)
        ensures
            r@ == text_record(
                LogLevel::Info,
                LogCategory::LegacyOperation,
                timestamp_ms,
                message@,
            ),
    {
        LogRecord {
            level: LogLevel::Info,
            category: LogCategory::LegacyOperation,
            timestamp_ms,
            payload: LogPayload::Text(copy(message)),
        }
    }

    /// A diagnostic record.
    pub fn diagnostic(level: LogLevel, timestamp_ms: u128, message: &str) -> (r: Self)
        ensures
            r@ == text_record(level, LogCategory::Diagnostic, timestamp_ms, message@),
    {
        LogRecord {
            level,
            category: LogCategory::Diagnostic,
            timestamp_ms,
            payload: LogPayload::Text(copy(message)),
        }
    }

    /// A record of a fault.
    pub fn fault(level: LogLevel, timestamp_ms: u128, message: &str) -> (r: Self)
        ensures
            r@ == text_record(level, LogCategory::Fault, timestamp_ms, message@),
    {
        LogRecord {
            level,
            category: LogCategory::Fault,
            timestamp_ms,
            payload: LogPayload::Text(copy(message)),
        }
    }

    /// The record of an operation.
    pub fn operation(operation: ControlOperation) -> (r: Self)
        ensures
            r@ == operation_record(operation@),
    {
        LogRecord {
            level: operation_log_level(&operation),
            category: LogCategory::LegacyOperation,
            timestamp_ms: operation.timestamp_ms,
            payload: LogPayload::Operation(operation),
        }
    }

    /// A line taken over as it is, where it has the known form.
    pub fn verified_legacy_line(line: &str) -> (r: Option<Self>)
        ensures
            match r {
                Some(record) => verified_line(line@) && record@ == (RecordView {
                    level: LogLevel::Info,
                    category: LogCategory::LegacyOperation,
                    timestamp_ms: 0,
                    payload: PayloadView::VerifiedLegacyLine(line@),
                }),
                None => !verified_line(line@),
            },
    {
        if !is_verified_legacy_line(line) {
            return None;
        }
        Some(
            LogRecord {
                level: LogLevel::Info,
                category: LogCategory::LegacyOperation,
                timestamp_ms: 0,
                payload: LogPayload::VerifiedLegacyLine(copy(line)),
            },
        )
    }
}

/// Decides equality of operations.
pub fn same_operation(a: &ControlOperation, b: &ControlOperation) -> (r: bool)
    ensures
        r == (a@ == b@),
{
    if a.pid_list.len() != b.pid_list.len() {
        assert(a@.pid_list.len() != b@.pid_list.len());
        return false;
    }
    let mut i: usize = 0;
    while i < a.pid_list.len()
        invariant
            i <= a.pid_list@.len(),
            a.pid_list@.len() == b.pid_list@.len(),
            forall|k: int| 0 <= k < i ==> a.pid_list@[k] == b.pid_list@[k],
        decreases a.pid_list@.len() - i,
    {
        if a.pid_list[i] != b.pid_list[i] {
            assert(a@.pid_list[i as int] != b@.pid_list[i as int]);
            return false;
        }
        i += 1;
    }
    assert(a@.pid_list =~= b@.pid_list);
    a.operation_id == b.operation_id && a.timestamp_ms == b.timestamp_ms && a.uid == b.uid
        && a.action == b.action && a.result == b.result && same(
        a.package_name.as_str(),
        b.package_name.as_str(),
    ) && same(a.backend.as_str(), b.backend.as_str()) && same(a.reason.as_str(), b.reason.as_str())
        && same(a.details.as_str(), b.details.as_str())
}

fn same_payload(a: &LogPayload, b: &LogPayload) -> (r: bool)
    ensures
        r == (a@ == b@),
{
    match (a, b) {
        (LogPayload::Text(x), LogPayload::Text(y)) => same(x.as_str(), y.as_str()),
        (LogPayload::VerifiedLegacyLine(x), LogPayload::VerifiedLegacyLine(y)) => same(
            x.as_str(),
            y.as_str(),
        ),
        (LogPayload::Operation(x), LogPayload::Operation(y)) => same_operation(x, y),
        _ => false,
    }
}

// ---------------------------------------------------------------------------
// The log
// ---------------------------------------------------------------------------

/// The most recent records, oldest first.
#[derive(Debug, PartialEq, Eq)]
pub struct ManagerLog {
    capacity: usize,
    records: Vec<LogRecord>,
    highest_operation_id: u64,
    operation_timestamp_cutoff_ms: Option<u128>,
    content_version: u64,
}

/// The log as a value.
#[verifier::ext_equal]
pub ghost struct ManagerLogView {
    pub capacity: nat,
    pub records: Seq<RecordView>,
    pub highest_operation_id: u64,
    pub cutoff_ms: Option<u128>,
    pub version: u64,
}

/// Records as values.
pub open spec fn record_views(s: Seq<LogRecord>) -> Seq<RecordView> {
    s.map_values(|r: LogRecord| r@)
}

impl View for ManagerLog {
    type V = ManagerLogView;

    closed spec fn view(&self) -> ManagerLogView {
        ManagerLogView {
            capacity: self.capacity as nat,
            records: record_views(self.records@),
            highest_operation_id: self.highest_operation_id,
            cutoff_ms: self.operation_timestamp_cutoff_ms,
            version: self.content_version,
        }
    }
}

/// The next version of the content; the largest one stays.
pub open spec fn next_version(v: u64) -> u64 {
    if v == u64::MAX {
        v
    } else {
        (v + 1) as u64
    }
}

/// Whether a record is refused: an operation from before the log was cleared, one whose number
/// was seen, or one without a number that stands in the log.
pub open spec fn refused(log: ManagerLogView, record: RecordView) -> bool {
    match record.payload {
        PayloadView::Operation(o) => {
            ||| (log.cutoff_ms matches Some(cutoff) && o.timestamp_ms <= cutoff)
            ||| (o.operation_id != 0 && o.operation_id <= log.highest_operation_id)
            ||| (o.operation_id == 0 && exists|i: int|
                0 <= i < log.records.len() && (#[trigger] log.records[i]).payload
                    == PayloadView::Operation(o))
        },
        _ => false,
    }
}

/// The log after a record is pushed: the oldest record leaves where the log is full.
pub open spec fn pushed(log: ManagerLogView, record: RecordView) -> ManagerLogView {
    if refused(log, record) {
        log
    } else {
        ManagerLogView {
            records: last_n(log.records.push(record), log.capacity),
            highest_operation_id: match record.payload {
                PayloadView::Operation(o) if o.operation_id != 0 => o.operation_id,
                _ => log.highest_operation_id,
            },
            version: next_version(log.version),
            ..log
        }
    }
}

/// Whether a record like this one, apart from its time, stands in the log.
pub open spec fn stands_in(log: ManagerLogView, record: RecordView) -> bool {
    exists|i: int|
        0 <= i < log.records.len() && {
            &&& (#[trigger] log.records[i]).level == record.level
            &&& log.records[i].category == record.category
            &&& log.records[i].payload == record.payload
        }
}

/// The log after it was cleared: operations up to now are refused from then on.
pub open spec fn cleared_log(log: ManagerLogView, now_ms: u128) -> ManagerLogView {
    ManagerLogView {
        records: seq![],
        cutoff_ms: Some(now_ms),
        version: if log.records.len() > 0 {
            next_version(log.version)
        } else {
            log.version
        },
        ..log
    }
}

/// Whether a record is shown in a view: the plain view shows what earlier versions showed, the
/// debug view everything, the others what is grave enough.
pub open spec fn visible(r: RecordView, view: LogView) -> bool {
    match view {
        LogView::Info => r.category == LogCategory::LegacyOperation && (match r.payload {
            PayloadView::Operation(o) => is_plain(o),
            _ => true,
        }),
        LogView::Warn => r.level == LogLevel::Warn || r.level == LogLevel::Error || r.level
            == LogLevel::Critical,
        LogView::Error => r.level == LogLevel::Error || r.level == LogLevel::Critical,
        LogView::Critical => r.level == LogLevel::Critical,
        LogView::Debug => true,
    }
}

/// The name of a level.
pub open spec fn level_text(level: LogLevel) -> Seq<char> {
    match level {
        LogLevel::Info => "INFO"@,
        LogLevel::Warn => "WARN"@,
        LogLevel::Error => "ERROR"@,
        LogLevel::Critical => "CRITICAL"@,
        LogLevel::Debug => "DEBUG"@,
    }
}

/// A record as it is shown in a view.
pub open spec fn shown_record(r: RecordView, view: LogView) -> Seq<char> {
    match r.payload {
        PayloadView::Operation(o) => timestamped(
            o.timestamp_ms,
            if view == LogView::Debug {
                full_summary(o)
            } else {
                summary(o)
            },
        ),
        PayloadView::VerifiedLegacyLine(line) => if ends_with(line, "\n"@) {
            line
        } else {
            line.push('\n')
        },
        PayloadView::Text(message) => timestamped(
            r.timestamp_ms,
            if r.category == LogCategory::LegacyOperation && (view == LogView::Info || view
                == LogView::Debug) {
                message
            } else {
                "["@ + level_text(r.level) + "] "@ + message
            },
        ),
    }
}

/// The records as they are shown in a view.
pub open spec fn rendered(records: Seq<RecordView>, view: LogView) -> Seq<char>
    decreases records.len(),
{
    if records.len() == 0 {
        seq![]
    } else {
        let rest = rendered(records.drop_last(), view);
        if visible(records.last(), view) {
            rest + shown_record(records.last(), view)
        } else {
            rest
        }
    }
}

// Laws of the log.

/// An operation that is pushed a second time changes nothing.
pub proof fn operations_are_logged_once(log: ManagerLogView, o: OperationView)
    requires
        log.capacity > 0,
    ensures
        pushed(pushed(log, operation_record(o)), operation_record(o)) == pushed(
            log,
            operation_record(o),
        ),
{
    let record = operation_record(o);
    let once = pushed(log, record);
    if !refused(log, record) && o.operation_id == 0 {
        assert(once.records.last() == record);
        assert(once.records[once.records.len() - 1].payload == PayloadView::Operation(o));
    }
}

/// After the log is cleared nothing is shown, and no operation from before comes back.
pub proof fn cleared_operations_stay_away(
    log: ManagerLogView,
    now_ms: u128,
    o: OperationView,
    view: LogView,
)
    requires
        o.timestamp_ms <= now_ms,
    ensures
        rendered(cleared_log(log, now_ms).records, view) == Seq::<char>::empty(),
        pushed(cleared_log(log, now_ms), operation_record(o)) == cleared_log(log, now_ms),
{
}

/// What a graver view shows, a milder one shows too.
pub proof fn severity_views_are_nested(r: RecordView)
    ensures
        visible(r, LogView::Critical) ==> visible(r, LogView::Error),
        visible(r, LogView::Error) ==> visible(r, LogView::Warn),
        visible(r, LogView::Info) ==> visible(r, LogView::Debug),
        visible(r, LogView::Warn) ==> visible(r, LogView::Debug),
{
}

/// Every change of the records advances the version, as long as it can be advanced.
pub proof fn version_advances_with_the_records(log: ManagerLogView, record: RecordView, now_ms: u128)
    requires
        log.version < u64::MAX,
    ensures
        pushed(log, record).records != log.records ==> pushed(log, record).version > log.version,
        cleared_log(log, now_ms).records != log.records ==> cleared_log(log, now_ms).version
            > log.version,
{
    if log.records.len() == 0 {
        assert(cleared_log(log, now_ms).records =~= log.records);
    }
}

impl ManagerLog {
    #[verifier::type_invariant]
    spec fn bounded(self) -> bool {
        self.records@.len() <= self.capacity && self.capacity > 0
    }

    /// An empty log that keeps up to `capacity` records, at least one.
    pub fn new(capacity: usize) -> (r: Self)
        ensures
            r@ == (ManagerLogView {
                capacity: if capacity == 0 { 1 } else { capacity as nat },
                records: seq![],
                highest_operation_id: 0,
                cutoff_ms: None,
                version: 0,
            }),
    {
        let capacity: usize = if capacity == 0 { 1 } else { capacity };
        let r = ManagerLog {
            capacity,
            records: Vec::new(),
            highest_operation_id: 0,
            operation_timestamp_cutoff_ms: None,
            content_version: 0,
        };
        assert(record_views(r.records@) =~= seq![]);
        r
    }

    fn has_operation(&self, operation: &ControlOperation) -> (r: bool)
        ensures
            r == exists|i: int|
                0 <= i < self@.records.len() && (#[trigger] self@.records[i]).payload
                    == PayloadView::Operation(operation@),
    {
        let ghost all = self@.records;
        let mut i: usize = 0;
        while i < self.records.len()
            invariant
                i <= self.records@.len(),
                all == record_views(self.records@),
                all == self@.records,
                forall|k: int|
                    0 <= k < i ==> (#[trigger] all[k]).payload != PayloadView::Operation(
                        operation@,
                    ),
            decreases self.records@.len() - i,
        {
            assert(all[i as int] == self.records@[i as int]@);
            match &self.records[i].payload {
                LogPayload::Operation(o) => {
                    if same_operation(o, operation) {
                        assert(all[i as int].payload == PayloadView::Operation(operation@));
                        return true;
                    }
                },
                _ => {},
            }
            i += 1;
        }
        false
    }

    /// Appends a record, unless it is refused.
    pub fn push(&mut self, record: LogRecord)
        ensures
            final(self)@ == pushed(old(self)@, record@),
    {
        proof {
            use_type_invariant(&*self);
        }
        let ghost log = self@;
        let mut highest = self.highest_operation_id;
        match &record.payload {
            LogPayload::Operation(operation) => {
                match self.operation_timestamp_cutoff_ms {
                    Some(cutoff) => {
                        if operation.timestamp_ms <= cutoff {
                            return;
                        }
                    },
                    None => {},
                }
                if operation.operation_id != 0 {
                    if operation.operation_id <= self.highest_operation_id {
                        return;
                    }
                    highest = operation.operation_id;
                } else if self.has_operation(operation) {
                    return;
                }
            },
            _ => {},
        }
        let ghost before = self.records@;
        let mut records: Vec<LogRecord> = Vec::new();
        core::mem::swap(&mut self.records, &mut records);
        let full = records.len() == self.capacity;
        if full {
            records.remove(0);
        }
        records.push(record);
        proof {
            if full {
                assert(record_views(records@) =~= record_views(before).push(record@).skip(1));
            } else {
                assert(record_views(records@) =~= record_views(before).push(record@));
            }
        }
        self.records = records;
        self.highest_operation_id = highest;
        if self.content_version < u64::MAX {
            self.content_version = self.content_version + 1;
        }
        assert(self@ =~= pushed(log, record@));
    }

    /// Appends a record, unless one like it stands in the log.
    pub fn push_once(&mut self, record: LogRecord)
        ensures
            final(self)@ == if stands_in(old(self)@, record@) {
                old(self)@
            } else {
                pushed(old(self)@, record@)
            },
    {
        let ghost all = self@.records;
        let mut i: usize = 0;
        while i < self.records.len()
            invariant
                i <= self.records@.len(),
                self@ == old(self)@,
                all == record_views(self.records@),
                all == old(self)@.records,
                forall|k: int|
                    0 <= k < i ==> !((#[trigger] all[k]).level == record@.level && all[k].category
                        == record@.category && all[k].payload == record@.payload),
            decreases self.records@.len() - i,
        {
            let existing = &self.records[i];
            assert(all[i as int] == existing@);
            if existing.level == record.level && existing.category == record.category
                && same_payload(&existing.payload, &record.payload) {
                return;
            }
            i += 1;
        }
        self.push(record);
    }

    /// Removes all records; operations up to now are refused from then on.
    pub fn clear(&mut self, now_ms: u128)
        ensures
            final(self)@ == cleared_log(old(self)@, now_ms),
    {
        proof {
            use_type_invariant(&*self);
        }
        let ghost log = self@;
        let had_records = self.records.len() > 0;
        self.operation_timestamp_cutoff_ms = Some(now_ms);
        self.records = Vec::new();
        if had_records && self.content_version < u64::MAX {
            self.content_version = self.content_version + 1;
        }
        assert(record_views(self.records@) =~= seq![]);
        assert(self@ =~= cleared_log(log, now_ms));
    }

    /// The time up to which operations are refused.
    pub fn operation_cutoff_ms(&self) -> (r: Option<u128>)
        ensures
            r == self@.cutoff_ms,
    {
        self.operation_timestamp_cutoff_ms
    }

    /// Whether the log has no records.
    pub fn is_empty(&self) -> (r: bool)
        ensures
            r == (self@.records.len() == 0),
    {
        self.records.len() == 0
    }

    /// A number that advances whenever the records change.
    pub fn content_version(&self) -> (r: u64)
        ensures
            r == self@.version,
    {
        self.content_version
    }

    /// The records as they are shown in a view.
    pub fn render(&self, view: LogView) -> (r: String)
        ensures
            r@ == rendered(self@.records, view),
    {
        let ghost all = self@.records;
        let mut out = String::new();
        let mut i: usize = 0;
        assert(out@ =~= rendered(all.take(0), view));
        while i < self.records.len()
            invariant
                i <= self.records@.len(),
                all == record_views(self.records@),
                out@ == rendered(all.take(i as int), view),
            decreases self.records@.len() - i,
        {
            let record = &self.records[i];
            assert(all.take(i + 1).drop_last() =~= all.take(i as int));
            assert(all.take(i + 1).last() == record@);
            if record_is_visible(record, view) {
                let shown = render_record(record, view);
                out.append(shown.as_str());
            }
            i += 1;
        }
        assert(all.take(i as int) =~= all);
        out
    }
}

impl Default for ManagerLog {
    fn default() -> (r: Self)
        ensures
            r@ == (ManagerLogView {
                capacity: 256,
                records: seq![],
                highest_operation_id: 0,
                cutoff_ms: None,
                version: 0,
            }),
    {
        ManagerLog::new(256)
    }
}

impl Clone for ManagerLog {
    fn clone(&self) -> (r: Self)
        ensures
            r@ == self@,
    {
        proof {
            use_type_invariant(self);
        }
        let mut records: Vec<LogRecord> = Vec::new();
        let mut i: usize = 0;
        while i < self.records.len()
            invariant
                i <= self.records@.len(),
                records@.len() == i,
                record_views(records@) == record_views(self.records@).take(i as int),
            decreases self.records@.len() - i,
        {
            records.push(self.records[i].clone());
            assert(record_views(records@) =~= record_views(self.records@).take(i + 1));
            i += 1;
        }
        assert(record_views(self.records@).take(i as int) =~= record_views(self.records@));
        ManagerLog {
            capacity: self.capacity,
            records,
            highest_operation_id: self.highest_operation_id,
            operation_timestamp_cutoff_ms: self.operation_timestamp_cutoff_ms,
            content_version: self.content_version,
        }
    }
}

fn record_is_visible(record: &LogRecord, view: LogView) -> (r: bool)
    ensures
        r == visible(record@, view),
{
    match view {
        LogView::Info => record.category == LogCategory::LegacyOperation && match &record.payload {
            LogPayload::Operation(operation) => operation_is_legacy_info(operation),
            _ => true,
        },
        LogView::Warn => record.level == LogLevel::Warn || record.level == LogLevel::Error
            || record.level == LogLevel::Critical,
        LogView::Error => record.level == LogLevel::Error || record.level == LogLevel::Critical,
        LogView::Critical => record.level == LogLevel::Critical,
        LogView::Debug => true,
    }
}

fn level_name(level: LogLevel) -> (r: &'static str)
    ensures
        r@ == level_text(level),
{
    match level {
        LogLevel::Info => "INFO",
        LogLevel::Warn => "WARN",
        LogLevel::Error => "ERROR",
        LogLevel::Critical => "CRITICAL",
        LogLevel::Debug => "DEBUG",
    }
}

fn render_record(record: &LogRecord, view: LogView) -> (r: String)
    ensures
        r@ == shown_record(record@, view),
{
    match &record.payload {
        LogPayload::Operation(operation) => if view == LogView::Debug {
            operation_to_debug_text(operation)
        } else {
            operation_to_legacy_text(operation)
        },
        LogPayload::VerifiedLegacyLine(line) => {
            let mut out = copy(line.as_str());
            if !ends(line.as_str(), "\n") {
                out.push('\n');
            }
            out
        },
        LogPayload::Text(message) => {
            if record.category == LogCategory::LegacyOperation && (view == LogView::Info || view
                == LogView::Debug) {
                legacy_timestamped_line(record.timestamp_ms, message.as_str())
            } else {
                let mut line = text("[");
                line.append(level_name(record.level));
                line.append("] ");
                line.append(message.as_str());
                legacy_timestamped_line(record.timestamp_ms, line.as_str())
            }
        },
    }
}

/// The record that opens the log.
pub fn startup_message(now_ms: u128) -> (r: LogRecord)
    ensures
        r@ == text_record(
            LogLevel::Debug,
            LogCategory::Diagnostic,
            now_ms,
            "freezeit daemon starting"@,
        ),
{
    LogRecord::diagnostic(LogLevel::Debug, now_ms, "freezeit daemon starting")
}

} // verus!
