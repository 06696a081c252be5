//! Readings of the device for the live view: processors, memory, temperature and power.

use vstd::prelude::*;
use vstd::string::*;

use crate::protocol::bytes::{signed, to_signed};
use crate::text::{
    all_digits, begins, chars_of, contains, copy, has, lines, lower, lowered, only_digits,
    parse_i32, parse_i64, parse_signed, parse_u64, parse_unsigned, same, split_lines, split_words,
    starts_with, string_range, texts, trim, trimmed, word_len_bounds, words,
};

verus! {

/// The number of samples that the chart shows.
pub const CPU_HISTORY_BUCKETS: usize = 32;

/// The number of processors that the chart shows.
pub const CPU_CHART_CORES: usize = 8;

/// Memory in mebibytes.
#[derive(Debug, Clone, Copy, PartialEq, Eq, Structural)]
pub struct MemInfoMib {
    pub mem_total: i32,
    pub mem_available: i32,
    pub swap_total: i32,
    pub swap_free: i32,
}

impl Default for MemInfoMib {
    fn default() -> (r: Self)
        ensures
            r == (MemInfoMib { mem_total: 0, mem_available: 0, swap_total: 0, swap_free: 0 }),
    {
        MemInfoMib { mem_total: 0, mem_available: 0, swap_total: 0, swap_free: 0 }
    }
}

/// The time that a processor ran and idled.
#[derive(Debug, Clone, Copy, PartialEq, Eq, Structural)]
pub struct ProcStatSample {
    pub total: u64,
    pub idle: u64,
}

/// The times of all processors together and of each one.
#[derive(Debug, PartialEq, Eq)]
pub struct CpuStatSnapshot {
    pub summary: Option<ProcStatSample>,
    pub cores: Vec<Option<ProcStatSample>>,
}

/// The times of all processors together and of each one, as a value.
#[verifier::ext_equal]
pub ghost struct SnapshotView {
    pub summary: Option<ProcStatSample>,
    pub cores: Seq<Option<ProcStatSample>>,
}

impl View for CpuStatSnapshot {
    type V = SnapshotView;

    open spec fn view(&self) -> SnapshotView {
        SnapshotView { summary: self.summary, cores: self.cores@ }
    }
}

/// No times at all.
pub open spec fn no_times() -> SnapshotView {
    SnapshotView { summary: None, cores: seq![] }
}

impl Default for CpuStatSnapshot {
    fn default() -> (r: Self)
        ensures
            r@ == no_times(),
    {
        let r = CpuStatSnapshot { summary: None, cores: Vec::new() };
        assert(r@ =~= no_times());
        r
    }
}

impl Clone for CpuStatSnapshot {
    fn clone(&self) -> (r: Self)
        ensures
            r@ == self@,
    {
        let mut cores: Vec<Option<ProcStatSample>> = Vec::new();
        let mut i: usize = 0;
        while i < self.cores.len()
            invariant
                i <= self.cores@.len(),
                cores@ == self.cores@.take(i as int),
            decreases self.cores@.len() - i,
        {
            cores.push(self.cores[i]);
            assert(cores@ =~= self.cores@.take(i + 1));
            i += 1;
        }
        assert(cores@ =~= self.cores@);
        CpuStatSnapshot { summary: self.summary, cores }
    }
}

// ---------------------------------------------------------------------------
// Times of the processors
// ---------------------------------------------------------------------------

/// The numbers among words.
pub open spec fn numbers(parts: Seq<Seq<char>>) -> Seq<u64>
    decreases parts.len(),
{
    if parts.len() == 0 {
        seq![]
    } else {
        let rest = numbers(parts.drop_last());
        match parse_unsigned(parts.last(), u64::MAX as nat) {
            Some(n) => rest.push(n as u64),
            None => rest,
        }
    }
}

/// A sum.
pub open spec fn sum(s: Seq<u64>) -> nat
    decreases s.len(),
{
    if s.len() == 0 {
        0
    } else {
        sum(s.drop_last()) + s.last() as nat
    }
}

/// The first words, up to seven, after the first one.
pub open spec fn time_words(parts: Seq<Seq<char>>) -> Seq<Seq<char>> {
    parts.subrange(
        1,
        if parts.len() < 8 {
            parts.len() as int
        } else {
            8
        },
    )
}

/// The times on a line, if it has four or more.
pub open spec fn line_times(line: Seq<char>) -> Option<Seq<u64>> {
    let parts = words(line);
    if !starts_with(line, "cpu"@) || parts.len() == 0 {
        None
    } else if parts[0] != "cpu"@ && !all_digits(parts[0].skip(3)) {
        None
    } else {
        let values = numbers(time_words(parts));
        if values.len() < 4 {
            None
        } else {
            Some(values)
        }
    }
}

/// The processor that a label names.
pub open spec fn label_core(label: Seq<char>) -> Option<nat> {
    parse_unsigned(label.skip(3), usize::MAX as nat)
}

/// A time at a position of a list that reaches that far.
pub open spec fn at_core(
    cores: Seq<Option<ProcStatSample>>,
    core: nat,
    sample: ProcStatSample,
) -> Seq<Option<ProcStatSample>> {
    Seq::new(
        if cores.len() <= core {
            core + 1
        } else {
            cores.len()
        },
        |i: int|
            if i == core {
                Some(sample)
            } else if i < cores.len() {
                cores[i]
            } else {
                None
            },
    )
}

/// The times after a line.
pub open spec fn after_line(s: SnapshotView, line: Seq<char>) -> SnapshotView {
    match line_times(line) {
        None => s,
        Some(values) => {
            let sample = ProcStatSample { total: sum(values) as u64, idle: values[3] };
            let label = words(line)[0];
            if label == "cpu"@ {
                SnapshotView { summary: Some(sample), ..s }
            } else {
                match label_core(label) {
                    Some(core) => SnapshotView { cores: at_core(s.cores, core, sample), ..s },
                    None => s,
                }
            }
        },
    }
}

/// The times on lines.
pub open spec fn times_of(rows: Seq<Seq<char>>) -> SnapshotView
    decreases rows.len(),
{
    if rows.len() == 0 {
        no_times()
    } else {
        after_line(times_of(rows.drop_last()), rows.last())
    }
}

/// The sum of a line's times, and the position of its processor, have a machine number.
pub open spec fn countable(line: Seq<char>) -> bool {
    line_times(line) matches Some(values) ==> sum(values) <= u64::MAX && (words(line)[0] != "cpu"@
        ==> (label_core(words(line)[0]) matches Some(core) ==> core < usize::MAX))
}

/// The numbers of all lines have machine numbers.
pub open spec fn all_countable(text: Seq<char>) -> bool {
    forall|i: int| 0 <= i < lines(text).len() ==> #[trigger] countable(lines(text)[i])
}

fn read_numbers(parts: &[String]) -> (r: Vec<u64>)
    requires
        parts@.len() > 0,
    ensures
        r@ == numbers(time_words(texts(parts@))),
{
    let ghost all = time_words(texts(parts@));
    let end: usize = if parts.len() < 8 { parts.len() } else { 8 };
    let mut out: Vec<u64> = Vec::new();
    let mut i: usize = 1;
    assert(out@ =~= numbers(all.take(0)));
    while i < end
        invariant
            1 <= i <= end <= parts@.len(),
            end == if parts@.len() < 8 { parts@.len() as int } else { 8 },
            all == time_words(texts(parts@)),
            out@ == numbers(all.take(i - 1)),
        decreases end - i,
    {
        assert(all.take(i as int).drop_last() =~= all.take(i - 1));
        assert(all[i - 1] == parts@[i as int]@);
        match parse_u64(parts[i].as_str()) {
            Some(n) => {
                out.push(n);
            },
            None => {},
        }
        i += 1;
    }
    assert(all.take(i - 1) =~= all);
    out
}

proof fn sum_grows(s: Seq<u64>, i: int)
    requires
        0 <= i <= s.len(),
    ensures
        sum(s.take(i)) <= sum(s),
    decreases s.len() - i,
{
    if i < s.len() {
        sum_grows(s, i + 1);
        assert(s.take(i + 1).drop_last() =~= s.take(i));
    } else {
        assert(s.take(i) =~= s);
    }
}

/// The sum of numbers, where it has a machine number.
fn checked_sum(values: &[u64]) -> (r: Option<u64>)
    ensures
        match r {
            Some(total) => total == sum(values@),
            None => sum(values@) > u64::MAX,
        },
{
    let mut total: u64 = 0;
    let mut i: usize = 0;
    while i < values.len()
        invariant
            i <= values@.len(),
            total == sum(values@.take(i as int)),
        decreases values@.len() - i,
    {
        assert(values@.take(i + 1).drop_last() =~= values@.take(i as int));
        if values[i] > u64::MAX - total {
            proof {
                sum_grows(values@, i + 1);
            }
            return None;
        }
        total = total + values[i];
        i += 1;
    }
    assert(values@.take(i as int) =~= values@);
    Some(total)
}

/// The number after the first three characters of a label.
fn after_three(label: &str) -> (r: String)
    requires
        label@.len() >= 3,
    ensures
        r@ == label@.skip(3),
{
    let x = chars_of(label);
    let r = string_range(&x, 3, x.len());
    assert(r@ =~= label@.skip(3));
    r
}

proof fn first_word_of_label(line: Seq<char>)
    requires
        starts_with(line, "cpu"@),
    ensures
        words(line).len() > 0,
        words(line)[0].len() >= 3,
{
    reveal_strlit("cpu");
    let p = "cpu"@;
    assert(p[0] == 'c' && p[1] == 'p' && p[2] == 'u' && p.len() == 3);
    assert(line.subrange(0, 3) == p);
    assert(line.subrange(0, 3)[0] == p[0] && line.subrange(0, 3)[1] == p[1] && line.subrange(
        0,
        3,
    )[2] == p[2]);
    assert(line[0] == 'c' && line[1] == 'p' && line[2] == 'u');
    reveal_with_fuel(crate::text::word_len, 4);
    assert(!crate::text::is_space('c'));
    assert(!crate::text::is_space('p'));
    assert(!crate::text::is_space('u'));
    let one = line.skip(1);
    let two = one.skip(1);
    let three = two.skip(1);
    assert(one[0] == 'p');
    assert(two[0] == 'u');
    word_len_bounds(line);
    word_len_bounds(three);
}

fn u64_to_usize(n: u64) -> (r: Option<usize>)
    ensures
        match r {
            Some(v) => v == n,
            None => n > usize::MAX,
        },
{
    if n <= usize::MAX as u64 {
        Some(n as usize)
    } else {
        None
    }
}

/// What a line says of the times.
struct StatLine {
    values: Vec<u64>,
    label: String,
}

fn read_stat_line(line: &str) -> (r: Option<StatLine>)
    ensures
        match r {
            Some(s) => line_times(line@) == Some(s.values@) && s.label@ == words(line@)[0]
                && s.label@.len() >= 3,
            None => line_times(line@) is None,
        },
{
    if !begins(line, "cpu") {
        return None;
    }
    proof {
        first_word_of_label(line@);
    }
    let parts = split_words(line);
    assert(texts(parts@).len() == parts@.len());
    assert(texts(parts@)[0] == parts@[0]@);
    let label = copy(parts[0].as_str());
    if !same(label.as_str(), "cpu") {
        let rest = after_three(label.as_str());
        if !only_digits(rest.as_str()) {
            return None;
        }
    }
    let values = read_numbers(parts.as_slice());
    if values.len() < 4 {
        return None;
    }
    Some(StatLine { values, label })
}

fn find_core(label: &str) -> (r: Option<usize>)
    requires
        label@.len() >= 3,
    ensures
        match r {
            Some(core) => label_core(label@) == Some(core as nat),
            None => label_core(label@) is None,
        },
{
    let rest = after_three(label);
    match parse_u64(rest.as_str()) {
        Some(n) => u64_to_usize(n),
        None => None,
    }
}

/// Whether the numbers of all lines have machine numbers.
pub fn proc_stat_is_countable(text: &str) -> (r: bool)
    ensures
        r == all_countable(text@),
{
    let rows = split_lines(text);
    let mut i: usize = 0;
    while i < rows.len()
        invariant
            i <= rows@.len(),
            texts(rows@) == lines(text@),
            forall|k: int| 0 <= k < i ==> #[trigger] countable(lines(text@)[k]),
        decreases rows@.len() - i,
    {
        assert(texts(rows@)[i as int] == rows@[i as int]@);
        let mut fits = true;
        match read_stat_line(rows[i].as_str()) {
            Some(s) => {
                if checked_sum(s.values.as_slice()).is_none() {
                    fits = false;
                }
                if !same(s.label.as_str(), "cpu") {
                    match find_core(s.label.as_str()) {
                        Some(core) => {
                            if core == usize::MAX {
                                fits = false;
                            }
                        },
                        None => {},
                    }
                }
            },
            None => {},
        }
        assert(fits == countable(lines(text@)[i as int]));
        if !fits {
            assert(texts(rows@).len() == rows@.len());
            return false;
        }
        i += 1;
    }
    assert(texts(rows@).len() == rows@.len());
    true
}

fn set_core(cores: &mut Vec<Option<ProcStatSample>>, core: usize, sample: ProcStatSample)
    requires
        core < usize::MAX,
    ensures
        final(cores)@ == at_core(old(cores)@, core as nat, sample),
{
    let ghost start = cores@;
    while cores.len() <= core
        invariant
            core < usize::MAX,
            start.len() <= cores@.len(),
            cores@.len() <= core + 1 || cores@.len() == start.len(),
            forall|i: int| 0 <= i < start.len() ==> cores@[i] == start[i],
            forall|i: int| start.len() <= i < cores@.len() ==> cores@[i] is None,
        decreases core + 1 - cores@.len(),
    {
        cores.push(None);
    }
    cores.set(core, Some(sample));
    assert(cores@ =~= at_core(start, core as nat, sample));
}

/// Reads the times of the processors.
pub fn parse_proc_stat(text: &str) -> (r: CpuStatSnapshot)
    requires
        all_countable(text@),
    ensures
        r@ == times_of(lines(text@)),
{
    let rows = split_lines(text);
    let ghost all = texts(rows@);
    let mut summary: Option<ProcStatSample> = None;
    let mut cores: Vec<Option<ProcStatSample>> = Vec::new();
    let mut i: usize = 0;
    assert(cores@ =~= times_of(all.take(0)).cores);
    while i < rows.len()
        invariant
            i <= rows@.len(),
            all == texts(rows@),
            all == lines(text@),
            all_countable(text@),
            summary == times_of(all.take(i as int)).summary,
            cores@ == times_of(all.take(i as int)).cores,
        decreases rows@.len() - i,
    {
        assert(all.take(i + 1).drop_last() =~= all.take(i as int));
        assert(all[i as int] == rows@[i as int]@);
        assert(countable(lines(text@)[i as int]));
        match read_stat_line(rows[i].as_str()) {
            Some(s) => {
                match checked_sum(s.values.as_slice()) {
                    Some(total) => {
                        let sample = ProcStatSample { total, idle: s.values[3] };
                        if same(s.label.as_str(), "cpu") {
                            summary = Some(sample);
                        } else {
                            match find_core(s.label.as_str()) {
                                Some(core) => {
                                    set_core(&mut cores, core, sample);
                                },
                                None => {},
                            }
                        }
                    },
                    None => {},
                }
            },
            None => {},
        }
        i += 1;
    }
    assert(all.take(i as int) =~= all);
    CpuStatSnapshot { summary, cores }
}

// ---------------------------------------------------------------------------
// Load of the processors
// ---------------------------------------------------------------------------

/// The difference of two counters, zero where it would be negative.
pub open spec fn grown(now: u64, last: u64) -> int {
    if now >= last {
        now - last
    } else {
        0
    }
}

/// The load in percent between two times of a processor; zero where it is not known.
pub open spec fn load(last: Option<ProcStatSample>, now: Option<ProcStatSample>) -> i32 {
    match (last, now) {
        (Some(l), Some(n)) => {
            let total = grown(n.total, l.total);
            let idle = grown(n.idle, l.idle);
            if total == 0 || idle > total {
                0
            } else {
                ((total - idle) * 100 / total) as i32
            }
        },
        _ => 0,
    }
}

/// A load is a percentage.
pub proof fn load_is_a_percentage(last: Option<ProcStatSample>, now: Option<ProcStatSample>)
    ensures
        0 <= load(last, now) <= 100,
{
    if let (Some(l), Some(n)) = (last, now) {
        let total = grown(n.total, l.total);
        let idle = grown(n.idle, l.idle);
        if total != 0 && idle <= total {
            assert(0 <= (total - idle) * 100 / total <= 100) by (nonlinear_arith)
                requires
                    0 <= idle <= total,
                    total > 0,
            ;
        }
    }
}

/// The load since the last time of a processor, whose last time is then the new one.
pub fn cpu_delta_usage_percent(
    last_sample: &mut Option<ProcStatSample>,
    current_sample: Option<ProcStatSample>,
) -> (r: i32)
    ensures
        r == load(*old(last_sample), current_sample),
        *final(last_sample) == if current_sample is Some {
            current_sample
        } else {
            *old(last_sample)
        },
{
    proof {
        load_is_a_percentage(*last_sample, current_sample);
    }
    let now = match current_sample {
        Some(now) => now,
        None => {
            return 0;
        },
    };
    let usage: i32 = match *last_sample {
        Some(last) => {
            let total: u64 = if now.total >= last.total { now.total - last.total } else { 0 };
            let idle: u64 = if now.idle >= last.idle { now.idle - last.idle } else { 0 };
            if total == 0 || idle > total {
                0
            } else {
                let share: u128 = (total - idle) as u128 * 100 / total as u128;
                share as i32
            }
        },
        None => 0,
    };
    *last_sample = Some(now);
    usage
}

/// The loads of the last samples.
#[derive(Debug, Clone, PartialEq, Eq)]
pub struct CpuHistory {
    pub bucket_idx: usize,
    pub summary: Vec<i32>,
    pub cores: Vec<Vec<i32>>,
}

/// The loads of the last samples as a value.
#[verifier::ext_equal]
pub ghost struct HistoryView {
    pub bucket: int,
    pub summary: Seq<i32>,
    pub cores: Seq<Seq<i32>>,
}

/// Rows as values.
pub open spec fn rows_of(v: Seq<Vec<i32>>) -> Seq<Seq<i32>> {
    v.map_values(|r: Vec<i32>| r@)
}

impl View for CpuHistory {
    type V = HistoryView;

    open spec fn view(&self) -> HistoryView {
        HistoryView {
            bucket: self.bucket_idx as int,
            summary: self.summary@,
            cores: rows_of(self.cores@),
        }
    }
}

/// A row without load.
pub open spec fn idle_row() -> Seq<i32> {
    Seq::new(CPU_CHART_CORES as nat, |i: int| 0i32)
}

impl HistoryView {
    /// A full history.
    pub open spec fn wf(self) -> bool {
        &&& 0 <= self.bucket < CPU_HISTORY_BUCKETS
        &&& self.summary.len() == CPU_HISTORY_BUCKETS
        &&& self.cores.len() == CPU_HISTORY_BUCKETS
        &&& forall|i: int|
            0 <= i < CPU_HISTORY_BUCKETS ==> (#[trigger] self.cores[i]).len() == CPU_CHART_CORES
    }

    /// The history at the next sample, which has no load yet.
    pub open spec fn advanced(self) -> HistoryView {
        let next = (self.bucket + 1) % (CPU_HISTORY_BUCKETS as int);
        HistoryView {
            bucket: next,
            summary: self.summary.update(next, 0),
            cores: self.cores.update(next, idle_row()),
        }
    }
}

fn zeros(n: usize) -> (r: Vec<i32>)
    ensures
        r@ == Seq::new(n as nat, |i: int| 0i32),
{
    let mut out: Vec<i32> = Vec::new();
    let mut i: usize = 0;
    while i < n
        invariant
            i <= n,
            out@ == Seq::new(i as nat, |k: int| 0i32),
        decreases n - i,
    {
        out.push(0);
        assert(out@ =~= Seq::new((i + 1) as nat, |k: int| 0i32));
        i += 1;
    }
    out
}

/// A history without load.
pub open spec fn blank_history() -> HistoryView {
    HistoryView {
        bucket: 0,
        summary: Seq::new(CPU_HISTORY_BUCKETS as nat, |i: int| 0i32),
        cores: Seq::new(CPU_HISTORY_BUCKETS as nat, |i: int| idle_row()),
    }
}

impl Default for CpuHistory {
    fn default() -> (r: Self)
        ensures
            r@ == blank_history(),
            r@.wf(),
    {
        let mut cores: Vec<Vec<i32>> = Vec::new();
        let mut i: usize = 0;
        while i < CPU_HISTORY_BUCKETS
            invariant
                i <= CPU_HISTORY_BUCKETS,
                rows_of(cores@) == Seq::new(i as nat, |k: int| idle_row()),
                cores@.len() == i,
            decreases CPU_HISTORY_BUCKETS - i,
        {
            let row = zeros(CPU_CHART_CORES);
            assert(row@ =~= idle_row());
            let ghost done = rows_of(cores@);
            cores.push(row);
            assert(rows_of(cores@) =~= done.push(idle_row()));
            assert(rows_of(cores@) =~= Seq::new((i + 1) as nat, |k: int| idle_row()));
            i += 1;
        }
        let r = CpuHistory { bucket_idx: 0, summary: zeros(CPU_HISTORY_BUCKETS), cores };
        assert(r@ =~= blank_history());
        r
    }
}

impl CpuHistory {
    /// Goes to the next sample.
    pub fn advance(&mut self)
        requires
            old(self)@.wf(),
        ensures
            final(self)@ == old(self)@.advanced(),
            final(self)@.wf(),
    {
        let ghost before = self@;
        let next: usize = (self.bucket_idx + 1) % CPU_HISTORY_BUCKETS;
        self.bucket_idx = next;
        assert(rows_of(self.cores@).len() == self.cores@.len());
        self.summary.set(next, 0);
        let row = zeros(CPU_CHART_CORES);
        self.cores.set(next, row);
        assert(rows_of(self.cores@) =~= before.cores.update(next as int, idle_row()));
        assert(self@ =~= before.advanced());
    }
}

/// The loads of a sample.
#[derive(Debug, PartialEq, Eq)]
pub struct CpuUsagePercent {
    pub summary: i32,
    pub cores: Vec<i32>,
}

/// What is remembered between samples.
#[derive(Debug, PartialEq, Eq)]
pub struct RealtimeSampler {
    pub history: CpuHistory,
    pub last_summary: Option<ProcStatSample>,
    pub last_cores: Vec<Option<ProcStatSample>>,
}

/// What is remembered between samples, as a value.
#[verifier::ext_equal]
pub ghost struct SamplerView {
    pub history: HistoryView,
    pub last_summary: Option<ProcStatSample>,
    pub last_cores: Seq<Option<ProcStatSample>>,
}

impl View for RealtimeSampler {
    type V = SamplerView;

    open spec fn view(&self) -> SamplerView {
        SamplerView {
            history: self.history@,
            last_summary: self.last_summary,
            last_cores: self.last_cores@,
        }
    }
}

impl SamplerView {
    /// A sampler with a full history and a place for each processor.
    pub open spec fn wf(self) -> bool {
        self.history.wf() && self.last_cores.len() == CPU_CHART_CORES
    }
}

/// The time of a processor, if there is one.
pub open spec fn core_time(cores: Seq<Option<ProcStatSample>>, core: int) -> Option<
    ProcStatSample,
> {
    if core < cores.len() {
        cores[core]
    } else {
        None
    }
}

/// The loads of the processors since the last sample.
pub open spec fn core_loads(s: SamplerView, t: SnapshotView) -> Seq<i32> {
    Seq::new(
        CPU_CHART_CORES as nat,
        |c: int| load(s.last_cores[c], core_time(t.cores, c)),
    )
}

/// The sampler after a sample: its loads stand in the history.
pub open spec fn sampled(s: SamplerView, t: SnapshotView) -> SamplerView {
    let h = s.history.advanced();
    SamplerView {
        history: HistoryView {
            summary: h.summary.update(h.bucket, load(s.last_summary, t.summary)),
            cores: h.cores.update(h.bucket, core_loads(s, t)),
            ..h
        },
        last_summary: if t.summary is Some {
            t.summary
        } else {
            s.last_summary
        },
        last_cores: Seq::new(
            CPU_CHART_CORES as nat,
            |c: int|
                if core_time(t.cores, c) is Some {
                    core_time(t.cores, c)
                } else {
                    s.last_cores[c]
                },
        ),
    }
}

/// A sampler that has seen no sample.
pub open spec fn fresh_sampler() -> SamplerView {
    SamplerView {
        history: blank_history(),
        last_summary: None,
        last_cores: Seq::new(CPU_CHART_CORES as nat, |i: int| None::<ProcStatSample>),
    }
}

impl Default for RealtimeSampler {
    fn default() -> (r: Self)
        ensures
            r@ == fresh_sampler(),
            r@.wf(),
    {
        let mut last_cores: Vec<Option<ProcStatSample>> = Vec::new();
        let mut i: usize = 0;
        while i < CPU_CHART_CORES
            invariant
                i <= CPU_CHART_CORES,
                last_cores@ == Seq::new(i as nat, |k: int| None::<ProcStatSample>),
            decreases CPU_CHART_CORES - i,
        {
            last_cores.push(None);
            assert(last_cores@ =~= Seq::new((i + 1) as nat, |k: int| None::<ProcStatSample>));
            i += 1;
        }
        RealtimeSampler { history: CpuHistory::default(), last_summary: None, last_cores }
    }
}

impl RealtimeSampler {
    /// Records the times of the processors; the result is their loads since the last record.
    pub fn record_proc_stat(&mut self, snapshot: &CpuStatSnapshot) -> (r: CpuUsagePercent)
        requires
            old(self)@.wf(),
        ensures
            final(self)@ == sampled(old(self)@, snapshot@),
            final(self)@.wf(),
            r.summary == load(old(self)@.last_summary, snapshot@.summary),
            r.cores@ == core_loads(old(self)@, snapshot@),
    {
        let ghost s = self@;
        let ghost t = snapshot@;
        self.history.advance();
        let ghost h = self.history@;
        let mut last_summary = self.last_summary;
        let summary = cpu_delta_usage_percent(&mut last_summary, snapshot.summary);
        self.last_summary = last_summary;
        let bucket: usize = self.history.bucket_idx;
        self.history.summary.set(bucket, summary);
        let mut loads: Vec<i32> = Vec::new();
        let mut last_cores: Vec<Option<ProcStatSample>> = Vec::new();
        let mut core: usize = 0;
        while core < CPU_CHART_CORES
            invariant
                core <= CPU_CHART_CORES,
                t == snapshot@,
                s.wf(),
                self.last_cores@ == s.last_cores,
                loads@ == core_loads(s, t).take(core as int),
                last_cores@ == sampled(s, t).last_cores.take(core as int),
            decreases CPU_CHART_CORES - core,
        {
            let sample: Option<ProcStatSample> = if core < snapshot.cores.len() {
                snapshot.cores[core]
            } else {
                None
            };
            let mut last = self.last_cores[core];
            let percent = cpu_delta_usage_percent(&mut last, sample);
            loads.push(percent);
            last_cores.push(last);
            assert(loads@ =~= core_loads(s, t).take(core + 1));
            assert(last_cores@ =~= sampled(s, t).last_cores.take(core + 1));
            core += 1;
        }
        assert(loads@ =~= core_loads(s, t));
        assert(last_cores@ =~= sampled(s, t).last_cores);
        self.last_cores = last_cores;
        let row = copy_row(loads.as_slice());
        assert(rows_of(self.history.cores@).len() == self.history.cores@.len());
        self.history.cores.set(bucket, row);
        assert(rows_of(self.history.cores@) =~= h.cores.update(h.bucket, core_loads(s, t)));
        assert(self@ =~= sampled(s, t));
        CpuUsagePercent { summary, cores: loads }
    }
}

fn copy_row(row: &[i32]) -> (r: Vec<i32>)
    ensures
        r@ == row@,
{
    let mut out: Vec<i32> = Vec::new();
    let mut i: usize = 0;
    while i < row.len()
        invariant
            i <= row@.len(),
            out@ == row@.take(i as int),
        decreases row@.len() - i,
    {
        out.push(row[i]);
        assert(out@ =~= row@.take(i + 1));
        i += 1;
    }
    assert(out@ =~= row@);
    out
}

/// Until a processor was seen before, its load counts as zero.
pub proof fn first_sample_has_no_load(t: SnapshotView, core: int)
    requires
        0 <= core < CPU_CHART_CORES,
    ensures
        core_loads(fresh_sampler(), t)[core] == 0,
        load(fresh_sampler().last_summary, t.summary) == 0,
{
}

// ---------------------------------------------------------------------------
// Memory
// ---------------------------------------------------------------------------

/// A key without the colons at its end.
pub open spec fn bare_key(key: Seq<char>) -> Seq<char>
    decreases key.len(),
{
    if key.len() > 0 && key.last() == ':' {
        bare_key(key.drop_last())
    } else {
        key
    }
}

fn strip_colons(key: &str) -> (r: String)
    ensures
        r@ == bare_key(key@),
{
    let x = chars_of(key);
    let mut n: usize = x.len();
    assert(x@.take(n as int) =~= x@);
    while n > 0 && x[n - 1] == ':'
        invariant
            n <= x@.len(),
            bare_key(x@) == bare_key(x@.take(n as int)),
        decreases n,
    {
        assert(x@.take(n as int).drop_last() =~= x@.take(n - 1));
        n -= 1;
    }
    let r = string_range(&x, 0, n);
    assert(r@ =~= x@.take(n as int));
    r
}

/// A signed quotient, rounded towards zero.
pub open spec fn quotient(n: int, d: int) -> int {
    if n >= 0 {
        n / d
    } else {
        -((-n) / d)
    }
}

/// The memory after a line: a key and a number of kibibytes.
pub open spec fn memory_after(m: MemInfoMib, line: Seq<char>) -> MemInfoMib {
    let parts = words(line);
    if parts.len() < 2 {
        m
    } else {
        match parse_signed(parts[1], i32::MIN as int, i32::MAX as int) {
            None => m,
            Some(kib) => {
                let mib = quotient(kib, 1024) as i32;
                let key = bare_key(parts[0]);
                if key == "MemTotal"@ {
                    MemInfoMib { mem_total: mib, ..m }
                } else if key == "MemAvailable"@ {
                    MemInfoMib { mem_available: mib, ..m }
                } else if key == "SwapTotal"@ {
                    MemInfoMib { swap_total: mib, ..m }
                } else if key == "SwapFree"@ {
                    MemInfoMib { swap_free: mib, ..m }
                } else {
                    m
                }
            },
        }
    }
}

/// The memory on lines.
pub open spec fn memory_of(rows: Seq<Seq<char>>) -> MemInfoMib
    decreases rows.len(),
{
    if rows.len() == 0 {
        MemInfoMib { mem_total: 0, mem_available: 0, swap_total: 0, swap_free: 0 }
    } else {
        memory_after(memory_of(rows.drop_last()), rows.last())
    }
}

/// Divides a signed number, rounding towards zero.
fn divide(n: i64, d: i64) -> (r: i64)
    requires
        d > 1,
    ensures
        r == quotient(n as int, d as int),
{
    if n >= 0 {
        n / d
    } else {
        let m: i128 = -(n as i128);
        let q: i128 = m / (d as i128);
        assert(0 <= q && q <= m / 2) by (nonlinear_arith)
            requires
                q == (m as int) / (d as int),
                d >= 2,
                m >= 0,
        ;
        (-q) as i64
    }
}

/// Reads the memory of the device.
pub fn parse_meminfo_mib(text: &str) -> (r: MemInfoMib)
    ensures
        r == memory_of(lines(text@)),
{
    let rows = split_lines(text);
    let ghost all = texts(rows@);
    let mut info = MemInfoMib::default();
    let mut i: usize = 0;
    assert(info == memory_of(all.take(0)));
    while i < rows.len()
        invariant
            i <= rows@.len(),
            all == texts(rows@),
            info == memory_of(all.take(i as int)),
        decreases rows@.len() - i,
    {
        assert(all.take(i + 1).drop_last() =~= all.take(i as int));
        assert(all[i as int] == rows@[i as int]@);
        let parts = split_words(rows[i].as_str());
        assert(texts(parts@).len() == parts@.len());
        if parts.len() >= 2 {
            assert(texts(parts@)[0] == parts@[0]@);
            assert(texts(parts@)[1] == parts@[1]@);
            match parse_i32(parts[1].as_str()) {
                Some(kib) => {
                    let mib = divide(kib as i64, 1024) as i32;
                    let key = strip_colons(parts[0].as_str());
                    if same(key.as_str(), "MemTotal") {
                        info.mem_total = mib;
                    } else if same(key.as_str(), "MemAvailable") {
                        info.mem_available = mib;
                    } else if same(key.as_str(), "SwapTotal") {
                        info.swap_total = mib;
                    } else if same(key.as_str(), "SwapFree") {
                        info.swap_free = mib;
                    }
                },
                None => {},
            }
        }
        i += 1;
    }
    assert(all.take(i as int) =~= all);
    info
}

// ---------------------------------------------------------------------------
// Temperature
// ---------------------------------------------------------------------------

/// A plausible temperature in thousandths of a degree; small readings are degrees.
pub open spec fn milli_celsius(raw: i64) -> Option<i32> {
    if raw <= 0 {
        None
    } else {
        let t = if raw < 1000 {
            raw * 1000
        } else {
            raw as int
        };
        if 1000 <= t <= 150_000 {
            Some(t as i32)
        } else {
            None
        }
    }
}

/// A plausible temperature in thousandths of a degree.
pub fn normalize_temperature_milli_celsius(raw_temp: i64) -> (r: Option<i32>)
    ensures
        r == milli_celsius(raw_temp),
{
    if raw_temp <= 0 {
        return None;
    }
    let temp: i64 = if raw_temp < 1_000 { raw_temp * 1_000 } else { raw_temp };
    if 1_000 <= temp && temp <= 150_000 {
        Some(temp as i32)
    } else {
        None
    }
}

/// How well a thermal zone stands for the processors.
pub open spec fn zone_priority(zone: Seq<char>) -> u8 {
    let z = lower(trim(zone));
    if starts_with(z, "cpu-"@) || starts_with(z, "cpuss"@) {
        3
    } else if contains(z, "soc"@) || contains(z, "gpu"@) || contains(z, "gpuss"@) || contains(
        z,
        "aoss"@,
    ) || contains(z, "ap"@) {
        2
    } else {
        0
    }
}

/// How well a thermal zone stands for the processors.
pub fn temperature_zone_priority(zone_type: &str) -> (r: u8)
    ensures
        r == zone_priority(zone_type@),
{
    let trimmed_type = trimmed(zone_type);
    let zone = lowered(trimmed_type.as_str());
    let z = zone.as_str();
    if begins(z, "cpu-") || begins(z, "cpuss") {
        3
    } else if has(z, "soc") || has(z, "gpu") || has(z, "gpuss") || has(z, "aoss") || has(z, "ap") {
        2
    } else {
        0
    }
}

/// The zones as values.
pub open spec fn zone_views(zones: Seq<(String, i64)>) -> Seq<(Seq<char>, i64)> {
    zones.map_values(|z: (String, i64)| (z.0@, z.1))
}

/// The highest temperature among the plausible zones of a priority.
pub open spec fn hottest(zones: Seq<(Seq<char>, i64)>, priority: u8) -> Option<i32>
    decreases zones.len(),
{
    if zones.len() == 0 {
        None
    } else {
        let rest = hottest(zones.drop_last(), priority);
        match milli_celsius(zones.last().1) {
            Some(t) => if zone_priority(zones.last().0) == priority {
                match rest {
                    Some(best) => if t > best {
                        Some(t)
                    } else {
                        rest
                    },
                    None => Some(t),
                }
            } else {
                rest
            },
            None => rest,
        }
    }
}

/// The temperature to show: the highest one of the zones that stand best for the processors.
pub open spec fn shown_temperature(zones: Seq<(Seq<char>, i64)>) -> Option<i32> {
    if hottest(zones, 3) is Some {
        hottest(zones, 3)
    } else if hottest(zones, 2) is Some {
        hottest(zones, 2)
    } else {
        hottest(zones, 0)
    }
}

fn hotter(best: Option<i32>, t: i32) -> (r: Option<i32>)
    ensures
        r == match best {
            Some(b) => if t > b {
                Some(t)
            } else {
                best
            },
            None => Some(t),
        },
{
    match best {
        Some(b) => if t > b {
            Some(t)
        } else {
            best
        },
        None => Some(t),
    }
}

/// Selects the temperature to show.
pub fn select_temperature_milli_celsius(zones: &[(String, i64)]) -> (r: Option<i32>)
    ensures
        r == shown_temperature(zone_views(zones@)),
{
    let ghost all = zone_views(zones@);
    let mut first: Option<i32> = None;
    let mut second: Option<i32> = None;
    let mut fallback: Option<i32> = None;
    let mut i: usize = 0;
    while i < zones.len()
        invariant
            i <= zones@.len(),
            all == zone_views(zones@),
            first == hottest(all.take(i as int), 3),
            second == hottest(all.take(i as int), 2),
            fallback == hottest(all.take(i as int), 0),
        decreases zones@.len() - i,
    {
        assert(all.take(i + 1).drop_last() =~= all.take(i as int));
        assert(all.take(i + 1).last() == (zones@[i as int].0@, zones@[i as int].1));
        match normalize_temperature_milli_celsius(zones[i].1) {
            Some(t) => {
                let priority = temperature_zone_priority(zones[i].0.as_str());
                if priority == 3 {
                    first = hotter(first, t);
                } else if priority == 2 {
                    second = hotter(second, t);
                } else {
                    fallback = hotter(fallback, t);
                }
            },
            None => {},
        }
        i += 1;
    }
    assert(all.take(i as int) =~= all);
    if first.is_some() {
        first
    } else if second.is_some() {
        second
    } else {
        fallback
    }
}

// ---------------------------------------------------------------------------
// Power
// ---------------------------------------------------------------------------

/// The lowest 32 bits of a number, signed.
pub open spec fn low_bits(n: int) -> i32 {
    signed((n % 0x1_0000_0000) as u32)
}

/// The lowest 32 bits of a number, signed.
pub fn to_low_bits(n: i64) -> (r: i32)
    ensures
        r == low_bits(n as int),
{
    let wide: i128 = n as i128 + 0x1_0000_0000_0000_0000;
    let low: u32 = (wide as u128 % 0x1_0000_0000) as u32;
    assert(low == (n as int) % 0x1_0000_0000);
    to_signed(low)
}

/// An absolute value.
pub open spec fn magnitude(n: int) -> int {
    if n >= 0 {
        n
    } else {
        -n
    }
}

/// The current of the battery in milliamperes: raw readings are microamperes, or milliamperes
/// where small ones are taken as such; with two cells it counts twice.
pub open spec fn battery_current(raw: i64, fix: bool, double_cell: bool) -> int {
    let ma = if fix && magnitude(raw as int) <= 100_000 {
        raw as int
    } else {
        quotient(raw as int, 1000)
    };
    if double_cell {
        ma * 2
    } else {
        ma
    }
}

/// The power of the battery from voltage and current, in milliwatts.
pub open spec fn battery_power(voltage: i64, raw: i64, fix: bool, double_cell: bool) -> int {
    (magnitude(voltage as int) / 1000) * magnitude(battery_current(raw, fix, double_cell)) / 1000
}

/// The power of the input in milliwatts.
pub open spec fn input_power(voltage: i64, current: i64) -> int {
    quotient(voltage * magnitude(current as int), 1_000_000_000)
}

/// The readings that are looked at lead to products with a machine number.
pub open spec fn measurable(
    power: Option<i64>,
    voltage: Option<i64>,
    current: Option<i64>,
    usb_voltage: Option<i64>,
    usb_current: Option<i64>,
    fix: bool,
    double_cell: bool,
) -> bool {
    if power is Some && power != Some(0i64) {
        power != Some(i64::MIN)
    } else {
        &&& (voltage matches Some(v) ==> (current matches Some(c) ==> {
            &&& v != i64::MIN
            &&& fix ==> c != i64::MIN
            &&& (magnitude(v as int) / 1000) * magnitude(battery_current(c, fix, double_cell))
                <= i64::MAX
        }))
        &&& (voltage matches Some(v) && current matches Some(c) && battery_power(
            v,
            c,
            fix,
            double_cell,
        ) >= 100) || (usb_voltage matches Some(v) ==> (usb_current matches Some(c) ==> {
            &&& c != i64::MIN
            &&& i64::MIN <= v * magnitude(c as int) <= i64::MAX
        }))
    }
}

/// Whether the power can be computed from the readings.
pub fn readings_are_measurable(
    battery_power_uw: Option<i64>,
    battery_voltage_uv: Option<i64>,
    battery_current_ua: Option<i64>,
    usb_voltage_uv: Option<i64>,
    usb_current_ua: Option<i64>,
    enable_current_fix: bool,
    enable_double_cell: bool,
) -> (r: bool)
    ensures
        r == measurable(
            battery_power_uw,
            battery_voltage_uv,
            battery_current_ua,
            usb_voltage_uv,
            usb_current_ua,
            enable_current_fix,
            enable_double_cell,
        ),
{
    match battery_power_uw {
        Some(power) => {
            if power != 0 {
                return power != i64::MIN;
            }
        },
        None => {},
    }
    match (battery_voltage_uv, battery_current_ua) {
        (Some(voltage), Some(raw)) => {
            if voltage == i64::MIN || (enable_current_fix && raw == i64::MIN) {
                return false;
            }
            let mut current: i128 = if enable_current_fix && absolute(raw) <= 100_000 {
                raw as i128
            } else {
                divide(raw, 1000) as i128
            };
            if enable_double_cell {
                current = current * 2;
            }
            assert(current == battery_current(raw, enable_current_fix, enable_double_cell));
            let size: i128 = if current >= 0 { current } else { -current };
            let volts: i128 = (absolute(voltage) / 1000) as i128;
            assert(0 <= volts * size <= i128::MAX) by (nonlinear_arith)
                requires
                    0 <= volts <= i64::MAX,
                    0 <= size <= i64::MAX,
            ;
            let product: i128 = volts * size;
            if product > i64::MAX as i128 {
                return false;
            }
            if product / 1000 >= 100 {
                return true;
            }
        },
        _ => {},
    }
    match (usb_voltage_uv, usb_current_ua) {
        (Some(voltage), Some(current)) => {
            if current == i64::MIN {
                return false;
            }
            let size: i128 = absolute(current) as i128;
            assert(i128::MIN <= voltage * size <= i128::MAX) by (nonlinear_arith)
                requires
                    i64::MIN <= voltage <= i64::MAX,
                    0 <= size <= i64::MAX,
            ;
            let product: i128 = voltage as i128 * size;
            i64::MIN as i128 <= product && product <= i64::MAX as i128
        },
        _ => true,
    }
}

/// The power to show, in milliwatts: what the battery reports; else what its voltage and
/// current give, where that is not noise; else what comes in by cable.
pub open spec fn shown_power(
    power: Option<i64>,
    voltage: Option<i64>,
    current: Option<i64>,
    usb_voltage: Option<i64>,
    usb_current: Option<i64>,
    fix: bool,
    double_cell: bool,
) -> i32 {
    let battery = match (voltage, current) {
        (Some(v), Some(c)) => Some(battery_power(v, c, fix, double_cell)),
        _ => None,
    };
    if power is Some && power != Some(0i64) {
        low_bits(magnitude(power->0 as int) / 1000)
    } else if battery is Some && battery->0 >= 100 {
        low_bits(battery->0)
    } else if usb_voltage is Some && usb_current is Some && usb_current != Some(0i64) {
        low_bits(input_power(usb_voltage->0, usb_current->0))
    } else {
        match battery {
            Some(p) => low_bits(p),
            None => 0,
        }
    }
}

fn absolute(n: i64) -> (r: i64)
    requires
        n != i64::MIN,
    ensures
        r == magnitude(n as int),
{
    if n >= 0 {
        n
    } else {
        -n
    }
}

/// Selects the power to show.
pub fn battery_power_mw_from_readings(
    battery_power_uw: Option<i64>,
    battery_voltage_uv: Option<i64>,
    battery_current_ua: Option<i64>,
    usb_voltage_uv: Option<i64>,
    usb_current_ua: Option<i64>,
    enable_current_fix: bool,
    enable_double_cell: bool,
) -> (r: Option<i32>)
    requires
        measurable(
            battery_power_uw,
            battery_voltage_uv,
            battery_current_ua,
            usb_voltage_uv,
            usb_current_ua,
            enable_current_fix,
            enable_double_cell,
        ),
    ensures
        r == Some(
            shown_power(
                battery_power_uw,
                battery_voltage_uv,
                battery_current_ua,
                usb_voltage_uv,
                usb_current_ua,
                enable_current_fix,
                enable_double_cell,
            ),
        ),
{
    match battery_power_uw {
        Some(power) => {
            if power != 0 {
                return Some(to_low_bits(absolute(power) / 1000));
            }
        },
        None => {},
    }
    let mut battery: Option<i64> = None;
    match (battery_voltage_uv, battery_current_ua) {
        (Some(voltage), Some(raw)) => {
            let mut current: i128 = if enable_current_fix && absolute(raw) <= 100_000 {
                raw as i128
            } else {
                divide(raw, 1000) as i128
            };
            if enable_double_cell {
                current = current * 2;
            }
            assert(current == battery_current(raw, enable_current_fix, enable_double_cell));
            let size: i128 = if current >= 0 { current } else { -current };
            let volts: i128 = (absolute(voltage) / 1000) as i128;
            assert(0 <= volts * size <= i64::MAX) by (nonlinear_arith)
                requires
                    volts >= 0,
                    size >= 0,
                    volts * size <= i64::MAX,
            ;
            let product: i128 = volts * size;
            battery = Some((product / 1000) as i64);
        },
        _ => {},
    }
    match battery {
        Some(power) => {
            if power >= 100 {
                return Some(to_low_bits(power));
            }
        },
        None => {},
    }
    match (usb_voltage_uv, usb_current_ua) {
        (Some(voltage), Some(current)) => {
            if current != 0 {
                let size = absolute(current);
                let product: i64 = voltage * size;
                return Some(to_low_bits(divide(product, 1_000_000_000)));
            }
        },
        _ => {},
    }
    match battery {
        Some(power) => Some(to_low_bits(power)),
        None => Some(0),
    }
}

/// Reads a number that stands alone in a file.
pub fn parse_reading(text: &str) -> (r: Option<i64>)
    ensures
        match r {
            Some(n) => parse_signed(trim(text@), i64::MIN as int, i64::MAX as int) == Some(
                n as int,
            ),
            None => parse_signed(trim(text@), i64::MIN as int, i64::MAX as int) is None,
        },
{
    let t = trimmed(text);
    parse_i64(t.as_str())
}

/// The frequency in megahertz for one in kilohertz.
pub fn frequency_mhz(khz: i64) -> (r: i32)
    ensures
        r == low_bits(quotient(khz as int, 1000)),
{
    to_low_bits(divide(khz, 1000))
}

/// A switch among the settings.
pub open spec fn switched_on(settings: Seq<u8>, index: int) -> bool {
    0 <= index < settings.len() && settings[index] != 0
}

/// Whether small currents are milliamperes, and whether the battery has two cells.
pub fn battery_switches(settings: &[u8]) -> (r: (bool, bool))
    ensures
        r.0 == switched_on(settings@, 14),
        r.1 == switched_on(settings@, 15),
{
    (
        settings.len() > 14 && settings[14] != 0,
        settings.len() > 15 && settings[15] != 0,
    )
}

/// Whether a directory entry is a thermal zone.
pub fn is_thermal_zone(name: &str) -> (r: bool)
    ensures
        r == starts_with(name@, "thermal_zone"@),
{
    begins(name, "thermal_zone")
}

} // verus!
