//! What is read from the device for the live view.

use vstd::prelude::*;

use crate::protocol::manager_v1::realtime::{
    bare_key, battery_power, hottest, magnitude, memory_after, milli_celsius, numbers, quotient,
    shown_power, shown_temperature, sum, after_line, zone_priority, MemInfoMib, ProcStatSample,
    SnapshotView,
};
use crate::text::{
    decimal, lower, signed_decimal, signed_reads_back, starts_with, trim, unsigned_reads_back,
    words,
};

verus! {

// ---------------------------------------------------------------------------
// Memory
// ---------------------------------------------------------------------------

/// A line names one of the four amounts of memory, with as many kibibytes.
pub open spec fn names_amount(line: Seq<char>, key: Seq<char>, kib: i32) -> bool {
    words(line).len() >= 2 && words(line)[0] == key && words(line)[1] == signed_decimal(kib as int)
}

/// Each of the four lines sets its own amount, in whole mebibytes, and no other.
pub proof fn memory_lines_set_their_amount(m: MemInfoMib, line: Seq<char>, kib: i32)
    requires
        kib >= 0,
    ensures
        names_amount(line, "MemTotal:"@, kib) ==> memory_after(m, line) == (MemInfoMib {
            mem_total: (kib / 1024) as i32,
            ..m
        }),
        names_amount(line, "MemAvailable:"@, kib) ==> memory_after(m, line) == (MemInfoMib {
            mem_available: (kib / 1024) as i32,
            ..m
        }),
        names_amount(line, "SwapTotal:"@, kib) ==> memory_after(m, line) == (MemInfoMib {
            swap_total: (kib / 1024) as i32,
            ..m
        }),
        names_amount(line, "SwapFree:"@, kib) ==> memory_after(m, line) == (MemInfoMib {
            swap_free: (kib / 1024) as i32,
            ..m
        }),
{
    signed_reads_back(kib as int, i32::MIN as int, i32::MAX as int);
    reveal_strlit("MemTotal:");
    reveal_strlit("MemTotal");
    reveal_strlit("MemAvailable:");
    reveal_strlit("MemAvailable");
    reveal_strlit("SwapTotal:");
    reveal_strlit("SwapTotal");
    reveal_strlit("SwapFree:");
    reveal_strlit("SwapFree");
    reveal_with_fuel(bare_key, 3);
    assert("MemTotal:"@.drop_last() =~= "MemTotal"@);
    assert("MemAvailable:"@.drop_last() =~= "MemAvailable"@);
    assert("SwapTotal:"@.drop_last() =~= "SwapTotal"@);
    assert("SwapFree:"@.drop_last() =~= "SwapFree"@);
    assert("MemTotal"@.len() == 8 && "MemAvailable"@.len() == 12 && "SwapTotal"@.len() == 9
        && "SwapFree"@.len() == 8);
    assert("MemTotal"@[0] == 'M' && "SwapFree"@[0] == 'S');
}

// ---------------------------------------------------------------------------
// Times of the processors
// ---------------------------------------------------------------------------

/// The words of a line are a label and seven numbers, with anything after them.
pub open spec fn names_times(line: Seq<char>, label: Seq<char>, t: Seq<u64>) -> bool {
    &&& words(line).len() >= 8
    &&& words(line)[0] == label
    &&& t.len() == 7
    &&& forall|k: int| 0 <= k < 7 ==> #[trigger] words(line)[k + 1] == decimal(t[k] as nat)
}

proof fn seven_numbers(parts: Seq<Seq<char>>, t: Seq<u64>)
    requires
        parts.len() == t.len(),
        forall|k: int| 0 <= k < t.len() ==> #[trigger] parts[k] == decimal(t[k] as nat),
    ensures
        numbers(parts) == t,
    decreases t.len(),
{
    if t.len() > 0 {
        seven_numbers(parts.drop_last(), t.drop_last());
        unsigned_reads_back(t.last() as nat, u64::MAX as nat);
        assert(parts.last() == parts[t.len() - 1]);
        assert(t.drop_last().push(t.last()) =~= t);
    }
}

/// A line of times gives the sum of its seven times, and the fourth of them as idle: to all
/// processors together where it is labelled so, else to the processor that its label names.
pub proof fn time_lines_give_total_and_idle(
    s: SnapshotView,
    line: Seq<char>,
    label: Seq<char>,
    t: Seq<u64>,
    core: u32,
)
    requires
        names_times(line, label, t),
        starts_with(line, "cpu"@),
        t[0] + t[1] + t[2] + t[3] + t[4] + t[5] + t[6] <= u64::MAX,
        core < usize::MAX,
    ensures
        ({
            let sample = ProcStatSample {
                total: (t[0] + t[1] + t[2] + t[3] + t[4] + t[5] + t[6]) as u64,
                idle: t[3],
            };
            &&& label == "cpu"@ ==> after_line(s, line) == (SnapshotView {
                summary: Some(sample),
                ..s
            })
            &&& label == "cpu"@ + decimal(core as nat) ==> {
                let after = after_line(s, line);
                &&& after.summary == s.summary
                &&& core < after.cores.len()
                &&& after.cores[core as int] == Some(sample)
                &&& forall|k: int|
                    0 <= k < s.cores.len() && k != core ==> #[trigger] after.cores[k] == s.cores[k]
            }
        }),
{
    let parts = words(line);
    let times = crate::protocol::manager_v1::realtime::time_words(parts);
    assert(times =~= parts.subrange(1, 8));
    assert forall|k: int| 0 <= k < 7 implies #[trigger] times[k] == decimal(t[k] as nat) by {
        assert(times[k] == parts[k + 1]);
    }
    seven_numbers(times, t);
    reveal_with_fuel(sum, 8);
    assert(t.drop_last().drop_last().drop_last().drop_last().drop_last().drop_last().drop_last().len()
        == 0);
    assert(sum(t) == t[0] + t[1] + t[2] + t[3] + t[4] + t[5] + t[6]);
    reveal_strlit("cpu");
    let named = "cpu"@ + decimal(core as nat);
    assert(named.skip(3) =~= decimal(core as nat));
    crate::text::decimal_reads_back(core as nat);
    unsigned_reads_back(core as nat, usize::MAX as nat);
    assert(decimal(core as nat).len() > 0) by {
        reveal_with_fuel(decimal, 2);
    }
    assert(named.len() > 3);
    assert(named != "cpu"@);
}

// ---------------------------------------------------------------------------
// Temperature
// ---------------------------------------------------------------------------

/// Readings below a thousand are degrees, others thousandths of a degree; only temperatures from
/// one to a hundred and fifty degrees are believed.
pub proof fn temperatures_are_believed_within_bounds(raw: i64)
    ensures
        1 <= raw <= 150 ==> milli_celsius(raw) == Some((raw * 1000) as i32),
        1000 <= raw <= 150_000 ==> milli_celsius(raw) == Some(raw as i32),
        raw <= 0 || 150 < raw < 1000 || raw > 150_000 ==> milli_celsius(raw) is None,
{
}

/// The name of a zone says that it belongs to the processors.
pub open spec fn is_processor_zone(name: Seq<char>) -> bool {
    starts_with(lower(trim(name)), "cpu-"@) || starts_with(lower(trim(name)), "cpuss"@)
}

proof fn hottest_is_highest(zones: Seq<(Seq<char>, i64)>, priority: u8, k: int)
    ensures
        0 <= k < zones.len() && zone_priority(zones[k].0) == priority ==> (milli_celsius(
            zones[k].1,
        ) matches Some(t) ==> hottest(zones, priority) matches Some(best) && best >= t),
        hottest(zones, priority) matches Some(best) ==> exists|m: int|
            0 <= m < zones.len() && milli_celsius((#[trigger] zones[m]).1) == Some(best)
                && zone_priority(zones[m].0) == priority,
    decreases zones.len(),
{
    if zones.len() > 0 {
        let rest = zones.drop_last();
        hottest_is_highest(rest, priority, k);
        if let Some(best) = hottest(zones, priority) {
            if hottest(rest, priority) == Some(best) {
                let m = choose|m: int|
                    0 <= m < rest.len() && milli_celsius((#[trigger] rest[m]).1) == Some(best)
                        && zone_priority(rest[m].0) == priority;
                assert(zones[m] == rest[m]);
            } else {
                assert(zones[zones.len() - 1] == zones.last());
            }
        }
        if 0 <= k < rest.len() {
            assert(rest[k] == zones[k]);
        }
    }
}

/// The temperature that is shown is that of a zone, and no zone of the processors is hotter; where
/// there is one with a temperature to be believed, one of them is shown.
pub proof fn the_hottest_processor_zone_is_shown(zones: Seq<(Seq<char>, i64)>, k: int)
    requires
        0 <= k < zones.len(),
    ensures
        is_processor_zone(zones[k].0) ==> (milli_celsius(zones[k].1) matches Some(t)
            ==> shown_temperature(zones) matches Some(best) && best >= t && exists|m: int|
            0 <= m < zones.len() && milli_celsius((#[trigger] zones[m]).1) == Some(best)
                && is_processor_zone(zones[m].0)),
        shown_temperature(zones) matches Some(best) ==> exists|m: int|
            0 <= m < zones.len() && milli_celsius((#[trigger] zones[m]).1) == Some(best),
        milli_celsius(zones[k].1) is Some ==> shown_temperature(zones) is Some,
{
    hottest_is_highest(zones, 3, k);
    hottest_is_highest(zones, 2, k);
    hottest_is_highest(zones, 0, k);
    if let Some(best) = hottest(zones, 3) {
        let m = choose|m: int|
            0 <= m < zones.len() && milli_celsius((#[trigger] zones[m]).1) == Some(best)
                && zone_priority(zones[m].0) == 3;
        assert(is_processor_zone(zones[m].0));
    }
}

// ---------------------------------------------------------------------------
// Power
// ---------------------------------------------------------------------------

/// A power that the battery reports is shown in milliwatts, without its sign.
pub proof fn reported_power_is_shown(
    power: i64,
    voltage: Option<i64>,
    current: Option<i64>,
    usb_voltage: Option<i64>,
    usb_current: Option<i64>,
    fix: bool,
    double_cell: bool,
)
    requires
        power != 0,
        -2_147_483_647_000 <= power <= 2_147_483_647_000,
    ensures
        ({
            let mw = shown_power(
                Some(power),
                voltage,
                current,
                usb_voltage,
                usb_current,
                fix,
                double_cell,
            );
            let uw = if power > 0 { power as int } else { -power };
            mw * 1000 <= uw < (mw + 1) * 1000
        }),
{
    let uw = if power > 0 { power as int } else { -power };
    assert(0 <= uw / 1000 <= 2_147_483_647);
}

/// Without a report the power of the battery is voltage times current: microvolts and microamperes
/// make milliwatts; small currents count as milliamperes where that is set; and two cells count
/// twice.
pub proof fn power_is_voltage_times_current(
    millivolts: int,
    milliamperes: int,
    fix: bool,
    double_cell: bool,
)
    requires
        0 <= millivolts <= 20_000,
        -20_000 <= milliamperes <= 20_000,
    ensures
        ({
            let v = (millivolts * 1000) as i64;
            let c = (milliamperes * 1000) as i64;
            let a = if milliamperes >= 0 { milliamperes } else { -milliamperes };
            let cells: int = if double_cell { 2 } else { 1 };
            &&& !fix || a > 100 ==> battery_power(v, c, fix, double_cell) == millivolts * (a
                * cells) / 1000
            &&& battery_power(v, milliamperes as i64, true, double_cell) == millivolts * (a
                * cells) / 1000
        }),
{
    let v = millivolts * 1000;
    assert(magnitude(v) / 1000 == millivolts);
    assert(quotient(milliamperes * 1000, 1000) == milliamperes);
    assert(quotient(milliamperes as int, 1000) * 1000 <= 20_000);
}

} // verus!
