//! What the live view shows: the curves of the loads, the memory bars and the numbers.

use vstd::arithmetic::div_mod::{lemma_div_is_ordered, lemma_fundamental_div_mod};
use vstd::prelude::*;

use crate::protocol::bytes::{le_bytes, le_u32, signed, unsigned};
use crate::protocol::manager_v1::chart::{
    bar_color, chart, core_color, image_bytes, lines_color, line_row, live_numbers, live_view,
    load_row, loads_height, memory_color, number_bytes, on_frame, on_grid, on_segment, past_load,
    percentage, place_column, positive, row_bytes, used_width, SampleView,
};
use crate::protocol::manager_v1::realtime::{
    core_loads, load, sampled, HistoryView, ProcStatSample, SamplerView, SnapshotView,
};

verus! {

// ---------------------------------------------------------------------------
// Loads
// ---------------------------------------------------------------------------

/// A higher load never stands lower: no load at all stands in the last row of the load area, full
/// load in the first row below the frame, and the rows between are even.
pub proof fn higher_loads_stand_higher(a: i32, b: i32, ch: int)
    requires
        a <= b,
        ch >= 2,
    ensures
        1 <= load_row(b, ch) <= load_row(a, ch) <= ch - 1,
        a <= 0 ==> load_row(a, ch) == ch - 1,
        b >= 100 ==> load_row(b, ch) == 1,
        0 <= a <= 100 && 1 < load_row(a, ch) < ch - 1 ==> load_row(a, ch) * 100 <= (100 - a) * ch
            < (load_row(a, ch) + 1) * 100,
{
    let pa = percentage(a);
    let pb = percentage(b);
    assert((100 - pb) * ch <= (100 - pa) * ch) by (nonlinear_arith)
        requires
            pa <= pb <= 100,
            ch >= 2,
    ;
    lemma_div_is_ordered((100 - pb) * ch, (100 - pa) * ch, 100);
    if a <= 0 {
        assert((100 - pa) * ch == 100 * ch) by (nonlinear_arith)
            requires
                pa == 0,
        ;
        assert((100 - pa) * ch / 100 == ch);
    }
    if b >= 100 {
        assert((100 - pb) * ch / 100 == 0) by {
            assert((100 - pb) * ch == 0) by (nonlinear_arith)
                requires
                    pb == 100,
            ;
        }
    }
    lemma_fundamental_div_mod((100 - pa) * ch, 100);
}

/// The load between two readings is the share of the time that was not idle, in whole percent:
/// all of it busy is a hundred, all of it idle is nothing.
pub proof fn loads_are_shares_of_time(last: ProcStatSample, now: ProcStatSample)
    requires
        last.total < now.total,
        last.idle <= now.idle,
        now.idle - last.idle <= now.total - last.total,
    ensures
        ({
            let total = now.total - last.total;
            let idle = now.idle - last.idle;
            let r = load(Some(last), Some(now));
            &&& r * total <= (total - idle) * 100 < (r + 1) * total
            &&& idle == 0 ==> r == 100
            &&& idle == total ==> r == 0
        }),
{
    let total = now.total - last.total;
    let idle = now.idle - last.idle;
    let n = (total - idle) * 100;
    lemma_fundamental_div_mod(n, total);
    let q = n / total;
    assert(0 <= q <= 100) by (nonlinear_arith)
        requires
            n == total * q + n % total,
            0 <= n % total < total,
            0 <= n <= total * 100,
            total > 0,
    ;
    assert(q * total <= n < (q + 1) * total) by (nonlinear_arith)
        requires
            n == total * q + n % total,
            0 <= n % total < total,
    ;
    if idle == 0 {
        assert(q == 100) by (nonlinear_arith)
            requires
                q * total <= n < (q + 1) * total,
                n == total * 100,
                total > 0,
        ;
    }
    if idle == total {
        assert(n == 0);
        assert(q == 0) by (nonlinear_arith)
            requires
                q * total <= n,
                n == 0,
                total > 0,
                q >= 0,
        ;
    }
}

/// A load that cannot be told is none: without two readings, without time between them, or with
/// more idle time than time.
pub proof fn untold_loads_are_none(last: Option<ProcStatSample>, now: Option<ProcStatSample>)
    requires
        last is None || now is None || now->0.total <= last->0.total || now->0.idle - last->0.idle
            > now->0.total - last->0.total,
    ensures
        load(last, now) == 0,
{
}

/// Each sample moves the history on by one place: the new loads stand last, and what stood in the
/// other places stands one place earlier.
pub proof fn samples_move_the_history_on(s: SamplerView, t: SnapshotView, place: int, core: int)
    requires
        s.wf(),
        1 <= place <= 31,
        0 <= core < 8,
    ensures
        past_load(sampled(s, t).history, place, core) == past_load(s.history, place + 1, core),
        past_load(sampled(s, t).history, 32, core) == load(
            s.last_cores[core],
            if core < t.cores.len() {
                t.cores[core]
            } else {
                None
            },
        ),
        sampled(s, t).history.summary[sampled(s, t).history.bucket] == load(
            s.last_summary,
            t.summary,
        ),
        sampled(s, t).last_cores[core] == (if core < t.cores.len() && t.cores[core] is Some {
            t.cores[core]
        } else {
            s.last_cores[core]
        }),
        sampled(s, t).last_summary == (if t.summary is Some {
            t.summary
        } else {
            s.last_summary
        }),
{
    let h = s.history;
    let next = (h.bucket + 1) % 32;
    assert((next + place) % 32 == (h.bucket + place + 1) % 32);
    assert((next + place) % 32 != next);
    assert((next + 32) % 32 == next);
}

// ---------------------------------------------------------------------------
// The chart
// ---------------------------------------------------------------------------

/// One of the colors of the processors from a processor on.
pub open spec fn is_core_color(color: u32, from: int) -> bool {
    exists|c: int| from <= c < 8 && color == #[trigger] core_color(c)
}

/// The colors of the processors, of the frame, of the grid and of nothing are told apart.
pub proof fn colors_are_told_apart(a: int, b: int)
    requires
        0 <= a < b < 8,
    ensures
        core_color(a) != core_color(b),
        core_color(a) != 0xBBFF8000,
        core_color(b) != 0xBBFF8000,
        core_color(a) != 0x01808080,
        core_color(b) != 0x01808080,
        core_color(a) != 0,
        core_color(b) != 0,
{
}

proof fn drawn_stays_drawn(
    history: HistoryView,
    ch: int,
    w: int,
    core: int,
    place: int,
    x: int,
    y: int,
    base: u32,
    mine: int,
    at: int,
)
    requires
        0 <= mine <= core < 8,
        1 <= at < 32,
        1 <= place <= 32,
        mine == core ==> at < place,
        on_segment(history, ch, w, mine, at, x, y),
    ensures
        is_core_color(lines_color(history, ch, w, core, place, x, y, base), mine),
    decreases core, place,
{
    if place > 1 {
        if on_segment(history, ch, w, core, place - 1, x, y) {
            assert(core_color(core) == core_color(core));
        } else {
            drawn_stays_drawn(history, ch, w, core, place - 1, x, y, base, mine, at);
        }
    } else {
        drawn_stays_drawn(history, ch, w, core - 1, 32, x, y, base, mine, at);
    }
}

/// The curve of a processor passes, at the column of each place of the history, through the row
/// of its load there; later processors may be drawn over it. The oldest place is on the left.
pub proof fn curves_pass_through_the_loads(
    h: int,
    w: int,
    metrics: Seq<i32>,
    history: HistoryView,
    core: int,
    place: int,
)
    requires
        20 <= h,
        62 <= w,
        history.wf(),
        0 <= core < 8,
        1 <= place <= 30,
    ensures
        ({
            let ch = h * 4 / 5;
            let x = w * place / 31;
            let y = load_row(history.cores[(history.bucket + place + 1) % 32][core], ch);
            &&& 0 < x < w - 1
            &&& 1 <= y <= ch - 1
            &&& is_core_color(chart(h, w, metrics, history)[y][x], core)
        }),
{
    let ch = h * 4 / 5;
    let x = w * place / 31;
    let usage = history.cores[(history.bucket + place + 1) % 32][core];
    let y = load_row(usage, ch);
    columns_differ(w, place);
    higher_loads_stand_higher(usage, usage, ch);
    let x0 = place_column(w, place - 1);
    let y0 = load_row(past_load(history, place, core), ch);
    line_ends_at_its_end(x0, y0, x, y);
    assert(on_segment(history, ch, w, core, place, x, y));
    let base = match memory_color(h, w, metrics, x, y) {
        Some(c) => c,
        None => if on_grid(h, w, x, y) {
            0x01808080u32
        } else {
            0
        },
    };
    drawn_stays_drawn(history, ch, w, 7, 32, x, y, base, core, place);
    assert(!on_frame(h, w, x, y));
}

proof fn columns_differ(w: int, place: int)
    requires
        62 <= w,
        1 <= place <= 30,
    ensures
        0 <= w * (place - 1) / 31 < w * place / 31 < w - 1,
{
    let a = w * (place - 1);
    let b = w * place;
    assert(b == a + w && 0 <= a && b <= w * 30) by (nonlinear_arith)
        requires
            a == w * (place - 1),
            b == w * place,
            1 <= place <= 30,
            62 <= w,
    ;
}

proof fn line_ends_at_its_end(x0: int, y0: int, x1: int, y1: int)
    requires
        x0 < x1,
    ensures
        line_row(x0, y0, x1, y1, x1) == y1,
{
    if y1 >= y0 {
        vstd::arithmetic::div_mod::lemma_div_by_multiple(y1 - y0, x1 - x0);
    } else {
        vstd::arithmetic::div_mod::lemma_div_by_multiple(y0 - y1, x1 - x0);
    }
}

/// The frame is drawn over everything: the first row, the row below the loads, and the sides
/// between them.
pub proof fn the_frame_is_drawn(
    h: int,
    w: int,
    metrics: Seq<i32>,
    history: HistoryView,
    x: int,
    y: int,
)
    requires
        20 <= h,
        20 <= w,
        0 <= x < w,
        0 <= y < h,
        y == 0 || y == h * 4 / 5 || (y < h * 4 / 5 && (x == 0 || x == w - 1)),
    ensures
        chart(h, w, metrics, history)[y][x] == 0xBBFF8000,
{
}

proof fn undrawn_stays_undrawn(
    history: HistoryView,
    ch: int,
    w: int,
    core: int,
    place: int,
    x: int,
    y: int,
    base: u32,
)
    requires
        core < 8,
        place <= 32,
        forall|c: int, p: int|
            0 <= c < 8 && 1 <= p < 32 ==> !#[trigger] on_segment(history, ch, w, c, p, x, y),
    ensures
        core >= 0 ==> lines_color(history, ch, w, core, place, x, y, base) == base,
    decreases core, place,
{
    if core >= 0 {
        if place > 1 {
            undrawn_stays_undrawn(history, ch, w, core, place - 1, x, y, base);
        } else if core > 0 {
            undrawn_stays_undrawn(history, ch, w, core - 1, 32, x, y, base);
        }
    }
}

/// The grid divides the load area into quarters from top to bottom, and into tenths from left to
/// right. Where no curve passes and no frame stands, the grid is gray and the rest is left blank.
pub proof fn the_grid_divides_the_load_area(
    h: int,
    w: int,
    metrics: Seq<i32>,
    history: HistoryView,
    x: int,
    y: int,
)
    requires
        20 <= h,
        20 <= w,
        0 < x < w - 1,
        0 < y < h * 4 / 5,
        forall|c: int, p: int|
            0 <= c < 8 && 1 <= p < 32 ==> !#[trigger] on_segment(
                history,
                h * 4 / 5,
                w,
                c,
                p,
                x,
                y,
            ),
    ensures
        chart(h, w, metrics, history)[y][x] == (if y == h / 5 || y == h * 2 / 5 || y == h * 3 / 5
            || x == w / 10 || x == w * 2 / 10 || x == w * 3 / 10 || x == w * 4 / 10 || x == w * 5
            / 10 || x == w * 6 / 10 || x == w * 7 / 10 || x == w * 8 / 10 || x == w * 9 / 10 {
            0x01808080u32
        } else {
            0u32
        }),
{
    let base = match memory_color(h, w, metrics, x, y) {
        Some(c) => c,
        None => if on_grid(h, w, x, y) {
            0x01808080u32
        } else {
            0
        },
    };
    undrawn_stays_undrawn(history, h * 4 / 5, w, 7, 32, x, y, base);
    assert(memory_color(h, w, metrics, x, y) is None);
    let on = crate::protocol::manager_v1::chart::on_column(w, x, 10);
    assert(forall|i: int| #[trigger]
        crate::protocol::manager_v1::chart::column(w, i) == w * i / 10);
    if on {
        let i = choose|i: int|
            1 <= i < 10 && x == #[trigger] crate::protocol::manager_v1::chart::column(w, i);
        assert(i == 1 || i == 2 || i == 3 || i == 4 || i == 5 || i == 6 || i == 7 || i == 8 || i
            == 9);
    } else {
        assert(x != crate::protocol::manager_v1::chart::column(w, 1));
        assert(x != crate::protocol::manager_v1::chart::column(w, 2));
        assert(x != crate::protocol::manager_v1::chart::column(w, 3));
        assert(x != crate::protocol::manager_v1::chart::column(w, 4));
        assert(x != crate::protocol::manager_v1::chart::column(w, 5));
        assert(x != crate::protocol::manager_v1::chart::column(w, 6));
        assert(x != crate::protocol::manager_v1::chart::column(w, 7));
        assert(x != crate::protocol::manager_v1::chart::column(w, 8));
        assert(x != crate::protocol::manager_v1::chart::column(w, 9));
    }
}

proof fn nothing_is_drawn_below(
    history: HistoryView,
    ch: int,
    w: int,
    core: int,
    place: int,
    x: int,
    y: int,
    base: u32,
)
    requires
        ch >= 2,
        w >= 20,
        y >= ch,
        core < 8,
        place <= 32,
    ensures
        lines_color(history, ch, w, core, place, x, y, base) == base,
    decreases core, place,
{
    if place > 1 {
        if on_segment(history, ch, w, core, place - 1, x, y) {
            lines_stay_in_the_area(history, ch, w, core, place - 1, x, y);
        }
        nothing_is_drawn_below(history, ch, w, core, place - 1, x, y, base);
    } else if core > 0 {
        nothing_is_drawn_below(history, ch, w, core - 1, 32, x, y, base);
    }
}

proof fn lines_stay_in_the_area(
    history: HistoryView,
    ch: int,
    w: int,
    core: int,
    place: int,
    x: int,
    y: int,
)
    requires
        ch >= 2,
        on_segment(history, ch, w, core, place, x, y),
    ensures
        1 <= y < ch,
{
    let x0 = place_column(w, place - 1);
    let x1 = place_column(w, place);
    let a = past_load(history, place, core);
    let b = past_load(history, place + 1, core);
    higher_loads_stand_higher(a, a, ch);
    higher_loads_stand_higher(b, b, ch);
    let y0 = load_row(a, ch);
    let y1 = load_row(b, ch);
    let dx = if x1 - x0 > 1 {
        x1 - x0
    } else {
        1
    };
    part_of_a_way(y1 - y0, x - x0, dx);
    part_of_a_way(y0 - y1, x - x0, dx);
}

proof fn part_of_a_way(way: int, t: int, dx: int)
    requires
        0 <= t <= dx,
        dx > 0,
    ensures
        way >= 0 ==> 0 <= way * t / dx <= way,
{
    if way >= 0 {
        assert(0 <= way * t <= way * dx) by (nonlinear_arith)
            requires
                0 <= t <= dx,
                way >= 0,
        ;
        lemma_div_is_ordered(0, way * t, dx);
        lemma_div_is_ordered(way * t, way * dx, dx);
        vstd::arithmetic::div_mod::lemma_div_by_multiple(way, dx);
    }
}

/// A bar shows how much memory is used: of its columns as many are blue as the used memory is of
/// all, rounded down, and the others are gray.
pub open spec fn bar_shows(
    image: Seq<Seq<u32>>,
    start: int,
    end: int,
    total: int,
    left: int,
    x: int,
    y: int,
) -> bool {
    let used = if left <= 0 {
        total
    } else if left <= total {
        total - left
    } else {
        0
    };
    image[y][x] == if total > 0 && (x - start + 1) * total <= (end - start) * used {
        0xBBFF8000u32
    } else {
        0x01808080u32
    }
}

/// Below the loads stand the memory bars: memory on the left, and swap on the right, where there
/// is swap; the rest is left blank.
pub proof fn bars_show_what_is_used(
    h: int,
    w: int,
    metrics: Seq<i32>,
    history: HistoryView,
    x: int,
    y: int,
)
    requires
        20 <= h <= 100_000,
        20 <= w <= 100_000,
        metrics.len() == 23,
        h * 218 / 256 <= y < h,
        0 <= x < w,
        w * metrics[0] <= usize::MAX,
        w * metrics[2] <= usize::MAX,
    ensures
        ({
            let image = chart(h, w, metrics, history);
            let (a, b) = (w * 5 / 100, w * 45 / 100);
            let (c, d) = (w * 55 / 100, w * 95 / 100);
            if a <= x < b {
                bar_shows(image, a, b, metrics[0] as int, metrics[1] as int, x, y)
            } else if c <= x < d && metrics[2] > 0 {
                bar_shows(image, c, d, metrics[2] as int, metrics[3] as int, x, y)
            } else {
                image[y][x] == 0
            }
        }),
{
    let ch = loads_height(h);
    assert(y > ch);
    let (a, b) = (w * 5 / 100, w * 45 / 100);
    let (c, d) = (w * 55 / 100, w * 95 / 100);
    let base = match memory_color(h, w, metrics, x, y) {
        Some(color) => color,
        None => if on_grid(h, w, x, y) {
            0x01808080u32
        } else {
            0
        },
    };
    nothing_is_drawn_below(history, ch, w, 7, 32, x, y, base);
    assert(!on_frame(h, w, x, y));
    assert(!on_grid(h, w, x, y));
    assert(chart(h, w, metrics, history)[y][x] == base);
    if a <= x < b {
        bars_are_filled(w, a, b, metrics[0], metrics[1], x);
    } else if c <= x < d && metrics[2] > 0 {
        bars_are_filled(w, c, d, metrics[2], metrics[3], x);
    }
}

proof fn bars_are_filled(w: int, start: int, end: int, total: i32, left: i32, x: int)
    requires
        0 <= start <= x < end,
        end - start <= w,
        w >= 20,
        w * total <= usize::MAX,
    ensures
        ({
            let used = if left <= 0 {
                total as int
            } else if left <= total {
                total - left
            } else {
                0
            };
            bar_color(start, end, positive(total), positive(left), x) == Some(
                if total > 0 && (x - start + 1) * total <= (end - start) * used {
                    0xBBFF8000u32
                } else {
                    0x01808080u32
                },
            )
        }),
{
    if total > 0 {
        let bar = end - start;
        let used = if left <= 0 {
            total as int
        } else if left <= total {
            total - left
        } else {
            0
        };
        assert(0 <= bar * used <= w * total) by (nonlinear_arith)
            requires
                0 <= bar <= w,
                0 <= used <= total,
        ;
        assert(used_width(bar, positive(total), positive(left)) == bar * used / total as int);
        let q = bar * used / total as int;
        lemma_fundamental_div_mod(bar * used, total as int);
        let n = x - start + 1;
        let t = total as int;
        let r = bar * used % t;
        assert(n <= q <==> n * t <= bar * used) by (nonlinear_arith)
            requires
                bar * used == t * q + r,
                0 <= r < t,
        ;
    }
}

// ---------------------------------------------------------------------------
// The answer
// ---------------------------------------------------------------------------

proof fn rows_have_four_bytes_a_pixel(row: Seq<u32>, x: int)
    requires
        0 <= x < row.len(),
    ensures
        row_bytes(row).len() == 4 * row.len(),
        row_bytes(row).subrange(4 * x, 4 * x + 4) == le_bytes(row[x]),
    decreases row.len(),
{
    let rest = row.drop_last();
    if rest.len() > 0 {
        rows_have_four_bytes_a_pixel(rest, if x < rest.len() { x } else { 0 });
    }
    assert(row_bytes(rest).len() == 4 * rest.len());
    let all = row_bytes(row);
    assert(all == row_bytes(rest) + le_bytes(row.last()));
    if x < rest.len() {
        assert(all.subrange(4 * x, 4 * x + 4) =~= row_bytes(rest).subrange(4 * x, 4 * x + 4));
    } else {
        assert(all.subrange(4 * x, 4 * x + 4) =~= le_bytes(row[x]));
    }
}

proof fn images_have_four_bytes_a_pixel(image: Seq<Seq<u32>>, w: int, x: int, y: int)
    requires
        0 <= y < image.len(),
        0 <= x < w,
        forall|k: int| 0 <= k < image.len() ==> (#[trigger] image[k]).len() == w,
    ensures
        image_bytes(image).len() == 4 * w * image.len(),
        0 <= 4 * (y * w + x) <= 4 * w * image.len() - 4,
        image_bytes(image).subrange(4 * (y * w + x), 4 * (y * w + x) + 4) == le_bytes(image[y][x]),
    decreases image.len(),
{
    let rest = image.drop_last();
    let n = rest.len() as int;
    assert(image[n].len() == w);
    assert forall|k: int| 0 <= k < rest.len() implies (#[trigger] rest[k]).len() == w by {
        assert(rest[k] == image[k]);
    }
    if n > 0 {
        images_have_four_bytes_a_pixel(rest, w, x, if y < n { y } else { 0 });
    }
    assert(image_bytes(rest).len() == 4 * w * n);
    rows_have_four_bytes_a_pixel(image[n], x);
    let all = image_bytes(image);
    assert(all == image_bytes(rest) + row_bytes(image[n]));
    assert(4 * w * (n + 1) == 4 * w * n + 4 * w) by (nonlinear_arith);
    let at = 4 * (y * w + x);
    if y < n {
        assert(all.subrange(at, at + 4) =~= image_bytes(rest).subrange(at, at + 4));
    } else {
        assert(at == 4 * w * n + 4 * x) by (nonlinear_arith)
            requires
                at == 4 * (y * w + x),
                y == n,
        ;
        assert(all.subrange(at, at + 4) =~= row_bytes(image[n]).subrange(4 * x, 4 * x + 4));
    }
}

proof fn numbers_have_four_bytes(s: Seq<i32>, k: int)
    requires
        0 <= k < s.len(),
    ensures
        number_bytes(s).len() == 4 * s.len(),
        number_bytes(s).subrange(4 * k, 4 * k + 4) == le_bytes(unsigned(s[k])),
    decreases s.len(),
{
    let rest = s.drop_last();
    if rest.len() > 0 {
        numbers_have_four_bytes(rest, if k < rest.len() { k } else { 0 });
    }
    let all = number_bytes(s);
    assert(all == number_bytes(rest) + le_bytes(unsigned(s.last())));
    if k < rest.len() {
        assert(all.subrange(4 * k, 4 * k + 4) =~= number_bytes(rest).subrange(4 * k, 4 * k + 4));
    } else {
        assert(all.subrange(4 * k, 4 * k + 4) =~= le_bytes(unsigned(s[k])));
    }
}

/// Four bytes of an answer stand for a number, the lowest byte first.
pub open spec fn holds_number(answer: Seq<u8>, at: int, n: int) -> bool {
    &&& 0 <= at <= answer.len() - 4
    &&& n == answer[at] + answer[at + 1] * 256 + answer[at + 2] * 65_536 + answer[at + 3]
        * 16_777_216
}

/// The answer to a request for the live view: the pixels of the chart, row by row from the top,
/// and then the numbers, each in four bytes.
pub proof fn answers_hold_the_chart_and_the_numbers(
    payload: Seq<u8>,
    s: SamplerView,
    sample: SampleView,
    h: int,
    w: int,
    x: int,
    y: int,
    k: int,
)
    requires
        s.wf(),
        payload.len() == 12,
        sample.frequencies_mhz.len() == 8,
        holds_number(payload, 0, h),
        holds_number(payload, 4, w),
        0 <= y < h,
        0 <= x < w,
        0 <= k < 23,
    ensures
        ({
            let answer = live_view(payload, s, sample);
            let numbers = live_numbers(signed(le_u32(payload, 8)), s, sample);
            let image = chart(h, w, numbers, sampled(s, sample.proc_stat).history);
            &&& answer.len() == 4 * w * h + 92
            &&& holds_number(answer, 4 * (y * w + x), image[y][x] as int)
            &&& holds_number(
                answer,
                4 * w * h + 4 * k,
                if numbers[k] >= 0 {
                    numbers[k] as int
                } else {
                    numbers[k] + 4_294_967_296
                },
            )
        }),
{
    let answer = live_view(payload, s, sample);
    let numbers = live_numbers(signed(le_u32(payload, 8)), s, sample);
    let image = chart(h, w, numbers, sampled(s, sample.proc_stat).history);
    assert(h == le_u32(payload, 0) && w == le_u32(payload, 4));
    assert(numbers.len() == 23);
    images_have_four_bytes_a_pixel(image, w, x, y);
    numbers_have_four_bytes(numbers, k);
    let bytes = image_bytes(image);
    let at = 4 * (y * w + x);
    assert(answer == bytes + number_bytes(numbers));
    let part = bytes.subrange(at, at + 4);
    assert(answer[at] == part[0] && answer[at + 1] == part[1] && answer[at + 2] == part[2]
        && answer[at + 3] == part[3]);
    bytes_make_a_number(image[y][x]);
    let tail = number_bytes(numbers).subrange(4 * k, 4 * k + 4);
    let n = 4 * w * h;
    assert(bytes.len() == n);
    assert(answer[n + 4 * k] == tail[0] && answer[n + 4 * k + 1] == tail[1] && answer[n + 4 * k + 2]
        == tail[2] && answer[n + 4 * k + 3] == tail[3]);
    bytes_make_a_number(unsigned(numbers[k]));
}

proof fn bytes_make_a_number(n: u32)
    ensures
        le_bytes(n).len() == 4,
        n == le_bytes(n)[0] + le_bytes(n)[1] * 256 + le_bytes(n)[2] * 65_536 + le_bytes(n)[3]
            * 16_777_216,
{
}

/// The numbers of the live view: memory, where the request may say how much is available; the
/// frequencies and the loads of the eight processors; the load of all of them; temperature and
/// power.
pub proof fn numbers_stand_in_their_places(
    available: i32,
    s: SamplerView,
    sample: SampleView,
    core: int,
)
    requires
        s.wf(),
        sample.frequencies_mhz.len() == 8,
        0 <= core < 8,
    ensures
        ({
            let n = live_numbers(available, s, sample);
            &&& n.len() == 23
            &&& n[0] == sample.meminfo.mem_total
            &&& available > 0 ==> n[1] == available
            &&& available <= 0 ==> n[1] == sample.meminfo.mem_available
            &&& n[2] == sample.meminfo.swap_total
            &&& n[3] == sample.meminfo.swap_free
            &&& n[4 + core] == sample.frequencies_mhz[core]
            &&& n[12 + core] == load(
                s.last_cores[core],
                if core < sample.proc_stat.cores.len() {
                    sample.proc_stat.cores[core]
                } else {
                    None
                },
            )
            &&& n[20] == load(s.last_summary, sample.proc_stat.summary)
            &&& n[21] == sample.temperature_milli_celsius
            &&& n[22] == sample.battery_power_mw
        }),
{
    let n = live_numbers(available, s, sample);
    assert(core_loads(s, sample.proc_stat).len() == 8);
    assert(n.len() == 23);
}

} // verus!
