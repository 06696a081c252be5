//! The chart of the live view: memory bars and the load of the processors over time.

use vstd::prelude::*;
use vstd::string::*;

use crate::app::error::{DaemonError, ErrorView};
use crate::protocol::bytes::{
    le_bytes, le_u32, push_u32, read_u32, signed, to_signed, to_unsigned, unsigned,
};
use crate::protocol::manager_v1::frame::MAX_PAYLOAD_LEN;
use crate::protocol::manager_v1::realtime::{
    core_loads, load, sampled, CpuHistory, CpuStatSnapshot, HistoryView, MemInfoMib,
    RealtimeSampler, SamplerView, SnapshotView, CPU_CHART_CORES, CPU_HISTORY_BUCKETS,
};
use crate::text::{bytes_of, decimal, number, text};

verus! {

/// The color of the frame and of used memory.
pub const COLOR_BLUE: u32 = 0xBBFF8000;

/// The color of the grid and of free memory.
pub const COLOR_GRAY: u32 = 0x01808080;

/// The color of a processor.
pub open spec fn core_color(core: int) -> u32 {
    if core == 0 {
        0xffddb822
    } else if core == 1 {
        0xffb8dd22
    } else if core == 2 {
        0xff6ddd22
    } else if core == 3 {
        0xff22dd92
    } else if core == 4 {
        0xff1ae6e6
    } else if core == 5 {
        0xff1abde6
    } else if core == 6 {
        0xff1a6be6
    } else {
        0xff1a1ae6
    }
}

fn color_of_core(core: usize) -> (r: u32)
    ensures
        r == core_color(core as int),
{
    if core == 0 {
        0xffddb822
    } else if core == 1 {
        0xffb8dd22
    } else if core == 2 {
        0xff6ddd22
    } else if core == 3 {
        0xff22dd92
    } else if core == 4 {
        0xff1ae6e6
    } else if core == 5 {
        0xff1abde6
    } else if core == 6 {
        0xff1a6be6
    } else {
        0xff1a1ae6
    }
}

/// The smaller of two numbers.
pub open spec fn lesser(a: int, b: int) -> int {
    if a < b {
        a
    } else {
        b
    }
}

/// The height of the part with the loads.
pub open spec fn loads_height(h: int) -> int {
    h * 4 / 5
}

/// The pixels of the grid.
pub open spec fn on_grid(h: int, w: int, x: int, y: int) -> bool {
    ||| y == h / 5
    ||| y == h * 2 / 5
    ||| y == h * 3 / 5
    ||| (y < loads_height(h) && on_column(w, x, 10))
}

/// The pixels of the first grid columns.
pub open spec fn on_column(w: int, x: int, n: int) -> bool {
    exists|i: int| 1 <= i < n && x == #[trigger] column(w, i)
}

/// A grid column.
pub open spec fn column(w: int, i: int) -> int {
    w * i / 10
}

/// The width of the used part of a bar.
pub open spec fn used_width(bar: int, total: int, left: int) -> int {
    let used = if total >= left {
        total - left
    } else {
        0
    };
    lesser(bar * used, usize::MAX as int) / total
}

/// The color of a bar, if there is one at a column.
pub open spec fn bar_color(start: int, end: int, total: int, left: int, x: int) -> Option<u32> {
    if start <= x < end {
        if total > 0 && x < start + used_width(end - start, total, left) {
            Some(COLOR_BLUE)
        } else {
            Some(COLOR_GRAY)
        }
    } else {
        None
    }
}

/// A number that is not negative.
pub open spec fn positive(n: i32) -> int {
    if n > 0 {
        n as int
    } else {
        0
    }
}

/// The pixels of the memory bars; there is none for swap without swap.
pub open spec fn memory_color(h: int, w: int, metrics: Seq<i32>, x: int, y: int) -> Option<u32> {
    if y < h * 218 / 256 {
        None
    } else if w * 55 / 100 <= x < w * 95 / 100 && positive(metrics[2]) > 0 {
        bar_color(w * 55 / 100, w * 95 / 100, positive(metrics[2]), positive(metrics[3]), x)
    } else {
        bar_color(w * 5 / 100, w * 45 / 100, positive(metrics[0]), positive(metrics[1]), x)
    }
}

/// A percentage.
pub open spec fn percentage(n: i32) -> int {
    if n < 0 {
        0
    } else if n > 100 {
        100
    } else {
        n as int
    }
}

/// The row of a load.
pub open spec fn load_row(usage: i32, ch: int) -> int {
    let y = (100 - percentage(usage)) * ch / 100;
    if y < 1 {
        1
    } else if y > ch - 1 {
        ch - 1
    } else {
        y
    }
}

/// The load of a processor at a place of the history, the oldest first.
pub open spec fn past_load(history: HistoryView, place: int, core: int) -> i32 {
    history.cores[(history.bucket + place) % (CPU_HISTORY_BUCKETS as int)][core]
}

/// The column of a place of the history.
pub open spec fn place_column(w: int, place: int) -> int {
    lesser(w * place / 31, w - 1)
}

/// The row of a line from one point to another at a column.
pub open spec fn line_row(x0: int, y0: int, x1: int, y1: int, x: int) -> int {
    let dx = if x1 - x0 > 1 {
        x1 - x0
    } else {
        1
    };
    if y1 >= y0 {
        y0 + (y1 - y0) * (x - x0) / dx
    } else {
        y0 - (y0 - y1) * (x - x0) / dx
    }
}

/// The pixels of the line from a place of the history to the next.
pub open spec fn on_segment(
    history: HistoryView,
    ch: int,
    w: int,
    core: int,
    place: int,
    x: int,
    y: int,
) -> bool {
    let x0 = place_column(w, place - 1);
    let x1 = place_column(w, place);
    let y0 = load_row(past_load(history, place, core), ch);
    let y1 = load_row(past_load(history, place + 1, core), ch);
    x0 <= x <= x1 && y == line_row(x0, y0, x1, y1, x)
}

/// The color of a pixel after lines were drawn: up to a place for a processor, and all for those
/// before it.
pub open spec fn lines_color(
    history: HistoryView,
    ch: int,
    w: int,
    core: int,
    place: int,
    x: int,
    y: int,
    base: u32,
) -> u32
    decreases core, place,
{
    if place > 1 {
        if on_segment(history, ch, w, core, place - 1, x, y) {
            core_color(core)
        } else {
            lines_color(history, ch, w, core, place - 1, x, y, base)
        }
    } else if core > 0 {
        lines_color(history, ch, w, core - 1, CPU_HISTORY_BUCKETS as int, x, y, base)
    } else {
        base
    }
}

/// The pixels of the frame.
pub open spec fn on_frame(h: int, w: int, x: int, y: int) -> bool {
    ||| y == 0
    ||| y == loads_height(h)
    ||| (y < loads_height(h) && (x == 0 || x == w - 1))
}

/// The color of a pixel: the frame over the loads, over the memory bars, over the grid.
pub open spec fn chart_color(
    h: int,
    w: int,
    metrics: Seq<i32>,
    history: HistoryView,
    x: int,
    y: int,
) -> u32 {
    if on_frame(h, w, x, y) {
        COLOR_BLUE
    } else {
        lines_color(
            history,
            loads_height(h),
            w,
            CPU_CHART_CORES - 1,
            CPU_HISTORY_BUCKETS as int,
            x,
            y,
            match memory_color(h, w, metrics, x, y) {
                Some(c) => c,
                None => if on_grid(h, w, x, y) {
                    COLOR_GRAY
                } else {
                    0
                },
            },
        )
    }
}

/// The chart, row by row.
pub open spec fn chart(h: int, w: int, metrics: Seq<i32>, history: HistoryView) -> Seq<Seq<u32>> {
    Seq::new(
        h as nat,
        |y: int| Seq::new(w as nat, |x: int| chart_color(h, w, metrics, history, x, y)),
    )
}

/// The bytes of pixels.
pub open spec fn row_bytes(row: Seq<u32>) -> Seq<u8>
    decreases row.len(),
{
    if row.len() == 0 {
        seq![]
    } else {
        row_bytes(row.drop_last()) + le_bytes(row.last())
    }
}

/// The bytes of an image, row by row.
pub open spec fn image_bytes(image: Seq<Seq<u32>>) -> Seq<u8>
    decreases image.len(),
{
    if image.len() == 0 {
        seq![]
    } else {
        image_bytes(image.drop_last()) + row_bytes(image.last())
    }
}

// ---------------------------------------------------------------------------
// Drawing
// ---------------------------------------------------------------------------

/// An image of rows of pixels.
struct Canvas {
    rows: Vec<Vec<u32>>,
}

impl View for Canvas {
    type V = Seq<Seq<u32>>;

    closed spec fn view(&self) -> Seq<Seq<u32>> {
        self.rows@.map_values(|r: Vec<u32>| r@)
    }
}

spec fn sized(c: Seq<Seq<u32>>, h: int, w: int) -> bool {
    c.len() == h && forall|y: int| 0 <= y < h ==> (#[trigger] c[y]).len() == w
}

impl Canvas {
    fn blank(h: usize, w: usize) -> (r: Self)
        ensures
            sized(r@, h as int, w as int),
            forall|x: int, y: int|
                0 <= y < h && 0 <= x < w ==> #[trigger] r@[y][x] == 0,
    {
        let mut rows: Vec<Vec<u32>> = Vec::new();
        let mut y: usize = 0;
        while y < h
            invariant
                y <= h,
                rows@.len() == y,
                forall|k: int| 0 <= k < y ==> (#[trigger] rows@[k])@.len() == w,
                forall|k: int, x: int|
                    0 <= k < y && 0 <= x < w ==> #[trigger] rows@[k]@[x] == 0,
            decreases h - y,
        {
            let mut row: Vec<u32> = Vec::new();
            let mut x: usize = 0;
            while x < w
                invariant
                    x <= w,
                    row@.len() == x,
                    forall|k: int| 0 <= k < x ==> row@[k] == 0,
                decreases w - x,
            {
                row.push(0);
                x += 1;
            }
            rows.push(row);
            y += 1;
        }
        Canvas { rows }
    }

    fn put_pixel(&mut self, x: usize, y: usize, color: u32)
        requires
            y < old(self)@.len(),
            x < old(self)@[y as int].len(),
        ensures
            final(self)@ == old(self)@.update(
                y as int,
                old(self)@[y as int].update(x as int, color),
            ),
    {
        let ghost before = self@;
        let mut row: Vec<u32> = Vec::new();
        let mut rows: Vec<Vec<u32>> = Vec::new();
        core::mem::swap(&mut self.rows, &mut rows);
        core::mem::swap(&mut rows[y], &mut row);
        row.set(x, color);
        rows.set(y, row);
        self.rows = rows;
        assert(self@ =~= before.update(y as int, before[y as int].update(x as int, color)));
    }

    /// Colors the pixels `from..to` of a row.
    fn paint_row(&mut self, h: usize, w: usize, y: usize, from: usize, to: usize, color: u32)
        requires
            sized(old(self)@, h as int, w as int),
            y < h,
            from <= to <= w,
        ensures
            sized(final(self)@, h as int, w as int),
            forall|x: int, k: int|
                0 <= k < h && 0 <= x < w ==> #[trigger] final(self)@[k][x] == if k == y && from
                    <= x < to {
                    color
                } else {
                    old(self)@[k][x]
                },
    {
        let ghost start = self@;
        let mut i: usize = from;
        while i < to
            invariant
                from <= i <= to <= w,
                y < h,
                sized(self@, h as int, w as int),
                sized(start, h as int, w as int),
                forall|x: int, k: int|
                    0 <= k < h && 0 <= x < w ==> #[trigger] self@[k][x] == if k == y && from <= x
                        < i {
                        color
                    } else {
                        start[k][x]
                    },
            decreases to - i,
        {
            self.put_pixel(i, y, color);
            i += 1;
        }
    }

    /// Colors the pixels `0..to` of a column.
    fn paint_column(&mut self, h: usize, w: usize, x: usize, to: usize, color: u32)
        requires
            sized(old(self)@, h as int, w as int),
            x < w,
            to <= h,
        ensures
            sized(final(self)@, h as int, w as int),
            forall|i: int, k: int|
                0 <= k < h && 0 <= i < w ==> #[trigger] final(self)@[k][i] == if i == x && k < to {
                    color
                } else {
                    old(self)@[k][i]
                },
    {
        let ghost start = self@;
        let mut j: usize = 0;
        while j < to
            invariant
                j <= to <= h,
                x < w,
                sized(self@, h as int, w as int),
                sized(start, h as int, w as int),
                forall|i: int, k: int|
                    0 <= k < h && 0 <= i < w ==> #[trigger] self@[k][i] == if i == x && k < j {
                        color
                    } else {
                        start[k][i]
                    },
            decreases to - j,
        {
            self.put_pixel(x, j, color);
            j += 1;
        }
    }

    fn draw_grid(&mut self, h: usize, w: usize)
        requires
            sized(old(self)@, h as int, w as int),
            20 <= h <= 100_000,
            20 <= w <= 100_000,
        ensures
            sized(final(self)@, h as int, w as int),
            forall|x: int, y: int|
                0 <= y < h && 0 <= x < w ==> #[trigger] final(self)@[y][x] == if on_grid(
                    h as int,
                    w as int,
                    x,
                    y,
                ) {
                    COLOR_GRAY
                } else {
                    old(self)@[y][x]
                },
    {
        let ghost start = self@;
        let ch: usize = h * 4 / 5;
        self.paint_row(h, w, h / 5, 0, w, COLOR_GRAY);
        self.paint_row(h, w, h * 2 / 5, 0, w, COLOR_GRAY);
        self.paint_row(h, w, h * 3 / 5, 0, w, COLOR_GRAY);
        let ghost rows = self@;
        let mut i: usize = 1;
        while i < 10
            invariant
                1 <= i <= 10,
                20 <= h <= 100_000,
                20 <= w <= 100_000,
                ch == loads_height(h as int),
                ch < h,
                sized(self@, h as int, w as int),
                sized(rows, h as int, w as int),
                forall|x: int, y: int|
                    0 <= y < h && 0 <= x < w ==> #[trigger] self@[y][x] == if y < ch && on_column(
                        w as int,
                        x,
                        i as int,
                    ) {
                        COLOR_GRAY
                    } else {
                        rows[y][x]
                    },
            decreases 10 - i,
        {
            assert(w * i <= 900_000) by (nonlinear_arith)
                requires
                    w <= 100_000,
                    i <= 9,
            ;
            assert(w * i / 10 < w) by (nonlinear_arith)
                requires
                    w >= 20,
                    i <= 9,
            ;
            let x: usize = w * i / 10;
            let ghost before = self@;
            self.paint_column(h, w, x, ch, COLOR_GRAY);
            assert forall|k: int| on_column(w as int, k, i + 1) == (on_column(w as int, k, i as int)
                || k == x) by {
                if k == x {
                    assert(k == column(w as int, i as int));
                }
                if on_column(w as int, k, i as int) {
                    let j = choose|j: int| 1 <= j < i && k == #[trigger] column(w as int, j);
                    assert(1 <= j < i + 1 && k == column(w as int, j));
                }
                if on_column(w as int, k, i + 1) {
                    let j = choose|j: int| 1 <= j < i + 1 && k == #[trigger] column(w as int, j);
                    assert(j == i || 1 <= j < i);
                }
            }
            assert forall|k: int, y: int| 0 <= y < h && 0 <= k < w implies #[trigger] self@[y][k]
                == if y < ch && on_column(w as int, k, i + 1) {
                COLOR_GRAY
            } else {
                rows[y][k]
            } by {
                assert(before[y][k] == if y < ch && on_column(w as int, k, i as int) {
                    COLOR_GRAY
                } else {
                    rows[y][k]
                });
            }
            i += 1;
        }
    }

    /// Colors a bar in the lower part.
    fn fill_horizontal_bar(
        &mut self,
        h: usize,
        w: usize,
        top: usize,
        start: usize,
        end: usize,
        used_end: usize,
    )
        requires
            sized(old(self)@, h as int, w as int),
            top <= h,
            start <= end <= w,
            start <= used_end,
        ensures
            sized(final(self)@, h as int, w as int),
            forall|x: int, y: int|
                0 <= y < h && 0 <= x < w ==> #[trigger] final(self)@[y][x] == if y >= top && start
                    <= x < end {
                    if x < used_end {
                        COLOR_BLUE
                    } else {
                        COLOR_GRAY
                    }
                } else {
                    old(self)@[y][x]
                },
    {
        let ghost before = self@;
        let split: usize = if used_end < end { used_end } else { end };
        let mut j: usize = top;
        while j < h
            invariant
                top <= j <= h,
                start <= split <= end <= w,
                split == if used_end < end { used_end } else { end },
                sized(self@, h as int, w as int),
                sized(before, h as int, w as int),
                forall|x: int, y: int|
                    0 <= y < h && 0 <= x < w ==> #[trigger] self@[y][x] == if top <= y < j && start
                        <= x < end {
                        if x < used_end {
                            COLOR_BLUE
                        } else {
                            COLOR_GRAY
                        }
                    } else {
                        before[y][x]
                    },
            decreases h - j,
        {
            self.paint_row(h, w, j, start, split, COLOR_BLUE);
            self.paint_row(h, w, j, split, end, COLOR_GRAY);
            j += 1;
        }
    }

    fn draw_memory_bars(&mut self, h: usize, w: usize, metrics: &[i32])
        requires
            sized(old(self)@, h as int, w as int),
            20 <= h <= 100_000,
            20 <= w <= 100_000,
            metrics@.len() == 23,
        ensures
            sized(final(self)@, h as int, w as int),
            forall|x: int, y: int|
                0 <= y < h && 0 <= x < w ==> #[trigger] final(self)@[y][x] == match memory_color(
                    h as int,
                    w as int,
                    metrics@,
                    x,
                    y,
                ) {
                    Some(c) => c,
                    None => old(self)@[y][x],
                },
    {
        let ghost before = self@;
        let top: usize = h * 218 / 256;
        let start: usize = w * 5 / 100;
        let end: usize = w * 45 / 100;
        let mut used: usize = 0;
        if metrics[0] > 0 {
            used = width_of_used(end - start, metrics[0], metrics[1]);
        }
        self.fill_horizontal_bar(h, w, top, start, end, start + used);
        let ghost physical = self@;
        if metrics[2] > 0 {
            let swap_start: usize = w * 55 / 100;
            let swap_end: usize = w * 95 / 100;
            let used: usize = width_of_used(swap_end - swap_start, metrics[2], metrics[3]);
            self.fill_horizontal_bar(h, w, top, swap_start, swap_end, swap_start + used);
        }
    }

    fn draw_line(&mut self, h: usize, w: usize, x0: usize, y0: usize, x1: usize, y1: usize, color: u32)
        requires
            sized(old(self)@, h as int, w as int),
            x0 <= x1 < w,
            y0 < h,
            y1 < h,
            h * w <= 1_000_000,
        ensures
            sized(final(self)@, h as int, w as int),
            forall|x: int, y: int|
                0 <= y < h && 0 <= x < w ==> #[trigger] final(self)@[y][x] == if x0 <= x <= x1 && y
                    == line_row(x0 as int, y0 as int, x1 as int, y1 as int, x) {
                    color
                } else {
                    old(self)@[y][x]
                },
    {
        let ghost before = self@;
        let dx: usize = if x1 - x0 > 1 { x1 - x0 } else { 1 };
        let mut i: usize = x0;
        while i <= x1
            invariant
                x0 <= i <= x1 + 1,
                x1 < w,
                y0 < h,
                y1 < h,
                h * w <= 1_000_000,
                dx == if x1 - x0 > 1 { x1 - x0 } else { 1 },
                sized(self@, h as int, w as int),
                sized(before, h as int, w as int),
                forall|x: int, y: int|
                    0 <= y < h && 0 <= x < w ==> #[trigger] self@[y][x] == if x0 <= x < i && y
                        == line_row(x0 as int, y0 as int, x1 as int, y1 as int, x) {
                        color
                    } else {
                        before[y][x]
                    },
            decreases x1 + 1 - i,
        {
            let t: usize = i - x0;
            let y: usize = if y1 >= y0 {
                let rise: usize = y1 - y0;
                proof {
                    part_of_rise(rise as int, t as int, dx as int, h as int, w as int);
                }
                y0 + rise * t / dx
            } else {
                let fall: usize = y0 - y1;
                proof {
                    part_of_rise(fall as int, t as int, dx as int, h as int, w as int);
                }
                y0 - fall * t / dx
            };
            self.put_pixel(i, y, color);
            i += 1;
        }
    }

    fn draw_cpu_history(&mut self, h: usize, ch: usize, w: usize, history: &CpuHistory)
        requires
            sized(old(self)@, h as int, w as int),
            16 <= ch < h <= 100_000,
            20 <= w <= 100_000,
            h * w <= 1_000_000,
            history@.wf(),
        ensures
            sized(final(self)@, h as int, w as int),
            forall|x: int, y: int|
                0 <= y < h && 0 <= x < w ==> #[trigger] final(self)@[y][x] == lines_color(
                    history@,
                    ch as int,
                    w as int,
                    CPU_CHART_CORES - 1,
                    CPU_HISTORY_BUCKETS as int,
                    x,
                    y,
                    old(self)@[y][x],
                ),
    {
        let ghost base = self@;
        let mut core: usize = 0;
        while core < CPU_CHART_CORES
            invariant
                core <= CPU_CHART_CORES,
                16 <= ch < h <= 100_000,
                20 <= w <= 100_000,
                h * w <= 1_000_000,
                history@.wf(),
                sized(self@, h as int, w as int),
                sized(base, h as int, w as int),
                forall|x: int, y: int|
                    0 <= y < h && 0 <= x < w ==> #[trigger] self@[y][x] == lines_color(
                        history@,
                        ch as int,
                        w as int,
                        core as int,
                        1,
                        x,
                        y,
                        base[y][x],
                    ),
            decreases CPU_CHART_CORES - core,
        {
            let color = color_of_core(core);
            let mut place: usize = 1;
            while place < CPU_HISTORY_BUCKETS
                invariant
                    1 <= place <= CPU_HISTORY_BUCKETS,
                    core < CPU_CHART_CORES,
                    color == core_color(core as int),
                    16 <= ch < h <= 100_000,
                    20 <= w <= 100_000,
                    h * w <= 1_000_000,
                    history@.wf(),
                    sized(self@, h as int, w as int),
                    sized(base, h as int, w as int),
                    forall|x: int, y: int|
                        0 <= y < h && 0 <= x < w ==> #[trigger] self@[y][x] == lines_color(
                            history@,
                            ch as int,
                            w as int,
                            core as int,
                            place as int,
                            x,
                            y,
                            base[y][x],
                        ),
                decreases CPU_HISTORY_BUCKETS - place,
            {
                let y0 = usage_to_chart_y(usage_at(history, place, core), ch);
                let y1 = usage_to_chart_y(usage_at(history, place + 1, core), ch);
                let x0 = column_of_place(w, place - 1);
                let x1 = column_of_place(w, place);
                proof {
                    columns_advance(w as int, place as int);
                }
                let ghost before = self@;
                self.draw_line(h, w, x0, y0, x1, y1, color);
                assert forall|x: int, y: int| 0 <= y < h && 0 <= x < w implies #[trigger]
                    self@[y][x] == lines_color(
                    history@,
                    ch as int,
                    w as int,
                    core as int,
                    place + 1,
                    x,
                    y,
                    base[y][x],
                ) by {
                    assert(before[y][x] == lines_color(
                        history@,
                        ch as int,
                        w as int,
                        core as int,
                        place as int,
                        x,
                        y,
                        base[y][x],
                    ));
                }
                place += 1;
            }
            core += 1;
        }
        assert forall|x: int, y: int| 0 <= y < h && 0 <= x < w implies #[trigger] self@[y][x]
            == lines_color(
            history@,
            ch as int,
            w as int,
            CPU_CHART_CORES - 1,
            CPU_HISTORY_BUCKETS as int,
            x,
            y,
            base[y][x],
        ) by {
            assert(self@[y][x] == lines_color(
                history@,
                ch as int,
                w as int,
                CPU_CHART_CORES as int,
                1,
                x,
                y,
                base[y][x],
            ));
        }
    }

    fn draw_frame(&mut self, h: usize, ch: usize, w: usize)
        requires
            sized(old(self)@, h as int, w as int),
            0 < ch < h,
            w >= 2,
            ch == loads_height(h as int),
        ensures
            sized(final(self)@, h as int, w as int),
            forall|x: int, y: int|
                0 <= y < h && 0 <= x < w ==> #[trigger] final(self)@[y][x] == if on_frame(
                    h as int,
                    w as int,
                    x,
                    y,
                ) {
                    COLOR_BLUE
                } else {
                    old(self)@[y][x]
                },
    {
        self.paint_row(h, w, 0, 0, w, COLOR_BLUE);
        self.paint_row(h, w, ch, 0, w, COLOR_BLUE);
        self.paint_column(h, w, 0, ch, COLOR_BLUE);
        self.paint_column(h, w, w - 1, ch, COLOR_BLUE);
    }

    fn bytes(&self) -> (r: Vec<u8>)
        ensures
            r@ == image_bytes(self@),
    {
        let ghost all = self@;
        let mut out: Vec<u8> = Vec::new();
        let mut y: usize = 0;
        assert(out@ =~= image_bytes(all.take(0)));
        while y < self.rows.len()
            invariant
                y <= self.rows@.len(),
                all == self@,
                out@ == image_bytes(all.take(y as int)),
            decreases self.rows@.len() - y,
        {
            assert(all.take(y + 1).drop_last() =~= all.take(y as int));
            assert(all.take(y + 1).last() == self.rows@[y as int]@);
            let ghost done = out@;
            let row = &self.rows[y];
            let mut x: usize = 0;
            assert(out@ =~= done + row_bytes(row@.take(0)));
            while x < row.len()
                invariant
                    x <= row@.len(),
                    out@ == done + row_bytes(row@.take(x as int)),
                decreases row@.len() - x,
            {
                assert(row@.take(x + 1).drop_last() =~= row@.take(x as int));
                push_u32(&mut out, row[x]);
                assert(out@ =~= done + row_bytes(row@.take(x + 1)));
                x += 1;
            }
            assert(row@.take(x as int) =~= row@);
            y += 1;
        }
        assert(all.take(y as int) =~= all);
        out
    }
}

proof fn part_of_rise(rise: int, t: int, dx: int, h: int, w: int)
    requires
        0 <= rise < h,
        0 <= t <= dx,
        0 < dx,
        t < w,
        h * w <= 1_000_000,
    ensures
        0 <= rise * t <= 1_000_000,
        0 <= rise * t / dx <= rise,
{
    assert(0 <= rise * t <= h * w) by (nonlinear_arith)
        requires
            0 <= rise < h,
            0 <= t < w,
    ;
    assert(0 <= rise * t / dx <= rise) by (nonlinear_arith)
        requires
            0 <= rise,
            0 <= t <= dx,
            0 < dx,
    ;
}

proof fn columns_advance(w: int, place: int)
    requires
        20 <= w,
        1 <= place <= 31,
    ensures
        0 <= place_column(w, place - 1) <= place_column(w, place) < w,
{
    assert(0 <= w * (place - 1) / 31 <= w * place / 31) by (nonlinear_arith)
        requires
            20 <= w,
            1 <= place <= 31,
    ;
}

fn width_of_used(bar: usize, total: i32, left: i32) -> (r: usize)
    requires
        total > 0,
        bar <= 100_000,
    ensures
        r == used_width(bar as int, positive(total), positive(left)),
        r <= bar,
{
    let left: u64 = if left > 0 { left as u64 } else { 0 };
    let total: u64 = total as u64;
    let used: u64 = if total >= left { total - left } else { 0 };
    let bar: u64 = bar as u64;
    assert(bar * used <= 100_000 * 0x8000_0000) by (nonlinear_arith)
        requires
            bar <= 100_000,
            used <= 0x8000_0000,
    ;
    let product: u64 = bar * used;
    let bounded: u64 = if product < usize::MAX as u64 { product } else { usize::MAX as u64 };
    assert(bounded / total <= bar) by (nonlinear_arith)
        requires
            bounded <= bar * used,
            used <= total,
            total > 0,
    ;
    (bounded / total) as usize
}

fn percent(n: i32) -> (r: usize)
    ensures
        r == percentage(n),
{
    if n < 0 {
        0
    } else if n > 100 {
        100
    } else {
        n as usize
    }
}

fn usage_to_chart_y(usage: i32, chart_height: usize) -> (r: usize)
    requires
        2 <= chart_height <= 100_000,
    ensures
        r == load_row(usage, chart_height as int),
        1 <= r < chart_height,
{
    let left: usize = 100 - percent(usage);
    assert(left * chart_height <= 10_000_000) by (nonlinear_arith)
        requires
            left <= 100,
            chart_height <= 100_000,
    ;
    let y: usize = left * chart_height / 100;
    if y < 1 {
        1
    } else if y > chart_height - 1 {
        chart_height - 1
    } else {
        y
    }
}

fn usage_at(history: &CpuHistory, place: usize, core: usize) -> (r: i32)
    requires
        history@.wf(),
        place <= CPU_HISTORY_BUCKETS,
        core < CPU_CHART_CORES,
    ensures
        r == past_load(history@, place as int, core as int),
{
    let index: usize = (history.bucket_idx + place) % CPU_HISTORY_BUCKETS;
    assert(history@.cores.len() == history.cores@.len());
    assert(history@.cores[index as int] == history.cores@[index as int]@);
    history.cores[index][core]
}

fn column_of_place(w: usize, place: usize) -> (r: usize)
    requires
        20 <= w <= 100_000,
        place <= 31,
    ensures
        r == place_column(w as int, place as int),
        r < w,
{
    assert(w * place <= 3_100_000) by (nonlinear_arith)
        requires
            w <= 100_000,
            place <= 31,
    ;
    let x: usize = w * place / 31;
    if x < w - 1 {
        x
    } else {
        w - 1
    }
}

/// Draws the chart.
pub fn draw_realtime_chart(
    height: usize,
    width: usize,
    metrics: &[i32],
    history: &CpuHistory,
) -> (r: Vec<u8>)
    requires
        20 <= height <= 100_000,
        20 <= width <= 100_000,
        height * width <= 1_000_000,
        metrics@.len() == 23,
        history@.wf(),
    ensures
        r@ == image_bytes(chart(height as int, width as int, metrics@, history@)),
{
    let chart_height: usize = height * 4 / 5;
    let mut canvas = Canvas::blank(height, width);
    let ghost blank = canvas@;
    canvas.draw_grid(height, width);
    let ghost grid = canvas@;
    canvas.draw_memory_bars(height, width, metrics);
    let ghost bars = canvas@;
    canvas.draw_cpu_history(height, chart_height, width, history);
    let ghost loads = canvas@;
    canvas.draw_frame(height, chart_height, width);
    proof {
        let h = height as int;
        let w = width as int;
        let goal = chart(h, w, metrics@, history@);
        assert forall|y: int| 0 <= y < h implies #[trigger] canvas@[y] =~= goal[y] by {
            assert forall|x: int| 0 <= x < w implies canvas@[y][x] == goal[y][x] by {
                assert(blank[y][x] == 0);
                assert(grid[y][x] == if on_grid(h, w, x, y) {
                    COLOR_GRAY
                } else {
                    0
                });
                assert(bars[y][x] == match memory_color(h, w, metrics@, x, y) {
                    Some(c) => c,
                    None => grid[y][x],
                });
                assert(loads[y][x] == lines_color(
                    history@,
                    loads_height(h),
                    w,
                    CPU_CHART_CORES - 1,
                    CPU_HISTORY_BUCKETS as int,
                    x,
                    y,
                    bars[y][x],
                ));
            }
        }
        assert(canvas@ =~= goal);
    }
    canvas.bytes()
}

// ---------------------------------------------------------------------------
// The request
// ---------------------------------------------------------------------------

/// A sample of the device.
#[derive(Debug)]
pub struct RealtimeSample {
    pub meminfo: MemInfoMib,
    pub frequencies_mhz: [i32; 8],
    pub proc_stat: CpuStatSnapshot,
    pub temperature_milli_celsius: i32,
    pub battery_power_mw: i32,
}

/// A sample of the device as a value.
#[verifier::ext_equal]
pub ghost struct SampleView {
    pub meminfo: MemInfoMib,
    pub frequencies_mhz: Seq<i32>,
    pub proc_stat: SnapshotView,
    pub temperature_milli_celsius: i32,
    pub battery_power_mw: i32,
}

impl View for RealtimeSample {
    type V = SampleView;

    open spec fn view(&self) -> SampleView {
        SampleView {
            meminfo: self.meminfo,
            frequencies_mhz: self.frequencies_mhz@,
            proc_stat: self.proc_stat@,
            temperature_milli_celsius: self.temperature_milli_celsius,
            battery_power_mw: self.battery_power_mw,
        }
    }
}

impl Default for RealtimeSample {
    fn default() -> (r: Self)
        ensures
            r@.meminfo == (MemInfoMib {
                mem_total: 0,
                mem_available: 0,
                swap_total: 0,
                swap_free: 0,
            }),
            r@.frequencies_mhz == Seq::new(8, |i: int| 0i32),
            r@.proc_stat == crate::protocol::manager_v1::realtime::no_times(),
            r@.temperature_milli_celsius == 0,
            r@.battery_power_mw == 0,
    {
        let frequencies_mhz: [i32; 8] = [0, 0, 0, 0, 0, 0, 0, 0];
        assert(frequencies_mhz@ =~= Seq::new(8, |i: int| 0i32));
        RealtimeSample {
            meminfo: MemInfoMib::default(),
            frequencies_mhz,
            proc_stat: CpuStatSnapshot::default(),
            temperature_milli_celsius: 0,
            battery_power_mw: 0,
        }
    }
}

impl Clone for RealtimeSample {
    fn clone(&self) -> (r: Self)
        ensures
            r@ == self@,
    {
        RealtimeSample {
            meminfo: self.meminfo,
            frequencies_mhz: self.frequencies_mhz,
            proc_stat: self.proc_stat.clone(),
            temperature_milli_celsius: self.temperature_milli_celsius,
            battery_power_mw: self.battery_power_mw,
        }
    }
}

/// The numbers of the live view: memory (the request may say how much is available), the
/// frequencies and loads of the processors, the load of all, temperature and power.
pub open spec fn live_numbers(available_mib: i32, s: SamplerView, sample: SampleView) -> Seq<i32> {
    seq![
        sample.meminfo.mem_total,
        if available_mib > 0 {
            available_mib
        } else {
            sample.meminfo.mem_available
        },
        sample.meminfo.swap_total,
        sample.meminfo.swap_free,
    ] + sample.frequencies_mhz + core_loads(s, sample.proc_stat) + seq![
        load(s.last_summary, sample.proc_stat.summary),
        sample.temperature_milli_celsius,
        sample.battery_power_mw,
    ]
}

/// Records a sample and gives the numbers of the live view.
pub fn realtime_metrics_from_sample(
    available_mib: i32,
    sampler: &mut RealtimeSampler,
    sample: &RealtimeSample,
) -> (r: Vec<i32>)
    requires
        old(sampler)@.wf(),
    ensures
        r@ == live_numbers(available_mib, old(sampler)@, sample@),
        r@.len() == 23,
        final(sampler)@ == sampled(old(sampler)@, sample@.proc_stat),
        final(sampler)@.wf(),
{
    let ghost s = sampler@;
    let mut metrics: Vec<i32> = Vec::new();
    metrics.push(sample.meminfo.mem_total);
    metrics.push(
        if available_mib > 0 {
            available_mib
        } else {
            sample.meminfo.mem_available
        },
    );
    metrics.push(sample.meminfo.swap_total);
    metrics.push(sample.meminfo.swap_free);
    let ghost memory = metrics@;
    let mut i: usize = 0;
    while i < 8
        invariant
            i <= 8,
            metrics@ == memory + sample@.frequencies_mhz.take(i as int),
            sample@.frequencies_mhz.len() == 8,
        decreases 8 - i,
    {
        metrics.push(sample.frequencies_mhz[i]);
        assert(metrics@ =~= memory + sample@.frequencies_mhz.take(i + 1));
        i += 1;
    }
    let usage = sampler.record_proc_stat(&sample.proc_stat);
    let ghost with_frequencies = metrics@;
    let mut i: usize = 0;
    while i < 8
        invariant
            i <= 8,
            usage.cores@.len() == 8,
            metrics@ == with_frequencies + usage.cores@.take(i as int),
        decreases 8 - i,
    {
        metrics.push(usage.cores[i]);
        assert(metrics@ =~= with_frequencies + usage.cores@.take(i + 1));
        i += 1;
    }
    metrics.push(usage.summary);
    metrics.push(sample.temperature_milli_celsius);
    metrics.push(sample.battery_power_mw);
    assert(metrics@ =~= live_numbers(available_mib, s, sample@));
    metrics
}

/// What is wrong with a request for the live view: a text for the manager, or an error.
pub open spec fn request_fault(payload: Seq<u8>) -> Option<Result<Seq<char>, ErrorView>> {
    let h = le_u32(payload, 0) as int;
    let w = le_u32(payload, 4) as int;
    if payload.len() != 12 {
        Some(Ok("实时信息需要12字节, 实际收到["@ + decimal(payload.len()) + "]"@))
    } else if h < 20 || w < 20 {
        Some(
            Ok(
                "宽高不符合, height["@ + decimal(h as nat) + "] width["@ + decimal(w as nat)
                    + "]"@,
            ),
        )
    } else if h * w * 4 > usize::MAX {
        Some(Err(ErrorView::Protocol("realtime image size overflows"@)))
    } else if h * w * 4 + 92 > MAX_PAYLOAD_LEN {
        Some(
            Ok(
                "实时信息响应过大, height["@ + decimal(h as nat) + "] width["@ + decimal(
                    w as nat,
                ) + "]"@,
            ),
        )
    } else {
        None
    }
}

fn sized_message(head: &str, height: u32, width: u32) -> (r: Vec<u8>)
    ensures
        r@ == vstd::utf8::encode_utf8(
            head@ + "height["@ + decimal(height as nat) + "] width["@ + decimal(width as nat)
                + "]"@,
        ),
{
    let mut out = text(head);
    out.append("height[");
    let h = number(height as u128);
    out.append(h.as_str());
    out.append("] width[");
    let w = number(width as u128);
    out.append(w.as_str());
    out.append("]");
    bytes_of(out.as_str())
}

/// The answer to a faulty request for the live view.
pub fn realtime_request_validation_response(payload: &[u8]) -> (r: Result<
    Option<Vec<u8>>,
    DaemonError,
>)
    ensures
        match request_fault(payload@) {
            None => r matches Ok(None),
            Some(Ok(message)) => r matches Ok(Some(b)) && b@ == vstd::utf8::encode_utf8(message),
            Some(Err(error)) => r matches Err(e) && e@ == error,
        },
{
    if payload.len() != 12 {
        let mut message = text("实时信息需要12字节, 实际收到[");
        let digits = number(payload.len() as u128);
        message.append(digits.as_str());
        message.append("]");
        return Ok(Some(bytes_of(message.as_str())));
    }
    let height = read_u32(payload, 0);
    let width = read_u32(payload, 4);
    if height < 20 || width < 20 {
        proof {
            reveal_strlit("宽高不符合, ");
            reveal_strlit("height[");
            reveal_strlit("宽高不符合, height[");
            assert("宽高不符合, "@ + "height["@ =~= "宽高不符合, height["@);
        }
        return Ok(Some(sized_message("宽高不符合, ", height, width)));
    }
    assert(height as int * width as int * 4 < 0x1_0000_0000 * 0x1_0000_0000 * 4)
        by (nonlinear_arith)
        requires
            0 <= height < 0x1_0000_0000,
            0 <= width < 0x1_0000_0000,
    ;
    assert(0 <= height as int * width as int) by (nonlinear_arith)
        requires
            0 <= height,
            0 <= width,
    ;
    let image_len: u128 = height as u128 * width as u128 * 4;
    if image_len > usize::MAX as u128 {
        return Err(DaemonError::protocol("realtime image size overflows"));
    }
    if image_len + 92 > MAX_PAYLOAD_LEN as u128 {
        proof {
            reveal_strlit("实时信息响应过大, ");
            reveal_strlit("height[");
            reveal_strlit("实时信息响应过大, height[");
            assert("实时信息响应过大, "@ + "height["@ =~= "实时信息响应过大, height["@);
        }
        return Ok(Some(sized_message("实时信息响应过大, ", height, width)));
    }
    Ok(None)
}

/// The bytes of signed numbers.
pub open spec fn number_bytes(s: Seq<i32>) -> Seq<u8>
    decreases s.len(),
{
    if s.len() == 0 {
        seq![]
    } else {
        number_bytes(s.drop_last()) + le_bytes(unsigned(s.last()))
    }
}

/// The live view: the chart and the numbers.
pub open spec fn live_view(payload: Seq<u8>, s: SamplerView, sample: SampleView) -> Seq<u8> {
    let metrics = live_numbers(signed(le_u32(payload, 8)), s, sample);
    image_bytes(
        chart(
            le_u32(payload, 0) as int,
            le_u32(payload, 4) as int,
            metrics,
            sampled(s, sample.proc_stat).history,
        ),
    ) + number_bytes(metrics)
}

proof fn valid_dimensions(h: int, w: int)
    requires
        20 <= h,
        20 <= w,
        h * w * 4 + 92 <= MAX_PAYLOAD_LEN,
    ensures
        h <= 100_000,
        w <= 100_000,
        h * w <= 1_000_000,
{
    assert(h * 20 <= h * w) by (nonlinear_arith)
        requires
            20 <= h,
            20 <= w,
    ;
    assert(w * 20 <= h * w) by (nonlinear_arith)
        requires
            20 <= h,
            20 <= w,
    ;
}

/// Answers a request for the live view from a sample. A faulty request records nothing.
pub fn encode_realtime_info_with_sample(
    payload: &[u8],
    sampler: &mut RealtimeSampler,
    sample: &RealtimeSample,
) -> (r: Result<Vec<u8>, DaemonError>)
    requires
        old(sampler)@.wf(),
    ensures
        final(sampler)@.wf(),
        match request_fault(payload@) {
            None => {
                &&& r matches Ok(b) && b@ == live_view(payload@, old(sampler)@, sample@)
                &&& final(sampler)@ == sampled(old(sampler)@, sample@.proc_stat)
            },
            Some(Ok(message)) => {
                &&& r matches Ok(b) && b@ == vstd::utf8::encode_utf8(message)
                &&& final(sampler)@ == old(sampler)@
            },
            Some(Err(error)) => {
                &&& r matches Err(e) && e@ == error
                &&& final(sampler)@ == old(sampler)@
            },
        },
{
    match realtime_request_validation_response(payload) {
        Ok(None) => {},
        Ok(Some(message)) => {
            return Ok(message);
        },
        Err(e) => {
            return Err(e);
        },
    }
    let height = read_u32(payload, 0);
    let width = read_u32(payload, 4);
    let available_mib = to_signed(read_u32(payload, 8));
    proof {
        valid_dimensions(height as int, width as int);
    }
    let metrics = realtime_metrics_from_sample(available_mib, sampler, sample);
    let mut response = draw_realtime_chart(
        height as usize,
        width as usize,
        metrics.as_slice(),
        &sampler.history,
    );
    let ghost image = response@;
    let mut i: usize = 0;
    assert(response@ =~= image + number_bytes(metrics@.take(0)));
    while i < metrics.len()
        invariant
            i <= metrics@.len(),
            response@ == image + number_bytes(metrics@.take(i as int)),
        decreases metrics@.len() - i,
    {
        assert(metrics@.take(i + 1).drop_last() =~= metrics@.take(i as int));
        push_u32(&mut response, to_unsigned(metrics[i]));
        assert(response@ =~= image + number_bytes(metrics@.take(i + 1)));
        i += 1;
    }
    assert(metrics@.take(i as int) =~= metrics@);
    Ok(response)
}

} // verus!
