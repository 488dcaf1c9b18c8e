//! Read strategies and the windows they cut a band into.

use vstd::prelude::*;

verus! {

/// How a band is read.
#[derive(Clone, Copy, Debug, PartialEq, Eq, Structural)]
pub enum ReadStrategy {
    /// The whole band in one window.
    Full,
    /// One scanline per window.
    Rows,
    /// One native block per window, clipped at the band's edges.
    Blocks,
}

/// Size and native block layout of a band.
#[derive(Clone, Copy, Debug, PartialEq, Eq, Structural)]
pub struct BandShape {
    pub cols: usize,
    pub rows: usize,
    pub block_x: usize,
    pub block_y: usize,
}

/// A rectangle of samples inside a band.
#[derive(Clone, Copy, Debug, PartialEq, Eq, Structural)]
pub struct Window {
    pub x: usize,
    pub y: usize,
    pub width: usize,
    pub height: usize,
}

/// Top-left corner of the next window to read. A scan is over when `y` has
/// reached the number of rows.
#[derive(Clone, Copy, Debug, PartialEq, Eq, Structural)]
pub struct ScanCursor {
    pub x: usize,
    pub y: usize,
}

/// The strategy for a band: everything at once when quartiles are wanted,
/// by rows when the blocks are one row high, by blocks otherwise.
pub open spec fn strategy_for(quantiles: bool, block_y: usize) -> ReadStrategy {
    if quantiles {
        ReadStrategy::Full
    } else if block_y == 1 {
        ReadStrategy::Rows
    } else {
        ReadStrategy::Blocks
    }
}

pub fn select_strategy(quantiles: bool, block_y: usize) -> (s: ReadStrategy)
    ensures
        s == strategy_for(quantiles, block_y),
{
    if quantiles {
        ReadStrategy::Full
    } else if block_y == 1 {
        ReadStrategy::Rows
    } else {
        ReadStrategy::Blocks
    }
}

impl Window {
    pub open spec fn area(&self) -> int {
        self.width * self.height
    }

    /// Whether the sample in column `px` of row `py` lies in the window.
    pub open spec fn holds(&self, px: int, py: int) -> bool {
        self.x <= px < self.x + self.width && self.y <= py < self.y + self.height
    }
}

impl BandShape {
    /// Number of samples in the band.
    pub open spec fn area(&self) -> int {
        self.cols * self.rows
    }

    pub open spec fn is_empty(&self) -> bool {
        self.cols == 0 || self.rows == 0
    }

    /// Width of an unclipped window under a strategy.
    pub open spec fn step_x(&self, strategy: ReadStrategy) -> int {
        match strategy {
            ReadStrategy::Blocks => self.block_x as int,
            _ => self.cols as int,
        }
    }

    /// Height of an unclipped window under a strategy.
    pub open spec fn step_y(&self, strategy: ReadStrategy) -> int {
        match strategy {
            ReadStrategy::Full => self.rows as int,
            ReadStrategy::Rows => 1,
            ReadStrategy::Blocks => self.block_y as int,
        }
    }

    /// A band can be scanned when its sample count fits the machine and,
    /// for block-wise reading, its blocks are not empty.
    pub open spec fn scannable(&self, strategy: ReadStrategy) -> bool {
        &&& self.cols * self.rows <= usize::MAX
        &&& strategy == ReadStrategy::Blocks ==> self.block_x >= 1 && self.block_y >= 1
    }

    /// Where a cursor may stand: on a sample of the band, or at the start of
    /// the row after the last.
    pub open spec fn cursor_ok(&self, cur: ScanCursor) -> bool {
        if self.is_empty() {
            cur.x == 0 && cur.y == 0
        } else {
            (cur.y < self.rows && cur.x < self.cols) || (cur.y == self.rows && cur.x == 0)
        }
    }

    pub open spec fn finished(&self, cur: ScanCursor) -> bool {
        self.is_empty() || cur.y >= self.rows
    }

    /// Height of the band of windows that the cursor stands in.
    pub open spec fn band_height(&self, strategy: ReadStrategy, cur: ScanCursor) -> int {
        if self.step_y(strategy) <= self.rows - cur.y {
            self.step_y(strategy)
        } else {
            self.rows - cur.y
        }
    }

    /// The window at the cursor: a full step, clipped to what is left of the
    /// band to the right and below.
    pub open spec fn window_at(&self, strategy: ReadStrategy, cur: ScanCursor) -> Window {
        Window {
            x: cur.x,
            y: cur.y,
            width: (if self.step_x(strategy) <= self.cols - cur.x {
                self.step_x(strategy)
            } else {
                self.cols - cur.x
            }) as usize,
            height: self.band_height(strategy, cur) as usize,
        }
    }

    /// The cursor after the window at `cur`: further right in the same band
    /// of windows, or at the start of the next band.
    pub open spec fn cursor_after(&self, strategy: ReadStrategy, cur: ScanCursor) -> ScanCursor {
        let w = self.window_at(strategy, cur);
        if cur.x + w.width >= self.cols {
            ScanCursor { x: 0, y: (cur.y + w.height) as usize }
        } else {
            ScanCursor { x: (cur.x + w.width) as usize, y: cur.y }
        }
    }

    /// Number of samples in the windows before the cursor.
    pub open spec fn consumed(&self, strategy: ReadStrategy, cur: ScanCursor) -> int {
        cur.y * self.cols + cur.x * self.band_height(strategy, cur)
    }

    /// The cursor at the start of a scan.
    pub fn start(&self) -> (cur: ScanCursor)
        ensures
            cur == (ScanCursor { x: 0, y: 0 }),
            self.cursor_ok(cur),
            self.consumed(ReadStrategy::Full, cur) == 0,
            self.consumed(ReadStrategy::Rows, cur) == 0,
            self.consumed(ReadStrategy::Blocks, cur) == 0,
    {
        ScanCursor { x: 0, y: 0 }
    }

    /// The next window to read, or none when the band has been read.
    pub fn next_window(&self, strategy: ReadStrategy, cur: ScanCursor) -> (w: Option<Window>)
        requires
            self.scannable(strategy),
            self.cursor_ok(cur),
        ensures
            w.is_none() <==> self.finished(cur),
            !self.finished(cur) ==> w == Some(self.window_at(strategy, cur)),
            w.is_some() ==> {
                &&& w.unwrap().width >= 1
                &&& w.unwrap().height >= 1
                &&& w.unwrap().x + w.unwrap().width <= self.cols
                &&& w.unwrap().y + w.unwrap().height <= self.rows
                &&& w.unwrap().area() <= self.area()
            },
    {
        if self.cols == 0 || self.rows == 0 || cur.y >= self.rows {
            return None;
        }
        let (step_x, step_y): (usize, usize) = match strategy {
            ReadStrategy::Full => (self.cols, self.rows),
            ReadStrategy::Rows => (self.cols, 1),
            ReadStrategy::Blocks => (self.block_x, self.block_y),
        };
        let left_x: usize = self.cols - cur.x;
        let left_y: usize = self.rows - cur.y;
        let width: usize = if step_x <= left_x { step_x } else { left_x };
        let height: usize = if step_y <= left_y { step_y } else { left_y };
        proof {
            assert(width * height <= self.cols * self.rows) by (nonlinear_arith)
                requires
                    0 <= width <= self.cols,
                    0 <= height <= self.rows,
            ;
        }
        Some(Window { x: cur.x, y: cur.y, width, height })
    }

    /// Moves the cursor past the window it stands on.
    pub fn advance(&self, strategy: ReadStrategy, cur: ScanCursor) -> (next: ScanCursor)
        requires
            self.scannable(strategy),
            self.cursor_ok(cur),
            !self.finished(cur),
        ensures
            next == self.cursor_after(strategy, cur),
            self.cursor_ok(next),
            self.consumed(strategy, next) == self.consumed(strategy, cur) + self.window_at(
                strategy,
                cur,
            ).area(),
            self.consumed(strategy, next) <= self.area(),
    {
        proof {
            self.window_accounting(strategy, cur);
        }
        match self.next_window(strategy, cur) {
            Some(w) => {
                if w.width >= self.cols - cur.x {
                    ScanCursor { x: 0, y: cur.y + w.height }
                } else {
                    ScanCursor { x: cur.x + w.width, y: cur.y }
                }
            },
            None => cur,
        }
    }

    /// Reading the window at the cursor adds exactly its samples to what has
    /// been consumed, and never more than the band holds.
    pub proof fn window_accounting(&self, strategy: ReadStrategy, cur: ScanCursor)
        requires
            self.scannable(strategy),
            self.cursor_ok(cur),
            !self.finished(cur),
        ensures
            self.cursor_ok(self.cursor_after(strategy, cur)),
            self.consumed(strategy, self.cursor_after(strategy, cur)) == self.consumed(
                strategy,
                cur,
            ) + self.window_at(strategy, cur).area(),
            self.consumed(strategy, self.cursor_after(strategy, cur)) <= self.area(),
            self.consumed(strategy, cur) >= 0,
    {
        let w = self.window_at(strategy, cur);
        let next = self.cursor_after(strategy, cur);
        let cols = self.cols as int;
        let rows = self.rows as int;
        let x = cur.x as int;
        let y = cur.y as int;
        let h = self.band_height(strategy, cur);
        let wd = w.width as int;
        assert(1 <= wd <= cols - x);
        assert(1 <= h <= rows - y);
        assert(w.height == h);
        assert(x * h >= 0 && y * cols >= 0) by (nonlinear_arith)
            requires
                x >= 0,
                h >= 0,
                y >= 0,
                cols >= 0,
        ;
        if x + wd >= cols {
            assert(next.x == 0 && next.y == y + h);
            assert((y + h) * cols == y * cols + x * h + wd * h) by (nonlinear_arith)
                requires
                    x + wd == cols,
            ;
            assert((y + h) * cols <= rows * cols) by (nonlinear_arith)
                requires
                    y + h <= rows,
                    cols >= 0,
            ;
            assert(rows * cols == cols * rows) by (nonlinear_arith);
            assert(0 * self.band_height(strategy, next) == 0);
        } else {
            assert(next.x == x + wd && next.y == y);
            assert(self.band_height(strategy, next) == h);
            assert((x + wd) * h == x * h + wd * h) by (nonlinear_arith);
            assert(y * cols + (x + wd) * h <= cols * rows) by (nonlinear_arith)
                requires
                    x + wd <= cols,
                    0 <= h <= rows - y,
                    y >= 0,
                    cols >= 0,
            ;
        }
    }

    /// When the scan is over, every sample of the band has been consumed.
    pub proof fn finished_means_all_consumed(&self, strategy: ReadStrategy, cur: ScanCursor)
        requires
            self.cursor_ok(cur),
            self.finished(cur),
        ensures
            self.consumed(strategy, cur) == self.area(),
    {
        if self.is_empty() {
            assert(self.cols * self.rows == 0) by (nonlinear_arith)
                requires
                    self.cols == 0 || self.rows == 0,
            ;
            assert(0 * self.cols == 0);
            assert(0 * self.band_height(strategy, cur) == 0);
        } else {
            assert(cur.y == self.rows && cur.x == 0);
            assert(0 * self.band_height(strategy, cur) == 0);
            assert(self.rows * self.cols == self.cols * self.rows) by (nonlinear_arith);
        }
    }
}

/// The windows still to be read from a cursor on, in reading order.
pub open spec fn windows_from(shape: BandShape, strategy: ReadStrategy, cur: ScanCursor) -> Seq<
    Window,
>
    decreases shape.rows - cur.y, shape.cols - cur.x,
{
    if shape.scannable(strategy) && shape.cursor_ok(cur) && !shape.finished(cur) {
        seq![shape.window_at(strategy, cur)] + windows_from(
            shape,
            strategy,
            shape.cursor_after(strategy, cur),
        )
    } else {
        Seq::empty()
    }
}

/// All windows of a band, in reading order.
pub open spec fn all_windows(shape: BandShape, strategy: ReadStrategy) -> Seq<Window> {
    windows_from(shape, strategy, ScanCursor { x: 0, y: 0 })
}

/// How many of the windows hold the sample in column `px` of row `py`.
pub open spec fn count_holding(ws: Seq<Window>, px: int, py: int) -> nat
    decreases ws.len(),
{
    if ws.len() == 0 {
        0
    } else {
        count_holding(ws.drop_first(), px, py) + if ws[0].holds(px, py) {
            1nat
        } else {
            0nat
        }
    }
}

/// The number of samples in some windows together.
pub open spec fn total_area(ws: Seq<Window>) -> int
    decreases ws.len(),
{
    if ws.len() == 0 {
        0
    } else {
        ws[0].area() + total_area(ws.drop_first())
    }
}

/// Whether a sample of the band is still to be read from a cursor on: it
/// lies in the cursor's band of windows at or right of the cursor, or below.
pub open spec fn still_to_read(
    shape: BandShape,
    strategy: ReadStrategy,
    cur: ScanCursor,
    px: int,
    py: int,
) -> bool {
    &&& 0 <= px < shape.cols
    &&& 0 <= py < shape.rows
    &&& (py >= cur.y && px >= cur.x) || py >= cur.y + shape.band_height(strategy, cur)
}

/// From any cursor on, each sample still to be read lies in exactly one of
/// the remaining windows, and no other sample lies in any of them.
pub proof fn remaining_windows_hold_each_sample_once(
    shape: BandShape,
    strategy: ReadStrategy,
    cur: ScanCursor,
    px: int,
    py: int,
)
    requires
        shape.scannable(strategy),
        shape.cursor_ok(cur),
    ensures
        count_holding(windows_from(shape, strategy, cur), px, py) == if still_to_read(
            shape,
            strategy,
            cur,
            px,
            py,
        ) {
            1nat
        } else {
            0nat
        },
    decreases shape.rows - cur.y, shape.cols - cur.x,
{
    if !shape.finished(cur) {
        let w = shape.window_at(strategy, cur);
        let next = shape.cursor_after(strategy, cur);
        let rest = windows_from(shape, strategy, next);
        let ws = windows_from(shape, strategy, cur);
        shape.window_accounting(strategy, cur);
        remaining_windows_hold_each_sample_once(shape, strategy, next, px, py);
        assert(ws.drop_first() =~= rest);
        assert(ws[0] == w);
    }
}

/// The remaining windows hold together as many samples as are left.
pub proof fn remaining_windows_area(shape: BandShape, strategy: ReadStrategy, cur: ScanCursor)
    requires
        shape.scannable(strategy),
        shape.cursor_ok(cur),
    ensures
        total_area(windows_from(shape, strategy, cur)) == shape.area() - shape.consumed(
            strategy,
            cur,
        ),
    decreases shape.rows - cur.y, shape.cols - cur.x,
{
    if !shape.finished(cur) {
        let next = shape.cursor_after(strategy, cur);
        let ws = windows_from(shape, strategy, cur);
        shape.window_accounting(strategy, cur);
        remaining_windows_area(shape, strategy, next);
        assert(ws.drop_first() =~= windows_from(shape, strategy, next));
    } else {
        shape.finished_means_all_consumed(strategy, cur);
    }
}

/// Under every strategy the windows of a band hold each of its samples
/// exactly once, and together as many samples as the band has.
pub proof fn windows_tile_the_band(shape: BandShape, strategy: ReadStrategy, px: int, py: int)
    requires
        shape.scannable(strategy),
        0 <= px < shape.cols,
        0 <= py < shape.rows,
    ensures
        count_holding(all_windows(shape, strategy), px, py) == 1,
        total_area(all_windows(shape, strategy)) == shape.area(),
{
    let start = ScanCursor { x: 0, y: 0 };
    remaining_windows_hold_each_sample_once(shape, strategy, start, px, py);
    remaining_windows_area(shape, strategy, start);
    assert(0 * shape.cols == 0);
    assert(0 * shape.band_height(strategy, start) == 0);
}

/// Whether a cursor stands on a corner of the grid of unclipped windows.
pub open spec fn on_grid(shape: BandShape, strategy: ReadStrategy, cur: ScanCursor) -> bool {
    &&& shape.step_x(strategy) >= 1
    &&& shape.step_y(strategy) >= 1
    &&& cur.x as int % shape.step_x(strategy) == 0
    &&& cur.y as int % shape.step_y(strategy) == 0
}

/// Whether a window starts on a grid corner and is a full step wide and
/// high wherever the band's right and lower edges do not cut it short.
pub open spec fn grid_window(shape: BandShape, strategy: ReadStrategy, w: Window) -> bool {
    &&& shape.step_x(strategy) >= 1
    &&& shape.step_y(strategy) >= 1
    &&& w.x as int % shape.step_x(strategy) == 0
    &&& w.y as int % shape.step_y(strategy) == 0
    &&& w.width == shape.step_x(strategy) || (w.width < shape.step_x(strategy) && w.x + w.width
        == shape.cols)
    &&& w.height == shape.step_y(strategy) || (w.height < shape.step_y(strategy) && w.y
        + w.height == shape.rows)
}

/// From a cursor on the grid, every window still to be read is a window of
/// the grid.
pub proof fn remaining_windows_follow_the_grid(
    shape: BandShape,
    strategy: ReadStrategy,
    cur: ScanCursor,
    k: int,
)
    requires
        shape.scannable(strategy),
        shape.cursor_ok(cur),
        shape.finished(cur) || on_grid(shape, strategy, cur),
        0 <= k < windows_from(shape, strategy, cur).len(),
    ensures
        grid_window(shape, strategy, windows_from(shape, strategy, cur)[k]),
    decreases shape.rows - cur.y, shape.cols - cur.x,
{
    if !shape.finished(cur) {
        let w = shape.window_at(strategy, cur);
        let next = shape.cursor_after(strategy, cur);
        let sx = shape.step_x(strategy);
        let sy = shape.step_y(strategy);
        let x = cur.x as int;
        let y = cur.y as int;
        shape.window_accounting(strategy, cur);
        if k == 0 {
            assert(windows_from(shape, strategy, cur)[0] == w);
        } else {
            if !shape.finished(next) {
                if next.y == cur.y {
                    assert(w.width == sx);
                    assert((x + sx) % sx == 0) by (nonlinear_arith)
                        requires
                            x % sx == 0,
                            sx >= 1,
                    ;
                } else {
                    assert(w.height == sy);
                    assert((y + sy) % sy == 0) by (nonlinear_arith)
                        requires
                            y % sy == 0,
                            sy >= 1,
                    ;
                    assert(0int % sx == 0) by (nonlinear_arith)
                        requires
                            sx >= 1,
                    ;
                }
            }
            remaining_windows_follow_the_grid(shape, strategy, next, k - 1);
            assert(windows_from(shape, strategy, cur)[k] == windows_from(shape, strategy, next)[k
                - 1]);
        }
    }
}

/// Every window of a band lies on the grid of its strategy: whole rows,
/// native blocks, or the band itself.
pub proof fn windows_follow_the_grid(shape: BandShape, strategy: ReadStrategy, k: int)
    requires
        shape.scannable(strategy),
        0 <= k < all_windows(shape, strategy).len(),
    ensures
        grid_window(shape, strategy, all_windows(shape, strategy)[k]),
{
    let start = ScanCursor { x: 0, y: 0 };
    if !shape.finished(start) {
        assert(0int % shape.step_x(strategy) == 0) by (nonlinear_arith)
            requires
                shape.step_x(strategy) >= 1,
        ;
        assert(0int % shape.step_y(strategy) == 0) by (nonlinear_arith)
            requires
                shape.step_y(strategy) >= 1,
        ;
    }
    remaining_windows_follow_the_grid(shape, strategy, start, k);
}

} // verus!
