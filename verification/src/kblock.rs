//! Coarse-resolution candlesticks: one data point painted as whole grid
//! cells — a one-cell-wide wick and a three-cell-wide body band.
//!
//! Coordinates here are already grid cells: the caller has mapped its data
//! onto the canvas grid before building the shape.

use vstd::prelude::*;

use crate::canvas::Canvas;
use crate::canvas::PaintCmd;
use crate::canvas::Shape;
use crate::style::Color;
use crate::style::ColorPolicy;

verus! {

/// One OHLC data point in grid-cell coordinates: `date` is the column,
/// the rest are rows.
#[derive(Clone, Copy, Debug, PartialEq, Eq, Structural)]
pub struct KLineData {
    /// Opening price row.
    pub start: usize,
    /// Closing price row.
    pub end: usize,
    /// Lowest price row.
    pub min: usize,
    /// Highest price row.
    pub max: usize,
    /// Column of the point.
    pub date: usize,
}

/// The cells of a one-wide column from row `y1` up to row `y2`, bottom
/// first; empty when `y1 > y2`.
pub open spec fn col_cmds(x: int, y1: int, y2: int, color: Color) -> Seq<PaintCmd>
    decreases y2 - y1 + 1,
{
    if y1 > y2 {
        Seq::empty()
    } else {
        col_cmds(x, y1, y2 - 1, color).push(
            PaintCmd::Dot { x: x as usize, y: y2 as usize, color },
        )
    }
}

/// The cells of a three-wide band centered on column `x`, rows `y1` up to
/// `y2`, row by row from the bottom, left to right; empty when `y1 > y2`.
pub open spec fn band_cmds(x: int, y1: int, y2: int, color: Color) -> Seq<PaintCmd>
    decreases y2 - y1 + 1,
{
    if y1 > y2 {
        Seq::empty()
    } else {
        band_cmds(x, y1, y2 - 1, color) + seq![
            PaintCmd::Dot { x: (x - 1) as usize, y: y2 as usize, color },
            PaintCmd::Dot { x: x as usize, y: y2 as usize, color },
            PaintCmd::Dot { x: (x + 1) as usize, y: y2 as usize, color },
        ]
    }
}

/// Paints the one-wide column `x` from row `y1` up to row `y2`; does
/// nothing when `y1 > y2`.
pub fn draw_line(canvas: &mut Canvas, y1: usize, y2: usize, x: usize, color: Color)
    requires
        y2 < usize::MAX,
    ensures
        final(canvas).ops@ == old(canvas).ops@ + col_cmds(x as int, y1 as int, y2 as int, color),
{
    let mut y: usize = y1;
    proof {
        assert(canvas.ops@ =~= canvas.ops@ + col_cmds(x as int, y1 as int, y1 as int - 1, color));
    }
    while y <= y2
        invariant
            y1 <= y,
            y == y1 || y <= y2 + 1,
            y2 < usize::MAX,
            canvas.ops@ == old(canvas).ops@ + col_cmds(x as int, y1 as int, y as int - 1, color),
        decreases y2 + 1 - y,
    {
        canvas.paint(x, y, color);
        proof {
            assert(canvas.ops@ =~= old(canvas).ops@ + col_cmds(
                x as int,
                y1 as int,
                y as int,
                color,
            ));
        }
        y = y + 1;
    }
}

/// Paints the three-wide band centered on column `x` from row `y1` up to
/// row `y2`; does nothing when `y1 > y2`.
pub fn draw_block(canvas: &mut Canvas, y1: usize, y2: usize, x: usize, color: Color)
    requires
        1 <= x < usize::MAX,
        y2 < usize::MAX,
    ensures
        final(canvas).ops@ == old(canvas).ops@ + band_cmds(x as int, y1 as int, y2 as int, color),
{
    let mut y: usize = y1;
    proof {
        assert(canvas.ops@ =~= canvas.ops@ + band_cmds(x as int, y1 as int, y1 as int - 1, color));
    }
    while y <= y2
        invariant
            y1 <= y,
            y == y1 || y <= y2 + 1,
            y2 < usize::MAX,
            1 <= x < usize::MAX,
            canvas.ops@ == old(canvas).ops@ + band_cmds(x as int, y1 as int, y as int - 1, color),
        decreases y2 + 1 - y,
    {
        canvas.paint(x - 1, y, color);
        canvas.paint(x, y, color);
        canvas.paint(x + 1, y, color);
        proof {
            assert(canvas.ops@ =~= old(canvas).ops@ + band_cmds(
                x as int,
                y1 as int,
                y as int,
                color,
            ));
        }
        y = y + 1;
    }
}

/// A coarse candlestick series with its color policy.
#[derive(Clone, Debug, PartialEq, Eq)]
pub struct Kblock {
    pub coords: Vec<KLineData>,
    pub policy: ColorPolicy,
}

/// The lower body edge of `p`: the smaller of open and close.
pub open spec fn body_bottom(p: KLineData) -> int {
    if p.start > p.end {
        p.end as int
    } else {
        p.start as int
    }
}

/// The upper body edge of `p`: the larger of open and close.
pub open spec fn body_top(p: KLineData) -> int {
    if p.start > p.end {
        p.start as int
    } else {
        p.end as int
    }
}

/// The cells of one coarse candle: lower wick, body band, upper wick.
pub open spec fn coarse_point_cmds(p: KLineData, policy: ColorPolicy) -> Seq<PaintCmd> {
    let color = policy.spec_pick(p.start as int, p.end as int);
    col_cmds(p.date as int, p.min as int, body_bottom(p), color) + band_cmds(
        p.date as int,
        body_bottom(p),
        body_top(p),
        color,
    ) + col_cmds(p.date as int, body_top(p), p.max as int, color)
}

/// The cells of the first `n` points, in point order.
pub open spec fn coarse_cmds_upto(coords: Seq<KLineData>, policy: ColorPolicy, n: int) -> Seq<
    PaintCmd,
>
    decreases n,
{
    if n <= 0 {
        Seq::empty()
    } else {
        coarse_cmds_upto(coords, policy, n - 1) + coarse_point_cmds(coords[n - 1], policy)
    }
}

impl Shape for Kblock {
    open spec fn emits(&self) -> Seq<PaintCmd> {
        coarse_cmds_upto(self.coords@, self.policy, self.coords@.len() as int)
    }

    open spec fn draw_requires(&self) -> bool {
        forall|k: int|
            0 <= k < self.coords@.len() ==> (1 <= (#[trigger] self.coords@[k]).date < usize::MAX
                && self.coords@[k].start < usize::MAX && self.coords@[k].end < usize::MAX
                && self.coords@[k].min < usize::MAX && self.coords@[k].max < usize::MAX)
    }

    fn draw(&self, canvas: &mut Canvas) {
        let n = self.coords.len();
        let mut i: usize = 0;
        while i < n
            invariant
                n == self.coords@.len(),
                0 <= i <= n,
                self.draw_requires(),
                canvas.ops@ == old(canvas).ops@ + coarse_cmds_upto(
                    self.coords@,
                    self.policy,
                    i as int,
                ),
            decreases n - i,
        {
            let p = self.coords[i];
            let mut color = self.policy.gain;
            let mut block_bottom = p.start;
            let mut block_top = p.end;
            if p.start > p.end {
                block_bottom = p.end;
                block_top = p.start;
            }
            if p.start < p.end {
                color = self.policy.loss;
            }
            draw_line(canvas, p.min, block_bottom, p.date, color);
            draw_block(canvas, block_bottom, block_top, p.date, color);
            draw_line(canvas, block_top, p.max, p.date, color);
            proof {
                assert(canvas.ops@ =~= old(canvas).ops@ + coarse_cmds_upto(
                    self.coords@,
                    self.policy,
                    i + 1,
                ));
            }
            i = i + 1;
        }
    }
}

} // verus!
