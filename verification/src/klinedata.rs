//! Fine-resolution candlesticks: one OHLC data point becomes six thin
//! segments in data-space coordinates.
//!
//! Prices and coordinates are fixed-point integers in "axis units"; one
//! data-point index step is [`X_SCALE`] units wide, and the candle body
//! spans [`BODY_HALF_WIDTH`] units to the right of its column.

use vstd::prelude::*;

use crate::canvas::Canvas;
use crate::canvas::PaintCmd;
use crate::canvas::Shape;
use crate::style::Color;
use crate::style::ColorPolicy;

verus! {

/// Axis units per data-point index step.
pub const X_SCALE: i64 = 100;

/// Axis units the candle body extends to the right of its column: one
/// twentieth of an index step.
pub const BODY_HALF_WIDTH: i64 = 5;

/// One OHLC data point in fixed-point axis units, with the pass-through
/// metrics the chart carries but does not read.
#[derive(Clone, Debug, PartialEq, Eq)]
pub struct KlineData {
    /// Label of the trading period.
    pub date: String,
    pub pre_close: i64,
    /// Opening price.
    pub start: i64,
    /// Closing price.
    pub end: i64,
    /// Lowest price.
    pub min: i64,
    /// Highest price.
    pub max: i64,
    pub quantity: i64,
    pub amount: i64,
}

/// One candlestick glyph: a column, the wick and body bounds, and a color.
#[derive(Clone, Copy, Debug, PartialEq, Eq, Structural)]
pub struct Kblock {
    /// Column of the wick and the body's left edge, in axis units.
    pub x: i64,
    /// Lowest price.
    pub min: i64,
    /// Lower edge of the body: the smaller of open and close.
    pub block_bottom: i64,
    /// Upper edge of the body: the larger of open and close.
    pub block_top: i64,
    /// Highest price.
    pub max: i64,
    /// How far the body extends to the right of `x`, in axis units.
    pub half_width: i64,
    pub color: Color,
}

/// The six segments of a fine-resolution candlestick, in order: lower
/// wick, body left, body right, body bottom, body top, upper wick.
pub open spec fn kblock_cmds(kb: Kblock) -> Seq<PaintCmd> {
    let xr = (kb.x + kb.half_width) as i64;
    seq![
        PaintCmd::Segment { x1: kb.x, y1: kb.min, x2: kb.x, y2: kb.block_bottom, color: kb.color },
        PaintCmd::Segment {
            x1: kb.x,
            y1: kb.block_bottom,
            x2: kb.x,
            y2: kb.block_top,
            color: kb.color,
        },
        PaintCmd::Segment {
            x1: xr,
            y1: kb.block_bottom,
            x2: xr,
            y2: kb.block_top,
            color: kb.color,
        },
        PaintCmd::Segment {
            x1: kb.x,
            y1: kb.block_bottom,
            x2: xr,
            y2: kb.block_bottom,
            color: kb.color,
        },
        PaintCmd::Segment { x1: kb.x, y1: kb.block_top, x2: xr, y2: kb.block_top, color: kb.color },
        PaintCmd::Segment { x1: kb.x, y1: kb.block_top, x2: kb.x, y2: kb.max, color: kb.color },
    ]
}

/// The glyph that stands for `p` drawn at column `x`: body edges are the
/// ordered open and close prices, and the color follows the policy.
pub open spec fn kblock_of(p: KlineData, x: i64, half_width: i64, policy: ColorPolicy) -> Kblock {
    Kblock {
        x,
        min: p.min,
        block_bottom: if p.start > p.end {
            p.end
        } else {
            p.start
        },
        block_top: if p.start > p.end {
            p.start
        } else {
            p.end
        },
        max: p.max,
        half_width,
        color: policy.spec_pick(p.start as int, p.end as int),
    }
}

impl Kblock {
    /// Builds the glyph for `p` at column `x`.
    pub fn from_point(p: &KlineData, x: i64, half_width: i64, policy: ColorPolicy) -> (r: Kblock)
        ensures
            r == kblock_of(*p, x, half_width, policy),
    {
        let mut block_bottom = p.start;
        let mut block_top = p.end;
        if p.start > p.end {
            block_bottom = p.end;
            block_top = p.start;
        }
        let color = policy.pick(p.start, p.end);
        Kblock { x, min: p.min, block_bottom, block_top, max: p.max, half_width, color }
    }
}

impl Shape for Kblock {
    open spec fn emits(&self) -> Seq<PaintCmd> {
        kblock_cmds(*self)
    }

    open spec fn draw_requires(&self) -> bool {
        0 <= self.half_width && self.x + self.half_width <= i64::MAX
    }

    fn draw(&self, canvas: &mut Canvas) {
        let xr = self.x + self.half_width;
        canvas.line(self.x, self.min, self.x, self.block_bottom, self.color);
        canvas.line(self.x, self.block_bottom, self.x, self.block_top, self.color);
        canvas.line(xr, self.block_bottom, xr, self.block_top, self.color);
        canvas.line(self.x, self.block_bottom, xr, self.block_bottom, self.color);
        canvas.line(self.x, self.block_top, xr, self.block_top, self.color);
        canvas.line(self.x, self.block_top, self.x, self.max, self.color);
        proof {
            assert(canvas.ops@ =~= old(canvas).ops@ + self.emits());
        }
    }
}

/// An ordered dataset of fine-resolution candles: point `i` is drawn at
/// column `i * X_SCALE`.
#[derive(Clone, Debug, PartialEq, Eq)]
pub struct KlineDatas {
    pub coords: Vec<KlineData>,
    pub policy: ColorPolicy,
}

/// The primitives of the first `n` points of the dataset, in point order.
pub open spec fn datas_cmds_upto(coords: Seq<KlineData>, policy: ColorPolicy, n: int) -> Seq<
    PaintCmd,
>
    decreases n,
{
    if n <= 0 {
        Seq::empty()
    } else {
        datas_cmds_upto(coords, policy, n - 1) + kblock_cmds(
            kblock_of(coords[n - 1], (((n - 1) * X_SCALE) as i64), BODY_HALF_WIDTH, policy),
        )
    }
}

/// Draws every point of `coords` onto the canvas: point `i` becomes the
/// six-segment candle at column `i * X_SCALE`.
pub fn draw_klines(coords: &Vec<KlineData>, policy: ColorPolicy, canvas: &mut Canvas)
    requires
        coords@.len() * X_SCALE + BODY_HALF_WIDTH <= i64::MAX,
    ensures
        final(canvas).ops@ == old(canvas).ops@ + datas_cmds_upto(
            coords@,
            policy,
            coords@.len() as int,
        ),
{
    let n = coords.len();
    let mut i: usize = 0;
    while i < n
        invariant
            n == coords@.len(),
            0 <= i <= n,
            n * X_SCALE + BODY_HALF_WIDTH <= i64::MAX,
            canvas.ops@ == old(canvas).ops@ + datas_cmds_upto(coords@, policy, i as int),
        decreases n - i,
    {
        proof {
            assert((i + 1) * X_SCALE <= n * X_SCALE) by (nonlinear_arith)
                requires
                    i + 1 <= n,
                    X_SCALE > 0,
            ;
            assert(i * X_SCALE >= 0) by (nonlinear_arith)
                requires
                    i >= 0,
                    X_SCALE > 0,
            ;
        }
        let x: i64 = (i as i64) * X_SCALE;
        let kb = Kblock::from_point(&coords[i], x, BODY_HALF_WIDTH, policy);
        kb.draw(canvas);
        proof {
            assert(canvas.ops@ =~= old(canvas).ops@ + datas_cmds_upto(coords@, policy, i + 1));
        }
        i = i + 1;
    }
}

impl Shape for KlineDatas {
    open spec fn emits(&self) -> Seq<PaintCmd> {
        datas_cmds_upto(self.coords@, self.policy, self.coords@.len() as int)
    }

    open spec fn draw_requires(&self) -> bool {
        self.coords@.len() * X_SCALE + BODY_HALF_WIDTH <= i64::MAX
    }

    fn draw(&self, canvas: &mut Canvas) {
        draw_klines(&self.coords, self.policy, canvas);
    }
}

} // verus!
