//! The candlestick chart widget: axis and dataset configuration, the
//! layout engine that carves the container into graph area, label rows and
//! columns, axis lines, title anchor and legend box, and the renderer that
//! writes those parts into a cell buffer.

use vstd::prelude::*;

use vstd::arithmetic::div_mod::lemma_div_is_ordered;
use vstd::arithmetic::div_mod::lemma_div_multiples_vanish;
use vstd::arithmetic::mul::lemma_mul_inequality;

use crate::buffer::Buffer;
use crate::buffer::Cell;
use crate::canvas::Canvas;
use crate::canvas::PaintCmd;
use crate::geom::Alignment;
use crate::geom::Rect;
use crate::klinedata::BODY_HALF_WIDTH;
use crate::klinedata::KlineData;
use crate::klinedata::X_SCALE;
use crate::klinedata::datas_cmds_upto;
use crate::klinedata::draw_klines;
use crate::style::ColorPolicy;
use crate::style::Style;
use crate::text::Label;
use crate::text::cum_width;
use crate::text::glyph_at_col;

verus! {

/// A fraction `num / den` of a length, `num <= den`: the legend's size
/// bound is such a fraction of the graph area.
#[derive(Clone, Copy, Debug, PartialEq, Eq, Structural)]
pub struct Ratio {
    pub num: u32,
    pub den: u32,
}

impl Ratio {
    pub open spec fn wf(self) -> bool {
        0 < self.den && self.num <= self.den
    }

    /// The fraction applied to a length, rounded down.
    pub open spec fn spec_apply(self, length: int) -> int {
        length * (self.num as int) / (self.den as int)
    }

    /// A proper fraction; rejects a zero denominator and a ratio above one.
    pub fn new(num: u32, den: u32) -> (r: Option<Ratio>)
        ensures
            match r {
                Some(q) => q.num == num && q.den == den && q.wf(),
                None => den == 0 || num > den,
            },
    {
        if den == 0 || num > den {
            None
        } else {
            Some(Ratio { num, den })
        }
    }

    pub fn apply(&self, length: u16) -> (r: u16)
        requires
            self.wf(),
        ensures
            r == self.spec_apply(length as int),
            r <= length,
    {
        proof {
            assert(length * self.num <= 0xFFFF * 0xFFFF_FFFF) by (nonlinear_arith)
                requires
                    0 <= length <= 0xFFFF,
                    0 <= self.num <= 0xFFFF_FFFF,
            ;
            lemma_ratio_apply_le(*self, length as int);
        }
        ((length as u64 * self.num as u64) / self.den as u64) as u16
    }
}

/// A proper fraction of a non-negative length never exceeds the length.
pub proof fn lemma_ratio_apply_le(q: Ratio, length: int)
    requires
        q.wf(),
        0 <= length,
    ensures
        0 <= q.spec_apply(length) <= length,
{
    lemma_mul_inequality(q.num as int, q.den as int, length);
    assert(q.num * length == length * q.num) by (nonlinear_arith);
    assert(q.den * length == length * q.den) by (nonlinear_arith);
    lemma_div_is_ordered(length * q.num, length * q.den, q.den as int);
    lemma_div_multiples_vanish(length, q.den as int);
    assert(q.den * length == length * q.den) by (nonlinear_arith);
    assert(0 <= length * q.num) by (nonlinear_arith)
        requires
            0 <= length,
            0 <= q.num,
    ;
    lemma_div_is_ordered(0, length * q.num, q.den as int);
}

/// An x or y axis: optional title, numeric bounds in fixed-point axis
/// units, optional tick labels, line style and label alignment.
pub struct Axis {
    pub title: Option<Label>,
    pub bounds: (i64, i64),
    pub labels: Option<Vec<Label>>,
    pub style: Style,
    pub labels_alignment: Alignment,
}

impl Axis {
    /// The empty axis: no title, zero bounds, no labels, left alignment.
    pub open spec fn spec_default() -> Axis {
        Axis {
            title: None,
            bounds: (0i64, 0i64),
            labels: None,
            style: Style { fg: None, bg: None },
            labels_alignment: Alignment::Left,
        }
    }

    pub open spec fn wf(self) -> bool {
        &&& match self.title {
            Some(t) => t.wf(),
            None => true,
        }
        &&& match self.labels {
            Some(ls) => forall|i: int| 0 <= i < ls@.len() ==> (#[trigger] ls@[i]).wf(),
            None => true,
        }
    }

    pub fn title(self, title: Label) -> (r: Axis)
        ensures
            r == (Axis { title: Some(title), ..self }),
    {
        Axis { title: Some(title), ..self }
    }

    /// Restyles the title, if one is set.
    pub fn title_style(self, style: Style) -> (r: Axis)
        ensures
            r == (Axis {
                title: match self.title {
                    Some(t) => Some(Label { style, ..t }),
                    None => None::<Label>,
                },
                ..self
            }),
    {
        match self.title {
            Some(t) => Axis { title: Some(Label { style, ..t }), ..self },
            None => Axis { title: None, ..self },
        }
    }

    pub fn bounds(self, bounds: (i64, i64)) -> (r: Axis)
        ensures
            r == (Axis { bounds, ..self }),
    {
        Axis { bounds, ..self }
    }

    pub fn labels(self, labels: Vec<Label>) -> (r: Axis)
        ensures
            r == (Axis { labels: Some(labels), ..self }),
    {
        Axis { labels: Some(labels), ..self }
    }

    pub fn style(self, style: Style) -> (r: Axis)
        ensures
            r == (Axis { style, ..self }),
    {
        Axis { style, ..self }
    }

    pub fn labels_alignment(self, alignment: Alignment) -> (r: Axis)
        ensures
            r == (Axis { labels_alignment: alignment, ..self }),
    {
        Axis { labels_alignment: alignment, ..self }
    }
}

impl Default for Axis {
    fn default() -> (r: Axis)
        ensures
            r == Axis::spec_default(),
            r.wf(),
    {
        Axis {
            title: None,
            bounds: (0, 0),
            labels: None,
            style: Style::new(),
            labels_alignment: Alignment::Left,
        }
    }
}

/// How a dataset's candles are rasterized by the host canvas.
#[derive(Clone, Copy, Debug, PartialEq, Eq, Structural)]
pub enum Marker {
    /// Fine sub-cell dots.
    Dot,
    /// Fine sub-cell braille patterns.
    Braille,
    /// Whole cells.
    Block,
}

/// One named, styled series of data points.
#[derive(Clone, Debug, PartialEq, Eq)]
pub struct Dataset {
    pub name: Label,
    pub data: Vec<KlineData>,
    pub marker: Marker,
    pub style: Style,
}

impl Dataset {
    pub open spec fn wf(self) -> bool {
        self.name.wf()
    }

    pub fn name(self, name: Label) -> (r: Dataset)
        ensures
            r == (Dataset { name, ..self }),
    {
        Dataset { name, ..self }
    }

    pub fn data(self, data: Vec<KlineData>) -> (r: Dataset)
        ensures
            r == (Dataset { data, ..self }),
    {
        Dataset { data, ..self }
    }

    pub fn marker(self, marker: Marker) -> (r: Dataset)
        ensures
            r == (Dataset { marker, ..self }),
    {
        Dataset { marker, ..self }
    }
}

impl Default for Dataset {
    fn default() -> (r: Dataset)
        ensures
            r.name.glyphs@ == Seq::<crate::text::Glyph>::empty(),
            r.name.width == 0,
            r.data@ == Seq::<KlineData>::empty(),
            r.marker == Marker::Dot,
            r.style == (Style { fg: None::<crate::style::Color>, bg: None::<crate::style::Color> }),
            r.wf(),
    {
        Dataset {
            name: Label { glyphs: Vec::new(), width: 0, style: Style::new() },
            data: Vec::new(),
            marker: Marker::Dot,
            style: Style::new(),
        }
    }
}

/// A bordered frame with an optional title; its inner rectangle loses one
/// cell on each side that has room.
#[derive(Clone, Debug, PartialEq, Eq)]
pub struct Block {
    pub title: Option<Label>,
    pub style: Style,
}

impl Block {
    pub open spec fn wf(self) -> bool {
        match self.title {
            Some(t) => t.wf(),
            None => true,
        }
    }

    /// The content rectangle of a frame drawn over `area`.
    pub open spec fn spec_inner(area: Rect) -> Rect {
        Rect {
            x: if area.width > 0 {
                (area.x + 1) as u16
            } else {
                area.x
            },
            y: if area.height > 0 {
                (area.y + 1) as u16
            } else {
                area.y
            },
            width: if area.width >= 2 {
                (area.width - 2) as u16
            } else {
                0
            },
            height: if area.height >= 2 {
                (area.height - 2) as u16
            } else {
                0
            },
        }
    }

    pub fn title(self, title: Label) -> (r: Block)
        ensures
            r == (Block { title: Some(title), ..self }),
    {
        Block { title: Some(title), ..self }
    }

    pub fn style(self, style: Style) -> (r: Block)
        ensures
            r == (Block { style, ..self }),
    {
        Block { style, ..self }
    }

    pub fn inner(&self, area: Rect) -> (r: Rect)
        requires
            area.wf(),
        ensures
            r == Block::spec_inner(area),
            r.wf(),
            r.subset_of(area),
    {
        let x: u16 = if area.width > 0 {
            area.x + 1
        } else {
            area.x
        };
        let y: u16 = if area.height > 0 {
            area.y + 1
        } else {
            area.y
        };
        let width: u16 = if area.width >= 2 {
            area.width - 2
        } else {
            0
        };
        let height: u16 = if area.height >= 2 {
            area.height - 2
        } else {
            0
        };
        Rect { x, y, width, height }
    }

    /// The border ring of a frame over `area`: the cells of `area` outside
    /// its inner rectangle.
    pub open spec fn ring_contains(area: Rect, cx: int, cy: int) -> bool {
        area.spec_contains(cx, cy) && !Block::spec_inner(area).spec_contains(cx, cy)
    }

    /// Draws the frame: box-drawing borders on the ring and the title on
    /// the top row.  Cells outside `area`, and all of the inner
    /// rectangle, stay untouched; with room for it, every border cell gets
    /// its box-drawing character.
    #[verifier::rlimit(100)]
    #[verifier::spinoff_prover]
    pub fn render(&self, area: Rect, buf: &mut Buffer)
        requires
            old(buf).wf(),
            self.wf(),
            area.wf(),
            area.spec_right() <= old(buf).width,
            area.spec_bottom() <= old(buf).height,
        ensures
            final(buf).wf(),
            final(buf).same_size(*old(buf)),
            forall|cx: int, cy: int|
                final(buf).in_grid(cx, cy) && !Block::ring_contains(area, cx, cy)
                    ==> final(buf).cell_at(cx, cy) == old(buf).cell_at(cx, cy),
            area.width >= 2 && area.height >= 2 ==> {
                let l = area.spec_left();
                let r = area.spec_right();
                let t = area.spec_top();
                let b = area.spec_bottom();
                &&& final(buf).cell_at(l, t) == old(buf).cell_at(l, t).written('┌', self.style)
                &&& final(buf).cell_at(r - 1, t) == old(buf).cell_at(r - 1, t).written(
                    '┐',
                    self.style,
                )
                &&& final(buf).cell_at(l, b - 1) == old(buf).cell_at(l, b - 1).written(
                    '└',
                    self.style,
                )
                &&& final(buf).cell_at(r - 1, b - 1) == old(buf).cell_at(r - 1, b - 1).written(
                    '┘',
                    self.style,
                )
                &&& forall|cx: int|
                    l < cx < r - 1 ==> #[trigger] final(buf).cell_at(cx, b - 1) == old(
                        buf,
                    ).cell_at(cx, b - 1).written('─', self.style)
                &&& forall|cy: int|
                    t < cy < b - 1 ==> #[trigger] final(buf).cell_at(l, cy) == old(buf).cell_at(
                        l,
                        cy,
                    ).written('│', self.style)
                &&& forall|cy: int|
                    t < cy < b - 1 ==> #[trigger] final(buf).cell_at(r - 1, cy) == old(
                        buf,
                    ).cell_at(r - 1, cy).written('│', self.style)
                &&& self.title is None ==> forall|cx: int|
                    l < cx < r - 1 ==> #[trigger] final(buf).cell_at(cx, t) == old(buf).cell_at(
                        cx,
                        t,
                    ).written('─', self.style)
            },
    {
        if area.width == 0 || area.height == 0 {
            return ;
        }
        let top: u16 = area.top();
        let bottom_row: u16 = area.bottom() - 1;
        let left: u16 = area.left();
        let right_col: u16 = area.right() - 1;
        let mut cx: u16 = left;
        while cx < area.x + area.width
            invariant
                buf.wf(),
                buf.same_size(*old(buf)),
                area.wf(),
                area.width > 0,
                area.height > 0,
                area.spec_right() <= buf.width,
                area.spec_bottom() <= buf.height,
                left == area.spec_left(),
                top == area.spec_top(),
                bottom_row == area.spec_bottom() - 1,
                left <= cx <= area.spec_right(),
                forall|px: int, py: int|
                    buf.in_grid(px, py) ==> #[trigger] buf.cell_at(px, py) == (if (py
                        == top as int || py == bottom_row as int) && left <= px < cx {
                        old(buf).cell_at(px, py).written('─', self.style)
                    } else {
                        old(buf).cell_at(px, py)
                    }),
            decreases area.spec_right() - cx,
        {
            buf.put(cx, top, '─', self.style);
            buf.put(cx, bottom_row, '─', self.style);
            cx = cx + 1;
        }
        let ghost buf_h = *buf;
        let mut cy: u16 = top;
        while cy < area.y + area.height
            invariant
                buf.wf(),
                buf.same_size(buf_h),
                buf_h.same_size(*old(buf)),
                area.wf(),
                area.width > 0,
                area.height > 0,
                area.spec_right() <= buf.width,
                area.spec_bottom() <= buf.height,
                left == area.spec_left(),
                top == area.spec_top(),
                bottom_row == area.spec_bottom() - 1,
                right_col == area.spec_right() - 1,
                top <= cy <= area.spec_bottom(),
                forall|px: int, py: int|
                    buf_h.in_grid(px, py) ==> #[trigger] buf_h.cell_at(px, py) == (if (py
                        == top as int || py == bottom_row as int) && left <= px
                        < area.spec_right() {
                        old(buf).cell_at(px, py).written('─', self.style)
                    } else {
                        old(buf).cell_at(px, py)
                    }),
                forall|px: int, py: int|
                    buf.in_grid(px, py) ==> #[trigger] buf.cell_at(px, py) == (if (px
                        == left as int || px == right_col as int) && top <= py < cy {
                        buf_h.cell_at(px, py).written('│', self.style)
                    } else {
                        buf_h.cell_at(px, py)
                    }),
            decreases area.spec_bottom() - cy,
        {
            buf.put(left, cy, '│', self.style);
            buf.put(right_col, cy, '│', self.style);
            cy = cy + 1;
        }
        let ghost buf_v = *buf;
        buf.put(left, top, '┌', self.style);
        let ghost buf_c1 = *buf;
        buf.put(right_col, top, '┐', self.style);
        let ghost buf_c2 = *buf;
        buf.put(left, bottom_row, '└', self.style);
        let ghost buf_c3 = *buf;
        buf.put(right_col, bottom_row, '┘', self.style);
        proof {
            assert forall|px: int, py: int| buf.in_grid(px, py) implies #[trigger] buf.cell_at(
                px,
                py,
            ) == (if px == right_col as int && py == bottom_row as int {
                old(buf).cell_at(px, py).written('┘', self.style)
            } else if px == left as int && py == bottom_row as int {
                old(buf).cell_at(px, py).written('└', self.style)
            } else if px == right_col as int && py == top as int {
                old(buf).cell_at(px, py).written('┐', self.style)
            } else if px == left as int && py == top as int {
                old(buf).cell_at(px, py).written('┌', self.style)
            } else if (py == top as int || py == bottom_row as int) && left <= px
                < area.spec_right() {
                old(buf).cell_at(px, py).written('─', self.style)
            } else if (px == left as int || px == right_col as int) && top <= py
                < area.spec_bottom() {
                old(buf).cell_at(px, py).written('│', self.style)
            } else {
                old(buf).cell_at(px, py)
            }) by {
                assert(buf_h.cell_at(px, py) == (if (py == top as int || py == bottom_row as int)
                    && left <= px < area.spec_right() {
                    old(buf).cell_at(px, py).written('─', self.style)
                } else {
                    old(buf).cell_at(px, py)
                }));
                assert(buf_v.cell_at(px, py) == (if (px == left as int || px == right_col as int)
                    && top <= py < area.spec_bottom() {
                    buf_h.cell_at(px, py).written('│', self.style)
                } else {
                    buf_h.cell_at(px, py)
                }));
                assert(buf_c1.cell_at(px, py) == (if px == left as int && py == top as int {
                    buf_v.cell_at(px, py).written('┌', self.style)
                } else {
                    buf_v.cell_at(px, py)
                }));
                assert(buf_c2.cell_at(px, py) == (if px == right_col as int && py == top as int {
                    buf_c1.cell_at(px, py).written('┐', self.style)
                } else {
                    buf_c1.cell_at(px, py)
                }));
                assert(buf_c3.cell_at(px, py) == (if px == left as int && py == bottom_row as int {
                    buf_c2.cell_at(px, py).written('└', self.style)
                } else {
                    buf_c2.cell_at(px, py)
                }));
                assert(buf.cell_at(px, py) == (if px == right_col as int && py
                    == bottom_row as int {
                    buf_c3.cell_at(px, py).written('┘', self.style)
                } else {
                    buf_c3.cell_at(px, py)
                }));
            }
        }
        if let Some(title) = &self.title {
            if area.width >= 2 {
                let ghost prev = *buf;
                let k = buf.set_label(left + 1, top, title, title.style, area.width - 2);
                proof {
                    let gs = title.glyphs@;
                    crate::text::lemma_cum_width_mono(gs, 0, k as int);
                    assert forall|px: int, py: int|
                        buf.in_grid(px, py) && !(py == top as int && left + 1 <= px
                            < area.spec_right() - 1) implies buf.cell_at(px, py) == prev.cell_at(
                        px,
                        py,
                    ) by {
                        if py == top as int {
                            crate::text::lemma_glyph_at_col_none(gs, k as int, px - (left + 1));
                        }
                    }
                }
            }
        }
    }
}

impl Default for Block {
    fn default() -> (r: Block)
        ensures
            r.title is None,
            r.style == (Style { fg: None::<crate::style::Color>, bg: None::<crate::style::Color> }),
            r.wf(),
    {
        Block { title: None, style: Style::new() }
    }
}

/// The computed placement of every part of one chart render: anchors and
/// rows/columns are `None` where the part gets no room.
#[derive(Clone, Copy, Debug, PartialEq, Eq)]
pub struct ChartLayout {
    /// Anchor (column, row) of the x-axis title.
    pub title_x: Option<(u16, u16)>,
    /// Anchor (column, row) of the y-axis title; never placed.
    pub title_y: Option<(u16, u16)>,
    /// Row of the x-axis tick labels.
    pub label_x: Option<u16>,
    /// Leftmost column of the y-axis tick labels.
    pub label_y: Option<u16>,
    /// Row of the horizontal axis line.
    pub axis_x: Option<u16>,
    /// Column of the vertical axis line.
    pub axis_y: Option<u16>,
    /// The legend box.
    pub legend_area: Option<Rect>,
    /// The graph area; zero-sized when the container leaves no room.
    pub graph_area: Rect,
}

impl ChartLayout {
    /// The all-empty layout of a zero-area container.
    pub open spec fn spec_default() -> ChartLayout {
        ChartLayout {
            title_x: None,
            title_y: None,
            label_x: None,
            label_y: None,
            axis_x: None,
            axis_y: None,
            legend_area: None,
            graph_area: Rect { x: 0, y: 0, width: 0, height: 0 },
        }
    }
}

impl Default for ChartLayout {
    fn default() -> (r: ChartLayout)
        ensures
            r == ChartLayout::spec_default(),
    {
        ChartLayout {
            title_x: None,
            title_y: None,
            label_x: None,
            label_y: None,
            axis_x: None,
            axis_y: None,
            legend_area: None,
            graph_area: Rect { x: 0, y: 0, width: 0, height: 0 },
        }
    }
}

/// The widest of the first `n` labels, in columns.
pub open spec fn max_label_width(ls: Seq<Label>, n: int) -> int
    decreases n,
{
    if n <= 0 {
        0
    } else if ls[n - 1].spec_width() > max_label_width(ls, n - 1) {
        ls[n - 1].spec_width()
    } else {
        max_label_width(ls, n - 1)
    }
}

pub proof fn lemma_max_label_width_nonneg(ls: Seq<Label>, n: int)
    ensures
        0 <= max_label_width(ls, n),
    decreases n,
{
    if n > 0 {
        lemma_max_label_width_nonneg(ls, n - 1);
    }
}

/// The widest of the first `n` dataset names, in columns.
pub open spec fn max_name_width(ds: Seq<Dataset>, n: int) -> int
    decreases n,
{
    if n <= 0 {
        0
    } else if ds[n - 1].name.spec_width() > max_name_width(ds, n - 1) {
        ds[n - 1].name.spec_width()
    } else {
        max_name_width(ds, n - 1)
    }
}

pub proof fn lemma_max_name_width_nonneg(ds: Seq<Dataset>, n: int)
    ensures
        0 <= max_name_width(ds, n),
    decreases n,
{
    if n > 0 {
        lemma_max_name_width_nonneg(ds, n - 1);
    }
}


/// The visible width of `label` inside `label_area`: the label's width
/// clipped to the area's.
pub open spec fn spec_bounded_width(label: Label, label_area: Rect) -> int {
    if label_area.width < label.spec_width() {
        label_area.width as int
    } else {
        label.spec_width()
    }
}

/// The column where a label of visible width `bw` is anchored inside
/// `label_area`.
pub open spec fn spec_label_anchor(label_area: Rect, bw: int, alignment: Alignment) -> int {
    match alignment {
        Alignment::Left => label_area.spec_left(),
        Alignment::Center => label_area.spec_left() + label_area.width as int / 2 - bw / 2,
        Alignment::Right => label_area.spec_right() - bw,
    }
}

/// What one clipped label write does to the buffer: the first `k` glyphs
/// fit in `bound` columns and no more would, each is written at its own
/// column, and every other cell keeps its old value.
pub open spec fn label_written(
    pre: Buffer,
    post: Buffer,
    label: Label,
    style: Style,
    anchor: int,
    bound: int,
    y: int,
    k: int,
) -> bool {
    &&& 0 <= k <= label.glyphs@.len()
    &&& cum_width(label.glyphs@, k) <= bound
    &&& (k == label.glyphs@.len() || cum_width(label.glyphs@, k + 1) > bound)
    &&& forall|cx: int, cy: int|
        post.in_grid(cx, cy) ==> #[trigger] post.cell_at(cx, cy) == (if cy == y {
            match glyph_at_col(label.glyphs@, k, cx - anchor) {
                Some(g) => pre.cell_at(cx, cy).written(g.ch, style),
                None => pre.cell_at(cx, cy),
            }
        } else {
            pre.cell_at(cx, cy)
        })
}


/// What one dataset hands the host rasterizer: its marker resolution, the
/// axis bounds, and the recorded primitives of its candles.
pub struct DatasetPlot {
    pub marker: Marker,
    pub x_bounds: (i64, i64),
    pub y_bounds: (i64, i64),
    /// The canvas background: the chart style's background color, or
    /// `Reset` when none is set.
    pub background: crate::style::Color,
    pub ops: Vec<PaintCmd>,
}

/// The cells a chart render may touch: the rows of `area`, from one
/// column left of `area` (where a right-aligned first x label may sit) to
/// `area`'s right edge.  This predicate names everything else.
pub open spec fn outside_render_region(area: Rect, cx: int, cy: int) -> bool {
    !(area.spec_top() <= cy < area.spec_bottom() && area.spec_left() - 1 <= cx
        < area.spec_right())
}

/// No dataset name is wider than the widest of the first `n`.
pub proof fn lemma_max_name_width_ge(ds: Seq<Dataset>, i: int, n: int)
    requires
        0 <= i < n <= ds.len(),
    ensures
        ds[i].name.spec_width() <= max_name_width(ds, n),
    decreases n,
{
    if i < n - 1 {
        lemma_max_name_width_ge(ds, i, n - 1);
    }
}

/// The last x-axis tick label lands in the final tick slot — the
/// `graph.width / label_count` columns ending at the graph's right edge —
/// flush right: its glyphs, clipped to the slot, end exactly at the edge,
/// and the rest of the slot keeps its old cells.
pub open spec fn last_x_label_written(
    chart: KLine,
    pre: Buffer,
    post: Buffer,
    layout: ChartLayout,
    graph_area: Rect,
) -> bool {
    match (chart.x_axis.labels, layout.label_x) {
        (Some(ls), Some(y)) => if ls@.len() >= 2 {
            let wbt = graph_area.width as int / ls@.len() as int;
            let last = ls@[ls@.len() - 1];
            let bw = if wbt < last.spec_width() {
                wbt
            } else {
                last.spec_width()
            };
            let anchor = graph_area.spec_right() - bw;
            exists|k: int|
                {
                    &&& 0 <= k <= last.glyphs@.len()
                    &&& #[trigger] cum_width(last.glyphs@, k) <= bw
                    &&& (k == last.glyphs@.len() || cum_width(last.glyphs@, k + 1) > bw)
                    &&& forall|cx: int|
                        graph_area.spec_right() - wbt <= cx < graph_area.spec_right()
                            && post.in_grid(cx, y as int) ==> #[trigger] post.cell_at(
                            cx,
                            y as int,
                        ) == (match glyph_at_col(last.glyphs@, k, cx - anchor) {
                            Some(g) => pre.cell_at(cx, y as int).written(g.ch, last.style),
                            None => pre.cell_at(cx, y as int),
                        })
                }
        } else {
            true
        },
        _ => true,
    }
}

/// The topmost y-axis tick label lands on the graph's top row: its
/// glyphs, aligned in the label column and clipped to it, stand there over
/// the buffer's earlier content, cell for cell.  Stated for a graph at
/// least two rows tall; on a one-row graph every label shares the one row.
pub open spec fn top_y_label_written(
    chart: KLine,
    pre: Buffer,
    post: Buffer,
    layout: ChartLayout,
    chart_area: Rect,
    graph_area: Rect,
) -> bool {
    match (chart.y_axis.labels, layout.label_y) {
        (Some(ls), Some(x)) => if ls@.len() >= 2 && graph_area.height >= 2 {
            let last = ls@[ls@.len() - 1];
            let gap = graph_area.spec_left() - chart_area.spec_left();
            let w_label = if gap >= 1 {
                gap - 1
            } else {
                0
            };
            let slot = Rect { x, y: graph_area.y, width: w_label as u16, height: 1 };
            let bw = if w_label < last.spec_width() {
                w_label
            } else {
                last.spec_width()
            };
            let anchor = spec_label_anchor(slot, bw, chart.y_axis.labels_alignment);
            exists|k: int|
                {
                    &&& 0 <= k <= last.glyphs@.len()
                    &&& #[trigger] cum_width(last.glyphs@, k) <= bw
                    &&& (k == last.glyphs@.len() || cum_width(last.glyphs@, k + 1) > bw)
                    &&& forall|cx: int|
                        x <= cx < x + w_label && post.in_grid(cx, graph_area.spec_top())
                            ==> #[trigger] post.cell_at(cx, graph_area.spec_top()) == (
                        match glyph_at_col(last.glyphs@, k, cx - anchor) {
                            Some(g) => pre.cell_at(cx, graph_area.spec_top()).written(
                                g.ch,
                                last.style,
                            ),
                            None => pre.cell_at(cx, graph_area.spec_top()),
                        })
                }
        } else {
            true
        },
        _ => true,
    }
}

/// What one cell holds after the axis lines are drawn over `pre`: the
/// horizontal line glyph across the graph's columns on the `axis_x` row,
/// the vertical line glyph down the graph's rows in the `axis_y` column,
/// the corner joint where both meet, and everywhere else the old cell.
pub open spec fn axis_cell(
    pre: Buffer,
    layout: ChartLayout,
    graph: Rect,
    x_style: Style,
    y_style: Style,
    px: int,
    py: int,
) -> Cell {
    if (match (layout.axis_x, layout.axis_y) {
        (Some(row), Some(col)) => px == col as int && py == row as int,
        _ => false,
    }) {
        pre.cell_at(px, py).written('└', x_style)
    } else if (match layout.axis_x {
        Some(row) => py == row as int && graph.spec_left() <= px < graph.spec_right(),
        None => false,
    }) {
        pre.cell_at(px, py).written('─', x_style)
    } else if (match layout.axis_y {
        Some(col) => px == col as int && graph.spec_top() <= py < graph.spec_bottom(),
        None => false,
    }) {
        pre.cell_at(px, py).written('│', y_style)
    } else {
        pre.cell_at(px, py)
    }
}

/// The chart widget: a frame, two axes, the datasets and the legend size
/// policy.  Built fresh for every render; rendering computes a layout and
/// writes each part into the caller's buffer.
pub struct KLine {
    pub block: Option<Block>,
    pub x_axis: Axis,
    pub y_axis: Axis,
    pub datasets: Vec<Dataset>,
    pub style: Style,
    pub policy: ColorPolicy,
    pub hidden_legend_constraints: (Ratio, Ratio),
}

impl KLine {
    pub open spec fn wf(self) -> bool {
        &&& self.x_axis.wf()
        &&& self.y_axis.wf()
        &&& forall|i: int| 0 <= i < self.datasets@.len() ==> (#[trigger] self.datasets@[i]).wf()
        &&& self.hidden_legend_constraints.0.wf()
        &&& self.hidden_legend_constraints.1.wf()
        &&& match self.block {
            Some(b) => b.wf(),
            None => true,
        }
    }

    /// The chart area: the container, or what the frame leaves of it.
    pub open spec fn spec_chart_area(self, area: Rect) -> Rect {
        match self.block {
            Some(_) => Block::spec_inner(area),
            None => area,
        }
    }

    /// A chart over `datasets` with empty axes, no frame, the default
    /// gain/loss colors and a quarter-of-graph legend bound.
    pub fn new(datasets: Vec<Dataset>) -> (r: KLine)
        ensures
            r.block is None,
            r.x_axis == Axis::spec_default(),
            r.y_axis == Axis::spec_default(),
            r.datasets == datasets,
            r.style == (Style { fg: None::<crate::style::Color>, bg: None::<crate::style::Color> }),
            r.policy == (ColorPolicy { gain: crate::style::Color::Red, loss: crate::style::Color::Green }),
            r.hidden_legend_constraints == (Ratio { num: 1, den: 4 }, Ratio { num: 1, den: 4 }),
            (forall|i: int| 0 <= i < datasets@.len() ==> (#[trigger] datasets@[i]).wf()) ==> r.wf(),
    {
        KLine {
            block: None,
            x_axis: Axis::default(),
            y_axis: Axis::default(),
            datasets,
            style: Style::new(),
            policy: ColorPolicy::default(),
            hidden_legend_constraints: (Ratio { num: 1, den: 4 }, Ratio { num: 1, den: 4 }),
        }
    }

    pub fn block(self, block: Block) -> (r: KLine)
        ensures
            r == (KLine { block: Some(block), ..self }),
    {
        KLine { block: Some(block), ..self }
    }

    pub fn style(self, style: Style) -> (r: KLine)
        ensures
            r == (KLine { style, ..self }),
    {
        KLine { style, ..self }
    }

    pub fn x_axis(self, axis: Axis) -> (r: KLine)
        ensures
            r == (KLine { x_axis: axis, ..self }),
    {
        KLine { x_axis: axis, ..self }
    }

    pub fn y_axis(self, axis: Axis) -> (r: KLine)
        ensures
            r == (KLine { y_axis: axis, ..self }),
    {
        KLine { y_axis: axis, ..self }
    }

    /// The gain/loss color convention for every dataset.
    pub fn color_policy(self, policy: ColorPolicy) -> (r: KLine)
        ensures
            r == (KLine { policy, ..self }),
    {
        KLine { policy, ..self }
    }

    /// The largest part of the graph area the legend may take.
    pub fn hidden_legend_constraints(self, constraints: (Ratio, Ratio)) -> (r: KLine)
        ensures
            r == (KLine { hidden_legend_constraints: constraints, ..self }),
    {
        KLine { hidden_legend_constraints: constraints, ..self }
    }

    /// Columns the first x-axis label needs to the left of the y axis:
    /// its full width (less one for the axis line) when left-aligned, half
    /// when centered, none when right-aligned.
    pub open spec fn spec_first_x_label_left_width(self, has_y_axis: bool) -> int {
        match self.x_axis.labels {
            Some(ls) => if ls@.len() > 0 {
                match self.x_axis.labels_alignment {
                    Alignment::Left => if has_y_axis {
                        if ls@[0].spec_width() >= 1 {
                            ls@[0].spec_width() - 1
                        } else {
                            0
                        }
                    } else {
                        ls@[0].spec_width()
                    },
                    Alignment::Center => ls@[0].spec_width() / 2,
                    Alignment::Right => 0,
                }
            } else {
                0
            },
            None => 0,
        }
    }

    /// Columns reserved to the left of the y axis: the widest y label or
    /// the room the first x label needs, clamped to a third of the
    /// container's width.
    pub open spec fn spec_left_label_width(self, area: Rect, has_y_axis: bool) -> int {
        let y_max = match self.y_axis.labels {
            Some(ls) => max_label_width(ls@, ls@.len() as int),
            None => 0,
        };
        let x_need = self.spec_first_x_label_left_width(has_y_axis);
        let m = if x_need > y_max {
            x_need
        } else {
            y_max
        };
        if m > area.width as int / 3 {
            area.width as int / 3
        } else {
            m
        }
    }

    /// The legend box: flush to the graph's top-right corner, sized by the
    /// widest dataset name and the dataset count, and present only when it
    /// is strictly smaller than its allowed fraction of the graph area.
    pub open spec fn spec_legend(self, graph: Rect) -> Option<Rect> {
        if self.datasets@.len() == 0 {
            None
        } else {
            let iw = max_name_width(self.datasets@, self.datasets@.len() as int);
            let lw = iw + 2;
            let lh = self.datasets@.len() + 2;
            let mw = self.hidden_legend_constraints.0.spec_apply(graph.width as int);
            let mh = self.hidden_legend_constraints.1.spec_apply(graph.height as int);
            if iw > 0 && lw < mw && lh < mh {
                Some(
                    Rect {
                        x: (graph.spec_right() - lw) as u16,
                        y: graph.y,
                        width: lw as u16,
                        height: lh as u16,
                    },
                )
            } else {
                None
            }
        }
    }

    /// The whole layout: rows are reserved bottom-up for x labels and the
    /// x-axis line, columns left-to-right for y labels and the y-axis
    /// line; what remains (if at least 1 wide and 2 tall) is the graph.
    pub open spec fn spec_layout(self, area: Rect) -> ChartLayout {
        if area.width == 0 || area.height == 0 {
            ChartLayout::spec_default()
        } else {
            let has_x = self.x_axis.labels is Some;
            let has_y = self.y_axis.labels is Some;
            let x0 = area.spec_left();
            let y0 = area.spec_bottom() - 1;
            let label_x = if has_x && y0 > area.spec_top() {
                Some(y0 as u16)
            } else {
                None
            };
            let y1 = if has_x && y0 > area.spec_top() {
                y0 - 1
            } else {
                y0
            };
            let label_y = if has_y {
                Some(x0 as u16)
            } else {
                None
            };
            let x1 = x0 + self.spec_left_label_width(area, has_y);
            let axis_x = if y1 > area.spec_top() {
                Some(y1 as u16)
            } else {
                None
            };
            let y2 = if y1 > area.spec_top() {
                y1 - 1
            } else {
                y1
            };
            let axis_y = if has_y && x1 + 1 < area.spec_right() {
                Some(x1 as u16)
            } else {
                None
            };
            let x2 = if has_y && x1 + 1 < area.spec_right() {
                x1 + 1
            } else {
                x1
            };
            let graph = if x2 < area.spec_right() && y2 > area.spec_top() {
                Rect {
                    x: x2 as u16,
                    y: area.y,
                    width: (area.spec_right() - x2) as u16,
                    height: (y2 - area.spec_top() + 1) as u16,
                }
            } else {
                Rect { x: 0, y: 0, width: 0, height: 0 }
            };
            let title_x = match self.x_axis.title {
                Some(t) => if t.spec_width() < graph.width && graph.height > 2 {
                    Some(
                        (
                            (graph.spec_right() - t.spec_width()) as u16,
                            match label_x {
                                Some(r) => r,
                                None => (graph.spec_bottom() - 1) as u16,
                            },
                        ),
                    )
                } else {
                    None
                },
                None => None,
            };
            ChartLayout {
                title_x,
                title_y: None,
                label_x,
                label_y,
                axis_x,
                axis_y,
                legend_area: self.spec_legend(graph),
                graph_area: graph,
            }
        }
    }

    /// Columns reserved left of the y axis; see `spec_left_label_width`.
    pub fn max_width_of_labels_left_of_y_axis(&self, area: Rect, has_y_axis: bool) -> (r: u16)
        requires
            self.wf(),
        ensures
            r == self.spec_left_label_width(area, has_y_axis),
    {
        let mut max_width: u16 = 0;
        if let Some(ls) = &self.y_axis.labels {
            let n = ls.len();
            let mut i: usize = 0;
            while i < n
                invariant
                    n == ls@.len(),
                    0 <= i <= n,
                    max_width == max_label_width(ls@, i as int),
                decreases n - i,
            {
                let w = ls[i].width;
                if w > max_width {
                    max_width = w;
                }
                i = i + 1;
            }
        }
        if let Some(ls) = &self.x_axis.labels {
            if ls.len() > 0 {
                let first_width = ls[0].width;
                let width_left_of_y_axis: u16 = match self.x_axis.labels_alignment {
                    Alignment::Left => {
                        if has_y_axis {
                            if first_width >= 1 {
                                first_width - 1
                            } else {
                                0
                            }
                        } else {
                            first_width
                        }
                    },
                    Alignment::Center => first_width / 2,
                    Alignment::Right => 0,
                };
                if width_left_of_y_axis > max_width {
                    max_width = width_left_of_y_axis;
                }
            }
        }
        let clamp = area.width / 3;
        if max_width > clamp {
            clamp
        } else {
            max_width
        }
    }

    /// Computes the layout of this chart inside `area`; a zero-area
    /// container yields the all-empty layout.
    pub fn layout(&self, area: Rect) -> (l: ChartLayout)
        requires
            self.wf(),
            area.wf(),
        ensures
            l == self.spec_layout(area),
    {
        let mut layout = ChartLayout::default();
        if area.width == 0 || area.height == 0 {
            return layout;
        }
        let mut x: u16 = area.left();
        let mut y: u16 = area.bottom() - 1;

        if self.x_axis.labels.is_some() && y > area.top() {
            layout.label_x = Some(y);
            y = y - 1;
        }

        if self.y_axis.labels.is_some() {
            layout.label_y = Some(x);
        }
        let has_y = self.y_axis.labels.is_some();
        x = x + self.max_width_of_labels_left_of_y_axis(area, has_y);

        if y > area.top() {
            layout.axis_x = Some(y);
            y = y - 1;
        }

        if has_y && (x as u32) + 1 < area.right() as u32 {
            layout.axis_y = Some(x);
            x = x + 1;
        }

        if x < area.right() && y > area.top() {
            layout.graph_area = Rect::new(x, area.top(), area.right() - x, y - area.top() + 1);
        }

        if let Some(title) = &self.x_axis.title {
            let w = title.width;
            if w < layout.graph_area.width && layout.graph_area.height > 2 {
                let title_row: u16 = match layout.label_x {
                    Some(r) => r,
                    None => y,
                };
                layout.title_x = Some((x + (layout.graph_area.width - w), title_row));
            }
        }

        if self.datasets.len() > 0 {
            let n = self.datasets.len();
            let mut inner_width: u16 = 0;
            let mut i: usize = 0;
            while i < n
                invariant
                    n == self.datasets@.len(),
                    0 <= i <= n,
                    inner_width == max_name_width(self.datasets@, i as int),
                decreases n - i,
            {
                let w = self.datasets[i].name.width;
                if w > inner_width {
                    inner_width = w;
                }
                i = i + 1;
            }
            let max_legend_width = self.hidden_legend_constraints.0.apply(
                layout.graph_area.width,
            );
            let max_legend_height = self.hidden_legend_constraints.1.apply(
                layout.graph_area.height,
            );
            if inner_width > 0 && (inner_width as u32 + 2) < max_legend_width as u32
                && max_legend_height >= 3 && (n as u64) < max_legend_height as u64 - 2 {
                let legend_width: u16 = inner_width + 2;
                let legend_height: u16 = (n + 2) as u16;
                layout.legend_area = Some(
                    Rect::new(
                        layout.graph_area.right() - legend_width,
                        layout.graph_area.top(),
                        legend_width,
                        legend_height,
                    ),
                );
            }
        }
        layout
    }

    /// Writes one clipped, aligned label into `label_area`: the visible
    /// width is the label's width clipped to the area's, anchored at the
    /// left edge, the middle, or flush right.  No cell outside the area's
    /// top-row segment changes.
    pub fn render_label(buf: &mut Buffer, label: &Label, label_area: Rect, alignment: Alignment)
        requires
            old(buf).wf(),
            label.wf(),
            label_area.wf(),
            label_area.spec_top() < old(buf).height,
            label_area.spec_right() <= old(buf).width,
        ensures
            final(buf).wf(),
            final(buf).same_size(*old(buf)),
            forall|cx: int, cy: int|
                final(buf).in_grid(cx, cy) && !(cy == label_area.spec_top()
                    && label_area.spec_left() <= cx < label_area.spec_right()) ==> final(buf).cell_at(cx, cy) == old(buf).cell_at(cx, cy),
            exists|k: int|
                label_written(
                    *old(buf),
                    *final(buf),
                    *label,
                    label.style,
                    spec_label_anchor(
                        label_area,
                        spec_bounded_width(*label, label_area),
                        alignment,
                    ),
                    spec_bounded_width(*label, label_area),
                    label_area.spec_top(),
                    k,
                ),
    {
        let label_width = label.total_columns();
        let bounded_label_width: u16 = if label_area.width < label_width {
            label_area.width
        } else {
            label_width
        };
        let x: u16 = match alignment {
            Alignment::Left => label_area.left(),
            Alignment::Center => label_area.left() + label_area.width / 2
                - bounded_label_width / 2,
            Alignment::Right => label_area.right() - bounded_label_width,
        };
        proof {
            assert(label_area.spec_left() <= x && x + bounded_label_width
                <= label_area.spec_right());
        }
        let k = buf.set_label(x, label_area.top(), label, label.style, bounded_label_width);
        proof {
            let gs = label.glyphs@;
            assert(old(buf).clip_bound(x as int, bounded_label_width as int)
                == bounded_label_width as int);
            crate::text::lemma_cum_width_mono(gs, 0, k as int);
            assert forall|cx: int, cy: int|
                buf.in_grid(cx, cy) && !(cy == label_area.spec_top() && label_area.spec_left()
                    <= cx < label_area.spec_right()) implies buf.cell_at(cx, cy) == old(buf).cell_at(cx, cy) by {
                if cy == label_area.spec_top() {
                    crate::text::lemma_glyph_at_col_none(gs, k as int, cx - x);
                }
            }
            let bw = spec_bounded_width(*label, label_area);
            assert(bounded_label_width as int == bw);
            assert(x as int == spec_label_anchor(label_area, bw, alignment));
            assert(label_written(
                *old(buf),
                *buf,
                *label,
                label.style,
                spec_label_anchor(label_area, bw, alignment),
                bw,
                label_area.spec_top(),
                k as int,
            ));
        }
    }

    /// The rectangle the first x-axis label is written into: it sits left
    /// of the first tick, and when right-aligned it may reach one column
    /// left of the graph so the label clears the y-axis line.
    pub fn first_x_label_area(
        &self,
        y: u16,
        label_width: u16,
        max_width_after_y_axis: u16,
        chart_area: Rect,
        graph_area: Rect,
    ) -> (r: Rect)
        requires
            chart_area.spec_left() <= graph_area.spec_left(),
            graph_area.spec_left() + max_width_after_y_axis <= u16::MAX,
            y < u16::MAX,
        ensures
            r.wf(),
            r.spec_top() == y,
            r.height == 1,
            r.spec_left() == (match self.x_axis.labels_alignment {
                Alignment::Left => chart_area.spec_left(),
                Alignment::Center => chart_area.spec_left(),
                Alignment::Right => if graph_area.spec_left() >= 1 {
                    graph_area.spec_left() - 1
                } else {
                    0
                },
            }),
            r.spec_right() == (match self.x_axis.labels_alignment {
                Alignment::Left => graph_area.spec_left(),
                Alignment::Center => graph_area.spec_left() + (
                if max_width_after_y_axis < label_width {
                    max_width_after_y_axis as int
                } else {
                    label_width as int
                }),
                Alignment::Right => graph_area.spec_left() + max_width_after_y_axis,
            }),
    {
        let (min_x, max_x): (u16, u16) = match self.x_axis.labels_alignment {
            Alignment::Left => (chart_area.left(), graph_area.left()),
            Alignment::Center => (
                chart_area.left(),
                graph_area.left() + if max_width_after_y_axis < label_width {
                    max_width_after_y_axis
                } else {
                    label_width
                },
            ),
            Alignment::Right => (
                if graph_area.left() >= 1 {
                    graph_area.left() - 1
                } else {
                    0
                },
                graph_area.left() + max_width_after_y_axis,
            ),
        };
        Rect::new(min_x, y, max_x - min_x, 1)
    }

    /// Writes the x-axis tick labels into their row.  With fewer than two
    /// labels nothing is drawn, so a tick spacing of zero never arises.
    /// The first label sits left of the first tick with the inverse of the
    /// configured alignment, interior labels are centered in their slots,
    /// and the last is flush right at the graph's right edge.  Writes stay
    /// in the label row, from one column left of the chart to the graph's
    /// right edge.
    pub fn render_x_labels(
        &self,
        buf: &mut Buffer,
        layout: &ChartLayout,
        chart_area: Rect,
        graph_area: Rect,
    )
        requires
            self.wf(),
            old(buf).wf(),
            chart_area.wf(),
            graph_area.wf(),
            chart_area.spec_left() <= graph_area.spec_left(),
            graph_area.spec_right() <= chart_area.spec_right(),
            chart_area.spec_right() <= old(buf).width,
            match layout.label_x {
                Some(y) => y < old(buf).height,
                None => true,
            },
            layout.label_x is Some ==> self.x_axis.labels is Some,
        ensures
            final(buf).wf(),
            final(buf).same_size(*old(buf)),
            forall|cx: int, cy: int|
                final(buf).in_grid(cx, cy) && !(match layout.label_x {
                    Some(y) => cy == y as int && chart_area.spec_left() - 1 <= cx
                        < graph_area.spec_right(),
                    None => false,
                }) ==> final(buf).cell_at(cx, cy) == old(buf).cell_at(cx, cy),
            (match self.x_axis.labels {
                Some(ls) => ls@.len() < 2,
                None => true,
            }) ==> forall|cx: int, cy: int|
                final(buf).in_grid(cx, cy) ==> final(buf).cell_at(cx, cy) == old(buf).cell_at(
                    cx,
                    cy,
                ),
            last_x_label_written(*self, *old(buf), *final(buf), *layout, graph_area),
    {
        let y: u16 = match layout.label_x {
            Some(y) => y,
            None => {
                return ;
            },
        };
        let labels_len: usize = match &self.x_axis.labels {
            Some(ls) => ls.len(),
            None => {
                return ;
            },
        };
        if labels_len < 2 {
            return ;
        }
        proof {
            vstd::arithmetic::div_mod::lemma_div_is_ordered_by_denominator(
                graph_area.width as int,
                1,
                labels_len as int,
            );
            vstd::arithmetic::div_mod::lemma_fundamental_div_mod(
                graph_area.width as int,
                labels_len as int,
            );
            vstd::arithmetic::div_mod::lemma_mod_bound(graph_area.width as int, labels_len as int);
            assert(labels_len * (graph_area.width as int / labels_len as int)
                <= graph_area.width) by (nonlinear_arith)
                requires
                    graph_area.width == labels_len * (graph_area.width as int / labels_len as int)
                        + graph_area.width as int % labels_len as int,
                    graph_area.width as int % labels_len as int >= 0,
            ;
        }
        let width_between_ticks: u16 = (graph_area.width as usize / labels_len) as u16;
        let first_label_width: u16 = match &self.x_axis.labels {
            Some(ls) => ls[0].width,
            None => 0,
        };
        let label_area = self.first_x_label_area(
            y,
            first_label_width,
            width_between_ticks,
            chart_area,
            graph_area,
        );
        let label_alignment = match self.x_axis.labels_alignment {
            Alignment::Left => Alignment::Right,
            Alignment::Center => Alignment::Center,
            Alignment::Right => Alignment::Left,
        };
        match &self.x_axis.labels {
            Some(ls) => Self::render_label(buf, &ls[0], label_area, label_alignment),
            None => (),
        }
        proof {
            assert forall|cx: int, cy: int|
                buf.in_grid(cx, cy) && !(cy == y as int && chart_area.spec_left() - 1 <= cx
                    < graph_area.spec_right()) implies buf.cell_at(cx, cy) == old(buf).cell_at(cx, cy) by {}
            lemma_mul_inequality(2, labels_len as int, width_between_ticks as int);
            assert forall|cx: int, cy: int|
                buf.in_grid(cx, cy) && cy == y as int && graph_area.spec_right()
                    - width_between_ticks <= cx implies buf.cell_at(cx, cy) == old(buf).cell_at(
                cx,
                cy,
            ) by {}
        }
        if width_between_ticks >= 1 {
            let mut i: usize = 1;
            while i < labels_len - 1
                invariant
                    self.wf(),
                    buf.wf(),
                    buf.same_size(*old(buf)),
                    chart_area.wf(),
                    graph_area.wf(),
                    chart_area.spec_left() <= graph_area.spec_left(),
                    graph_area.spec_right() <= chart_area.spec_right(),
                    chart_area.spec_right() <= buf.width,
                    y < buf.height,
                    self.x_axis.labels is Some,
                    labels_len == (match self.x_axis.labels {
                        Some(ls) => ls@.len(),
                        None => 0,
                    }),
                    2 <= labels_len,
                    1 <= i <= labels_len - 1,
                    1 <= width_between_ticks,
                    labels_len * width_between_ticks <= graph_area.width,
                    forall|cx: int, cy: int|
                        buf.in_grid(cx, cy) && !(cy == y as int && chart_area.spec_left() - 1
                            <= cx < graph_area.spec_right()) ==> buf.cell_at(cx, cy) == old(buf).cell_at(cx, cy),
                    forall|cx: int, cy: int|
                        buf.in_grid(cx, cy) && cy == y as int && graph_area.spec_right()
                            - width_between_ticks <= cx ==> buf.cell_at(cx, cy) == old(buf).cell_at(cx, cy),
                decreases labels_len - 1 - i,
            {
                proof {
                    lemma_mul_inequality(i + 1, labels_len as int, width_between_ticks as int);
                    assert((i + 1) * width_between_ticks == i * width_between_ticks
                        + width_between_ticks) by (nonlinear_arith);
                    assert(0 <= i * width_between_ticks) by (nonlinear_arith)
                        requires
                            0 <= i,
                            0 <= width_between_ticks,
                    ;
                }
                let x: u16 = graph_area.left() + ((i as u64 * width_between_ticks as u64) as u16)
                    + 1;
                let label_area = Rect::new(x, y, width_between_ticks - 1, 1);
                match &self.x_axis.labels {
                    Some(ls) => Self::render_label(buf, &ls[i], label_area, Alignment::Center),
                    None => (),
                }
                proof {
                    assert forall|cx: int, cy: int|
                        buf.in_grid(cx, cy) && !(cy == y as int && chart_area.spec_left() - 1
                            <= cx < graph_area.spec_right()) implies buf.cell_at(cx, cy) == old(buf).cell_at(cx, cy) by {}
                    lemma_mul_inequality(i + 1, labels_len - 1, width_between_ticks as int);
                    assert((labels_len - 1) * width_between_ticks == labels_len
                        * width_between_ticks - width_between_ticks) by (nonlinear_arith);
                    assert forall|cx: int, cy: int|
                        buf.in_grid(cx, cy) && cy == y as int && graph_area.spec_right()
                            - width_between_ticks <= cx implies buf.cell_at(cx, cy) == old(
                        buf,
                    ).cell_at(cx, cy) by {}
                }
                i = i + 1;
            }
        }
        let x: u16 = graph_area.right() - width_between_ticks;
        let label_area = Rect::new(x, y, width_between_ticks, 1);
        let ghost prev_last = *buf;
        match &self.x_axis.labels {
            Some(ls) => Self::render_label(buf, &ls[labels_len - 1], label_area, Alignment::Right),
            None => (),
        }
        proof {
            assert forall|cx: int, cy: int|
                buf.in_grid(cx, cy) && !(cy == y as int && chart_area.spec_left() - 1 <= cx
                    < graph_area.spec_right()) implies buf.cell_at(cx, cy) == old(buf).cell_at(cx, cy) by {}
            match &self.x_axis.labels {
                Some(ls) => {
                    let wbt = width_between_ticks as int;
                    let last = ls@[labels_len - 1];
                    let bw = if wbt < last.spec_width() {
                        wbt
                    } else {
                        last.spec_width()
                    };
                    let anchor = graph_area.spec_right() - bw;
                    assert(spec_bounded_width(last, label_area) == bw);
                    assert(spec_label_anchor(label_area, bw, Alignment::Right) == anchor);
                    let k = choose|k: int|
                        label_written(prev_last, *buf, last, last.style, anchor, bw, y as int, k);
                    assert(label_written(prev_last, *buf, last, last.style, anchor, bw, y as int, k));
                    assert forall|cx: int|
                        graph_area.spec_right() - wbt <= cx < graph_area.spec_right()
                            && buf.in_grid(cx, y as int) implies #[trigger] buf.cell_at(
                        cx,
                        y as int,
                    ) == (match glyph_at_col(last.glyphs@, k, cx - anchor) {
                        Some(g) => old(buf).cell_at(cx, y as int).written(g.ch, last.style),
                        None => old(buf).cell_at(cx, y as int),
                    }) by {
                        assert(prev_last.cell_at(cx, y as int) == old(buf).cell_at(cx, y as int));
                    }
                    assert(last_x_label_written(*self, *old(buf), *buf, *layout, graph_area));
                },
                None => (),
            }
        }
    }

    /// Writes the y-axis tick labels: label `i` of `n` sits at row
    /// `graph.bottom - 1 - i * (graph.height - 1) / (n - 1)` when that row
    /// stays inside the graph.  With fewer than two labels nothing is
    /// drawn: one lone label has no defined spacing, so it is skipped
    /// rather than dividing by zero.  Writes stay inside the graph's rows,
    /// in the columns between the chart's left edge and the column before
    /// the graph.
    #[verifier::rlimit(100)]
    #[verifier::spinoff_prover]
    pub fn render_y_labels(
        &self,
        buf: &mut Buffer,
        layout: &ChartLayout,
        chart_area: Rect,
        graph_area: Rect,
    )
        requires
            self.wf(),
            old(buf).wf(),
            chart_area.wf(),
            graph_area.wf(),
            chart_area.spec_left() <= graph_area.spec_left(),
            graph_area.spec_left() <= old(buf).width,
            graph_area.spec_bottom() <= old(buf).height,
            graph_area.height >= 1,
            match layout.label_y {
                Some(x) => x == chart_area.x,
                None => true,
            },
            layout.label_y is Some ==> self.y_axis.labels is Some,
        ensures
            final(buf).wf(),
            final(buf).same_size(*old(buf)),
            forall|cx: int, cy: int|
                final(buf).in_grid(cx, cy) && !(layout.label_y is Some
                    && graph_area.spec_top() <= cy < graph_area.spec_bottom()
                    && chart_area.spec_left() <= cx < graph_area.spec_left() - 1)
                    ==> final(buf).cell_at(cx, cy) == old(buf).cell_at(cx, cy),
            (match self.y_axis.labels {
                Some(ls) => ls@.len() < 2,
                None => true,
            }) ==> forall|cx: int, cy: int|
                final(buf).in_grid(cx, cy) ==> final(buf).cell_at(cx, cy) == old(buf).cell_at(
                    cx,
                    cy,
                ),
            top_y_label_written(*self, *old(buf), *final(buf), *layout, chart_area, graph_area),
    {
        let x: u16 = match layout.label_y {
            Some(x) => x,
            None => {
                return ;
            },
        };
        let labels_len: usize = match &self.y_axis.labels {
            Some(ls) => ls.len(),
            None => {
                return ;
            },
        };
        if labels_len < 2 {
            return ;
        }
        let gap: u16 = graph_area.left() - chart_area.left();
        let label_width: u16 = if gap >= 1 {
            gap - 1
        } else {
            0
        };
        let mut i: usize = 0;
        while i < labels_len - 1
            invariant
                self.wf(),
                buf.wf(),
                buf.same_size(*old(buf)),
                chart_area.wf(),
                graph_area.wf(),
                chart_area.spec_left() <= graph_area.spec_left(),
                graph_area.spec_left() <= buf.width,
                graph_area.spec_bottom() <= buf.height,
                graph_area.height >= 1,
                x == chart_area.x,
                layout.label_y is Some,
                self.y_axis.labels is Some,
                labels_len == (match self.y_axis.labels {
                    Some(ls) => ls@.len(),
                    None => 0,
                }),
                2 <= labels_len,
                0 <= i <= labels_len - 1,
                gap == graph_area.spec_left() - chart_area.spec_left(),
                label_width == (if gap >= 1 { gap - 1 } else { 0 }),
                forall|cx: int, cy: int|
                    buf.in_grid(cx, cy) && !(graph_area.spec_top() <= cy
                        < graph_area.spec_bottom() && chart_area.spec_left() <= cx
                        < graph_area.spec_left() - 1) ==> buf.cell_at(cx, cy) == old(
                        buf,
                    ).cell_at(cx, cy),
                graph_area.height >= 2 ==> forall|cx: int, cy: int|
                    buf.in_grid(cx, cy) && cy == graph_area.spec_top() ==> buf.cell_at(cx, cy)
                        == old(buf).cell_at(cx, cy),
            decreases labels_len - 1 - i,
        {
            proof {
                lemma_mul_inequality(i as int, labels_len - 1, graph_area.height - 1);
                assert(0 <= i * (graph_area.height - 1)) by (nonlinear_arith)
                    requires
                        0 <= i,
                        1 <= graph_area.height,
                ;
                lemma_div_is_ordered(
                    i * (graph_area.height - 1),
                    (labels_len - 1) * (graph_area.height - 1),
                    labels_len - 1,
                );
                lemma_div_is_ordered(0, i * (graph_area.height - 1), labels_len - 1);
                assert((labels_len - 1) * (graph_area.height - 1) == (graph_area.height - 1) * (
                labels_len - 1)) by (nonlinear_arith);
                lemma_div_multiples_vanish(graph_area.height - 1, labels_len - 1);
                assert(i * (graph_area.height - 1) <= 0xFFFF_FFFF_FFFF_FFFF * 0xFFFF)
                    by (nonlinear_arith)
                    requires
                        0 <= i <= 0xFFFF_FFFF_FFFF_FFFF,
                        0 <= graph_area.height - 1 <= 0xFFFF,
                ;
                if graph_area.height >= 2 {
                    vstd::arithmetic::mul::lemma_mul_strict_inequality(
                        i as int,
                        labels_len - 1,
                        graph_area.height - 1,
                    );
                    vstd::arithmetic::div_mod::lemma_multiply_divide_lt(
                        i * (graph_area.height - 1),
                        labels_len - 1,
                        graph_area.height - 1,
                    );
                }
            }
            let dy: u16 = ((i as u128 * (graph_area.height - 1) as u128) / (labels_len - 1) as u128)
                as u16;
            if dy < graph_area.bottom() {
                let row: u16 = (graph_area.bottom() - 1) - dy;
                let label_area = Rect::new(x, row, label_width, 1);
                let ghost prev_row = *buf;
                match &self.y_axis.labels {
                    Some(ls) => Self::render_label(
                        buf,
                        &ls[i],
                        label_area,
                        self.y_axis.labels_alignment,
                    ),
                    None => (),
                }
                proof {
                    assert forall|cx: int, cy: int|
                        buf.in_grid(cx, cy) && !(graph_area.spec_top() <= cy
                            < graph_area.spec_bottom() && chart_area.spec_left() <= cx
                            < graph_area.spec_left() - 1) implies buf.cell_at(cx, cy) == old(
                        buf,
                    ).cell_at(cx, cy) by {}
                    if graph_area.height >= 2 {
                        assert(row > graph_area.spec_top());
                        assert forall|cx: int, cy: int|
                            buf.in_grid(cx, cy) && cy == graph_area.spec_top()
                                implies buf.cell_at(cx, cy) == old(buf).cell_at(cx, cy) by {
                            assert(prev_row.cell_at(cx, cy) == old(buf).cell_at(cx, cy));
                        }
                    }
                }
            }
            i = i + 1;
        }
        proof {
            assert(((labels_len - 1) * (graph_area.height - 1)) == ((graph_area.height - 1) * (
            labels_len - 1))) by (nonlinear_arith);
            lemma_div_multiples_vanish(graph_area.height - 1, labels_len - 1);
            assert(0 <= (labels_len - 1) * (graph_area.height - 1)) by (nonlinear_arith)
                requires
                    1 <= labels_len,
                    1 <= graph_area.height,
            ;
            assert((labels_len - 1) * (graph_area.height - 1) <= 0xFFFF_FFFF_FFFF_FFFF * 0xFFFF)
                by (nonlinear_arith)
                requires
                    0 <= labels_len - 1 <= 0xFFFF_FFFF_FFFF_FFFF,
                    0 <= graph_area.height - 1 <= 0xFFFF,
            ;
        }
        let last_index: usize = labels_len - 1;
        let dy: u16 = ((last_index as u128 * (graph_area.height - 1) as u128) / (labels_len
            - 1) as u128) as u16;
        proof {
            assert(dy == graph_area.height - 1);
        }
        if dy < graph_area.bottom() {
            let row: u16 = (graph_area.bottom() - 1) - dy;
            let label_area = Rect::new(x, row, label_width, 1);
            let ghost prev_row = *buf;
            match &self.y_axis.labels {
                Some(ls) => Self::render_label(
                    buf,
                    &ls[last_index],
                    label_area,
                    self.y_axis.labels_alignment,
                ),
                None => (),
            }
            proof {
                assert forall|cx: int, cy: int|
                    buf.in_grid(cx, cy) && !(graph_area.spec_top() <= cy
                        < graph_area.spec_bottom() && chart_area.spec_left() <= cx
                        < graph_area.spec_left() - 1) implies buf.cell_at(cx, cy) == old(
                    buf,
                ).cell_at(cx, cy) by {}
                if graph_area.height >= 2 {
                    match &self.y_axis.labels {
                        Some(ls) => {
                            assert(row == graph_area.spec_top());
                            let last = ls@[labels_len - 1];
                            let gap_s = graph_area.spec_left() - chart_area.spec_left();
                            let w_label_s: int = if gap_s >= 1 {
                                gap_s - 1
                            } else {
                                0
                            };
                            let slot = Rect {
                                x,
                                y: graph_area.y,
                                width: w_label_s as u16,
                                height: 1,
                            };
                            assert(slot == label_area);
                            let bw = if w_label_s < last.spec_width() {
                                w_label_s
                            } else {
                                last.spec_width()
                            };
                            let anchor = spec_label_anchor(slot, bw, self.y_axis.labels_alignment);
                            assert(spec_bounded_width(last, label_area) == bw);
                            let k = choose|k: int|
                                label_written(
                                    prev_row,
                                    *buf,
                                    last,
                                    last.style,
                                    anchor,
                                    bw,
                                    row as int,
                                    k,
                                );
                            assert(label_written(
                                prev_row,
                                *buf,
                                last,
                                last.style,
                                anchor,
                                bw,
                                row as int,
                                k,
                            ));
                            assert forall|cx: int|
                                x <= cx < x + w_label_s && buf.in_grid(cx, graph_area.spec_top())
                                    implies #[trigger] buf.cell_at(cx, graph_area.spec_top()) == (
                            match glyph_at_col(last.glyphs@, k, cx - anchor) {
                                Some(g) => old(buf).cell_at(cx, graph_area.spec_top()).written(
                                    g.ch,
                                    last.style,
                                ),
                                None => old(buf).cell_at(cx, graph_area.spec_top()),
                            }) by {
                                assert(prev_row.cell_at(cx, graph_area.spec_top()) == old(
                                    buf,
                                ).cell_at(cx, graph_area.spec_top()));
                            }
                            assert(top_y_label_written(
                                *self,
                                *old(buf),
                                *buf,
                                *layout,
                                chart_area,
                                graph_area,
                            ));
                        },
                        None => (),
                    }
                }
            }
        }
    }

    /// Draws the axis lines: the horizontal line across the graph's
    /// columns on the `axis_x` row, the vertical line down the graph's
    /// rows in the `axis_y` column, and the corner joint where both
    /// exist.  Every other cell keeps its old value.
    #[verifier::rlimit(100)]
    #[verifier::spinoff_prover]
    fn draw_axis_lines(&self, buf: &mut Buffer, layout: &ChartLayout, graph_area: Rect, area: Rect)
        requires
            old(buf).wf(),
            area.wf(),
            graph_area.wf(),
            area.spec_right() <= old(buf).width,
            area.spec_bottom() <= old(buf).height,
            area.spec_left() <= graph_area.spec_left(),
            graph_area.spec_right() <= area.spec_right(),
            area.spec_top() <= graph_area.spec_top(),
            graph_area.spec_bottom() <= area.spec_bottom(),
            match layout.axis_x {
                Some(row) => area.spec_top() <= row < area.spec_bottom() && row as int
                    == graph_area.spec_bottom(),
                None => true,
            },
            match layout.axis_y {
                Some(col) => area.spec_left() <= col < area.spec_right() && col as int
                    == graph_area.spec_left() - 1,
                None => true,
            },
        ensures
            final(buf).wf(),
            final(buf).same_size(*old(buf)),
            forall|px: int, py: int|
                final(buf).in_grid(px, py) ==> #[trigger] final(buf).cell_at(px, py) == axis_cell(
                    *old(buf),
                    *layout,
                    graph_area,
                    self.x_axis.style,
                    self.y_axis.style,
                    px,
                    py,
                ),
    {
        if let Some(y) = layout.axis_x {
            let mut cx: u16 = graph_area.left();
            while cx < graph_area.x + graph_area.width
                invariant
                    buf.wf(),
                    buf.same_size(*old(buf)),
                    graph_area.wf(),
                    area.wf(),
                    graph_area.spec_left() <= cx <= graph_area.spec_right(),
                    area.spec_top() <= y < area.spec_bottom(),
                    area.spec_left() <= graph_area.spec_left(),
                    graph_area.spec_right() <= area.spec_right(),
                    area.spec_right() <= buf.width,
                    area.spec_bottom() <= buf.height,
                    forall|px: int, py: int|
                        buf.in_grid(px, py) ==> #[trigger] buf.cell_at(px, py) == (if py
                            == y as int && graph_area.spec_left() <= px < cx {
                            old(buf).cell_at(px, py).written('─', self.x_axis.style)
                        } else {
                            old(buf).cell_at(px, py)
                        }),
                decreases graph_area.spec_right() - cx,
            {
                buf.put(cx, y, '─', self.x_axis.style);
                cx = cx + 1;
            }
        }
        let ghost buf_ax = *buf;
        if let Some(x) = layout.axis_y {
            let mut cy: u16 = graph_area.top();
            while cy < graph_area.y + graph_area.height
                invariant
                    buf.wf(),
                    buf.same_size(*old(buf)),
                    buf.same_size(buf_ax),
                    graph_area.wf(),
                    area.wf(),
                    graph_area.spec_top() <= cy <= graph_area.spec_bottom(),
                    area.spec_left() <= x < area.spec_right(),
                    area.spec_top() <= graph_area.spec_top(),
                    graph_area.spec_bottom() <= area.spec_bottom(),
                    area.spec_right() <= buf.width,
                    area.spec_bottom() <= buf.height,
                    forall|px: int, py: int|
                        buf.in_grid(px, py) ==> #[trigger] buf.cell_at(px, py) == (if px
                            == x as int && graph_area.spec_top() <= py < cy {
                            buf_ax.cell_at(px, py).written('│', self.y_axis.style)
                        } else {
                            buf_ax.cell_at(px, py)
                        }),
                decreases graph_area.spec_bottom() - cy,
            {
                buf.put(x, cy, '│', self.y_axis.style);
                cy = cy + 1;
            }
        }
        let ghost buf_ay = *buf;
        if let Some(y) = layout.axis_x {
            if let Some(x) = layout.axis_y {
                buf.put(x, y, '└', self.x_axis.style);
            }
        }
        proof {
            assert forall|px: int, py: int| buf.in_grid(px, py) implies #[trigger] buf.cell_at(
                px,
                py,
            ) == axis_cell(
                *old(buf),
                *layout,
                graph_area,
                self.x_axis.style,
                self.y_axis.style,
                px,
                py,
            ) by {
                assert(buf_ax.cell_at(px, py) == (match layout.axis_x {
                    Some(row) => if py == row as int && graph_area.spec_left() <= px
                        < graph_area.spec_right() {
                        old(buf).cell_at(px, py).written('─', self.x_axis.style)
                    } else {
                        old(buf).cell_at(px, py)
                    },
                    None => old(buf).cell_at(px, py),
                }));
                assert(buf_ay.cell_at(px, py) == (match layout.axis_y {
                    Some(col) => if px == col as int && graph_area.spec_top() <= py
                        < graph_area.spec_bottom() {
                        buf_ax.cell_at(px, py).written('│', self.y_axis.style)
                    } else {
                        buf_ax.cell_at(px, py)
                    },
                    None => buf_ax.cell_at(px, py),
                }));
            }
        }
    }

    /// Draws the legend: restores `original_style` over its box, draws the
    /// box's borders, and writes one dataset name per row inside it, each
    /// with its dataset's style.  Cells outside the box are untouched.
    #[verifier::rlimit(100)]
    #[verifier::spinoff_prover]
    fn draw_legend(&self, buf: &mut Buffer, legend_area: Rect, original_style: Style)
        requires
            self.wf(),
            old(buf).wf(),
            legend_area.wf(),
            legend_area.spec_right() <= old(buf).width,
            legend_area.spec_bottom() <= old(buf).height,
            legend_area.width == max_name_width(self.datasets@, self.datasets@.len() as int) + 2,
            legend_area.height == self.datasets@.len() + 2,
        ensures
            final(buf).wf(),
            final(buf).same_size(*old(buf)),
            forall|px: int, py: int|
                final(buf).in_grid(px, py) && !legend_area.spec_contains(px, py)
                    ==> final(buf).cell_at(px, py) == old(buf).cell_at(px, py),
    {
        let n = self.datasets.len();
        buf.set_style(legend_area, original_style);
        let ghost buf_legend_styled = *buf;
        let legend_block = Block { title: None, style: Style::new() };
        legend_block.render(legend_area, buf);
        proof {
            assert forall|px: int, py: int|
                buf.in_grid(px, py) && !legend_area.spec_contains(px, py) implies buf.cell_at(
                px,
                py,
            ) == old(buf).cell_at(px, py) by {
                assert(buf_legend_styled.cell_at(px, py) == old(buf).cell_at(px, py));
                assert(!Block::ring_contains(legend_area, px, py));
                assert(buf.cell_at(px, py) == buf_legend_styled.cell_at(px, py));
            }
        }
        let mut i: usize = 0;
        while i < n
            invariant
                self.wf(),
                buf.wf(),
                buf.same_size(*old(buf)),
                n == self.datasets@.len(),
                0 <= i <= n,
                legend_area.wf(),
                legend_area.spec_right() <= buf.width,
                legend_area.spec_bottom() <= buf.height,
                legend_area.width == max_name_width(self.datasets@, n as int) + 2,
                legend_area.height == n + 2,
                forall|px: int, py: int|
                    buf.in_grid(px, py) && !legend_area.spec_contains(px, py) ==> buf.cell_at(
                        px,
                        py,
                    ) == old(buf).cell_at(px, py),
            decreases n - i,
        {
            proof {
                lemma_max_name_width_ge(self.datasets@, i as int, n as int);
            }
            let d = &self.datasets[i];
            let row: u16 = legend_area.y + 1 + (i as u16);
            let ghost prev = *buf;
            let k = buf.set_label(legend_area.x + 1, row, &d.name, d.style, d.name.width);
            proof {
                let gs = d.name.glyphs@;
                crate::text::lemma_cum_width_mono(gs, 0, k as int);
                assert forall|px: int, py: int|
                    buf.in_grid(px, py) && !legend_area.spec_contains(px, py)
                        implies buf.cell_at(px, py) == old(buf).cell_at(px, py) by {
                    assert(prev.cell_at(px, py) == old(buf).cell_at(px, py));
                    if py == row as int {
                        crate::text::lemma_glyph_at_col_none(
                            gs,
                            k as int,
                            px - (legend_area.x + 1),
                        );
                    }
                    assert(buf.cell_at(px, py) == prev.cell_at(px, py));
                }
            }
            i = i + 1;
        }
    }

    /// Fills `area` with the chart style and draws the optional frame
    /// over it; returns the chart area the frame leaves.  Cells outside
    /// `area` keep their old value, and every cell of the chart area
    /// holds its old value with the chart style applied.
    #[verifier::rlimit(100)]
    #[verifier::spinoff_prover]
    fn fill_and_frame(&self, buf: &mut Buffer, area: Rect) -> (chart_area: Rect)
        requires
            self.wf(),
            old(buf).wf(),
            area.wf(),
            area.spec_right() <= old(buf).width,
            area.spec_bottom() <= old(buf).height,
        ensures
            final(buf).wf(),
            final(buf).same_size(*old(buf)),
            chart_area == self.spec_chart_area(area),
            chart_area.subset_of(area),
            chart_area.wf(),
            forall|cx: int, cy: int|
                final(buf).in_grid(cx, cy) && !area.spec_contains(cx, cy) ==> final(buf).cell_at(
                    cx,
                    cy,
                ) == old(buf).cell_at(cx, cy),
            forall|cx: int, cy: int|
                final(buf).in_grid(cx, cy) && chart_area.spec_contains(cx, cy)
                    ==> final(buf).cell_at(cx, cy) == old(buf).cell_at(cx, cy).styled(self.style),
    {
        buf.set_style(area, self.style);
        let ghost buf_styled = *buf;
        let chart_area: Rect = match &self.block {
            Some(b) => {
                let inner_area = b.inner(area);
                b.render(area, buf);
                inner_area
            },
            None => area,
        };
        proof {
            if self.block is Some {
                lemma_inner_in_area(area);
            }
            assert forall|cx: int, cy: int|
                buf.in_grid(cx, cy) && !area.spec_contains(cx, cy) implies buf.cell_at(cx, cy)
                == old(buf).cell_at(cx, cy) by {
                assert(buf_styled.cell_at(cx, cy) == old(buf).cell_at(cx, cy));
                if self.block is Some {
                    assert(!Block::ring_contains(area, cx, cy));
                }
                assert(buf.cell_at(cx, cy) == buf_styled.cell_at(cx, cy));
            }
            assert forall|cx: int, cy: int|
                buf.in_grid(cx, cy) && chart_area.spec_contains(cx, cy) implies buf.cell_at(
                cx,
                cy,
            ) == old(buf).cell_at(cx, cy).styled(self.style) by {
                assert(buf_styled.cell_at(cx, cy) == old(buf).cell_at(cx, cy).styled(self.style));
                if self.block is Some {
                    assert(!Block::ring_contains(area, cx, cy));
                }
                assert(buf.cell_at(cx, cy) == buf_styled.cell_at(cx, cy));
            }
        }
        chart_area
    }

    /// Records, for every dataset in order, the primitives of its candles
    /// together with its marker, the axis bounds and the canvas
    /// background color.
    fn build_plots(&self) -> (plots: Vec<DatasetPlot>)
        requires
            self.wf(),
            forall|i: int|
                0 <= i < self.datasets@.len() ==> (#[trigger] self.datasets@[i]).data@.len()
                    * X_SCALE + BODY_HALF_WIDTH <= i64::MAX,
        ensures
            plots@.len() == self.datasets@.len(),
            forall|i: int|
                0 <= i < plots@.len() ==> {
                    &&& (#[trigger] plots@[i]).marker == self.datasets@[i].marker
                    &&& plots@[i].x_bounds == self.x_axis.bounds
                    &&& plots@[i].y_bounds == self.y_axis.bounds
                    &&& plots@[i].background == (match self.style.bg {
                        Some(c) => c,
                        None => crate::style::Color::Reset,
                    })
                    &&& plots@[i].ops@ == datas_cmds_upto(
                        self.datasets@[i].data@,
                        self.policy,
                        self.datasets@[i].data@.len() as int,
                    )
                },
    {
        let n = self.datasets.len();
        let mut plots: Vec<DatasetPlot> = Vec::new();
        let mut i: usize = 0;
        while i < n
            invariant
                self.wf(),
                n == self.datasets@.len(),
                0 <= i <= n,
                plots@.len() == i,
                forall|j: int|
                    0 <= j < i ==> {
                        &&& (#[trigger] plots@[j]).marker == self.datasets@[j].marker
                        &&& plots@[j].x_bounds == self.x_axis.bounds
                        &&& plots@[j].y_bounds == self.y_axis.bounds
                        &&& plots@[j].background == (match self.style.bg {
                            Some(c) => c,
                            None => crate::style::Color::Reset,
                        })
                        &&& plots@[j].ops@ == datas_cmds_upto(
                            self.datasets@[j].data@,
                            self.policy,
                            self.datasets@[j].data@.len() as int,
                        )
                    },
                forall|j: int|
                    0 <= j < self.datasets@.len() ==> (#[trigger] self.datasets@[j]).data@.len()
                        * X_SCALE + BODY_HALF_WIDTH <= i64::MAX,
            decreases n - i,
        {
            let d = &self.datasets[i];
            let mut canvas = Canvas::new();
            draw_klines(&d.data, self.policy, &mut canvas);
            let background = match self.style.bg {
                Some(c) => c,
                None => crate::style::Color::Reset,
            };
            plots.push(
                DatasetPlot {
                    marker: d.marker,
                    x_bounds: self.x_axis.bounds,
                    y_bounds: self.y_axis.bounds,
                    background,
                    ops: canvas.ops,
                },
            );
            i = i + 1;
        }
        plots
    }

    /// Draws the x-axis title: restores `original_style` over its strip
    /// and writes the title there, clipped to `width` columns.  No cell
    /// outside the strip changes.
    #[verifier::rlimit(100)]
    #[verifier::spinoff_prover]
    fn draw_x_title(
        buf: &mut Buffer,
        title: &Label,
        tx: u16,
        ty: u16,
        width: u16,
        original_style: Style,
    )
        requires
            old(buf).wf(),
            title.wf(),
            ty < old(buf).height,
            tx as int + width <= old(buf).width,
            tx as int + width <= u16::MAX,
            ty < u16::MAX,
        ensures
            final(buf).wf(),
            final(buf).same_size(*old(buf)),
            forall|px: int, py: int|
                final(buf).in_grid(px, py) && !(py == ty as int && tx as int <= px < tx as int
                    + width) ==> final(buf).cell_at(px, py) == old(buf).cell_at(px, py),
    {
        buf.set_style(Rect { x: tx, y: ty, width, height: 1 }, original_style);
        let ghost prev = *buf;
        let k = buf.set_label(tx, ty, title, title.style, width);
        proof {
            let gs = title.glyphs@;
            crate::text::lemma_cum_width_mono(gs, 0, k as int);
            assert forall|px: int, py: int|
                buf.in_grid(px, py) && !(py == ty as int && tx as int <= px < tx as int + width)
                    implies buf.cell_at(px, py) == old(buf).cell_at(px, py) by {
                assert(prev.cell_at(px, py) == old(buf).cell_at(px, py));
                if py == ty as int {
                    crate::text::lemma_glyph_at_col_none(gs, k as int, px - tx);
                }
                assert(buf.cell_at(px, py) == prev.cell_at(px, py));
            }
        }
    }

    /// Renders the chart: fills `area` with the chart style, draws the
    /// frame, the tick labels, the axis lines, the legend and the x-axis
    /// title into `buf`, and returns the computed layout together with one
    /// recorded plot per dataset for the host rasterizer.  All writes stay
    /// inside `area`'s rows, between one column left of `area` (where a
    /// right-aligned first x label may sit flush against the graph) and
    /// `area`'s right edge.
    #[verifier::rlimit(100)]
    #[verifier::spinoff_prover]
    pub fn render(&self, area: Rect, buf: &mut Buffer) -> (r: (ChartLayout, Vec<DatasetPlot>))
        requires
            self.wf(),
            old(buf).wf(),
            area.wf(),
            area.spec_right() <= old(buf).width,
            area.spec_bottom() <= old(buf).height,
            forall|i: int|
                0 <= i < self.datasets@.len() ==> (#[trigger] self.datasets@[i]).data@.len()
                    * X_SCALE + BODY_HALF_WIDTH <= i64::MAX,
        ensures
            final(buf).wf(),
            final(buf).same_size(*old(buf)),
            forall|cx: int, cy: int|
                final(buf).in_grid(cx, cy) && outside_render_region(area, cx, cy) ==> final(buf).cell_at(cx, cy) == old(buf).cell_at(cx, cy),
            r.0 == self.spec_layout(self.spec_chart_area(area)),
            (r.0.graph_area.width < 1 || r.0.graph_area.height < 1) ==> r.1@.len() == 0,
            (r.0.graph_area.width >= 1 && r.0.graph_area.height >= 1) ==> r.1@.len()
                == self.datasets@.len(),
            forall|i: int|
                0 <= i < r.1@.len() && r.1@.len() == self.datasets@.len() ==> {
                    &&& (#[trigger] r.1@[i]).marker == self.datasets@[i].marker
                    &&& r.1@[i].x_bounds == self.x_axis.bounds
                    &&& r.1@[i].y_bounds == self.y_axis.bounds
                    &&& r.1@[i].background == (match self.style.bg {
                        Some(c) => c,
                        None => crate::style::Color::Reset,
                    })
                    &&& r.1@[i].ops@ == datas_cmds_upto(
                        self.datasets@[i].data@,
                        self.policy,
                        self.datasets@[i].data@.len() as int,
                    )
                },
            area.spec_area() == 0 ==> forall|cx: int, cy: int|
                final(buf).in_grid(cx, cy) ==> final(buf).cell_at(cx, cy) == old(buf).cell_at(
                    cx,
                    cy,
                ),
            area.spec_area() != 0 && (r.0.graph_area.width < 1 || r.0.graph_area.height < 1)
                ==> forall|cx: int, cy: int|
                final(buf).in_grid(cx, cy) && self.spec_chart_area(area).spec_contains(cx, cy)
                    ==> final(buf).cell_at(cx, cy) == old(buf).cell_at(cx, cy).styled(self.style),
            r.0.graph_area.width >= 1 && r.0.graph_area.height >= 1 ==> (match r.0.axis_x {
                Some(row) => forall|c: int|
                    r.0.graph_area.spec_left() <= c < r.0.graph_area.spec_right()
                        ==> #[trigger] final(buf).cell_at(c, row as int) == old(buf).cell_at(
                        c,
                        row as int,
                    ).styled(self.style).written('─', self.x_axis.style),
                None => true,
            }),
            r.0.graph_area.width >= 1 && r.0.graph_area.height >= 1 ==> (match r.0.axis_y {
                Some(col) => forall|rr: int|
                    r.0.graph_area.spec_top() <= rr < r.0.graph_area.spec_bottom()
                        ==> #[trigger] final(buf).cell_at(col as int, rr) == old(buf).cell_at(
                        col as int,
                        rr,
                    ).styled(self.style).written('│', self.y_axis.style),
                None => true,
            }),
            r.0.graph_area.width >= 1 && r.0.graph_area.height >= 1 ==> (match (
                r.0.axis_x,
                r.0.axis_y,
            ) {
                (Some(row), Some(col)) => final(buf).cell_at(col as int, row as int) == old(
                    buf,
                ).cell_at(col as int, row as int).styled(self.style).written(
                    '└',
                    self.x_axis.style,
                ),
                _ => true,
            }),
    {
        if area.area() == 0 {
            proof {
                assert(area.width == 0 || area.height == 0) by (nonlinear_arith)
                    requires
                        area.width * area.height == 0,
                ;
            }
            return (ChartLayout::default(), Vec::new());
        }
        let chart_area: Rect = self.fill_and_frame(buf, area);
        proof {
            assert(area.width > 0 && area.height > 0) by (nonlinear_arith)
                requires
                    area.width * area.height != 0,
            ;
        }
        let original_style = buf.get(area.left(), area.top()).style();
        let ghost buf_frame = *buf;
        let layout = self.layout(chart_area);
        let graph_area = layout.graph_area;
        proof {
            lemma_graph_in_chart(*self, chart_area);
            lemma_layout_rows(*self, chart_area);
        }
        if graph_area.width < 1 || graph_area.height < 1 {
            proof {
                assert forall|cx: int, cy: int|
                    buf.in_grid(cx, cy) && chart_area.spec_contains(cx, cy) implies buf.cell_at(
                    cx,
                    cy,
                ) == old(buf).cell_at(cx, cy).styled(self.style) by {
                    assert(buf_frame.cell_at(cx, cy) == old(buf).cell_at(cx, cy).styled(
                        self.style,
                    ));
                }
                assert forall|cx: int, cy: int|
                    buf.in_grid(cx, cy) && outside_render_region(area, cx, cy)
                        implies buf.cell_at(cx, cy) == old(buf).cell_at(cx, cy) by {
                    assert(!area.spec_contains(cx, cy));
                    assert(buf_frame.cell_at(cx, cy) == old(buf).cell_at(cx, cy));
                }
            }
            return (layout, Vec::new());
        }
        proof {
            assert(graph_area.spec_area() > 0) by (nonlinear_arith)
                requires
                    graph_area.width >= 1,
                    graph_area.height >= 1,
            ;
            assert(chart_area.spec_left() <= graph_area.spec_left());
            assert(graph_area.spec_right() <= chart_area.spec_right());
            assert(chart_area.spec_top() <= graph_area.spec_top());
            assert(graph_area.spec_bottom() <= chart_area.spec_bottom());
        }
        self.render_x_labels(buf, &layout, chart_area, graph_area);
        let ghost buf_xl = *buf;
        self.render_y_labels(buf, &layout, chart_area, graph_area);
        let ghost buf_yl = *buf;
        proof {
            // the axis-line row and column still hold only the background
            // style: the tick labels wrote elsewhere.
            assert forall|cx: int, cy: int|
                buf.in_grid(cx, cy) && chart_area.spec_contains(cx, cy) && ((match layout.axis_x {
                    Some(row) => cy == row as int,
                    None => false,
                }) || (match layout.axis_y {
                    Some(col) => cx == col as int && graph_area.spec_top() <= cy
                        < graph_area.spec_bottom(),
                    None => false,
                })) implies buf.cell_at(cx, cy) == old(buf).cell_at(
                cx,
                cy,
            ).styled(self.style) by {
                assert(buf_frame.cell_at(cx, cy) == old(buf).cell_at(cx, cy).styled(self.style));
                assert(buf_xl.cell_at(cx, cy) == buf_frame.cell_at(cx, cy));
                assert(buf_yl.cell_at(cx, cy) == buf_xl.cell_at(cx, cy));
            }
        }
        self.draw_axis_lines(buf, &layout, graph_area, area);
        let ghost buf_axes = *buf;
        let plots: Vec<DatasetPlot> = self.build_plots();
        if let Some(legend_area) = layout.legend_area {
            proof {
                lemma_legend_size(*self, chart_area);
                assert(legend_area.spec_area() > 0) by (nonlinear_arith)
                    requires
                        legend_area.width >= 2,
                        legend_area.height >= 2,
                ;
            }
            self.draw_legend(buf, legend_area, original_style);
        }
        let ghost buf_leg = *buf;
        proof {
            assert forall|px: int, py: int|
                buf_leg.in_grid(px, py) && !(match layout.legend_area {
                    Some(lr) => lr.spec_contains(px, py),
                    None => false,
                }) implies buf_leg.cell_at(px, py) == buf_axes.cell_at(px, py) by {}
        }
        if let Some(anchor) = layout.title_x {
            let tx: u16 = anchor.0;
            let ty: u16 = anchor.1;
            match &self.x_axis.title {
                Some(title) => {
                    let width: u16 = graph_area.right() - tx;
                    Self::draw_x_title(buf, title, tx, ty, width, original_style);
                },
                None => (),
            }
        }
        proof {
            assert forall|px: int, py: int|
                buf.in_grid(px, py) && outside_render_region(area, px, py) implies buf.cell_at(
                px,
                py,
            ) == old(buf).cell_at(px, py) by {
                assert(!area.spec_contains(px, py));
                assert(buf_frame.cell_at(px, py) == old(buf).cell_at(px, py));
                assert(buf_xl.cell_at(px, py) == buf_frame.cell_at(px, py));
                assert(buf_yl.cell_at(px, py) == buf_xl.cell_at(px, py));
                assert(buf_axes.cell_at(px, py) == axis_cell(
                    buf_yl,
                    layout,
                    graph_area,
                    self.x_axis.style,
                    self.y_axis.style,
                    px,
                    py,
                ));
                if (match layout.legend_area {
                    Some(lr) => lr.spec_contains(px, py),
                    None => false,
                }) {
                    let lr = layout.legend_area.unwrap();
                    lr.lemma_subset_contains(graph_area, px, py);
                    graph_area.lemma_subset_contains(chart_area, px, py);
                    chart_area.lemma_subset_contains(area, px, py);
                }
                assert(buf_leg.cell_at(px, py) == buf_axes.cell_at(px, py));
                assert(buf.cell_at(px, py) == buf_leg.cell_at(px, py));
            }
            if layout.legend_area is Some {
                lemma_legend_size(*self, chart_area);
                let lr = layout.legend_area.unwrap();
                assert(lr.spec_area() > 0) by (nonlinear_arith)
                    requires
                        lr.width >= 2,
                        lr.height >= 2,
                ;
            }
            match layout.axis_x {
                Some(row) => {
                    assert forall|c: int|
                        graph_area.spec_left() <= c < graph_area.spec_right() implies #[trigger]
                    buf.cell_at(c, row as int) == old(buf).cell_at(c, row as int).styled(
                        self.style,
                    ).written('─', self.x_axis.style) by {
                        assert(buf_yl.in_grid(c, row as int) && chart_area.spec_contains(
                            c,
                            row as int,
                        ));
                        assert(buf_yl.cell_at(c, row as int) == old(buf).cell_at(
                            c,
                            row as int,
                        ).styled(self.style));
                        assert(buf_axes.cell_at(c, row as int) == axis_cell(
                            buf_yl,
                            layout,
                            graph_area,
                            self.x_axis.style,
                            self.y_axis.style,
                            c,
                            row as int,
                        ));
                        assert(buf_leg.cell_at(c, row as int) == buf_axes.cell_at(c, row as int));
                        assert(buf.cell_at(c, row as int) == buf_leg.cell_at(c, row as int));
                    }
                },
                None => (),
            }
            match layout.axis_y {
                Some(col) => {
                    assert forall|rr: int|
                        graph_area.spec_top() <= rr < graph_area.spec_bottom() implies #[trigger]
                    buf.cell_at(col as int, rr) == old(buf).cell_at(col as int, rr).styled(
                        self.style,
                    ).written('│', self.y_axis.style) by {
                        assert(buf_yl.in_grid(col as int, rr) && chart_area.spec_contains(
                            col as int,
                            rr,
                        ));
                        assert(buf_yl.cell_at(col as int, rr) == old(buf).cell_at(col as int, rr)
                            .styled(self.style));
                        assert(buf_axes.cell_at(col as int, rr) == axis_cell(
                            buf_yl,
                            layout,
                            graph_area,
                            self.x_axis.style,
                            self.y_axis.style,
                            col as int,
                            rr,
                        ));
                        assert(buf_leg.cell_at(col as int, rr) == buf_axes.cell_at(col as int, rr));
                        assert(buf.cell_at(col as int, rr) == buf_leg.cell_at(col as int, rr));
                    }
                },
                None => (),
            }
            if layout.axis_x is Some && layout.axis_y is Some {
                let row = layout.axis_x.unwrap();
                let col = layout.axis_y.unwrap();
                assert(buf_yl.in_grid(col as int, row as int) && chart_area.spec_contains(
                    col as int,
                    row as int,
                ));
                assert(buf_yl.cell_at(col as int, row as int) == old(buf).cell_at(
                    col as int,
                    row as int,
                ).styled(self.style));
                assert(buf_axes.cell_at(col as int, row as int) == axis_cell(
                    buf_yl,
                    layout,
                    graph_area,
                    self.x_axis.style,
                    self.y_axis.style,
                    col as int,
                    row as int,
                ));
                assert(buf_leg.cell_at(col as int, row as int) == buf_axes.cell_at(
                    col as int,
                    row as int,
                ));
                assert(buf.cell_at(col as int, row as int) == buf_leg.cell_at(
                    col as int,
                    row as int,
                ));
            }
        }
        (layout, plots)
    }
}


/// A zero-area container yields the all-empty layout: a zero-sized graph
/// rectangle and every optional part unset.
pub proof fn lemma_layout_zero_area(chart: KLine, area: Rect)
    requires
        area.spec_area() == 0,
    ensures
        chart.spec_layout(area) == ChartLayout::spec_default(),
{
    assert(area.width == 0 || area.height == 0) by (nonlinear_arith)
        requires
            area.width * area.height == 0,
    ;
}

/// The reserved left-label width is never negative.
pub proof fn lemma_left_label_width_nonneg(chart: KLine, area: Rect, has_y_axis: bool)
    ensures
        0 <= chart.spec_left_label_width(area, has_y_axis),
{
    match chart.y_axis.labels {
        Some(ls) => lemma_max_label_width_nonneg(ls@, ls@.len() as int),
        None => {},
    }
}

/// The graph area lies inside the container the layout was computed for;
/// when it exists at all it keeps the container's top edge and right
/// edge, is at least one column wide and at least two rows tall.
pub proof fn lemma_graph_in_chart(chart: KLine, area: Rect)
    requires
        area.wf(),
    ensures
        chart.spec_layout(area).graph_area.subset_of(area),
        chart.spec_layout(area).graph_area.wf(),
        chart.spec_layout(area).graph_area.width > 0 ==> {
            let graph = chart.spec_layout(area).graph_area;
            &&& graph.y == area.y
            &&& graph.spec_right() == area.spec_right()
            &&& graph.height >= 2
        },
{
    let graph = chart.spec_layout(area).graph_area;
    if area.width == 0 || area.height == 0 {
        assert(graph.spec_area() == 0) by (nonlinear_arith)
            requires
                graph.width == 0 || graph.height == 0,
        ;
    } else {
        let has_y = chart.y_axis.labels is Some;
        lemma_left_label_width_nonneg(chart, area, has_y);
        if graph.width == 0 || graph.height == 0 {
            assert(graph.spec_area() == 0) by (nonlinear_arith)
                requires
                    graph.width == 0 || graph.height == 0,
            ;
        }
    }
}

/// The frame's inner rectangle lies inside the frame's own area.
pub proof fn lemma_inner_in_area(area: Rect)
    requires
        area.wf(),
    ensures
        Block::spec_inner(area).subset_of(area),
        Block::spec_inner(area).wf(),
{
    let inner = Block::spec_inner(area);
    if inner.width == 0 || inner.height == 0 {
        assert(inner.spec_area() == 0) by (nonlinear_arith)
            requires
                inner.width == 0 || inner.height == 0,
        ;
    }
}

/// The parts nest: the graph area lies inside the chart area that the
/// frame carves out of the container, which lies inside the container.
pub proof fn lemma_chart_nesting(chart: KLine, container: Rect)
    requires
        container.wf(),
    ensures
        Block::spec_inner(container).subset_of(container),
        chart.spec_layout(Block::spec_inner(container)).graph_area.subset_of(
            Block::spec_inner(container),
        ),
        chart.spec_layout(Block::spec_inner(container)).graph_area.subset_of(container),
{
    let inner = Block::spec_inner(container);
    lemma_inner_in_area(container);
    lemma_graph_in_chart(chart, inner);
    Rect::lemma_subset_trans(chart.spec_layout(inner).graph_area, inner, container);
}

/// A legend, when present, is exactly two columns wider than the widest
/// dataset name, two rows taller than the dataset count, and lies inside
/// the graph area.
pub proof fn lemma_legend_size(chart: KLine, area: Rect)
    requires
        chart.wf(),
        area.wf(),
    ensures
        match chart.spec_layout(area).legend_area {
            Some(lr) => {
                &&& lr.width == max_name_width(chart.datasets@, chart.datasets@.len() as int) + 2
                &&& lr.height == chart.datasets@.len() + 2
                &&& lr.subset_of(chart.spec_layout(area).graph_area)
            },
            None => true,
        },
{
    let l = chart.spec_layout(area);
    match l.legend_area {
        Some(lr) => {
            let graph = l.graph_area;
            let n = chart.datasets@.len() as int;
            let iw = max_name_width(chart.datasets@, n);
            lemma_max_name_width_nonneg(chart.datasets@, n);
            lemma_ratio_apply_le(chart.hidden_legend_constraints.0, graph.width as int);
            lemma_ratio_apply_le(chart.hidden_legend_constraints.1, graph.height as int);
        },
        None => {},
    }
}


/// Where the layout puts its rows and columns: every reserved row or
/// column lies inside the container, a label row is only reserved when the
/// axis has labels, and the x-axis title anchor sits on the graph's bottom
/// row, left of its right edge.
pub proof fn lemma_layout_rows(k: KLine, area: Rect)
    requires
        area.wf(),
    ensures
        match k.spec_layout(area).label_x {
            Some(y) => area.spec_top() <= y < area.spec_bottom(),
            None => true,
        },
        match k.spec_layout(area).axis_x {
            Some(y) => area.spec_top() <= y < area.spec_bottom(),
            None => true,
        },
        match k.spec_layout(area).axis_y {
            Some(x) => area.spec_left() <= x < area.spec_right(),
            None => true,
        },
        match k.spec_layout(area).label_y {
            Some(x) => x == area.x,
            None => true,
        },
        k.spec_layout(area).label_x is Some ==> k.x_axis.labels is Some,
        k.spec_layout(area).label_y is Some ==> k.y_axis.labels is Some,
        k.spec_layout(area).title_x is Some ==> k.x_axis.title is Some,
        k.spec_layout(area).graph_area.width > 0 ==> (match k.spec_layout(area).axis_x {
            Some(row) => row == k.spec_layout(area).graph_area.spec_bottom(),
            None => true,
        }),
        k.spec_layout(area).graph_area.width > 0 ==> (match k.spec_layout(area).axis_y {
            Some(col) => col == k.spec_layout(area).graph_area.spec_left() - 1,
            None => true,
        }),
        match (k.spec_layout(area).label_x, k.spec_layout(area).axis_x) {
            (Some(lr), Some(r)) => r < lr,
            _ => true,
        },
        match k.spec_layout(area).title_x {
            Some(p) => k.spec_layout(area).graph_area.spec_left() < p.0
                <= k.spec_layout(area).graph_area.spec_right() && p.1 == (
            match k.spec_layout(area).label_x {
                Some(r) => r as int,
                None => k.spec_layout(area).graph_area.spec_bottom() - 1,
            }) && area.spec_top() <= p.1 < area.spec_bottom() && k.spec_layout(
                area,
            ).graph_area.height > 2,
            None => true,
        },
{
    if !(area.width == 0 || area.height == 0) {
        lemma_left_label_width_nonneg(k, area, k.y_axis.labels is Some);
        lemma_graph_in_chart(k, area);
    }
}

} // verus!

