//! An owned grid of styled terminal cells.
//!
//! The chart is rendered into a [`Buffer`]; the host terminal layer copies
//! the cells out.  Every write is verified to stay inside the grid, and
//! label writes are verified never to touch a column outside their bound.

use vstd::prelude::*;

use crate::geom::Rect;
use crate::style::Color;
use crate::style::Style;
use crate::text::Glyph;
use crate::text::Label;
use crate::text::cum_width;
use crate::text::glyph_at_col;
use crate::text::lemma_glyph_at_col_none;

verus! {

/// One terminal cell: a character and its resolved colors.
#[derive(Clone, Copy, Debug, PartialEq, Eq, Structural)]
pub struct Cell {
    pub ch: char,
    pub fg: Color,
    pub bg: Color,
}

impl Cell {
    /// The blank cell a fresh buffer is filled with.
    pub open spec fn spec_default() -> Cell {
        Cell { ch: ' ', fg: Color::Reset, bg: Color::Reset }
    }

    /// `self` with `style` applied on top: a `None` field keeps the cell's
    /// color.
    pub open spec fn styled(self, style: Style) -> Cell {
        Cell {
            ch: self.ch,
            fg: match style.fg {
                Some(c) => c,
                None => self.fg,
            },
            bg: match style.bg {
                Some(c) => c,
                None => self.bg,
            },
        }
    }

    /// `self` after a glyph write: the character is replaced and the style
    /// applied.
    pub open spec fn written(self, ch: char, style: Style) -> Cell {
        Cell { ch, ..self.styled(style) }
    }

    pub fn apply(&mut self, style: Style)
        ensures
            *final(self) == old(self).styled(style),
    {
        if let Some(c) = style.fg {
            self.fg = c;
        }
        if let Some(c) = style.bg {
            self.bg = c;
        }
    }

    /// The cell's colors as a full style.
    pub fn style(&self) -> (r: Style)
        ensures
            r == (Style { fg: Some(self.fg), bg: Some(self.bg) }),
    {
        Style { fg: Some(self.fg), bg: Some(self.bg) }
    }
}

/// Positions `(cx, cy)` with `cx < w` map injectively to `cy * w + cx`.
pub proof fn lemma_idx_distinct(w: int, cx1: int, cy1: int, cx2: int, cy2: int)
    requires
        0 <= cx1 < w,
        0 <= cx2 < w,
        0 <= cy1,
        0 <= cy2,
        cx1 != cx2 || cy1 != cy2,
    ensures
        cy1 * w + cx1 != cy2 * w + cx2,
{
    assert(cy1 * w + cx1 != cy2 * w + cx2) by (nonlinear_arith)
        requires
            0 <= cx1 < w,
            0 <= cx2 < w,
            0 <= cy1,
            0 <= cy2,
            cx1 != cx2 || cy1 != cy2,
    ;
}

/// A cell inside the grid has its index inside the cell vector, and the
/// vector itself is small enough to address.
pub proof fn lemma_idx_in_bounds(w: int, h: int, cx: int, cy: int)
    requires
        0 <= cx < w <= u16::MAX,
        0 <= cy < h <= u16::MAX,
    ensures
        0 <= cy * w + cx < h * w,
        h * w <= 0xFFFF * 0xFFFF,
{
    assert(0 <= cy * w + cx < h * w && h * w <= 0xFFFF * 0xFFFF) by (nonlinear_arith)
        requires
            0 <= cx < w <= 0xFFFF,
            0 <= cy < h <= 0xFFFF,
    ;
}

/// A rectangular grid of cells, indexed by column and row from the top-left
/// corner.
#[derive(Clone, Debug, PartialEq, Eq)]
pub struct Buffer {
    pub width: u16,
    pub height: u16,
    pub cells: Vec<Cell>,
}

impl Buffer {
    /// The cell vector covers the grid exactly.
    pub open spec fn wf(self) -> bool {
        self.cells@.len() == (self.height * self.width) as nat
    }

    pub open spec fn spec_idx(self, cx: int, cy: int) -> int {
        cy * self.width + cx
    }

    pub open spec fn cell_at(self, cx: int, cy: int) -> Cell {
        self.cells@[self.spec_idx(cx, cy)]
    }

    /// Same grid size as `other`.
    pub open spec fn same_size(self, other: Buffer) -> bool {
        self.width == other.width && self.height == other.height
    }

    pub open spec fn in_grid(self, cx: int, cy: int) -> bool {
        0 <= cx < self.width && 0 <= cy < self.height
    }

    /// A blank grid of the given size.
    pub fn new(width: u16, height: u16) -> (r: Buffer)
        ensures
            r.wf(),
            r.width == width,
            r.height == height,
            forall|cx: int, cy: int|
                r.in_grid(cx, cy) ==> r.cell_at(cx, cy) == Cell::spec_default(),
    {
        proof {
            assert(height * width <= 0xFFFF * 0xFFFF) by (nonlinear_arith)
                requires
                    height <= 0xFFFF,
                    width <= 0xFFFF,
            ;
        }
        let n: usize = height as usize * width as usize;
        let mut cells: Vec<Cell> = Vec::new();
        let mut i: usize = 0;
        while i < n
            invariant
                i <= n,
                cells@.len() == i,
                forall|k: int| 0 <= k < i ==> cells@[k] == Cell::spec_default(),
            decreases n - i,
        {
            cells.push(Cell { ch: ' ', fg: Color::Reset, bg: Color::Reset });
            i = i + 1;
        }
        let r = Buffer { width, height, cells };
        proof {
            assert forall|cx: int, cy: int| r.in_grid(cx, cy) implies r.cell_at(cx, cy)
                == Cell::spec_default() by {
                lemma_idx_in_bounds(width as int, height as int, cx, cy);
            }
        }
        r
    }

    pub fn get(&self, x: u16, y: u16) -> (r: Cell)
        requires
            self.wf(),
            self.in_grid(x as int, y as int),
        ensures
            r == self.cell_at(x as int, y as int),
    {
        proof {
            lemma_idx_in_bounds(self.width as int, self.height as int, x as int, y as int);
        }
        self.cells[y as usize * self.width as usize + x as usize]
    }

    /// Writes one character with a style at `(x, y)`; every other cell is
    /// untouched.
    pub fn put(&mut self, x: u16, y: u16, ch: char, style: Style)
        requires
            old(self).wf(),
            old(self).in_grid(x as int, y as int),
        ensures
            final(self).wf(),
            final(self).same_size(*old(self)),
            forall|cx: int, cy: int|
                final(self).in_grid(cx, cy) ==> #[trigger] final(self).cell_at(cx, cy) == (if cx
                    == x as int && cy == y as int {
                    old(self).cell_at(cx, cy).written(ch, style)
                } else {
                    old(self).cell_at(cx, cy)
                }),
    {
        proof {
            lemma_idx_in_bounds(self.width as int, self.height as int, x as int, y as int);
        }
        let idx: usize = y as usize * self.width as usize + x as usize;
        let mut cell = self.cells[idx];
        cell.ch = ch;
        cell.apply(style);
        self.cells[idx] = cell;
        proof {
            assert forall|cx: int, cy: int| self.in_grid(cx, cy) implies #[trigger] self.cell_at(
                cx,
                cy,
            ) == (if cx == x as int && cy == y as int {
                old(self).cell_at(cx, cy).written(ch, style)
            } else {
                old(self).cell_at(cx, cy)
            }) by {
                lemma_idx_in_bounds(self.width as int, self.height as int, cx, cy);
                if cx != x as int || cy != y as int {
                    lemma_idx_distinct(self.width as int, cx, cy, x as int, y as int);
                }
            }
        }
    }

    /// Applies `style` to every cell in the intersection of `area` with the
    /// grid; nothing else changes.
    pub fn set_style(&mut self, area: Rect, style: Style)
        requires
            old(self).wf(),
            area.wf(),
        ensures
            final(self).wf(),
            final(self).same_size(*old(self)),
            forall|cx: int, cy: int|
                final(self).in_grid(cx, cy) ==> #[trigger] final(self).cell_at(cx, cy) == (if
                    area.spec_contains(cx, cy) {
                    old(self).cell_at(cx, cy).styled(style)
                } else {
                    old(self).cell_at(cx, cy)
                }),
    {
        let y_end: u16 = if area.y + area.height < self.height {
            area.y + area.height
        } else {
            self.height
        };
        let x_end: u16 = if area.x + area.width < self.width {
            area.x + area.width
        } else {
            self.width
        };
        let mut cy: u16 = area.y;
        while cy < y_end
            invariant
                self.wf(),
                self.same_size(*old(self)),
                area.y <= cy,
                cy <= y_end || y_end < area.y,
                y_end <= self.height,
                y_end == if area.spec_bottom() < self.height {
                    area.spec_bottom()
                } else {
                    self.height as int
                },
                x_end <= self.width,
                x_end == if area.spec_right() < self.width {
                    area.spec_right()
                } else {
                    self.width as int
                },
                forall|px: int, py: int|
                    self.in_grid(px, py) ==> #[trigger] self.cell_at(px, py) == (if
                        area.spec_contains(px, py) && py < cy {
                        old(self).cell_at(px, py).styled(style)
                    } else {
                        old(self).cell_at(px, py)
                    }),
            decreases y_end - cy,
        {
            let mut cx: u16 = area.x;
            while cx < x_end
                invariant
                    self.wf(),
                    self.same_size(*old(self)),
                    area.x <= cx,
                    cx <= x_end || x_end < area.x,
                    x_end <= self.width,
                    x_end == if area.spec_right() < self.width {
                        area.spec_right()
                    } else {
                        self.width as int
                    },
                    area.y <= cy < y_end,
                    cy < area.spec_bottom(),
                    y_end <= self.height,
                    forall|px: int, py: int|
                        self.in_grid(px, py) ==> #[trigger] self.cell_at(px, py) == (if
                            area.spec_contains(px, py) && (py < cy || (py == cy && px < cx)) {
                            old(self).cell_at(px, py).styled(style)
                        } else {
                            old(self).cell_at(px, py)
                        }),
                decreases x_end - cx,
            {
                proof {
                    lemma_idx_in_bounds(
                        self.width as int,
                        self.height as int,
                        cx as int,
                        cy as int,
                    );
                }
                let idx: usize = cy as usize * self.width as usize + cx as usize;
                let mut cell = self.cells[idx];
                cell.apply(style);
                let ghost prev = *self;
                self.cells[idx] = cell;
                proof {
                    assert forall|px: int, py: int| self.in_grid(px, py) implies #[trigger] self
                        .cell_at(px, py) == (if area.spec_contains(px, py) && (py < cy || (py == cy
                        && px < cx + 1)) {
                        old(self).cell_at(px, py).styled(style)
                    } else {
                        old(self).cell_at(px, py)
                    }) by {
                        lemma_idx_in_bounds(self.width as int, self.height as int, px, py);
                        assert(prev.cell_at(px, py) == (if area.spec_contains(px, py) && (py < cy
                            || (py == cy && px < cx)) {
                            old(self).cell_at(px, py).styled(style)
                        } else {
                            old(self).cell_at(px, py)
                        }));
                        if px != cx as int || py != cy as int {
                            lemma_idx_distinct(self.width as int, px, py, cx as int, cy as int);
                            assert(self.cell_at(px, py) == prev.cell_at(px, py));
                        } else {
                            assert(self.cell_at(px, py) == prev.cell_at(px, py).styled(style));
                        }
                    }
                }
                cx = cx + 1;
            }
            cy = cy + 1;
        }
    }

    /// How many columns are available for a label written at column `x`
    /// with width bound `max_width`: the bound, clipped to the grid edge.
    pub open spec fn clip_bound(self, x: int, max_width: int) -> int {
        if max_width < self.width - x {
            max_width
        } else {
            self.width - x
        }
    }

    /// Writes `label` at `(x, y)` with `style`: the longest prefix of its
    /// glyphs whose total width fits `max_width` columns (clipped to the
    /// grid's right edge), each glyph at the end of the columns before it.
    /// Returns the number of glyphs written.  No cell outside row `y`
    /// changes, and in row `y` only anchor columns inside the bound
    /// change.
    pub fn set_label(&mut self, x: u16, y: u16, label: &Label, style: Style, max_width: u16) -> (k: usize)
        requires
            old(self).wf(),
            label.wf(),
            y < old(self).height,
            x <= old(self).width,
        ensures
            final(self).wf(),
            final(self).same_size(*old(self)),
            k <= label.glyphs@.len(),
            cum_width(label.glyphs@, k as int) <= old(self).clip_bound(x as int, max_width as int),
            k == label.glyphs@.len() || cum_width(label.glyphs@, k as int + 1) > old(self).clip_bound(
                x as int,
                max_width as int,
            ),
            forall|cx: int, cy: int|
                final(self).in_grid(cx, cy) ==> #[trigger] final(self).cell_at(cx, cy) == (if cy
                    == y as int {
                    match glyph_at_col(label.glyphs@, k as int, cx - x) {
                        Some(g) => old(self).cell_at(cx, cy).written(g.ch, style),
                        None => old(self).cell_at(cx, cy),
                    }
                } else {
                    old(self).cell_at(cx, cy)
                }),
    {
        let bound: u16 = if max_width < self.width - x {
            max_width
        } else {
            self.width - x
        };
        let n: usize = label.glyphs.len();
        let mut j: usize = 0;
        let mut cum: u16 = 0;
        while j < n && cum as u32 + label.glyphs[j].w as u32 <= bound as u32
            invariant
                self.wf(),
                self.same_size(*old(self)),
                label.wf(),
                y < self.height,
                x <= self.width,
                bound == old(self).clip_bound(x as int, max_width as int),
                x + bound <= self.width,
                n == label.glyphs@.len(),
                0 <= j <= n,
                cum == cum_width(label.glyphs@, j as int),
                cum <= bound,
                forall|cx: int, cy: int|
                    self.in_grid(cx, cy) ==> #[trigger] self.cell_at(cx, cy) == (if cy
                        == y as int {
                        match glyph_at_col(label.glyphs@, j as int, cx - x) {
                            Some(g) => old(self).cell_at(cx, cy).written(g.ch, style),
                            None => old(self).cell_at(cx, cy),
                        }
                    } else {
                        old(self).cell_at(cx, cy)
                    }),
            decreases n - j,
        {
            let g = label.glyphs[j];
            assert(g.w >= 1);
            let ghost prev = *self;
            self.put(x + cum, y, g.ch, style);
            proof {
                let gs = label.glyphs@;
                lemma_glyph_at_col_none(gs, j as int, cum as int);
                assert forall|cx: int, cy: int| self.in_grid(cx, cy) implies #[trigger] self
                    .cell_at(cx, cy) == (if cy == y as int {
                    match glyph_at_col(gs, j as int + 1, cx - x) {
                        Some(gg) => old(self).cell_at(cx, cy).written(gg.ch, style),
                        None => old(self).cell_at(cx, cy),
                    }
                } else {
                    old(self).cell_at(cx, cy)
                }) by {
                    assert(glyph_at_col(gs, j as int + 1, cx - x) == (if cum_width(
                        gs,
                        j as int,
                    ) == cx - x {
                        Some(gs[j as int])
                    } else {
                        glyph_at_col(gs, j as int, cx - x)
                    }));
                    assert(prev.cell_at(cx, cy) == (if cy == y as int {
                        match glyph_at_col(gs, j as int, cx - x) {
                            Some(gg) => old(self).cell_at(cx, cy).written(gg.ch, style),
                            None => old(self).cell_at(cx, cy),
                        }
                    } else {
                        old(self).cell_at(cx, cy)
                    }));
                }
            }
            cum = cum + g.w;
            j = j + 1;
        }
        proof {
            if j < n {
                assert(cum_width(label.glyphs@, j as int + 1) == cum + label.glyphs@[j as int].w);
            }
        }
        j
    }
}

} // verus!
