//! Cell-grid geometry: rectangles and label alignment.

use vstd::prelude::*;

verus! {

/// Horizontal placement of a text label within its bounding rectangle.
#[derive(Clone, Copy, Debug, PartialEq, Eq, Structural)]
pub enum Alignment {
    Left,
    Center,
    Right,
}

/// A rectangle on the terminal cell grid; `(x, y)` is its top-left corner.
#[derive(Clone, Copy, Debug, PartialEq, Eq, Structural)]
pub struct Rect {
    pub x: u16,
    pub y: u16,
    pub width: u16,
    pub height: u16,
}

impl Rect {
    /// The right and bottom edges stay representable in `u16`.
    pub open spec fn wf(self) -> bool {
        self.x + self.width <= u16::MAX && self.y + self.height <= u16::MAX
    }

    pub open spec fn spec_left(self) -> int {
        self.x as int
    }

    pub open spec fn spec_right(self) -> int {
        self.x + self.width
    }

    pub open spec fn spec_top(self) -> int {
        self.y as int
    }

    pub open spec fn spec_bottom(self) -> int {
        self.y + self.height
    }

    pub open spec fn spec_area(self) -> int {
        self.width * self.height
    }

    /// The cell in column `cx`, row `cy` lies inside `self`.
    pub open spec fn spec_contains(self, cx: int, cy: int) -> bool {
        self.spec_left() <= cx < self.spec_right() && self.spec_top() <= cy < self.spec_bottom()
    }

    /// Every cell of `self` lies inside `other`.
    pub open spec fn subset_of(self, other: Rect) -> bool {
        self.spec_area() == 0 || (other.spec_left() <= self.spec_left()
            && self.spec_right() <= other.spec_right() && other.spec_top() <= self.spec_top()
            && self.spec_bottom() <= other.spec_bottom())
    }

    /// A rectangle with a cell in it has a positive area.
    pub proof fn lemma_nonempty(self, cx: int, cy: int)
        requires
            self.spec_contains(cx, cy),
        ensures
            self.spec_area() > 0,
    {
        assert(self.width > 0 && self.height > 0);
        assert(self.width * self.height > 0) by (nonlinear_arith)
            requires
                self.width > 0,
                self.height > 0,
        ;
    }

    /// What `subset_of` says cell by cell: every cell of `self` is a
    /// cell of `other`.
    pub proof fn lemma_subset_contains(self, other: Rect, cx: int, cy: int)
        requires
            self.subset_of(other),
            self.spec_contains(cx, cy),
        ensures
            other.spec_contains(cx, cy),
    {
        self.lemma_nonempty(cx, cy);
    }

    pub proof fn lemma_subset_trans(a: Rect, b: Rect, c: Rect)
        requires
            a.subset_of(b),
            b.subset_of(c),
        ensures
            a.subset_of(c),
    {
        if a.spec_area() != 0 {
            assert(a.width > 0 && a.height > 0) by (nonlinear_arith)
                requires
                    a.width * a.height != 0,
            ;
            assert(b.width >= a.width && b.height >= a.height);
            assert(b.width * b.height > 0) by (nonlinear_arith)
                requires
                    b.width > 0,
                    b.height > 0,
            ;
        }
    }

    pub fn new(x: u16, y: u16, width: u16, height: u16) -> (r: Rect)
        requires
            x + width <= u16::MAX,
            y + height <= u16::MAX,
        ensures
            r == (Rect { x, y, width, height }),
            r.wf(),
    {
        Rect { x, y, width, height }
    }

    pub fn left(&self) -> (r: u16)
        ensures
            r == self.spec_left(),
    {
        self.x
    }

    pub fn right(&self) -> (r: u16)
        requires
            self.wf(),
        ensures
            r == self.spec_right(),
    {
        self.x + self.width
    }

    pub fn top(&self) -> (r: u16)
        ensures
            r == self.spec_top(),
    {
        self.y
    }

    pub fn bottom(&self) -> (r: u16)
        requires
            self.wf(),
        ensures
            r == self.spec_bottom(),
    {
        self.y + self.height
    }

    pub fn area(&self) -> (r: u32)
        ensures
            r == self.spec_area(),
    {
        proof {
            assert(self.width * self.height <= 0xFFFF * 0xFFFF) by (nonlinear_arith)
                requires
                    self.width <= 0xFFFF,
                    self.height <= 0xFFFF,
            ;
        }
        self.width as u32 * self.height as u32
    }
}

} // verus!
