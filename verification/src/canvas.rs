//! The canvas abstraction shapes draw onto.
//!
//! Shapes emit primitives — whole-cell dots or data-space segments — into a
//! [`Canvas`], which records them in order.  The host rendering layer
//! replays the recorded primitives through its own sub-cell rasterizer.

use vstd::prelude::*;

use crate::style::Color;

verus! {

/// One primitive handed to the host rasterizer.
#[derive(Clone, Copy, Debug, PartialEq, Eq, Structural)]
pub enum PaintCmd {
    /// One grid cell painted whole.
    Dot { x: usize, y: usize, color: Color },
    /// A straight segment between two data-space points, in fixed-point
    /// axis units.
    Segment { x1: i64, y1: i64, x2: i64, y2: i64, color: Color },
}

/// Records the primitives that shapes emit, in emission order.
#[derive(Clone, Debug, PartialEq, Eq)]
pub struct Canvas {
    pub ops: Vec<PaintCmd>,
}

impl Canvas {
    pub fn new() -> (r: Canvas)
        ensures
            r.ops@ == Seq::<PaintCmd>::empty(),
    {
        Canvas { ops: Vec::new() }
    }

    /// Paints one whole cell.
    pub fn paint(&mut self, x: usize, y: usize, color: Color)
        ensures
            final(self).ops@ == old(self).ops@.push(PaintCmd::Dot { x, y, color }),
    {
        self.ops.push(PaintCmd::Dot { x, y, color });
    }

    /// Draws one segment in data-space units.
    pub fn line(&mut self, x1: i64, y1: i64, x2: i64, y2: i64, color: Color)
        ensures
            final(self).ops@ == old(self).ops@.push(
                PaintCmd::Segment { x1, y1, x2, y2, color },
            ),
    {
        self.ops.push(PaintCmd::Segment { x1, y1, x2, y2, color });
    }
}

/// The one capability a chart glyph offers: drawing itself onto a canvas.
pub trait Shape {
    /// The primitives this shape stands for, in order.
    spec fn emits(&self) -> Seq<PaintCmd>;

    /// What must hold of the shape's data before it can draw.
    spec fn draw_requires(&self) -> bool;

    /// Appends exactly `self.emits()` to the canvas.
    fn draw(&self, canvas: &mut Canvas)
        requires
            self.draw_requires(),
        ensures
            final(canvas).ops@ == old(canvas).ops@ + self.emits(),
    ;
}

} // verus!
