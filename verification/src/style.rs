//! Cell styling: colors, styles and the gain/loss color policy.

use vstd::prelude::*;

verus! {

/// The terminal colors this crate writes; the host maps them to its own
/// palette.
#[derive(Clone, Copy, Debug, PartialEq, Eq, Structural)]
pub enum Color {
    Reset,
    Black,
    Red,
    Green,
    Yellow,
    Blue,
    Magenta,
    Cyan,
    Gray,
    DarkGray,
    LightGreen,
    LightRed,
    White,
}

/// A partial style: a field left `None` keeps whatever a cell already has.
#[derive(Clone, Copy, Debug, PartialEq, Eq)]
pub struct Style {
    pub fg: Option<Color>,
    pub bg: Option<Color>,
}

impl Style {
    /// The empty style: changes nothing when applied.
    pub fn new() -> (r: Style)
        ensures
            r == (Style { fg: None::<Color>, bg: None::<Color> }),
    {
        Style { fg: None, bg: None }
    }

    pub fn fg(self, color: Color) -> (r: Style)
        ensures
            r == (Style { fg: Some(color), ..self }),
    {
        Style { fg: Some(color), ..self }
    }

    pub fn bg(self, color: Color) -> (r: Style)
        ensures
            r == (Style { bg: Some(color), ..self }),
    {
        Style { bg: Some(color), ..self }
    }
}

impl Default for Style {
    fn default() -> (r: Style)
        ensures
            r == (Style { fg: None::<Color>, bg: None::<Color> }),
    {
        Style { fg: None, bg: None }
    }
}

/// Maps the classification of a trading period to a color: `gain` is used
/// when the open price is at or above the close, `loss` when the period
/// closed higher than it opened.
#[derive(Clone, Copy, Debug, PartialEq, Eq, Structural)]
pub struct ColorPolicy {
    pub gain: Color,
    pub loss: Color,
}

impl ColorPolicy {
    /// The color the policy picks for a period that opened at `open` and
    /// closed at `close`: the tie goes to the gain color.
    pub open spec fn spec_pick(self, open: int, close: int) -> Color {
        if open < close {
            self.loss
        } else {
            self.gain
        }
    }

    pub fn pick(&self, open: i64, close: i64) -> (r: Color)
        ensures
            r == self.spec_pick(open as int, close as int),
    {
        if open < close {
            self.loss
        } else {
            self.gain
        }
    }
}

/// The default policy's tie-break: a period that closed where it opened
/// takes the gain color (red), as does one that closed lower; only a
/// period that closed higher takes the loss color (green).
pub proof fn lemma_default_color_tie_break(open_price: int, close_price: int)
    ensures
        open_price == close_price ==> (ColorPolicy { gain: Color::Red, loss: Color::Green })
            .spec_pick(open_price, close_price) == Color::Red,
        open_price > close_price ==> (ColorPolicy { gain: Color::Red, loss: Color::Green })
            .spec_pick(open_price, close_price) == Color::Red,
        open_price < close_price ==> (ColorPolicy { gain: Color::Red, loss: Color::Green })
            .spec_pick(open_price, close_price) == Color::Green,
{
}

impl Default for ColorPolicy {
    /// The default market convention: red marks a gain, green a loss.
    fn default() -> (r: ColorPolicy)
        ensures
            r == (ColorPolicy { gain: Color::Red, loss: Color::Green }),
    {
        ColorPolicy { gain: Color::Red, loss: Color::Green }
    }
}

} // verus!
