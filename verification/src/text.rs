//! Styled text labels measured in terminal columns.
//!
//! A [`Label`] keeps, for every character that takes at least one column,
//! the character together with its column width, plus the total width of
//! the label.  Widths come from the `unicode_width` crate; everything
//! built on top of them is verified against the recorded numbers.

use vstd::prelude::*;

use crate::style::Style;

verus! {

/// Number of terminal columns that the `unicode_width` crate assigns to
/// `c`; control characters take no column.
pub uninterp spec fn char_width_of(c: char) -> nat;

/// Relies on `unicode_width::UnicodeWidthChar::width`: the display width in
/// terminal columns of one character, a function of the character alone.
/// Its source returns `Some(1)` for every printable ASCII character and
/// `None` (here 0) for control characters.
#[verifier::external_body]
fn char_display_width(c: char) -> (r: usize)
    ensures
        r == char_width_of(c),
        32 <= c as u32 <= 126 ==> r == 1,
{
    unicode_width::UnicodeWidthChar::width(c).unwrap_or(0)
}

/// One character of a label together with the number of columns it takes.
#[derive(Clone, Copy, Debug, PartialEq, Eq, Structural)]
pub struct Glyph {
    pub ch: char,
    pub w: u16,
}

/// Columns taken by the first `k` glyphs of `gs`.
pub open spec fn cum_width(gs: Seq<Glyph>, k: int) -> int
    decreases k,
{
    if k <= 0 {
        0
    } else {
        cum_width(gs, k - 1) + gs[k - 1].w
    }
}

/// Columns taken by all glyphs of `gs`.
pub open spec fn total_width(gs: Seq<Glyph>) -> int {
    cum_width(gs, gs.len() as int)
}

/// The glyphs of the character sequence `s`: every character that takes at
/// least one column, with its width.
pub open spec fn glyphs_of(s: Seq<char>) -> Seq<Glyph>
    decreases s.len(),
{
    if s.len() == 0 {
        Seq::empty()
    } else {
        let rest = glyphs_of(s.drop_last());
        if char_width_of(s.last()) == 0 {
            rest
        } else {
            rest.push(Glyph { ch: s.last(), w: char_width_of(s.last()) as u16 })
        }
    }
}

pub proof fn lemma_cum_width_push(gs: Seq<Glyph>, g: Glyph, k: int)
    requires
        0 <= k <= gs.len(),
    ensures
        cum_width(gs.push(g), k) == cum_width(gs, k),
    decreases k,
{
    if k > 0 {
        lemma_cum_width_push(gs, g, k - 1);
    }
}

pub proof fn lemma_total_width_push(gs: Seq<Glyph>, g: Glyph)
    ensures
        total_width(gs.push(g)) == total_width(gs) + g.w,
{
    lemma_cum_width_push(gs, g, gs.len() as int);
}

/// Widths are never negative, so the total only grows with the prefix.
pub proof fn lemma_cum_width_mono(gs: Seq<Glyph>, j: int, k: int)
    requires
        0 <= j <= k,
    ensures
        cum_width(gs, j) <= cum_width(gs, k),
    decreases k,
{
    if j < k {
        lemma_cum_width_mono(gs, j, k - 1);
    }
}

/// Columns taken by the character sequence `s` as a whole.
pub open spec fn text_width(s: Seq<char>) -> int
    decreases s.len(),
{
    if s.len() == 0 {
        0
    } else {
        text_width(s.drop_last()) + char_width_of(s.last())
    }
}

/// Extending the character sequence can only widen it.
pub proof fn lemma_text_width_prefix(s: Seq<char>, j: int)
    requires
        0 <= j <= s.len(),
    ensures
        text_width(s.subrange(0, j)) <= text_width(s),
    decreases s.len() - j,
{
    if j == s.len() {
        assert(s.subrange(0, j) =~= s);
    } else {
        lemma_text_width_prefix(s, j + 1);
        assert(s.subrange(0, j + 1).drop_last() =~= s.subrange(0, j));
    }
}

/// Among the first `k` glyphs of `gs`, the one anchored at column offset
/// `c`, where each glyph sits at the end of the columns before it.
pub open spec fn glyph_at_col(gs: Seq<Glyph>, k: int, c: int) -> Option<Glyph>
    decreases k,
{
    if k <= 0 {
        None
    } else if cum_width(gs, k - 1) == c {
        Some(gs[k - 1])
    } else {
        glyph_at_col(gs, k - 1, c)
    }
}

/// When every glyph takes at least one column, no glyph among the first `k`
/// is anchored outside `[0, cum_width(gs, k))`.
pub proof fn lemma_glyph_at_col_none(gs: Seq<Glyph>, k: int, c: int)
    requires
        0 <= k <= gs.len(),
        forall|j: int| 0 <= j < gs.len() ==> (#[trigger] gs[j]).w >= 1,
        c < 0 || c >= cum_width(gs, k),
    ensures
        glyph_at_col(gs, k, c) is None,
    decreases k,
{
    if k > 0 {
        assert(cum_width(gs, k) == cum_width(gs, k - 1) + gs[k - 1].w);
        assert(gs[k - 1].w >= 1);
        lemma_cum_width_mono(gs, 0, k - 1);
        lemma_glyph_at_col_none(gs, k - 1, c);
    }
}

/// A clipped, aligned run of text with a style, ready to be written into a
/// cell buffer.
#[derive(Clone, Debug, PartialEq, Eq)]
pub struct Label {
    pub glyphs: Vec<Glyph>,
    pub width: u16,
    pub style: Style,
}

impl Label {
    /// The recorded total width matches the glyphs, and every glyph takes
    /// at least one column.
    pub open spec fn wf(self) -> bool {
        &&& self.width == total_width(self.glyphs@)
        &&& forall|k: int| 0 <= k < self.glyphs@.len() ==> (#[trigger] self.glyphs@[k]).w >= 1
    }

    pub open spec fn spec_width(self) -> int {
        self.width as int
    }

    /// Builds a label from `text`, measuring every character with
    /// `unicode_width`.  Returns `None` when the text is wider than a cell
    /// grid can be (`u16::MAX` columns).
    pub fn new(text: &str, style: Style) -> (r: Option<Label>)
        ensures
            match r {
                Some(l) => {
                    &&& l.wf()
                    &&& l.style == style
                    &&& l.glyphs@ == glyphs_of(text@)
                    &&& l.width == text_width(text@)
                },
                None => text_width(text@) > u16::MAX,
            },
    {
        let n = text.unicode_len();
        let mut glyphs: Vec<Glyph> = Vec::new();
        let mut width: u16 = 0;
        let mut i: usize = 0;
        while i < n
            invariant
                n == text@.len(),
                0 <= i <= n,
                glyphs@ == glyphs_of(text@.subrange(0, i as int)),
                width == total_width(glyphs@),
                width == text_width(text@.subrange(0, i as int)),
                forall|k: int| 0 <= k < glyphs@.len() ==> (#[trigger] glyphs@[k]).w >= 1,
            decreases n - i,
        {
            let c = text.get_char(i);
            let w = char_display_width(c);
            proof {
                assert(text@.subrange(0, i + 1).drop_last() =~= text@.subrange(0, i as int));
                assert(text@.subrange(0, i + 1).last() == text@[i as int]);
            }
            if w > 0 {
                if w > (u16::MAX - width) as usize {
                    proof {
                        lemma_text_width_prefix(text@, i + 1);
                    }
                    return None;
                }
                let g = Glyph { ch: c, w: w as u16 };
                proof {
                    lemma_total_width_push(glyphs@, g);
                }
                glyphs.push(g);
                width = width + (g.w);
            }
            i = i + 1;
        }
        proof {
            assert(text@.subrange(0, n as int) =~= text@);
        }
        Some(Label { glyphs, width, style })
    }

    /// The total width of the label in columns.
    pub fn total_columns(&self) -> (r: u16)
        ensures
            r == self.spec_width(),
    {
        self.width
    }
}

} // verus!
