//! Labels, the cell buffer, and the small configuration values.

use stock_rs::buffer::Buffer;
use stock_rs::geom::Alignment;
use stock_rs::geom::Rect;
use stock_rs::kline::Block;
use stock_rs::kline::KLine;
use stock_rs::kline::Ratio;
use stock_rs::stock::MainInOut;
use stock_rs::style::Color;
use stock_rs::style::Style;
use stock_rs::text::Label;

fn label(text: &str) -> Label {
    Label::new(text, Style::new()).unwrap()
}

#[test]
fn label_measures_ascii() {
    assert_eq!(label("4-15").width, 4);
    assert_eq!(label("").width, 0);
}

#[test]
fn label_measures_wide_characters() {
    // 'K', a space, and two CJK characters of two columns each.
    let l = label("K 线图");
    assert_eq!(l.width, 6);
    assert_eq!(l.glyphs.len(), 4);
    assert_eq!(l.glyphs[2].w, 2);
}

#[test]
fn label_drops_zero_width_characters() {
    let l = label("a\u{1}b");
    assert_eq!(l.width, 2);
    assert_eq!(l.glyphs.len(), 2);
    assert_eq!(l.glyphs[1].ch, 'b');
}

#[test]
fn label_rejects_text_wider_than_a_grid() {
    assert!(Label::new(&"a".repeat(70000), Style::new()).is_none());
    assert!(Label::new(&"a".repeat(65535), Style::new()).is_some());
}

#[test]
fn buffer_starts_blank() {
    let buf = Buffer::new(4, 3);
    for y in 0..3 {
        for x in 0..4 {
            let cell = buf.get(x, y);
            assert_eq!(cell.ch, ' ');
            assert_eq!(cell.fg, Color::Reset);
            assert_eq!(cell.bg, Color::Reset);
        }
    }
}

#[test]
fn put_writes_one_cell_and_merges_style() {
    let mut buf = Buffer::new(4, 3);
    buf.put(2, 1, 'x', Style::new().fg(Color::Red));
    let cell = buf.get(2, 1);
    assert_eq!(cell.ch, 'x');
    assert_eq!(cell.fg, Color::Red);
    assert_eq!(cell.bg, Color::Reset);
    assert_eq!(buf.get(1, 1).ch, ' ');
    // a later style with no foreground keeps the cell's color.
    buf.put(2, 1, 'y', Style::new().bg(Color::Blue));
    let cell = buf.get(2, 1);
    assert_eq!(cell.ch, 'y');
    assert_eq!(cell.fg, Color::Red);
    assert_eq!(cell.bg, Color::Blue);
}

#[test]
fn set_style_touches_only_the_rectangle() {
    let mut buf = Buffer::new(5, 5);
    buf.set_style(Rect::new(1, 1, 2, 2), Style::new().bg(Color::Gray));
    for y in 0..5u16 {
        for x in 0..5u16 {
            let expected = if (1..3).contains(&x) && (1..3).contains(&y) {
                Color::Gray
            } else {
                Color::Reset
            };
            assert_eq!(buf.get(x, y).bg, expected);
        }
    }
}

#[test]
fn set_label_clips_to_its_bound() {
    let mut buf = Buffer::new(10, 2);
    let k = buf.set_label(2, 0, &label("abcdef"), Style::new(), 3);
    assert_eq!(k, 3);
    assert_eq!(buf.get(2, 0).ch, 'a');
    assert_eq!(buf.get(3, 0).ch, 'b');
    assert_eq!(buf.get(4, 0).ch, 'c');
    assert_eq!(buf.get(5, 0).ch, ' ');
    assert_eq!(buf.get(1, 0).ch, ' ');
    assert_eq!(buf.get(2, 1).ch, ' ');
}

#[test]
fn set_label_clips_at_the_grid_edge() {
    let mut buf = Buffer::new(10, 1);
    let k = buf.set_label(8, 0, &label("xyz"), Style::new(), 10);
    assert_eq!(k, 2);
    assert_eq!(buf.get(8, 0).ch, 'x');
    assert_eq!(buf.get(9, 0).ch, 'y');
}

#[test]
fn set_label_never_splits_a_wide_glyph() {
    let mut buf = Buffer::new(10, 1);
    let k = buf.set_label(0, 0, &label("线"), Style::new(), 1);
    assert_eq!(k, 0);
    assert_eq!(buf.get(0, 0).ch, ' ');
    let k = buf.set_label(0, 0, &label("线"), Style::new(), 2);
    assert_eq!(k, 1);
    assert_eq!(buf.get(0, 0).ch, '线');
    assert_eq!(buf.get(1, 0).ch, ' ');
}

#[test]
fn render_label_clips_and_stays_inside_its_rectangle() {
    // a label wider than its rectangle is cut to the rectangle's width and
    // never writes outside it.
    let mut buf = Buffer::new(12, 3);
    let area = Rect::new(4, 1, 3, 1);
    KLine::render_label(&mut buf, &label("abcdef"), area, Alignment::Left);
    assert_eq!(buf.get(4, 1).ch, 'a');
    assert_eq!(buf.get(5, 1).ch, 'b');
    assert_eq!(buf.get(6, 1).ch, 'c');
    for x in 0..12u16 {
        for y in 0..3u16 {
            if !(y == 1 && (4..7).contains(&x)) {
                assert_eq!(buf.get(x, y).ch, ' ');
            }
        }
    }
}

#[test]
fn render_label_alignments() {
    let area = Rect::new(2, 0, 6, 1);
    let mut buf = Buffer::new(10, 1);
    KLine::render_label(&mut buf, &label("ab"), area, Alignment::Left);
    assert_eq!(buf.get(2, 0).ch, 'a');
    let mut buf = Buffer::new(10, 1);
    KLine::render_label(&mut buf, &label("ab"), area, Alignment::Center);
    // left + width/2 - clipped/2 = 2 + 3 - 1 = 4
    assert_eq!(buf.get(4, 0).ch, 'a');
    let mut buf = Buffer::new(10, 1);
    KLine::render_label(&mut buf, &label("ab"), area, Alignment::Right);
    assert_eq!(buf.get(6, 0).ch, 'a');
    assert_eq!(buf.get(7, 0).ch, 'b');
}

#[test]
fn ratio_validates_and_applies() {
    assert!(Ratio::new(1, 0).is_none());
    assert!(Ratio::new(5, 4).is_none());
    let q = Ratio::new(1, 4).unwrap();
    assert_eq!(q.apply(40), 10);
    assert_eq!(q.apply(10), 2);
    assert_eq!(q.apply(0), 0);
    let whole = Ratio::new(1, 1).unwrap();
    assert_eq!(whole.apply(7), 7);
}

#[test]
fn block_inner_loses_one_cell_each_side() {
    let b = Block::default();
    assert_eq!(b.inner(Rect::new(0, 0, 10, 6)), Rect::new(1, 1, 8, 4));
    assert_eq!(b.inner(Rect::new(3, 3, 1, 1)), Rect::new(4, 4, 0, 0));
}

#[test]
fn block_render_draws_borders_and_title() {
    let mut buf = Buffer::new(6, 3);
    let b = Block::default().title(label("ti"));
    b.render(Rect::new(0, 0, 6, 3), &mut buf);
    assert_eq!(buf.get(0, 0).ch, '┌');
    assert_eq!(buf.get(5, 0).ch, '┐');
    assert_eq!(buf.get(0, 2).ch, '└');
    assert_eq!(buf.get(5, 2).ch, '┘');
    assert_eq!(buf.get(0, 1).ch, '│');
    assert_eq!(buf.get(5, 1).ch, '│');
    assert_eq!(buf.get(3, 2).ch, '─');
    assert_eq!(buf.get(1, 0).ch, 't');
    assert_eq!(buf.get(2, 0).ch, 'i');
    assert_eq!(buf.get(3, 0).ch, '─');
    // the interior is untouched.
    assert_eq!(buf.get(2, 1).ch, ' ');
}

#[test]
fn main_in_out_keeps_its_fields() {
    let flows = MainInOut::new(vec![-254, -47, -207], 11475);
    assert_eq!(flows.list, vec![-254, -47, -207]);
    assert_eq!(flows.max, 11475);
}
