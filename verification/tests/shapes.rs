//! Candlestick shape behaviour: colors, fine segments, coarse cells.

use stock_rs::canvas::Canvas;
use stock_rs::canvas::PaintCmd;
use stock_rs::canvas::Shape;
use stock_rs::kblock::KLineData;
use stock_rs::kblock::Kblock as CoarseKblock;
use stock_rs::kblock::draw_block;
use stock_rs::kblock::draw_line;
use stock_rs::klinedata::Kblock;
use stock_rs::klinedata::KlineData;
use stock_rs::klinedata::KlineDatas;
use stock_rs::klinedata::draw_klines;
use stock_rs::style::Color;
use stock_rs::style::ColorPolicy;

fn point(start: i64, end: i64, min: i64, max: i64) -> KlineData {
    KlineData {
        date: String::from("2023-04-07"),
        pre_close: start,
        start,
        end,
        min,
        max,
        quantity: 0,
        amount: 0,
    }
}

#[test]
fn color_tie_break() {
    let policy = ColorPolicy::default();
    assert_eq!(policy.pick(100, 100), Color::Red);
    assert_eq!(policy.pick(120, 100), Color::Red);
    assert_eq!(policy.pick(100, 120), Color::Green);
}

#[test]
fn color_policy_is_configurable() {
    let policy = ColorPolicy { gain: Color::Blue, loss: Color::White };
    assert_eq!(policy.pick(5, 5), Color::Blue);
    assert_eq!(policy.pick(9, 5), Color::Blue);
    assert_eq!(policy.pick(5, 9), Color::White);
}

#[test]
fn candle_color_follows_policy() {
    let policy = ColorPolicy::default();
    assert_eq!(Kblock::from_point(&point(100, 100, 90, 130), 0, 5, policy).color, Color::Red);
    assert_eq!(Kblock::from_point(&point(120, 100, 90, 130), 0, 5, policy).color, Color::Red);
    assert_eq!(Kblock::from_point(&point(100, 120, 90, 130), 0, 5, policy).color, Color::Green);
}

#[test]
fn fine_candle_emits_six_exact_segments() {
    // open 1.00, close 1.20, low 0.90, high 1.30 at x = 0, half-width
    // 0.05, all in hundredths.
    let p = point(100, 120, 90, 130);
    let kb = Kblock::from_point(&p, 0, 5, ColorPolicy::default());
    assert_eq!(kb.block_bottom, 100);
    assert_eq!(kb.block_top, 120);
    let c = kb.color;
    assert_eq!(c, Color::Green);
    let mut canvas = Canvas::new();
    kb.draw(&mut canvas);
    let expected = vec![
        PaintCmd::Segment { x1: 0, y1: 90, x2: 0, y2: 100, color: c },
        PaintCmd::Segment { x1: 0, y1: 100, x2: 0, y2: 120, color: c },
        PaintCmd::Segment { x1: 5, y1: 100, x2: 5, y2: 120, color: c },
        PaintCmd::Segment { x1: 0, y1: 100, x2: 5, y2: 100, color: c },
        PaintCmd::Segment { x1: 0, y1: 120, x2: 5, y2: 120, color: c },
        PaintCmd::Segment { x1: 0, y1: 120, x2: 0, y2: 130, color: c },
    ];
    assert_eq!(canvas.ops, expected);
}

#[test]
fn fine_candle_swaps_body_edges_when_open_above_close() {
    let p = point(120, 100, 90, 130);
    let kb = Kblock::from_point(&p, 200, 5, ColorPolicy::default());
    assert_eq!(kb.block_bottom, 100);
    assert_eq!(kb.block_top, 120);
    assert_eq!(kb.color, Color::Red);
    assert_eq!(kb.x, 200);
}

#[test]
fn dataset_points_draw_left_to_right() {
    let series = KlineDatas {
        coords: vec![point(100, 120, 90, 130), point(120, 110, 100, 125)],
        policy: ColorPolicy::default(),
    };
    let mut canvas = Canvas::new();
    series.draw(&mut canvas);
    assert_eq!(canvas.ops.len(), 12);
    // first candle at x = 0, second at x = 100 (one index step).
    assert_eq!(
        canvas.ops[0],
        PaintCmd::Segment { x1: 0, y1: 90, x2: 0, y2: 100, color: Color::Green },
    );
    assert_eq!(
        canvas.ops[6],
        PaintCmd::Segment { x1: 100, y1: 100, x2: 100, y2: 110, color: Color::Red },
    );

    // the free-function entry point records the same primitives.
    let mut canvas2 = Canvas::new();
    draw_klines(&series.coords, series.policy, &mut canvas2);
    assert_eq!(canvas.ops, canvas2.ops);
}

#[test]
fn coarse_line_paints_inclusive_column() {
    let mut canvas = Canvas::new();
    draw_line(&mut canvas, 1, 3, 4, Color::Red);
    assert_eq!(
        canvas.ops,
        vec![
            PaintCmd::Dot { x: 4, y: 1, color: Color::Red },
            PaintCmd::Dot { x: 4, y: 2, color: Color::Red },
            PaintCmd::Dot { x: 4, y: 3, color: Color::Red },
        ],
    );
}

#[test]
fn coarse_line_empty_when_range_reversed() {
    let mut canvas = Canvas::new();
    draw_line(&mut canvas, 5, 2, 4, Color::Red);
    assert!(canvas.ops.is_empty());
}

#[test]
fn coarse_block_paints_three_wide_band() {
    let mut canvas = Canvas::new();
    draw_block(&mut canvas, 2, 3, 4, Color::Green);
    assert_eq!(
        canvas.ops,
        vec![
            PaintCmd::Dot { x: 3, y: 2, color: Color::Green },
            PaintCmd::Dot { x: 4, y: 2, color: Color::Green },
            PaintCmd::Dot { x: 5, y: 2, color: Color::Green },
            PaintCmd::Dot { x: 3, y: 3, color: Color::Green },
            PaintCmd::Dot { x: 4, y: 3, color: Color::Green },
            PaintCmd::Dot { x: 5, y: 3, color: Color::Green },
        ],
    );
}

#[test]
fn coarse_candle_paints_wick_band_wick() {
    let shape = CoarseKblock {
        coords: vec![KLineData { start: 3, end: 5, min: 1, max: 7, date: 4 }],
        policy: ColorPolicy::default(),
    };
    let mut canvas = Canvas::new();
    shape.draw(&mut canvas);
    let g = Color::Green;
    let mut expected = Vec::new();
    for y in 1..=3 {
        expected.push(PaintCmd::Dot { x: 4, y, color: g });
    }
    for y in 3..=5 {
        for x in 3..=5 {
            expected.push(PaintCmd::Dot { x, y, color: g });
        }
    }
    for y in 5..=7 {
        expected.push(PaintCmd::Dot { x: 4, y, color: g });
    }
    assert_eq!(canvas.ops, expected);
}

#[test]
fn coarse_candle_gain_color_when_open_at_or_above_close() {
    let shape = CoarseKblock {
        coords: vec![KLineData { start: 5, end: 5, min: 5, max: 5, date: 2 }],
        policy: ColorPolicy::default(),
    };
    let mut canvas = Canvas::new();
    shape.draw(&mut canvas);
    assert_eq!(canvas.ops[0], PaintCmd::Dot { x: 2, y: 5, color: Color::Red });
}
