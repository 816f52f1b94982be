//! Layout engine and whole-chart rendering.

use stock_rs::buffer::Buffer;
use stock_rs::geom::Rect;
use stock_rs::kline::Axis;
use stock_rs::kline::Block;
use stock_rs::kline::ChartLayout;
use stock_rs::kline::Dataset;
use stock_rs::kline::KLine;
use stock_rs::klinedata::KlineData;
use stock_rs::style::Color;
use stock_rs::style::Style;
use stock_rs::text::Label;

fn label(text: &str) -> Label {
    Label::new(text, Style::new()).unwrap()
}

fn point(start: i64, end: i64, min: i64, max: i64) -> KlineData {
    KlineData {
        date: String::from("2023-04-07"),
        pre_close: start,
        start,
        end,
        min,
        max,
        quantity: 0,
        amount: 0,
    }
}

fn contains(outer: Rect, inner: Rect) -> bool {
    inner.width == 0 || inner.height == 0
        || (outer.x <= inner.x && inner.x + inner.width <= outer.x + outer.width
            && outer.y <= inner.y && inner.y + inner.height <= outer.y + outer.height)
}

#[test]
fn zero_area_yields_the_empty_layout() {
    let chart = KLine::new(vec![Dataset::default().name(label("one"))]);
    for area in [Rect::new(3, 4, 0, 7), Rect::new(3, 4, 7, 0), Rect::new(0, 0, 0, 0)] {
        let l = chart.layout(area);
        assert_eq!(l, ChartLayout::default());
        assert_eq!(l.graph_area.width, 0);
        assert_eq!(l.graph_area.height, 0);
        assert!(l.title_x.is_none());
        assert!(l.label_x.is_none());
        assert!(l.label_y.is_none());
        assert!(l.axis_x.is_none());
        assert!(l.axis_y.is_none());
        assert!(l.legend_area.is_none());
    }
}

#[test]
fn graph_area_nests_inside_chart_and_container() {
    let chart = KLine::new(vec![Dataset::default().name(label("k"))])
        .x_axis(Axis::default().labels(vec![label("4-15"), label("4-20")]))
        .y_axis(Axis::default().labels(vec![label("0.9"), label("1.3")]));
    let container = Rect::new(2, 1, 40, 12);
    let block = Block::default();
    let chart_area = block.inner(container);
    assert!(contains(container, chart_area));
    let l = chart.layout(chart_area);
    assert!(contains(chart_area, l.graph_area));
    assert!(contains(container, l.graph_area));
    assert!(l.graph_area.width > 0 && l.graph_area.height > 0);
}

#[test]
fn layout_reserves_rows_and_columns_bottom_up() {
    let chart = KLine::new(Vec::new())
        .x_axis(Axis::default().labels(vec![label("a"), label("b")]))
        .y_axis(Axis::default().labels(vec![label("10"), label("20")]));
    let area = Rect::new(0, 0, 30, 10);
    let l = chart.layout(area);
    // bottom row for x labels, the one above for the x-axis line.
    assert_eq!(l.label_x, Some(9));
    assert_eq!(l.axis_x, Some(8));
    // two columns for the y labels ("10"/"20"), one for the y-axis line.
    assert_eq!(l.label_y, Some(0));
    assert_eq!(l.axis_y, Some(2));
    assert_eq!(l.graph_area, Rect::new(3, 0, 27, 8));
}

#[test]
fn legend_is_name_width_plus_two_by_count_plus_two() {
    let chart = KLine::new(vec![
        Dataset::default().name(label("aa")),
        Dataset::default().name(label("bbbb")),
    ]);
    let area = Rect::new(0, 0, 100, 40);
    let l = chart.layout(area);
    let legend = l.legend_area.expect("legend fits");
    assert_eq!(legend.width, 4 + 2);
    assert_eq!(legend.height, 2 + 2);
    assert!(contains(l.graph_area, legend));
    // flush against the graph's top-right corner.
    assert_eq!(legend.x + legend.width, l.graph_area.x + l.graph_area.width);
    assert_eq!(legend.y, l.graph_area.y);
}

#[test]
fn legend_skipped_when_too_large_or_unnamed() {
    // names as wide as a quarter of the graph do not fit.
    let wide = KLine::new(vec![Dataset::default().name(label("abcdefghij"))]);
    assert!(wide.layout(Rect::new(0, 0, 40, 40)).legend_area.is_none());
    // an empty name has no legend entry.
    let unnamed = KLine::new(vec![Dataset::default()]);
    assert!(unnamed.layout(Rect::new(0, 0, 100, 40)).legend_area.is_none());
}

#[test]
fn x_axis_title_needs_room() {
    let fits = KLine::new(Vec::new()).x_axis(Axis::default().title(label("t")));
    let l = fits.layout(Rect::new(0, 0, 20, 8));
    // without labels the axis line still takes the bottom row, and the
    // title is anchored at the graph's right edge minus its width, on the
    // row a label row would occupy.
    assert_eq!(l.axis_x, Some(7));
    assert_eq!(l.graph_area, Rect::new(0, 0, 20, 7));
    assert_eq!(l.title_x, Some((19, 6)));
    let too_wide = KLine::new(Vec::new())
        .x_axis(Axis::default().title(label("a title wider than the graph")));
    assert!(too_wide.layout(Rect::new(0, 0, 20, 8)).title_x.is_none());
}

#[test]
fn title_sits_on_the_label_row_when_labels_exist() {
    let chart = KLine::new(Vec::new()).x_axis(
        Axis::default().title(label("t")).labels(vec![label("a"), label("b")]),
    );
    let l = chart.layout(Rect::new(0, 0, 20, 8));
    assert_eq!(l.label_x, Some(7));
    assert_eq!(l.axis_x, Some(6));
    // the first x label reserves one column on the left.
    assert_eq!(l.graph_area, Rect::new(1, 0, 19, 6));
    // the title shares the label row, flush to the graph's right edge.
    assert_eq!(l.title_x, Some((19, 7)));
}

#[test]
fn axis_row_reserved_without_labels() {
    let chart = KLine::new(Vec::new());
    let l = chart.layout(Rect::new(0, 0, 10, 5));
    assert_eq!(l.label_x, None);
    assert_eq!(l.axis_x, Some(4));
    assert_eq!(l.graph_area, Rect::new(0, 0, 10, 4));
}

#[test]
fn graph_needs_one_column_and_two_rows() {
    let chart = KLine::new(Vec::new());
    // three rows: one for the axis line, two for the graph.
    let l = chart.layout(Rect::new(0, 0, 10, 3));
    assert_eq!(l.axis_x, Some(2));
    assert_eq!(l.graph_area, Rect::new(0, 0, 10, 2));
    // two rows: the axis line leaves only one, so no graph.
    let l = chart.layout(Rect::new(0, 0, 10, 2));
    assert_eq!(l.axis_x, Some(1));
    assert_eq!(l.graph_area.width, 0);
    assert_eq!(l.graph_area.height, 0);
}

#[test]
fn two_x_labels_on_a_width_forty_graph() {
    // tick spacing is 40 / 2 = 20; the last label's slot starts at
    // graph.right - 20 and the label is flush right inside it.
    let chart = KLine::new(Vec::new())
        .x_axis(Axis::default().labels(vec![label("4-15"), label("4-20")]));
    let mut buf = Buffer::new(50, 6);
    let chart_area = Rect::new(0, 0, 50, 5);
    let graph_area = Rect::new(5, 0, 40, 3);
    let layout = ChartLayout { label_x: Some(4), ..Default::default() };
    chart.render_x_labels(&mut buf, &layout, chart_area, graph_area);
    let row = 4u16;
    // last label flush right at the graph's right edge (column 45).
    for (i, ch) in "4-20".chars().enumerate() {
        assert_eq!(buf.get(41 + i as u16, row).ch, ch);
    }
    // the slot between the first label and the last stays empty.
    for x in 5..41u16 {
        assert_eq!(buf.get(x, row).ch, ' ');
    }
    // first label right-aligned against the graph's left edge (the
    // inverse of the axis's left alignment).
    for (i, ch) in "4-15".chars().enumerate() {
        assert_eq!(buf.get(1 + i as u16, row).ch, ch);
    }
    assert_eq!(buf.get(0, row).ch, ' ');
    // no other row is touched.
    for y in 0..6u16 {
        if y != row {
            for x in 0..50u16 {
                assert_eq!(buf.get(x, y).ch, ' ');
            }
        }
    }
}

#[test]
fn fewer_than_two_x_labels_renders_nothing() {
    let chart = KLine::new(Vec::new()).x_axis(Axis::default().labels(vec![label("4-15")]));
    let mut buf = Buffer::new(50, 6);
    let layout = ChartLayout { label_x: Some(4), ..Default::default() };
    chart.render_x_labels(&mut buf, &layout, Rect::new(0, 0, 50, 5), Rect::new(5, 0, 40, 3));
    for y in 0..6u16 {
        for x in 0..50u16 {
            assert_eq!(buf.get(x, y).ch, ' ');
        }
    }
}

#[test]
fn y_labels_spread_over_the_graph_height() {
    let chart = KLine::new(Vec::new())
        .y_axis(Axis::default().labels(vec![label("lo"), label("mid"), label("hi")]));
    let mut buf = Buffer::new(20, 10);
    let chart_area = Rect::new(0, 0, 20, 10);
    let graph_area = Rect::new(4, 0, 16, 9);
    let layout = ChartLayout { label_y: Some(0), ..Default::default() };
    chart.render_y_labels(&mut buf, &layout, chart_area, graph_area);
    // rows bottom-up: 8, 8 - 4, 8 - 8.
    assert_eq!(buf.get(0, 8).ch, 'l');
    assert_eq!(buf.get(1, 8).ch, 'o');
    assert_eq!(buf.get(0, 4).ch, 'm');
    assert_eq!(buf.get(0, 0).ch, 'h');
}

#[test]
fn one_y_label_is_skipped() {
    // a single label has no defined spacing and is skipped outright.
    let chart = KLine::new(Vec::new()).y_axis(Axis::default().labels(vec![label("only")]));
    let mut buf = Buffer::new(20, 10);
    let layout = ChartLayout { label_y: Some(0), ..Default::default() };
    chart.render_y_labels(&mut buf, &layout, Rect::new(0, 0, 20, 10), Rect::new(6, 0, 14, 9));
    for y in 0..10u16 {
        for x in 0..20u16 {
            assert_eq!(buf.get(x, y).ch, ' ');
        }
    }
}

#[test]
fn render_draws_axis_lines_and_legend() {
    let data = vec![point(100, 120, 90, 130), point(120, 110, 100, 125)];
    let chart = KLine::new(vec![Dataset::default().name(label("k")).data(data)])
        .block(Block::default().title(label("Kline")))
        .x_axis(Axis::default().labels(vec![label("4-15"), label("4-20")]).bounds((0, 200)))
        .y_axis(Axis::default().labels(vec![label("0.9"), label("1.3")]).bounds((90, 130)));
    let area = Rect::new(0, 0, 60, 20);
    let mut buf = Buffer::new(60, 20);
    let (layout, plots) = chart.render(area, &mut buf);
    let expected_layout = chart.layout(Block::default().inner(area));
    assert_eq!(layout, expected_layout);
    let graph = layout.graph_area;
    assert!(graph.width > 0 && graph.height > 0);
    // the frame.
    assert_eq!(buf.get(0, 0).ch, '┌');
    assert_eq!(buf.get(1, 0).ch, 'K');
    // the axis lines and their corner joint.
    let ax = layout.axis_x.unwrap();
    let ay = layout.axis_y.unwrap();
    assert_eq!(buf.get(graph.x, ax).ch, '─');
    assert_eq!(buf.get(graph.x + graph.width - 1, ax).ch, '─');
    assert_eq!(buf.get(ay, graph.y).ch, '│');
    assert_eq!(buf.get(ay, ax).ch, '└');
    // one recorded plot per dataset, carrying the axis bounds.
    assert_eq!(plots.len(), 1);
    assert_eq!(plots[0].x_bounds, (0, 200));
    assert_eq!(plots[0].y_bounds, (90, 130));
    assert_eq!(plots[0].ops.len(), 12);
}

#[test]
fn render_on_zero_area_returns_the_empty_layout() {
    let chart = KLine::new(Vec::new());
    let mut buf = Buffer::new(10, 10);
    let (layout, plots) = chart.render(Rect::new(0, 0, 0, 5), &mut buf);
    assert_eq!(layout, ChartLayout::default());
    assert!(plots.is_empty());
    for y in 0..10u16 {
        for x in 0..10u16 {
            assert_eq!(buf.get(x, y).ch, ' ');
        }
    }
}

#[test]
fn axis_builders_compose() {
    let axis = Axis::default()
        .title(label("X Axis"))
        .title_style(Style::new().fg(Color::Cyan))
        .bounds((0, 500))
        .labels(vec![label("a"), label("b")])
        .style(Style::new().fg(Color::Gray));
    assert_eq!(axis.title.as_ref().unwrap().style.fg, Some(Color::Cyan));
    assert_eq!(axis.bounds, (0, 500));
    assert_eq!(axis.labels.as_ref().unwrap().len(), 2);
    assert_eq!(axis.style.fg, Some(Color::Gray));
}
