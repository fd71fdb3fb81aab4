use dashbars::chart::bar_ticks;
use dashbars::chart::Direction;
use dashbars::render::bar_positions;
use dashbars::render::render_horizontal_bars;
use dashbars::render::render_vertical_bars;
use dashbars::render::ChartRender;
use dashbars::Bar;
use dashbars::BarChart;
use dashbars::BarGroup;
use dashbars::Dash;
use dashbars::DashConfig;
use dashbars::Layout;

fn group(values: &[u64]) -> BarGroup {
    let bars: Vec<Bar> = values.iter().map(|v| Bar::default().value(*v)).collect();
    BarGroup::default().bars(bars)
}

#[test]
fn quantization_scenario() {
    // reference_max 100 over 10 cells: a bar of 50 quantizes to 40 ticks.
    assert_eq!(bar_ticks(50, 10, 100), 40);
}

#[test]
fn quantization_saturates_at_available_range() {
    // value at or above the reference maximum reaches exactly cells * 8
    assert_eq!(bar_ticks(100, 10, 100), 80);
    assert_eq!(bar_ticks(250, 10, 100), 80);
    // below it, strictly less
    assert_eq!(bar_ticks(99, 10, 100), 79);
    assert_eq!(bar_ticks(0, 10, 100), 0);
}

#[test]
fn reference_maximum_rules() {
    let empty = BarChart::default();
    assert_eq!(empty.maximum_data_value(), 1);
    let with_data = BarChart::default().data(group(&[3, 7, 5]));
    assert_eq!(with_data.maximum_data_value(), 7);
    let explicit = BarChart::default().data(group(&[3, 7, 5])).max(100);
    assert_eq!(explicit.maximum_data_value(), 100);
    let zero = BarChart::default().data(group(&[0, 0])).max(0);
    assert_eq!(zero.maximum_data_value(), 1);
}

#[test]
fn empty_groups_are_never_materialized() {
    let c = BarChart::default().data(group(&[])).data(group(&[1]));
    assert_eq!(c.data.len(), 1);
}

#[test]
fn packing_truncates_a_group_that_does_not_fit() {
    // 3 bars of width 1, no gaps, but only 2 cells of space: 2 bars stay.
    let c = BarChart::default().bar_gap(0).data(group(&[1, 2, 3])).max(3);
    let rows = c.group_ticks(2, 1);
    assert_eq!(rows, vec![vec![1 * 8 / 3, 2 * 8 / 3]]);
}

#[test]
fn packing_consumes_gaps_between_groups() {
    // Each group: one bar of width 1; after it, group gap 2 and bar gap 1.
    let c = BarChart::default()
        .bar_gap(1)
        .group_gap(2)
        .data(group(&[4]))
        .data(group(&[4]))
        .data(group(&[4]))
        .max(4);
    // space 9: group 1 at 0 (cost 1+2+1=4), group 2 at 4, then 1 cell
    // remains: group 3 still fits one bar.
    let rows = c.group_ticks(9, 1);
    assert_eq!(rows, vec![vec![8], vec![8], vec![8]]);
    // space 5: after two groups nothing remains.
    let rows = c.group_ticks(5, 1);
    assert_eq!(rows, vec![vec![8], vec![8]]);
}

#[test]
fn label_rows_follow_the_height_rules() {
    let plain = BarChart::default().data(group(&[1]));
    assert_eq!(plain.label_info(5).height, 0);

    let mut labelled_bar = Bar::default().value(1);
    labelled_bar = labelled_bar.label("a".to_string());
    let with_bar_label = BarChart::default().data(BarGroup::default().bars(vec![labelled_bar]));
    let li = with_bar_label.label_info(1);
    assert!(li.bar_label_visible && !li.group_label_visible);
    assert_eq!(li.height, 1);

    let mut labelled_bar2 = Bar::default().value(1);
    labelled_bar2 = labelled_bar2.label("a".to_string());
    let both = BarChart::default().data(
        BarGroup::default().bars(vec![labelled_bar2]).label("g".to_string()),
    );
    let li = both.label_info(5);
    assert!(li.bar_label_visible && li.group_label_visible);
    assert_eq!(li.height, 2);

    let li = both.label_info(0);
    assert_eq!(li.height, 0);
}

#[test]
fn vertical_glyph_levels() {
    // One bar of 12 ticks in a 1 by 2 grid: full cell below, half above.
    let rows = vec![vec![12u64]];
    let g = render_vertical_bars(&rows, 1, 0, 0, 1, 2);
    assert_eq!(g.level(0, 1), 8);
    assert_eq!(g.level(0, 0), 4);
}

#[test]
fn vertical_gap_columns_stay_empty() {
    // Two bars of width 1 with a gap column between them.
    let rows = vec![vec![8u64, 16u64]];
    let g = render_vertical_bars(&rows, 1, 1, 0, 3, 2);
    assert_eq!(g.level(0, 1), 8);
    assert_eq!(g.level(0, 0), 0);
    assert_eq!(g.level(1, 0), 0);
    assert_eq!(g.level(1, 1), 0);
    assert_eq!(g.level(2, 1), 8);
    assert_eq!(g.level(2, 0), 8);
}

#[test]
fn horizontal_glyph_levels() {
    // A bar of 20 ticks fills 2 whole cells of its row.
    let rows = vec![vec![20u64]];
    let g = render_horizontal_bars(&rows, 1, 0, 0, 5, 1);
    assert_eq!(g.level(0, 0), 8);
    assert_eq!(g.level(1, 0), 8);
    assert_eq!(g.level(2, 0), 0);
    assert_eq!(g.level(4, 0), 0);
}

#[test]
fn bar_positions_walk_gaps_and_groups() {
    let rows = vec![vec![1u64, 1], vec![1u64]];
    // bar width 2, bar gap 1, group gap 3: bars at 0, 3; next group at 9.
    let pos = bar_positions(&rows, 2, 1, 3);
    assert_eq!(pos, vec![vec![0, 3], vec![9]]);
}

#[test]
fn degenerate_render_yields_nothing() {
    let c = BarChart::default().data(group(&[1]));
    assert!(c.render(0, 5).is_none());
    assert!(c.render(5, 0).is_none());
    assert!(BarChart::default().render(5, 5).is_none());
    assert!(c.clone().bar_width(0).render(5, 5).is_none());
    assert!(c.render(5, 5).is_some());
}

#[test]
fn render_dispatches_by_direction() {
    let c = BarChart::default().data(group(&[1]));
    match c.clone().render(5, 5) {
        Some(ChartRender::Vertical(v)) => {
            assert_eq!(v.grid.height(), 5);
            assert_eq!(v.grid.width(), 5);
        }
        _ => panic!("expected a vertical render"),
    }
    match c.direction(Direction::Horizontal).render(5, 5) {
        Some(ChartRender::Horizontal(h)) => {
            assert_eq!(h.label_width, 0);
            assert_eq!(h.grid.width(), 5);
            assert_eq!(h.grid.height(), 5);
        }
        _ => panic!("expected a horizontal render"),
    }
}

#[test]
fn vertical_value_texts_are_centered() {
    // A bar of width 3 showing value 7: text "7" centered at offset 1.
    let c = BarChart::default().bar_width(3).data(group(&[7]));
    match c.render(5, 4) {
        Some(ChartRender::Vertical(v)) => {
            assert_eq!(v.values.len(), 1);
            let w = &v.values[0][0];
            assert!(w.visible);
            assert_eq!(w.text, "7".to_string());
            assert_eq!(w.x, 1);
            assert_eq!(w.y, 3);
        }
        _ => panic!("expected a vertical render"),
    }
}

fn dash_config(units: Vec<Vec<u8>>, indices: Option<Vec<usize>>) -> DashConfig {
    DashConfig {
        capacity: 200,
        update_frequency: 1000,
        group: false,
        layout: Layout::Auto,
        titles: None,
        units,
        indices,
    }
}

#[test]
fn dash_unit_mode_pane() {
    let mut d = Dash::new(dash_config(vec![b"ms".to_vec()], None));
    d.ingest_line(&b"Response: 42.5 ms, cpu 10%".to_vec());
    assert_eq!(d.pane_count(), 1);
    let v = d.chart_for_pane(0, 5);
    assert_eq!(v.title, "Chart 1".to_string());
    assert_eq!(v.stats.len, 1);
    assert_eq!(v.stats.sum, 42500);
    assert_eq!(v.stats.min, Some(42500));
    assert_eq!(v.stats.unit, b"ms".to_vec());
    assert_eq!(v.chart.data.len(), 1);
    assert_eq!(v.chart.data[0].bars.len(), 1);
    assert_eq!(v.chart.data[0].bars[0].value, 42);
}

#[test]
fn dash_titles_and_clipping() {
    let mut cfg = dash_config(Vec::new(), None);
    cfg.titles = Some(vec!["cpu".to_string()]);
    let mut d = Dash::new(cfg);
    for line in ["1", "2", "3", "4"] {
        d.ingest_line(&line.as_bytes().to_vec());
    }
    // cell width 3 leaves room for 2 bars: the 2 most recent samples.
    let v = d.chart_for_pane(0, 3);
    assert_eq!(v.title, "cpu".to_string());
    let bars = &v.chart.data[0].bars;
    assert_eq!(bars.len(), 2);
    assert_eq!(bars[0].value, 3);
    assert_eq!(bars[1].value, 4);
}

#[test]
fn dash_positional_layout() {
    let mut d = Dash::new(dash_config(Vec::new(), None));
    d.ingest_line(&b"1 2 3".to_vec());
    assert_eq!(d.pane_count(), 3);
    let cells = d.panes(dashbars::GridCell { x: 0, y: 0, width: 90, height: 60 });
    assert_eq!(cells.len(), 3);
}

#[test]
fn dash_grouped_chart_slots() {
    let mut d = Dash::new(dash_config(Vec::new(), None));
    d.ingest_line(&b"1".to_vec());
    d.ingest_line(&b"2".to_vec());
    // width 4 over one series: 3 time slots, oldest on the left.
    let c = d.grouped_chart(4);
    assert_eq!(c.data.len(), 3);
    assert_eq!(c.data[0].bars[0].value, 0);
    assert_eq!(c.data[1].bars[0].value, 1);
    assert_eq!(c.data[2].bars[0].value, 2);
}

#[test]
fn dash_indexed_mode() {
    let mut d = Dash::new(dash_config(Vec::new(), Some(vec![2])));
    d.ingest_line(&b"10 20 30".to_vec());
    assert_eq!(d.pane_count(), 1);
    let v = d.chart_for_pane(0, 5);
    assert_eq!(v.stats.sum, 20000);
}

#[test]
fn horizontal_side_texts() {
    let mut b = Bar::default().value(2);
    b = b.label("req".to_string());
    let c = BarChart::default()
        .bar_gap(0)
        .direction(Direction::Horizontal)
        .data(BarGroup::default().bars(vec![b]).label("g".to_string()))
        .max(2);
    match c.render(10, 5) {
        Some(ChartRender::Horizontal(h)) => {
            assert_eq!(h.label_width, 3);
            // bars area: 10 - 3 - 1 = 6 columns; the bar fills all of them.
            assert_eq!(h.grid.width(), 6);
            assert_eq!(h.ticks, vec![vec![48]]);
            assert_eq!(h.grid.level(5, 0), 8);
            let l = &h.labels[0][0];
            assert!(l.visible);
            assert_eq!((l.x, l.y, l.width), (0, 0, 3));
            assert_eq!(l.text, "req".to_string());
            let v = &h.values[0][0];
            assert!(v.visible);
            assert_eq!((v.x, v.y, v.width), (4, 0, 6));
            assert_eq!(v.text, "2".to_string());
            // no group gap: the group label has no row of its own
            assert!(!h.group_labels[0].visible);
        }
        _ => panic!("expected a horizontal render"),
    }
}

#[test]
fn horizontal_group_label_in_gap_row() {
    let b = Bar::default().value(2);
    let c = BarChart::default()
        .bar_gap(0)
        .group_gap(1)
        .direction(Direction::Horizontal)
        .data(BarGroup::default().bars(vec![b]).label("g".to_string()))
        .max(2);
    match c.render(10, 5) {
        Some(ChartRender::Horizontal(h)) => {
            let w = &h.group_labels[0];
            assert!(w.visible);
            // the row right after the group's single bar, in the bars area
            assert_eq!((w.x, w.y, w.width), (0, 1, 1));
            assert_eq!(w.text, "g".to_string());
        }
        _ => panic!("expected a horizontal render"),
    }
}

#[test]
fn vertical_group_label_row() {
    let c = BarChart::default()
        .bar_gap(0)
        .data(BarGroup::default().bars(vec![Bar::default().value(1)]).label("G".to_string()));
    match c.render(5, 5) {
        Some(ChartRender::Vertical(v)) => {
            assert!(v.info.group_label_visible);
            assert_eq!(v.info.height, 1);
            assert_eq!(v.grid.height(), 4);
            let w = &v.group_labels[0];
            assert!(w.visible);
            assert_eq!((w.x, w.y, w.width), (0, 4, 1));
            assert_eq!(w.text, "G".to_string());
        }
        _ => panic!("expected a vertical render"),
    }
}

#[test]
fn pane_markers_come_from_the_window() {
    let mut d = Dash::new(dash_config(Vec::new(), None));
    d.ingest_line(&b"1".to_vec());
    let v = d.chart_for_pane(0, 66);
    assert_eq!(v.markers.len(), 2);
    assert_eq!(v.markers[0].label, "60s".to_string());
    assert_eq!(v.markers[1].label, "30s".to_string());
}
