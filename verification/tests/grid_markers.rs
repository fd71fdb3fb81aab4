use dashbars::grid::grid_layout;
use dashbars::grid::is_prime;
use dashbars::markers::generate_time_markers;
use dashbars::GridCell;
use dashbars::Layout;

fn area(w: u16, h: u16) -> GridCell {
    GridCell { x: 0, y: 0, width: w, height: h }
}

#[test]
fn primality() {
    assert!(!is_prime(0));
    assert!(!is_prime(1));
    assert!(is_prime(2));
    assert!(is_prime(3));
    assert!(!is_prime(4));
    assert!(is_prime(97));
    assert!(!is_prime(91));
}

#[test]
fn grid_auto_prime_seven() {
    // 7 panes: one full-width remainder row above a 3-by-2 sub-grid.
    let cells = grid_layout(7, Layout::Auto, area(100, 90));
    assert_eq!(cells.len(), 7);
    let first = cells[0];
    assert_eq!((first.x, first.y, first.width, first.height), (0, 0, 100, 22));
    // sub-grid: rows of height 90 * 25% = 22, columns of width 100 * 50% = 50
    assert_eq!(cells[1], GridCell { x: 0, y: 22, width: 50, height: 22 });
    assert_eq!(cells[2], GridCell { x: 50, y: 22, width: 50, height: 22 });
    assert_eq!(cells[3], GridCell { x: 0, y: 44, width: 50, height: 22 });
    assert_eq!(cells[4], GridCell { x: 50, y: 44, width: 50, height: 22 });
    assert_eq!(cells[5], GridCell { x: 0, y: 66, width: 50, height: 22 });
    assert_eq!(cells[6], GridCell { x: 50, y: 66, width: 50, height: 22 });
}

#[test]
fn grid_auto_composite_six() {
    // 6 panes: the descending scan picks 3 rows, hence 2 columns.
    let cells = grid_layout(6, Layout::Auto, area(100, 90));
    assert_eq!(cells.len(), 6);
    assert_eq!(cells[0], GridCell { x: 0, y: 0, width: 50, height: 29 });
    assert_eq!(cells[1], GridCell { x: 50, y: 0, width: 50, height: 29 });
    assert_eq!(cells[5], GridCell { x: 50, y: 58, width: 50, height: 29 });
}

#[test]
fn grid_degenerate_counts() {
    assert_eq!(grid_layout(0, Layout::Auto, area(100, 90)).len(), 0);
    let one = grid_layout(1, Layout::Auto, area(100, 90));
    assert_eq!(one.len(), 1);
    assert_eq!(one[0], GridCell { x: 0, y: 0, width: 100, height: 90 });
}

#[test]
fn grid_two_panes_side_by_side() {
    let cells = grid_layout(2, Layout::Auto, area(100, 90));
    assert_eq!(cells.len(), 2);
    assert_eq!(cells[0], GridCell { x: 0, y: 0, width: 50, height: 90 });
    assert_eq!(cells[1], GridCell { x: 50, y: 0, width: 50, height: 90 });
}

#[test]
fn grid_horizontal_mode() {
    let cells = grid_layout(4, Layout::Horizontal, area(100, 40));
    assert_eq!(cells.len(), 4);
    for (i, c) in cells.iter().enumerate() {
        assert_eq!(*c, GridCell { x: 25 * i as u16, y: 0, width: 25, height: 40 });
    }
}

#[test]
fn grid_vertical_mode() {
    let cells = grid_layout(3, Layout::Vertical, area(100, 90));
    assert_eq!(cells.len(), 3);
    assert_eq!(cells[0], GridCell { x: 0, y: 0, width: 100, height: 29 });
    assert_eq!(cells[1], GridCell { x: 0, y: 29, width: 100, height: 29 });
    assert_eq!(cells[2], GridCell { x: 0, y: 58, width: 100, height: 29 });
}

#[test]
fn grid_cells_count_matches_panes() {
    for n in 1..40usize {
        assert_eq!(grid_layout(n, Layout::Auto, area(200, 100)).len(), n);
    }
}

#[test]
fn grid_offset_area() {
    let cells = grid_layout(2, Layout::Horizontal, GridCell { x: 10, y: 5, width: 60, height: 20 });
    assert_eq!(cells[0], GridCell { x: 10, y: 5, width: 30, height: 20 });
    assert_eq!(cells[1], GridCell { x: 40, y: 5, width: 30, height: 20 });
}

#[test]
fn markers_two_fit_in_sixty_five() {
    let ms = generate_time_markers(65, 1);
    assert_eq!(ms.len(), 2);
    // Most recent first: the 60s marker, shortened by the 30s label's room.
    assert_eq!(ms[0].label, "60s".to_string());
    assert_eq!(ms[0].spacing, 26);
    assert_eq!(ms[1].label, "30s".to_string());
    assert_eq!(ms[1].spacing, 30);
}

#[test]
fn markers_none_when_too_close_to_left_edge() {
    assert_eq!(generate_time_markers(34, 1).len(), 0);
    let ms = generate_time_markers(35, 1);
    assert_eq!(ms.len(), 1);
    assert_eq!(ms[0].label, "30s".to_string());
    assert_eq!(ms[0].spacing, 30);
}

#[test]
fn markers_spacing_scales_with_series_count() {
    let ms = generate_time_markers(65, 2);
    assert_eq!(ms.len(), 2);
    assert_eq!(ms[0].spacing, 56);
    assert_eq!(ms[1].spacing, 60);
}

#[test]
fn markers_tiny_window() {
    assert_eq!(generate_time_markers(0, 1).len(), 0);
    assert_eq!(generate_time_markers(4, 1).len(), 0);
}
