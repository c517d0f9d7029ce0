use pager_theme::highlight::{
    match_ranges, single_row_cells_safe, single_row_highlight_cells, wrapped_cells_safe,
    wrapped_highlight_cells,
};

#[test]
fn match_ranges_are_the_regex_matches_in_order() {
    let re = regex::Regex::new("ab").unwrap();
    assert_eq!(match_ranges(&re, "xxabyyab"), vec![(2, 4), (6, 8)]);
    assert_eq!(match_ranges(&re, "nothing"), vec![]);
}

#[test]
fn single_row_cells_stop_at_the_pane_edge() {
    let cols = [(2, 4), (6, 8)];
    assert!(single_row_cells_safe(&cols, 10, 8, 2));
    // Columns 4..6 and 8..10 from x = 10; the pane ends before x = 18.
    assert_eq!(single_row_highlight_cells(&cols, 10, 8, 3, 2), vec![(14, 3), (15, 3)]);
    assert_eq!(single_row_highlight_cells(&[(3, 3)], 10, 8, 3, 2), vec![]);
}

#[test]
fn single_row_cells_off_the_grid_are_reported() {
    assert!(!single_row_cells_safe(&[(0, 2)], 65530, 10, 0));
    assert!(!single_row_cells_safe(&[(0, 20)], 65530, 5, 0));
    assert!(single_row_cells_safe(&[(4, 4)], 65530, 10, 0));
}

#[test]
fn wrapped_cells_follow_rows_and_stop_at_the_viewport() {
    let segments = vec![vec![(0, 1, 3), (1, 0, 2)], vec![(2, 0, 1)]];
    assert!(wrapped_cells_safe(&segments, 0, 10, 5, 7, 0, 1));
    assert_eq!(
        wrapped_highlight_cells(&segments, 0, 10, 5, 7, 0, 1),
        vec![(2, 5), (3, 5), (1, 6), (2, 6)]
    );
}

#[test]
fn wrapped_cells_skip_clipped_rows() {
    let segments = vec![vec![(0, 1, 3), (1, 0, 2)], vec![(2, 0, 1)]];
    assert_eq!(
        wrapped_highlight_cells(&segments, 0, 10, 5, 7, 1, 1),
        vec![(1, 5), (2, 5), (1, 6)]
    );
}

#[test]
fn wrapped_cells_off_the_grid_are_reported() {
    assert!(wrapped_cells_safe(&[vec![(0, 0, 2)]], 0, 10, 65535, 65535, 0, 0));
    assert!(!wrapped_cells_safe(&[vec![(1, 0, 2)]], 0, 10, 65535, 0, 0, 0));
    assert!(!wrapped_cells_safe(&[vec![(0, 0, 2)]], 65535, 10, 0, 5, 0, 1));
}

#[test]
fn match_ranges_follow_the_compiled_regex() {
    let re = regex::RegexBuilder::new("AB").case_insensitive(true).build().unwrap();
    assert_eq!(match_ranges(&re, "xxabyyAb"), vec![(2, 4), (6, 8)]);
}
