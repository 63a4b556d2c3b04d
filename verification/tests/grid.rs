use nvs_shell::editor::grid::CharacterGrid;

fn grid_from(rows: &[&str]) -> CharacterGrid {
    let mut g = CharacterGrid::new((rows[0].chars().count(), rows.len()));
    for (y, row) in rows.iter().enumerate() {
        for (x, c) in row.chars().enumerate() {
            assert!(g.set_cell(x, y, (c.to_string(), None)));
        }
    }
    g
}

fn text_at(g: &CharacterGrid, x: usize, y: usize) -> &str {
    &g.get_cell(x, y).unwrap().0
}

#[test]
fn full_scroll_down_rotates() {
    let mut g = grid_from(&["abcd", "efgh", "ijkl", "mnop"]);
    assert!(g.scroll_region(0, 4, 0, 4, 2, 0));
    assert_eq!(text_at(&g, 0, 0), "i");
    assert_eq!(text_at(&g, 0, 1), "m");
}

#[test]
fn full_scroll_up_rotates() {
    let mut g = grid_from(&["abcd", "efgh", "ijkl", "mnop"]);
    assert!(g.scroll_region(0, 4, 0, 4, -2, 0));
    assert_eq!(text_at(&g, 0, 2), "a");
    assert_eq!(text_at(&g, 3, 3), "h");
}

#[test]
fn partial_scrolls_copy_cells() {
    let mut g = grid_from(&["abcd", "efgh", "ijkl", "mnop"]);
    assert!(!g.scroll_region(1, 3, 0, 4, 1, 0));
    assert_eq!(text_at(&g, 0, 0), "a");
    assert_eq!(text_at(&g, 0, 1), "i");
    assert_eq!(text_at(&g, 0, 3), "m");

    let mut g = grid_from(&["abcd", "efgh", "ijkl", "mnop"]);
    g.scroll_region(0, 4, 0, 4, 0, 1);
    assert_eq!(text_at(&g, 0, 0), "b");
    let mut g = grid_from(&["abcd", "efgh", "ijkl", "mnop"]);
    g.scroll_region(1, 3, 1, 3, 1, 1);
    assert_eq!(text_at(&g, 1, 1), "k");
    assert_eq!(text_at(&g, 0, 1), "e");
}

#[test]
fn resize_keeps_content() {
    let mut g = grid_from(&["ab", "cd"]);
    g.resize((3, 3));
    assert_eq!(text_at(&g, 1, 1), "d");
    assert_eq!(text_at(&g, 2, 2), " ");
}

#[test]
fn full_scroll_and_back_restores_the_grid() {
    let rows = ["abcd", "efgh", "ijkl", "mnop"];
    let mut g = grid_from(&rows);
    assert!(g.scroll_region(0, 4, 0, 4, 3, 0));
    assert!(g.scroll_region(0, 4, 0, 4, -3, 0));
    for (y, row) in rows.iter().enumerate() {
        for (x, c) in row.chars().enumerate() {
            assert_eq!(text_at(&g, x, y), c.to_string());
        }
    }
}

#[test]
fn grow_then_shrink_restores_the_grid() {
    let mut g = grid_from(&["ab", "cd"]);
    g.resize((5, 4));
    g.resize((2, 2));
    assert_eq!((g.width(), g.height()), (2, 2));
    assert_eq!(text_at(&g, 0, 0), "a");
    assert_eq!(text_at(&g, 1, 0), "b");
    assert_eq!(text_at(&g, 0, 1), "c");
    assert_eq!(text_at(&g, 1, 1), "d");
}

#[test]
fn cells_outside_the_grid_are_not_there() {
    let mut g = grid_from(&["ab"]);
    assert!(g.get_cell(2, 0).is_none());
    assert!(!g.set_cell(0, 1, ("x".to_string(), None)));
    g.clear();
    assert_eq!(text_at(&g, 0, 0), " ");
}
