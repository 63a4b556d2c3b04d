use std::collections::HashMap;

use nvs_shell::bridge::events::GridLineCell;
use nvs_shell::editor::style::{Color, Colors, Style};
use nvs_shell::editor::window::{Coord, Pos, Window, WindowType};

fn style(c: u32) -> Option<Style> {
    Some(Style::new(Colors::new(Some(Color::Rgb(c)), None, None)))
}

fn origin() -> Pos {
    Pos { left: Coord::Cells(0), top: Coord::Cells(0) }
}

fn window(rows: &[&[(&str, Option<Style>)]]) -> Window {
    let mut w = Window::new(1, WindowType::Editor, None, origin(), (rows[0].len() as u64, rows.len() as u64));
    for (y, row) in rows.iter().enumerate() {
        for (x, (text, s)) in row.iter().enumerate() {
            assert!(w.grid.set_cell(x, y, (text.to_string(), *s)));
        }
    }
    w
}

#[test]
fn fragments_split_on_style_and_words_on_whitespace() {
    let a = style(1);
    let b = style(2);
    let w = window(&[&[("f", a), ("o", a), (" ", a), ("x", b), ("y", b)]]);
    let line = w.snapshot_line(0);
    assert_eq!(line.fragments.len(), 2);
    assert_eq!(line.fragments[0].cells, 0..3);
    assert_eq!(line.fragments[0].words.len(), 1);
    assert_eq!(line.fragments[0].words[0].text, "fo");
    assert_eq!(line.fragments[1].cells, 3..5);
    assert_eq!(line.fragments[1].words[0].text, "xy");
    assert_eq!(line.fragments[1].words[0].cell, 0);
}

#[test]
fn double_width_cells_join_their_word() {
    let a = style(1);
    let w = window(&[&[("a", a), ("一", a), ("", a), ("b", a)]]);
    let line = w.snapshot_line(0);
    let word = &line.fragments[0].words[0];
    assert_eq!(word.text, "a一b");
    assert_eq!(word.cluster_sizes, vec![1, 3, 0, 1]);
    let clusters: Vec<(usize, String)> = word.clusters();
    assert_eq!(clusters, vec![(0, "a".to_string()), (1, "一".to_string()), (3, "b".to_string())]);
}

#[test]
fn grid_line_repeat_and_inherit() {
    let mut w = Window::new(1, WindowType::Editor, None, origin(), (6, 1));
    let mut styles = HashMap::new();
    styles.insert(7u64, Style::new(Colors::new(None, None, None)));
    w.draw_grid_line(
        0,
        0,
        vec![
            GridLineCell { text: "a".into(), highlight_id: Some(7), repeat: None },
            GridLineCell { text: "b".into(), highlight_id: None, repeat: Some(3) },
            GridLineCell { text: " ".into(), highlight_id: Some(0), repeat: Some(0) },
        ],
        &styles,
    );
    assert_eq!(w.grid.get_cell(3, 0).unwrap().0, "b");
    assert!(w.grid.get_cell(3, 0).unwrap().1.is_some());
    assert_eq!(w.grid.get_cell(4, 0).unwrap().0, " ");
}

#[test]
fn a_blank_line_has_no_words() {
    let w = Window::new(1, WindowType::Editor, None, origin(), (3, 1));
    let line = w.snapshot_line(0);
    assert_eq!(line.fragments.len(), 1);
    assert_eq!(line.fragments[0].cells, 0..3);
    assert!(line.fragments[0].words.is_empty());
}

#[test]
fn resizing_a_window_keeps_what_fits() {
    let a = style(1);
    let mut w = window(&[&[("p", a), ("q", a)]]);
    w.resize((1, 2));
    assert_eq!((w.get_width(), w.get_height()), (1, 2));
    assert_eq!(w.grid.get_cell(0, 0).unwrap().0, "p");
    assert_eq!(w.grid.get_cell(0, 1).unwrap().0, " ");
}
