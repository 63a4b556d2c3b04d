use nvs_shell::bridge::events::{GridLineCell, RedrawEvent, WindowAnchor};
use nvs_shell::bridge::value::{FloatValue, Integer};
use nvs_shell::editor::window::Coord;
use nvs_shell::editor::{Editor, EditorOutput, Frame};

fn cells(s: &str) -> Vec<GridLineCell> {
    s.chars().map(|c| GridLineCell { text: c.to_string(), highlight_id: Some(0), repeat: None }).collect()
}

fn num(v: &FloatValue) -> f64 {
    match v {
        FloatValue::Int(Integer::PosInt(n)) => *n as f64,
        FloatValue::Int(Integer::NegInt(n)) => *n as f64,
        FloatValue::F32(bits) => f32::from_bits(*bits) as f64,
        FloatValue::F64(bits) => f64::from_bits(*bits),
    }
}

fn coord(c: &Coord) -> f64 {
    match c {
        Coord::Cells(n) => *n as f64,
        Coord::Anchor(v) => num(v),
        Coord::AnchorLess(v, n) => num(v) - *n as f64,
        Coord::Sum(a, b) => coord(a) + coord(b),
    }
}

fn flush(ed: &mut Editor) -> Frame {
    match ed.handle_redraw_event(RedrawEvent::Flush) {
        EditorOutput::Frame(f) => f,
        other => panic!("{other:?}"),
    }
}

#[test]
fn flush_snapshots_windows_in_draw_order() {
    let mut ed = Editor::new();
    ed.handle_redraw_event(RedrawEvent::Resize { grid: 1, width: 10, height: 4 });
    ed.handle_redraw_event(RedrawEvent::Resize { grid: 2, width: 10, height: 3 });
    ed.handle_redraw_event(RedrawEvent::WindowPosition { grid: 2, start_row: 0, start_column: 0, width: 10, height: 3 });
    ed.handle_redraw_event(RedrawEvent::GridLine { grid: 2, row: 0, column_start: 0, cells: cells("hello") });
    ed.handle_redraw_event(RedrawEvent::Resize { grid: 3, width: 4, height: 1 });
    ed.handle_redraw_event(RedrawEvent::WindowFloatPosition {
        grid: 3,
        anchor: WindowAnchor::NorthWest,
        anchor_grid: 2,
        anchor_row: FloatValue::F64(1.0f64.to_bits()),
        anchor_column: FloatValue::F64(2.0f64.to_bits()),
        mouse_enabled: true,
        z_index: 50,
        comp_index: None,
        screen_row: None,
        screen_col: None,
    });
    ed.handle_redraw_event(RedrawEvent::CursorGoto { grid: 2, row: 0, column: 1 });
    let frame = flush(&mut ed);
    assert_eq!(frame.grid_size, (10, 4));
    let ids: Vec<u64> = frame.windows.iter().map(|w| w.id).collect();
    assert_eq!(ids, vec![1, 2, 3]);
    let float = &frame.windows[2];
    assert!(float.floating);
    assert_eq!((coord(&float.left), coord(&float.top)), (2.0, 1.0));
    assert_eq!(frame.windows[1].lines[0].fragments[0].words[0].text, "hello");
    assert_eq!(frame.cursor.grid_cell.0, "e");
}

#[test]
fn hidden_windows_are_not_drawn_until_positioned() {
    let mut ed = Editor::new();
    ed.handle_redraw_event(RedrawEvent::Resize { grid: 1, width: 5, height: 2 });
    ed.handle_redraw_event(RedrawEvent::Resize { grid: 4, width: 5, height: 1 });
    assert_eq!(flush(&mut ed).windows.len(), 1);
    ed.handle_redraw_event(RedrawEvent::WindowPosition { grid: 4, start_row: 1, start_column: 0, width: 5, height: 1 });
    assert_eq!(flush(&mut ed).windows.len(), 2);
    ed.handle_redraw_event(RedrawEvent::WindowHide { grid: 4 });
    assert_eq!(flush(&mut ed).windows.len(), 1);
}

#[test]
fn destroyed_grids_are_gone() {
    let mut ed = Editor::new();
    ed.handle_redraw_event(RedrawEvent::Resize { grid: 1, width: 5, height: 2 });
    ed.handle_redraw_event(RedrawEvent::WindowPosition { grid: 2, start_row: 0, start_column: 0, width: 5, height: 1 });
    assert_eq!(flush(&mut ed).windows.len(), 2);
    ed.handle_redraw_event(RedrawEvent::Destroy { grid: 2 });
    let f = flush(&mut ed);
    assert_eq!(f.windows.len(), 1);
    assert_eq!(f.windows[0].id, 1);
}

#[test]
fn flushes_count_up() {
    let mut ed = Editor::new();
    let a = flush(&mut ed).sequence;
    let b = flush(&mut ed).sequence;
    assert_eq!(b, a + 1);
}

#[test]
fn events_other_than_flush_give_no_frame() {
    let mut ed = Editor::new();
    assert!(matches!(ed.handle_redraw_event(RedrawEvent::Resize { grid: 1, width: 5, height: 2 }), EditorOutput::Nothing));
}
