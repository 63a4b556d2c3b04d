use nvs_shell::bridge::commands::SerialCommand;
use nvs_shell::input::mouse::{mouse_step, scroll_commands, Hit, MouseButtonName, MouseInput, MouseState};

fn hit(grid: u64, col: u32, row: u32) -> Option<Hit> {
    Some(Hit { grid, cell: (col, row) })
}

#[test]
fn press_drag_release_stays_on_the_grid_it_started_in() {
    let mut s = MouseState::new();
    let press = MouseInput::Button { button: Some(MouseButtonName::Left), down: true, under: hit(2, 3, 4), dragged: None };
    match mouse_step(&mut s, press, "C") {
        Some(SerialCommand::MouseButton { button, action, grid_id, position, modifier_string }) => {
            assert_eq!((button.as_str(), action.as_str(), grid_id, position, modifier_string.as_str()), ("left", "press", 2, (3, 4), "C"));
        }
        other => panic!("{:?}", other),
    }
    assert_eq!(s.drag_grid(), Some(2));
    // The pointer moves over grid 5, but the drag stays on grid 2.
    let moved = MouseInput::Moved { under: hit(5, 0, 0), dragged: hit(2, 6, 4) };
    match mouse_step(&mut s, moved, "") {
        Some(SerialCommand::Drag { button, grid_id, position, .. }) => {
            assert_eq!((button.as_str(), grid_id, position), ("left", 2, (6, 4)));
        }
        other => panic!("{:?}", other),
    }
    assert!(s.has_moved);
    // The release is at the last drag cell, on the drag's grid.
    let release = MouseInput::Button { button: Some(MouseButtonName::Left), down: false, under: hit(5, 1, 1), dragged: hit(2, 9, 9) };
    match mouse_step(&mut s, release, "") {
        Some(SerialCommand::MouseButton { action, grid_id, position, .. }) => {
            assert_eq!((action.as_str(), grid_id, position), ("release", 2, (6, 4)));
        }
        other => panic!("{:?}", other),
    }
    assert_eq!(s.drag_grid(), None);
    assert!(!s.has_moved);
}

#[test]
fn moves_without_a_drag_send_nothing() {
    let mut s = MouseState::new();
    let moved = MouseInput::Moved { under: hit(1, 7, 8), dragged: None };
    assert!(mouse_step(&mut s, moved, "").is_none());
    assert_eq!(s.grid_position, (7, 8));
}

#[test]
fn disabled_mouse_and_unknown_buttons_do_nothing() {
    let mut s = MouseState::new();
    s.enabled = false;
    let press = MouseInput::Button { button: Some(MouseButtonName::Right), down: true, under: hit(1, 0, 0), dragged: None };
    assert!(mouse_step(&mut s, press, "").is_none());
    assert_eq!(s.drag_grid(), None);
    s.enabled = true;
    let other = MouseInput::Button { button: None, down: true, under: hit(1, 0, 0), dragged: None };
    assert!(mouse_step(&mut s, other, "").is_none());
    assert_eq!(MouseButtonName::Back.name(), "x1");
    assert_eq!(MouseButtonName::Forward.name(), "x2");
}

#[test]
fn press_outside_every_grid_ends_the_drag() {
    let mut s = MouseState::new();
    let press = MouseInput::Button { button: Some(MouseButtonName::Middle), down: true, under: hit(3, 0, 0), dragged: None };
    mouse_step(&mut s, press, "");
    assert_eq!(s.drag_grid(), Some(3));
    let press = MouseInput::Button { button: Some(MouseButtonName::Middle), down: true, under: None, dragged: hit(3, 0, 0) };
    assert!(mouse_step(&mut s, press, "").is_none());
    assert_eq!(s.drag_grid(), None);
}

#[test]
fn wheel_scrolls_vertical_then_horizontal() {
    let v = scroll_commands((0, 0), (-2, 3), hit(4, 1, 2), "S");
    let got: Vec<(String, u64, (u32, u32), u32)> = v
        .into_iter()
        .map(|c| match c {
            SerialCommand::Scroll { direction, grid_id, position, count, .. } => (direction, grid_id, position, count),
            other => panic!("{:?}", other),
        })
        .collect();
    assert_eq!(got, vec![("up".to_string(), 4, (1, 2), 3), ("left".to_string(), 4, (1, 2), 2)]);
    let v = scroll_commands((5, 5), (5, 4), None, "");
    assert!(matches!(&v[..], [SerialCommand::Scroll { direction, grid_id: 0, position: (0, 0), count: 1, .. }] if direction == "down"));
    assert!(scroll_commands((1, 1), (1, 1), None, "").is_empty());
}
