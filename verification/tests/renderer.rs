use nvs_shell::editor::cursor::CursorShape;
use nvs_shell::editor::Editor;
use nvs_shell::renderer::blink::{BlinkAction, BlinkStatus};
use nvs_shell::renderer::icons::{icon, index_of, rasterize, ICON_COUNT};

#[test]
fn icons_are_found_by_name() {
    assert_eq!(index_of("explorer"), Some(0));
    assert_eq!(index_of("dot"), Some(19));
    assert_eq!(index_of("chevron-down"), Some(ICON_COUNT - 1));
    assert_eq!(index_of("nope"), None);
    assert_eq!(icon(19).unwrap().name, "dot");
    assert!(icon(ICON_COUNT).is_none());
}

#[test]
fn rasterize_scales_each_pixel() {
    let dot = index_of("dot").unwrap();
    let (w, h, data) = rasterize(dot, 2).unwrap();
    assert_eq!((w, h), (8, 8));
    assert_eq!(data.len(), 64);
    // Row 0 of the dot is ".##.": two clear pixels, four set, two clear.
    assert_eq!(&data[0..8], &[0, 0, 255, 255, 255, 255, 0, 0]);
    assert_eq!(&data[8..16], &[0, 0, 255, 255, 255, 255, 0, 0]);
    assert_eq!(&data[16..24], &[255; 8]);
    assert!(rasterize(ICON_COUNT, 1).is_none());
}

#[test]
fn rasterize_at_scale_one_is_the_bitmap() {
    let x = index_of("x").unwrap();
    let (w, h, data) = rasterize(x, 1).unwrap();
    assert_eq!((w, h), (5, 5));
    assert_eq!(&data[0..5], &[255, 0, 0, 0, 255]);
    assert_eq!(&data[10..15], &[0, 0, 255, 0, 0]);
}

fn blinking_cursor(wait: u64, on: u64, off: u64) -> nvs_shell::editor::cursor::Cursor {
    let ed = Editor::new();
    let mut c = nvs_shell::editor::clone_cursor(&ed.cursor);
    c.blinkwait = Some(wait);
    c.blinkon = Some(on);
    c.blinkoff = Some(off);
    c.shape = CursorShape::Block;
    c
}

#[test]
fn a_new_cursor_waits_then_blinks() {
    let c = blinking_cursor(100, 50, 30);
    let mut b = BlinkStatus::new(0);
    assert_eq!(b.update(&c, 1000), BlinkAction::Deadline(1100));
    assert!(b.visible());
    assert_eq!(b.update(&c, 1100), BlinkAction::Immediately);
    assert!(b.visible());
    assert_eq!(b.update(&c, 1120), BlinkAction::Deadline(1150));
    assert_eq!(b.update(&c, 1150), BlinkAction::Immediately);
    assert!(!b.visible());
    assert_eq!(b.update(&c, 1180), BlinkAction::Immediately);
    assert!(b.visible());
}

#[test]
fn a_static_cursor_stays_shown() {
    let mut c = blinking_cursor(100, 50, 30);
    c.blinkoff = Some(0);
    let mut b = BlinkStatus::new(0);
    for t in [0, 100, 1000, 5000] {
        assert_eq!(b.update(&c, t), BlinkAction::Wait);
        assert!(b.visible());
    }
}

#[test]
fn a_late_update_restarts_the_phase_from_now() {
    let c = blinking_cursor(0, 50, 30);
    let mut b = BlinkStatus::new(0);
    assert_eq!(b.update(&c, 10), BlinkAction::Deadline(60));
    assert_eq!(b.update(&c, 500), BlinkAction::Immediately);
    assert!(!b.visible());
    assert_eq!(b.update(&c, 510), BlinkAction::Deadline(530));
}
