use nvs_shell::bridge::commands::SerialCommand;
use nvs_shell::ui::widgets::{list_keys, ListState, TextState};
use nvs_shell::ui::{Key, KeyPress, Modifiers, NamedKey};

fn key(c: &str) -> KeyPress {
    KeyPress { key: Key::Character(c.into()), modifiers: Modifiers { control: false, alt: false, shift: false, logo: false }, text: Some(c.into()) }
}

fn named(k: NamedKey) -> KeyPress {
    KeyPress { key: Key::Named(k), modifiers: Modifiers { control: false, alt: false, shift: false, logo: false }, text: None }
}

#[test]
fn typing_then_backspace_gives_the_text_back() {
    let mut t = TextState::new();
    t.set("helo");
    t.cursor = 2;
    t.insert("x");
    assert_eq!((t.text.as_str(), t.cursor), ("hexlo", 3));
    t.backspace();
    assert_eq!((t.text.as_str(), t.cursor), ("helo", 2));
}

#[test]
fn typing_then_delete_behind_gives_the_text_back() {
    let mut t = TextState::new();
    t.set("ab");
    t.cursor = 1;
    t.insert("z");
    t.cursor = 1;
    t.delete();
    assert_eq!((t.text.as_str(), t.cursor), ("ab", 1));
}

#[test]
fn word_back_removes_the_word_and_its_blanks() {
    let mut t = TextState::new();
    t.set("open the file  ");
    t.word_back();
    assert_eq!((t.text.as_str(), t.cursor), ("open the ", 9));
}

#[test]
fn list_selection_stays_on_a_row() {
    let mut s = ListState::new();
    let keys = vec![key("j"), key("j"), key("j"), key("j"), key("j")];
    let r = list_keys(&mut s, 3, 2, true, &keys);
    assert_eq!(s.selected, 2);
    assert_eq!(s.scroll, 1);
    assert!(r.selection_changed);
    let r = list_keys(&mut s, 3, 2, true, &vec![key("g"), key("g")]);
    assert_eq!((s.selected, s.scroll), (0, 0));
    assert!(r.selection_changed);
    let r = list_keys(&mut s, 3, 2, true, &vec![named(NamedKey::Enter)]);
    assert_eq!(r.activated, Some(0));
    assert!(!r.selection_changed);
}

#[test]
fn an_empty_list_ignores_keys() {
    let mut s = ListState::new();
    let r = list_keys(&mut s, 0, 5, true, &vec![key("j"), named(NamedKey::Escape)]);
    assert!(!r.escape);
    assert_eq!(s.selected, 0);
}

fn scroll(count: u32, dir: &str) -> SerialCommand {
    SerialCommand::Scroll { direction: dir.into(), grid_id: 2, position: (1, 1), count, modifier_string: String::new() }
}

#[test]
fn wheel_scrolls_to_one_place_merge() {
    let mut a = scroll(3, "down");
    assert!(a.try_merge_scroll(scroll(4, "down")).is_none());
    assert!(matches!(a, SerialCommand::Scroll { count: 7, .. }));
    assert!(a.try_merge_scroll(scroll(u32::MAX, "down")).is_none());
    assert!(matches!(a, SerialCommand::Scroll { count: u32::MAX, .. }));
    let back = a.try_merge_scroll(scroll(1, "up"));
    assert!(matches!(back, Some(SerialCommand::Scroll { count: 1, .. })));
}
