use nvs_shell::input::keyboard::{get_special_key, KeyCode, KeyEvent, KeyOutput, KeyboardManager, WindowInput};
use nvs_shell::ui::{Key, Modifiers, NamedKey};

fn mods(control: bool, alt: bool, shift: bool, logo: bool) -> Modifiers {
    Modifiers { control, alt, shift, logo }
}

fn press(key: Key, text: Option<&str>) -> WindowInput {
    WindowInput::Keyboard {
        event: KeyEvent { logical_key: key, physical_key: KeyCode::Other, numpad: false, text: text.map(|t| t.to_string()), pressed: true },
        is_synthetic: false,
    }
}

fn input(k: &mut KeyboardManager, e: WindowInput) -> KeyOutput {
    k.handle_event(&e)
}

#[test]
fn plain_text_goes_through() {
    let mut k = KeyboardManager::new();
    assert_eq!(input(&mut k, press(Key::Character("a".into()), Some("a"))), KeyOutput::Input("a".into()));
}

#[test]
fn less_than_is_spelled_out() {
    let mut k = KeyboardManager::new();
    assert_eq!(input(&mut k, press(Key::Character("<".into()), Some("<"))), KeyOutput::Input("<lt>".into()));
}

#[test]
fn special_keys_use_neovim_names() {
    let mut k = KeyboardManager::new();
    assert_eq!(input(&mut k, press(Key::Named(NamedKey::Escape), None)), KeyOutput::Input("<Esc>".into()));
    assert_eq!(input(&mut k, press(Key::Named(NamedKey::F(5)), None)), KeyOutput::Input("<F5>".into()));
    assert_eq!(input(&mut k, press(Key::Named(NamedKey::F(12)), None)), KeyOutput::Input("<F12>".into()));
    assert_eq!(input(&mut k, press(Key::Named(NamedKey::F(30)), None)), KeyOutput::Nothing);
    assert_eq!(input(&mut k, press(Key::Named(NamedKey::Backspace), None)), KeyOutput::Input("<BS>".into()));
}

#[test]
fn modifiers_prefix_special_keys_with_shift() {
    let mut k = KeyboardManager::new();
    input(&mut k, WindowInput::ModifiersChanged(mods(true, false, true, false)));
    assert_eq!(input(&mut k, press(Key::Named(NamedKey::Tab), None)), KeyOutput::Input("<S-C-Tab>".into()));
    assert_eq!(input(&mut k, press(Key::Character("a".into()), Some("a"))), KeyOutput::Input("<S-C-A>".into()));
}

#[test]
fn shift_is_not_spelled_for_plain_text() {
    let mut k = KeyboardManager::new();
    input(&mut k, WindowInput::ModifiersChanged(mods(false, false, true, false)));
    assert_eq!(input(&mut k, press(Key::Character("a".into()), Some("a"))), KeyOutput::Input("A".into()));
    assert_eq!(input(&mut k, press(Key::Character("!".into()), Some("!"))), KeyOutput::Input("!".into()));
    input(&mut k, WindowInput::ModifiersChanged(mods(false, true, false, false)));
    assert_eq!(input(&mut k, press(Key::Character("x".into()), Some("x"))), KeyOutput::Input("<M-x>".into()));
}

#[test]
fn releases_and_synthetic_keys_send_nothing() {
    let mut k = KeyboardManager::new();
    let release = WindowInput::Keyboard {
        event: KeyEvent { logical_key: Key::Character("a".into()), physical_key: KeyCode::Other, numpad: false, text: Some("a".into()), pressed: false },
        is_synthetic: false,
    };
    assert_eq!(input(&mut k, release), KeyOutput::Nothing);
    let synthetic = WindowInput::Keyboard {
        event: KeyEvent { logical_key: Key::Character("a".into()), physical_key: KeyCode::Other, numpad: false, text: Some("a".into()), pressed: true },
        is_synthetic: true,
    };
    assert_eq!(input(&mut k, synthetic), KeyOutput::Nothing);
}

#[test]
fn ime_composition_holds_keys_back() {
    let mut k = KeyboardManager::new();
    assert_eq!(input(&mut k, WindowInput::ImePreedit("ka".into())), KeyOutput::Preedit("ka".into()));
    assert_eq!(input(&mut k, press(Key::Character("a".into()), Some("a"))), KeyOutput::Nothing);
    assert_eq!(input(&mut k, WindowInput::ImeCommit("か".into())), KeyOutput::Input("か".into()));
    input(&mut k, WindowInput::ImePreedit(String::new()));
    assert_eq!(input(&mut k, press(Key::Character("a".into()), Some("a"))), KeyOutput::Input("a".into()));
}

#[test]
fn numpad_keys_follow_num_lock() {
    let digit = KeyEvent { logical_key: Key::Character("8".into()), physical_key: KeyCode::Numpad8, numpad: true, text: Some("8".into()), pressed: true };
    assert_eq!(get_special_key(&digit), Some("k8".to_string()));
    let arrow = KeyEvent { logical_key: Key::Named(NamedKey::ArrowUp), physical_key: KeyCode::Numpad8, numpad: true, text: None, pressed: true };
    assert_eq!(get_special_key(&arrow), Some("kUp".to_string()));
    let point = KeyEvent { logical_key: Key::Character(",".into()), physical_key: KeyCode::NumpadDecimal, numpad: true, text: Some(",".into()), pressed: true };
    assert_eq!(get_special_key(&point), Some("kComma".to_string()));
    let enter = KeyEvent { logical_key: Key::Named(NamedKey::Enter), physical_key: KeyCode::NumpadEnter, numpad: true, text: None, pressed: true };
    let mut k = KeyboardManager::new();
    assert_eq!(input(&mut k, WindowInput::Keyboard { event: enter, is_synthetic: false }), KeyOutput::Input("<kEnter>".into()));
}

#[test]
fn space_finishing_a_dead_key_is_text() {
    let mut k = KeyboardManager::new();
    assert_eq!(input(&mut k, press(Key::Named(NamedKey::Space), Some(" "))), KeyOutput::Input("<Space>".into()));
    assert_eq!(input(&mut k, press(Key::Named(NamedKey::Space), Some("´"))), KeyOutput::Input("´".into()));
}

#[test]
fn modifier_strings() {
    let mut k = KeyboardManager::new();
    input(&mut k, WindowInput::ModifiersChanged(mods(true, true, true, true)));
    assert_eq!(k.format_modifier_string("x", false), "S-C-M-D-");
    assert_eq!(k.format_modifier_string("1", false), "C-M-D-");
    assert_eq!(k.format_modifier_string("Up", true), "S-C-M-D-");
}
