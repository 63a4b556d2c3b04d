use nvs_shell::text::signed_decimal_string;
use nvs_shell::ui::fit;
use nvs_shell::workbench::labels::{coach_text, focus_hint, report_lines, screen_named, stage_name, view_named};
use nvs_shell::workbench::respond::welcome_stage_chosen;
use nvs_shell::workbench::settings::{Applied, ImportReport, ImportedKey, Skipped};
use nvs_shell::workbench::{Action, Focus, Screen, ThemeColor, View, Workbench};

#[test]
fn views_and_screens_by_name() {
    assert_eq!(view_named("explorer"), Some(View::Explorer));
    assert_eq!(view_named("learn"), Some(View::Learn));
    assert_eq!(view_named("Explorer"), None);
    assert_eq!(screen_named("settings"), Some(Screen::Settings));
    assert_eq!(screen_named("welcome"), Some(Screen::Welcome));
    assert_eq!(screen_named("nope"), None);
}

#[test]
fn stage_coach_and_hint_texts() {
    assert_eq!(stage_name(1), "VS Code keys");
    assert_eq!(stage_name(4), "Pure Neovim");
    assert_eq!(stage_name(9), "");
    assert_eq!(coach_text("always"), "every time");
    assert_eq!(coach_text("off"), "never");
    assert_eq!(coach_text("3"), "the first three times");
    assert_eq!(focus_hint(Focus::Grid), "");
    assert_eq!(focus_hint(Focus::Screen), "Esc back to the editor");
}

#[test]
fn signed_decimals() {
    assert_eq!(signed_decimal_string(-5), "-5");
    assert_eq!(signed_decimal_string(0), "0");
    assert_eq!(signed_decimal_string(42), "42");
    assert_eq!(signed_decimal_string(i64::MIN), "-9223372036854775808");
}

#[test]
fn import_report_lines() {
    let r = ImportReport {
        dir: "C:/vscode".to_string(),
        applied: vec![Applied {
            key: "editor.tabSize".to_string(),
            from: "4".to_string(),
            setting: "tabstop".to_string(),
            value: "4".to_string(),
        }],
        skipped: vec![
            Skipped { key: "a".to_string(), why: "x".to_string() },
            Skipped { key: "b".to_string(), why: "y".to_string() },
        ],
        keys: vec![ImportedKey {
            key: "ctrl+p".to_string(),
            lhs: "<C-p>".to_string(),
            command: "files".to_string(),
            desc: "Find files".to_string(),
        }],
        keys_skipped: vec![],
        error: None,
    };
    let lines = report_lines(&r);
    let texts: Vec<&str> = lines.iter().map(|(_, s)| s.as_str()).collect();
    assert_eq!(
        texts,
        vec![
            "Imported from VS Code  (C:/vscode)",
            "editor.tabSize 4  ->  tabstop = 4",
            "ctrl+p  ->  <C-p>  Find files",
            "No equivalent, skipped: a, b",
            "1 applied, 1 keybindings, 2 skipped",
        ]
    );
    assert!(matches!(lines[0].0, ThemeColor::Spectral));
    assert!(matches!(lines[3].0, ThemeColor::Ash));
}

#[test]
fn welcome_stage_runs_the_stage_command() {
    let actions = welcome_stage_chosen(3);
    assert_eq!(actions.len(), 2);
    match &actions[0] {
        Action::Command(c) => assert_eq!(c, "NvsStage 3"),
        _ => panic!("expected a command"),
    }
    assert!(matches!(&actions[1], Action::Lua(_, args) if args.is_empty()));
}

#[test]
fn run_ex_leaves_the_screen_and_focuses_the_grid() {
    let mut w = Workbench::new();
    w.active_screen = Some(Screen::Settings);
    let actions = w.run_ex("Lazy".to_string(), true);
    assert_eq!(w.active_screen, None);
    assert!(matches!(&actions[0], Action::Command(c) if c == "Lazy"));
    assert!(matches!(&actions[1], Action::FocusGrid));
    w.active_screen = Some(Screen::Plugins);
    w.run_ex("Mason".to_string(), false);
    assert_eq!(w.active_screen, Some(Screen::Plugins));
}

#[test]
fn fit_is_a_hard_cut_without_an_ellipsis() {
    assert_eq!(fit("hello world", 5), "hello");
    assert_eq!(fit("hi", 5), "hi");
    assert_eq!(fit("abc", 1), "a");
    assert_eq!(fit("abc", 0), "");
    assert_eq!(fit("héllo", 2), "hé");
}
