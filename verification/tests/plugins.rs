use nvs_shell::workbench::plugins::{filter_by_query, wrap, Extra, Plugin, PluginsModel, PluginsScreen};
use nvs_shell::workbench::{shortcut_for, Focus, Screen, Shortcut, View, Workbench};

fn plugin(name: &str, desc: &str, eq: &[&str]) -> Plugin {
    Plugin {
        name: name.into(),
        url: String::new(),
        dir: String::new(),
        installed: true,
        loaded: false,
        lazy: true,
        enabled: true,
        dep: false,
        updates: false,
        loads: vec![],
        version: String::new(),
        desc: desc.into(),
        eq: eq.iter().map(|s| s.to_string()).collect(),
    }
}

fn extra(name: &str, enabled: bool, recommended: bool) -> Extra {
    Extra { name: name.into(), module: String::new(), enabled, managed: false, recommended, desc: "d".into(), plugins: vec![] }
}

#[test]
fn plugins_are_found_by_name_description_and_features() {
    let mut s = PluginsScreen::new();
    s.set_model(PluginsModel {
        plugins: vec![plugin("telescope.nvim", "Fuzzy finder", &["Quick Open"]), plugin("gitsigns", "Git signs", &[])],
        extras: vec![],
        has_updates: false,
    });
    assert_eq!(s.visible_plugins(), vec![0, 1]);
    s.search.set("  QUICK ");
    assert_eq!(s.visible_plugins(), vec![0]);
    s.search.set("git");
    assert_eq!(s.visible_plugins(), vec![1]);
}

#[test]
fn extras_sort_enabled_then_recommended_then_by_name() {
    let mut s = PluginsScreen::new();
    s.set_model(PluginsModel {
        plugins: vec![],
        extras: vec![extra("lang.zig", false, false), extra("lang.go", false, true), extra("ui.edgy", true, false), extra("lang.c", false, false)],
        has_updates: false,
    });
    assert_eq!(s.visible_extras(), vec![2, 1, 3, 0]);
}

#[test]
fn filtering_ignores_case_and_blank_queries() {
    let hays = vec!["Alpha".to_string(), "beta".to_string()];
    assert_eq!(filter_by_query("", &hays), vec![0, 1]);
    assert_eq!(filter_by_query("ALP", &hays), vec![0]);
    assert!(filter_by_query("z", &hays).is_empty());
}

#[test]
fn descriptions_wrap_at_words() {
    assert_eq!(wrap("one two three", 7), vec!["one two", "three"]);
}

#[test]
fn shortcuts_follow_the_stage() {
    assert_eq!(shortcut_for("b", false, 2), Some(Shortcut::ToggleSidebar));
    assert_eq!(shortcut_for("b", false, 4), None);
    assert_eq!(shortcut_for("P", true, 4), Some(Shortcut::Palette));
    assert_eq!(shortcut_for("e", true, 1), Some(Shortcut::ShowView(View::Explorer)));
    assert_eq!(shortcut_for("e", false, 1), None);
    let mut w = Workbench::new();
    w.apply_shortcut(Shortcut::Settings);
    assert_eq!(w.active_screen, Some(Screen::Settings));
    w.apply_shortcut(Shortcut::Problems);
    assert!(w.panel_open);
    assert_eq!(w.focus, Focus::Panel);
}

#[test]
fn the_welcome_screen_opens_once() {
    let mut w = Workbench::new();
    w.nvim.welcomed = false;
    w.state_arrived();
    assert_eq!(w.active_screen, Some(Screen::Welcome));
    w.close_screen(Screen::Welcome);
    w.state_arrived();
    assert_eq!(w.active_screen, None);
}
