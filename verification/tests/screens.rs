use nvs_shell::ui::widgets::{list_click, list_follow, list_wheel, ListState, TextResponse};
use nvs_shell::workbench::plugins::{PluginsFocus, PluginsScreen, Tab};
use nvs_shell::workbench::settings::{category_named, cycled, in_category, SettingsFocus, SettingsNav};

fn resp() -> TextResponse {
    TextResponse { changed: false, submitted: false, cancelled: false, up: false, down: false, clicked: false }
}

#[test]
fn list_clicks_select_then_activate_or_collapse() {
    let mut s = ListState::new();
    assert_eq!(list_click(&mut s, 2, 5, None, false), (None, None));
    assert_eq!(s.selected, 2);
    assert_eq!(list_click(&mut s, 2, 5, None, false), (Some(2), None));
    assert_eq!(list_click(&mut s, 4, 5, Some(true), true), (None, Some(4)));
    assert_eq!(list_click(&mut s, 1, 5, Some(false), true), (Some(1), None));
    assert_eq!(list_click(&mut s, 9, 5, None, false), (None, None));
    assert_eq!(s.selected, 1);
}

#[test]
fn list_scroll_follows_the_selection_and_the_wheel() {
    let mut s = ListState { selected: 12, scroll: 0, pending_g: false };
    list_follow(&mut s, 20, 5);
    assert_eq!(s.scroll, 8);
    s.selected = 3;
    list_follow(&mut s, 20, 5);
    assert_eq!(s.scroll, 3);
    list_wheel(&mut s, 100, 20, 5);
    assert_eq!(s.scroll, 15);
    list_wheel(&mut s, -100, 20, 5);
    assert_eq!(s.scroll, 0);
    list_wheel(&mut s, 4, 3, 5);
    assert_eq!(s.scroll, 0);
}

#[test]
fn plugins_search_box_and_list_keys() {
    let mut p = PluginsScreen::new();
    p.search_field(TextResponse { clicked: true, ..resp() });
    assert_eq!(p.focus, PluginsFocus::Search);
    p.search.set("tele");
    p.list.selected = 4;
    p.search_field(TextResponse { changed: true, ..resp() });
    assert_eq!(p.list.selected, 0);
    p.search_field(TextResponse { cancelled: true, ..resp() });
    assert_eq!(p.search.text, "");
    assert_eq!(p.focus, PluginsFocus::Search);
    p.search_field(TextResponse { cancelled: true, ..resp() });
    assert_eq!(p.focus, PluginsFocus::List);
    assert!(!p.list_keys_done(true, false));
    assert_eq!(p.focus, PluginsFocus::Search);
    p.search.set("x");
    assert!(!p.list_keys_done(false, true));
    assert_eq!(p.search.text, "");
    assert!(p.list_keys_done(false, true));
    p.list.selected = 3;
    p.select_tab(Tab::Installed);
    assert_eq!(p.list.selected, 3);
    p.select_tab(Tab::Extras);
    assert_eq!(p.tab, Tab::Extras);
    assert_eq!(p.list.selected, 0);
}

#[test]
fn settings_categories_and_cycling() {
    let cats = vec!["Editor".to_string(), "Keys".to_string(), "Editor".to_string()];
    assert_eq!(in_category(&cats, "Editor"), vec![0, 2]);
    assert_eq!(in_category(&cats, "None"), Vec::<usize>::new());
    let names = vec!["Look".to_string(), "Keys".to_string(), "Keys".to_string()];
    assert_eq!(category_named(&names, "Keys"), Some(1));
    assert_eq!(category_named(&names, "Nope"), None);
    assert_eq!(cycled(2, 3, true), 0);
    assert_eq!(cycled(0, 3, false), 2);
    assert_eq!(cycled(1, 3, true), 2);
    let mut nav = SettingsNav { focus: SettingsFocus::Search, row: 7, scroll: 4 };
    nav.show_rows();
    assert_eq!((nav.focus, nav.row, nav.scroll), (SettingsFocus::Rows, 0, 0));
}
