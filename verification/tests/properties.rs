use nvs_shell::font::split_unescaped;
use nvs_shell::renderer::icons::index_of;
use nvs_shell::ui::widgets::TextState;
use nvs_shell::workbench::explorer::{default_hidden, set_hidden, Entry, Explorer, Listing};
use nvs_shell::workbench::search::SearchView;
use nvs_shell::workbench::tasks::SearchHit;
use nvs_shell::workbench::View;

#[test]
fn backspace_after_typing_a_char_gives_back_the_text() {
    let mut st = TextState::new();
    st.set("aéb");
    st.cursor = 2;
    st.insert("x");
    assert_eq!(st.text, "aéxb");
    st.backspace();
    assert_eq!((st.text.as_str(), st.cursor), ("aéb", 2));
}

#[test]
fn split_pieces_join_back() {
    let s = r"a\,b,c,,d";
    let parts = split_unescaped(s, ',');
    assert_eq!(parts, vec![r"a\,b", "c", "", "d"]);
    assert_eq!(parts.join(","), s);
}

#[test]
fn every_view_icon_exists_and_differs() {
    let views = [View::Explorer, View::Search, View::Git, View::Debug, View::Plugins, View::Ask, View::Learn];
    let mut seen = Vec::new();
    for v in views {
        assert!(index_of(v.icon()).is_some());
        assert!(!seen.contains(&v.icon()));
        seen.push(v.icon());
    }
}

#[test]
fn set_hidden_twice_changes_nothing_the_second_time() {
    let mut h = default_hidden();
    let names = vec!["dist".to_string()];
    assert!(set_hidden(&mut h, names.clone()));
    assert!(!set_hidden(&mut h, names.clone()));
    assert_eq!(h, names);
}

fn hit(file: &str) -> SearchHit {
    SearchHit { path: file.to_string(), file: file.to_string(), line: 1, col: 1, text: String::new() }
}

#[test]
fn grouped_hits_count_their_distinct_files() {
    let mut v = SearchView::new();
    v.hits = vec![hit("a"), hit("a"), hit("b"), hit("c"), hit("c")];
    assert_eq!(v.file_count(), 3);
}

#[test]
fn a_new_root_shows_what_a_new_explorer_shows() {
    let ls = vec![
        Listing { dir: "/p".to_string(), entries: vec![Entry { name: "a".to_string(), is_dir: true }] },
        Listing { dir: "/q".to_string(), entries: vec![Entry { name: "b".to_string(), is_dir: false }, Entry { name: "c".to_string(), is_dir: true }] },
    ];
    let mut e = Explorer::new("/p", default_hidden(), &ls);
    e.list.selected = 1;
    e.set_root("/q", &ls);
    let f = Explorer::new("/q", default_hidden(), &ls);
    let names = |x: &Explorer| x.rows().iter().map(|n| n.name.clone()).collect::<Vec<_>>();
    assert_eq!(names(&e), names(&f));
    assert_eq!(e.list.selected, f.list.selected);
    assert!(!e.is_empty());
}
