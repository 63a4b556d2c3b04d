use nvs_shell::workbench::explorer::{default_hidden, set_hidden, Entry, Explorer, Listing};

fn entry(name: &str, is_dir: bool) -> Entry {
    Entry { name: name.to_string(), is_dir }
}

fn join(dir: &str, name: &str) -> String {
    std::path::Path::new(dir).join(name).to_string_lossy().to_string()
}

fn listings() -> Vec<Listing> {
    vec![
        Listing {
            dir: "/proj".to_string(),
            entries: vec![
                entry("zeta.txt", false),
                entry("src", true),
                entry("Alpha.md", false),
                entry(".git", true),
                entry("Docs", true),
                entry("target", true),
            ],
        },
        Listing { dir: join("/proj", "src"), entries: vec![entry("main.rs", false), entry("lib", true)] },
        Listing { dir: join(&join("/proj", "src"), "lib"), entries: vec![entry("mod.rs", false)] },
    ]
}

fn names(e: &Explorer) -> Vec<String> {
    e.rows().iter().map(|n| n.name.clone()).collect()
}

#[test]
fn new_tree_shows_folders_first_then_files_by_lowercase_name_without_hidden() {
    let e = Explorer::new("/proj", default_hidden(), &listings());
    let rows = names(&e);
    assert_eq!(rows[1..].to_vec(), vec!["Docs", "src", "Alpha.md", "zeta.txt"]);
    assert_eq!(e.len(), 5);
    assert!(!e.is_empty());
    assert_eq!(e.root_path(), "/proj");
    let depths: Vec<usize> = e.rows().iter().map(|n| n.depth).collect();
    assert_eq!(depths, vec![0, 1, 1, 1, 1]);
}

#[test]
fn activating_a_folder_opens_it_and_a_second_time_closes_it() {
    let ls = listings();
    let mut e = Explorer::new("/proj", default_hidden(), &ls);
    assert_eq!(e.activate(2, &ls), None);
    assert_eq!(names(&e)[1..].to_vec(), vec!["Docs", "src", "lib", "main.rs", "Alpha.md", "zeta.txt"]);
    assert_eq!(e.rows()[3].depth, 2);
    assert_eq!(e.activate(2, &ls), None);
    assert_eq!(names(&e)[1..].to_vec(), vec!["Docs", "src", "Alpha.md", "zeta.txt"]);
}

#[test]
fn activating_a_file_hands_back_its_path() {
    let ls = listings();
    let mut e = Explorer::new("/proj", default_hidden(), &ls);
    assert_eq!(e.activate(3, &ls), Some(join("/proj", "Alpha.md")));
    assert_eq!(e.activate(99, &ls), None);
}

#[test]
fn a_folder_without_listing_reads_as_empty() {
    let ls = listings();
    let mut e = Explorer::new("/proj", default_hidden(), &ls);
    e.activate(1, &ls);
    assert_eq!(e.len(), 5);
    assert!(e.rows()[1].expanded);
    assert!(e.rows()[1].loaded);
}

#[test]
fn collapse_closes_an_open_folder_or_selects_the_parent() {
    let ls = listings();
    let mut e = Explorer::new("/proj", default_hidden(), &ls);
    e.activate(2, &ls);
    e.collapse(4);
    assert_eq!(e.list.selected, 2);
    e.collapse(2);
    assert_eq!(e.len(), 5);
    // The root does not close.
    e.collapse(0);
    assert_eq!(e.len(), 5);
}

#[test]
fn refresh_reads_open_folders_again_and_keeps_them_open() {
    let mut ls = listings();
    let mut e = Explorer::new("/proj", default_hidden(), &ls);
    e.activate(2, &ls);
    e.activate(3, &ls);
    assert_eq!(names(&e)[1..].to_vec(), vec!["Docs", "src", "lib", "mod.rs", "main.rs", "Alpha.md", "zeta.txt"]);
    ls[0].entries.push(entry("new.txt", false));
    ls[2].entries.push(entry("extra.rs", false));
    e.refresh(&ls);
    assert_eq!(
        names(&e)[1..].to_vec(),
        vec!["Docs", "src", "lib", "extra.rs", "mod.rs", "main.rs", "Alpha.md", "new.txt", "zeta.txt"]
    );
}

#[test]
fn reveal_opens_the_way_and_selects_the_row() {
    let ls = listings();
    let mut e = Explorer::new("/proj", default_hidden(), &ls);
    let comps = vec!["src".to_string(), "lib".to_string(), "mod.rs".to_string()];
    e.reveal_components(&comps, &ls);
    assert_eq!(names(&e)[e.list.selected], "mod.rs");
    assert_eq!(names(&e)[1..].to_vec(), vec!["Docs", "src", "lib", "mod.rs", "main.rs", "Alpha.md", "zeta.txt"]);
    let missing = vec!["nothing".to_string()];
    e.reveal_components(&missing, &ls);
    assert_eq!(names(&e)[e.list.selected], "mod.rs");
}

#[test]
fn reveal_path_follows_a_path_below_the_root() {
    let ls = listings();
    let mut e = Explorer::new("/proj", default_hidden(), &ls);
    e.reveal_path(&join(&join("/proj", "src"), "main.rs"), &ls);
    assert_eq!(names(&e)[e.list.selected], "main.rs");
    e.reveal_path("/elsewhere/file", &ls);
    assert_eq!(names(&e)[e.list.selected], "main.rs");
}

#[test]
fn set_root_reads_a_new_tree_only_when_the_root_changes() {
    let ls = listings();
    let mut e = Explorer::new("/proj", default_hidden(), &ls);
    e.activate(2, &ls);
    e.set_root("/proj", &ls);
    assert_eq!(e.len(), 7);
    e.set_root("/other", &ls);
    assert_eq!(e.len(), 1);
    assert_eq!(e.root_path(), "/other");
}

#[test]
fn set_hidden_reports_a_change() {
    let mut hidden = default_hidden();
    assert!(!set_hidden(&mut hidden, default_hidden()));
    assert!(set_hidden(&mut hidden, vec!["Docs".to_string()]));
    assert_eq!(hidden, vec!["Docs".to_string()]);
    let e = Explorer::new("/proj", hidden, &listings());
    assert_eq!(names(&e)[1..].to_vec(), vec![".git", "src", "target", "Alpha.md", "zeta.txt"]);
}

#[test]
fn reveal_with_a_missing_name_keeps_the_rows_and_the_selection() {
    let ls = listings();
    let mut e = Explorer::new("/proj", default_hidden(), &ls);
    e.list.selected = 3;
    let before = names(&e);
    let comps = vec!["src".to_string(), "lib".to_string(), "nope.rs".to_string()];
    e.reveal_components(&comps, &ls);
    assert_eq!(names(&e), before);
    assert_eq!(e.list.selected, 3);
    // Nothing on the failed way was opened: a later rebuild shows the same rows.
    assert_eq!(e.activate(1, &ls), None);
    assert_eq!(names(&e)[1..].to_vec(), vec!["Docs", "src", "Alpha.md", "zeta.txt"]);
}
