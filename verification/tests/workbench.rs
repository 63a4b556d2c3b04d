use nvs_shell::bridge::{command_args, strip_verbatim, BridgeConfig};
use nvs_shell::workbench::palette::PaletteCommand;
use nvs_shell::workbench::tasks::{lines_of, parse_git_status, parse_u64, rg_hits, search_is_blank, search_result, GitStatus, TaskResult};
use nvs_shell::workbench::{exclude_names, search_args, Action, Focus, PanelTab, Screen, View, Workbench};

#[test]
fn sidebar_icon_toggles_its_view() {
    let mut w = Workbench::new();
    assert!(w.sidebar_open);
    w.toggle_sidebar(Some(View::Explorer));
    assert!(!w.sidebar_open);
    w.toggle_sidebar(Some(View::Git));
    assert!(w.sidebar_open);
    assert_eq!(w.view, View::Git);
    w.toggle_sidebar(Some(View::Search));
    assert!(w.sidebar_open);
    assert_eq!(w.view, View::Search);
}

#[test]
fn closing_the_sidebar_gives_the_grid_the_keyboard() {
    let mut w = Workbench::new();
    let actions = w.focus_view(View::Search);
    assert!(actions.is_empty());
    assert_eq!(w.keyboard_owner(), Focus::Sidebar);
    assert!(w.search.editing);
    w.toggle_sidebar(None);
    assert_eq!(w.focus, Focus::Grid);
}

#[test]
fn source_control_asks_for_git_status() {
    let mut w = Workbench::new();
    let actions = w.focus_view(View::Git);
    assert_eq!(actions.len(), 1);
    assert!(matches!(&actions[0], Action::Spawn(nvs_shell::workbench::tasks::Task::GitStatus { cwd }) if cwd == "."));
}

#[test]
fn panel_toggles_and_returns_focus() {
    let mut w = Workbench::new();
    w.toggle_panel(Some(PanelTab::Output));
    assert!(w.panel_open);
    w.focus = Focus::Panel;
    w.toggle_panel(Some(PanelTab::Output));
    assert!(!w.panel_open);
    assert_eq!(w.focus, Focus::Grid);
}

#[test]
fn screens_open_once_and_close() {
    let mut w = Workbench::new();
    w.open_screen(Screen::Settings);
    w.open_screen(Screen::Plugins);
    w.open_screen(Screen::Settings);
    assert_eq!(w.screens, vec![Screen::Settings, Screen::Plugins]);
    assert_eq!(w.active_screen, Some(Screen::Settings));
    assert_eq!(w.keyboard_owner(), Focus::Screen);
    assert!(!w.grid_visible());
    w.close_screen(Screen::Settings);
    assert_eq!(w.screens, vec![Screen::Plugins]);
    assert_eq!(w.active_screen, None);
    assert!(w.grid_visible());
}

#[test]
fn the_palette_takes_the_keyboard_and_asks_for_files() {
    let mut w = Workbench::new();
    let actions = w.open_palette(">");
    assert_eq!(w.keyboard_owner(), Focus::Palette);
    assert_eq!(actions.len(), 1);
    assert!(matches!(&actions[0], Action::Spawn(nvs_shell::workbench::tasks::Task::ListFiles { cwd }) if cwd == "."));
    w.task_done(TaskResult::Files { cwd: ".".into(), files: vec!["src/main.rs".into()] });
    assert_eq!(w.palette.as_ref().unwrap().files, vec!["src/main.rs".to_string()]);
    w.close_palette();
    assert_eq!(w.keyboard_owner(), Focus::Grid);
    let actions = w.open_palette("@main");
    assert!(actions.is_empty());
    let p = w.palette.as_ref().unwrap();
    assert_eq!(p.matches.len(), 1);
    assert_eq!(p.matches[0].0.title, "src/main.rs");
}

#[test]
fn the_palette_offers_every_command() {
    let w = Workbench::new();
    let cmds = w.commands();
    assert_eq!(cmds.len(), 58);
    assert_eq!(cmds[0].title, "Toggle sidebar");
    assert_eq!(cmds[0].key, "Ctrl+B");
    assert!(cmds.iter().any(|c| c.title == "Learn: Switch to Stage 4, Pure Neovim"));
    assert_eq!(cmds[57].title, ":e $MYVIMRC");
}

#[test]
fn palette_commands_turn_into_actions() {
    let mut w = Workbench::new();
    let mut actions = Vec::new();
    w.run_palette_command(PaletteCommand::Stage(3), &mut actions);
    assert!(matches!(&actions[0], Action::Command(c) if c == "NvsStage 3"));
    assert!(matches!(actions[1], Action::FocusGrid));
    w.run_palette_command(PaletteCommand::Ex("write".into()), &mut actions);
    assert_eq!(actions.len(), 4);
    w.run_palette_command(PaletteCommand::ShowPanel(PanelTab::Problems), &mut actions);
    assert!(w.panel_open);
    assert_eq!(w.focus, Focus::Panel);
    w.run_palette_command(PaletteCommand::Screen(Screen::Learn), &mut actions);
    assert_eq!(w.active_screen, Some(Screen::Learn));
    w.run_palette_command(PaletteCommand::OpenFile("a.txt".into()), &mut actions);
    assert_eq!(w.active_screen, None);
    assert_eq!(actions.len(), 6);
}

#[test]
fn stale_search_results_are_dropped() {
    let mut w = Workbench::new();
    w.search.generation = 2;
    w.search.searching = true;
    w.task_done(TaskResult::Search { generation: 1, hits: vec![], error: Some("old".into()) });
    assert!(w.search.searching);
    w.task_done(TaskResult::Search { generation: 2, hits: vec![], error: None });
    assert!(!w.search.searching);
}

#[test]
fn a_git_error_is_logged_and_status_asked_again() {
    let mut w = Workbench::new();
    let actions = w.task_done(TaskResult::GitDone { error: Some("nothing to commit".into()) });
    assert_eq!(w.output, vec!["git: nothing to commit".to_string()]);
    assert_eq!(w.git.last_error.as_deref(), Some("nothing to commit"));
    assert_eq!(actions.len(), 1);
}

#[test]
fn the_log_keeps_its_last_500_lines() {
    let mut w = Workbench::new();
    for i in 0..501 {
        w.log(format!("{i}"));
    }
    assert_eq!(w.output.len(), 500);
    assert_eq!(w.output[0], "1");
}

#[test]
fn search_arguments_come_from_the_settings() {
    assert_eq!(exclude_names(" a, ,b ,"), vec!["a", "b"]);
    assert_eq!(search_args(Some("node_modules, dist"), Some("  --hidden -uu ")), vec!["--glob", "!node_modules", "--glob", "!dist", "--hidden", "-uu"]);
    assert!(search_args(None, None).is_empty());
}

#[test]
fn ripgrep_lines_become_hits() {
    let out = "./src/a.rs:3:5:  let x = 1;\r\nnot a hit\n.\\b\\c.rs:10:1:a:b\nd.rs:x:1:t\n";
    let hits = rg_hits("/w", out);
    assert_eq!(hits.len(), 2);
    assert_eq!((hits[0].file.as_str(), hits[0].line, hits[0].col, hits[0].text.as_str()), ("src/a.rs", 3, 5, "let x = 1;"));
    assert_eq!((hits[1].file.as_str(), hits[1].line, hits[1].col, hits[1].text.as_str()), ("b/c.rs", 10, 1, "a:b"));
    assert!(hits[0].path.ends_with("a.rs"));
}

#[test]
fn a_failed_search_reports_stderr() {
    match search_result(4, ".", false, "", " regex parse error \n") {
        TaskResult::Search { generation, hits, error } => {
            assert_eq!(generation, 4);
            assert!(hits.is_empty());
            assert_eq!(error.as_deref(), Some("regex parse error"));
        }
        _ => panic!(),
    }
    assert!(search_is_blank("  "));
    assert!(!search_is_blank(" x "));
}

#[test]
fn lines_follow_str_lines() {
    assert_eq!(lines_of("a\r\nb\n\nc"), vec!["a", "b", "", "c"]);
    assert_eq!(lines_of("x\n"), vec!["x"]);
    assert!(lines_of("").is_empty());
    assert_eq!(lines_of("r\r"), vec!["r\r"]);
}

#[test]
fn numbers_parse_as_u64_does() {
    let p = |s: &str| parse_u64(&s.chars().collect());
    assert_eq!(p("42"), Some(42));
    assert_eq!(p("+7"), Some(7));
    assert_eq!(p("18446744073709551615"), Some(u64::MAX));
    assert_eq!(p("18446744073709551616"), None);
    assert_eq!(p(""), None);
    assert_eq!(p("+"), None);
    assert_eq!(p("-1"), None);
    assert_eq!(p("1a"), None);
}

#[test]
fn git_status_is_read_line_by_line() {
    let out = "## main...origin/main [ahead 1]\nM  staged.rs\n M changed.rs\nMM both.rs\n?? new.rs\nx\n";
    let st: GitStatus = parse_git_status(true, out, "");
    assert_eq!(st.branch, "main");
    let staged: Vec<(&str, char)> = st.staged.iter().map(|e| (e.path.as_str(), e.status)).collect();
    let unstaged: Vec<(&str, char)> = st.unstaged.iter().map(|e| (e.path.as_str(), e.status)).collect();
    assert_eq!(staged, vec![("staged.rs", 'M'), ("both.rs", 'M')]);
    assert_eq!(unstaged, vec![("changed.rs", 'M'), ("both.rs", 'M'), ("new.rs", '?')]);
    assert!(st.error.is_none());
    let failed = parse_git_status(false, "", "fatal: not a git repository\n");
    assert_eq!(failed.error.as_deref(), Some("fatal: not a git repository"));
}

#[test]
fn neovim_is_started_embedded() {
    let mut c = BridgeConfig::default();
    assert_eq!(c.nvim_bin, "nvim");
    assert_eq!(c.grid, (100, 40));
    c.files = vec!["a.txt".into()];
    assert_eq!(command_args(&c), vec!["--embed", "a.txt"]);
    c.nvim_args = vec!["--clean".into(), "--embed".into()];
    assert_eq!(command_args(&c), vec!["--clean", "--embed", "a.txt"]);
    assert_eq!(strip_verbatim("\\\\?\\C:\\x"), "C:\\x");
    assert_eq!(strip_verbatim("/usr/x"), "/usr/x");
}
