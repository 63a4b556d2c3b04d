//! What the chrome does when it is clicked or typed into: the activity bar, the panel's tabs,
//! the Search and Source control views, the problems, the tab strip. The window finds out
//! where a click landed and what a text field did; these decide what follows.

use vstd::prelude::*;

use vstd::view::View as _;

use crate::bridge::value::{Integer, Utf8Str, Value};
use crate::text::{chars_of, concat, decimal, decimal_string, trim, trimmed};
use crate::ui::widgets::TextResponse;
use crate::ui::KeyPress;
use crate::workbench::git::{git_rows_view, spec_git_rows, GitRow, GitRowView, GitView};
use crate::workbench::search::{hit_files, search_rows_view, spec_rows, SearchRow, SearchRowView};
use crate::workbench::tasks::Task;
use crate::workbench::palette::{clone_item, command_view, PaletteCommand};
use crate::workbench::{
    chrome, models_same, spec_close_screen, spec_cwd, spec_focus_view, spec_toggle_sidebar, Action, Chrome, Focus,
    PanelTab, View, Workbench,
};

verus! {

/// Text as a msgpack string.
pub open spec fn is_text(v: Value, s: Seq<char>) -> bool {
    v matches Value::String(Utf8Str::Valid(t)) && t@ == s
}

/// A signed integer as msgpack encodes it: non-negative ones as positive integers.
pub open spec fn is_int(v: Value, n: int) -> bool {
    if n >= 0 {
        v matches Value::Integer(Integer::PosInt(m)) && m == n
    } else {
        v matches Value::Integer(Integer::NegInt(m)) && m == n
    }
}

fn text_value(s: String) -> (v: Value)
    ensures
        is_text(v, s@),
{
    Value::String(Utf8Str::Valid(s))
}

fn int_value(n: i64) -> (v: Value)
    ensures
        is_int(v, n as int),
{
    if n >= 0 {
        Value::Integer(Integer::PosInt(n as u64))
    } else {
        Value::Integer(Integer::NegInt(n))
    }
}

fn u64_value(n: u64) -> (v: Value)
    ensures
        is_int(v, n as int),
{
    Value::Integer(Integer::PosInt(n))
}

/// The Lua that opens a file and puts the cursor on a line and column.
pub open spec fn jump_lua() -> Seq<char> {
    "local path, lnum, col = ... vim.cmd.edit(vim.fn.fnameescape(path)) pcall(vim.api.nvim_win_set_cursor, 0, { lnum, col - 1 })"@
}

/// The actions that open `path` at `line`, `col` and give Neovim the keyboard.
pub open spec fn jump_actions(a: Seq<Action>, path: Seq<char>, line: int, col: int) -> bool {
    &&& a.len() == 2
    &&& a[0] matches Action::Lua(code, args) && code@ == jump_lua() && args@.len() == 3 && is_text(args@[0], path)
        && is_int(args@[1], line) && is_int(args@[2], col)
    &&& a[1] is FocusGrid
}

fn jump(path: String, line: Value, col: Value) -> (a: Vec<Action>)
    ensures
        a@.len() == 2,
        a@[0] matches Action::Lua(code, args) && code@ == jump_lua() && args@.len() == 3 && is_text(args@[0], path@)
            && args@[1] == line && args@[2] == col,
        a@[1] is FocusGrid,
{
    proof {
        reveal_strlit(
            "local path, lnum, col = ... vim.cmd.edit(vim.fn.fnameescape(path)) pcall(vim.api.nvim_win_set_cursor, 0, { lnum, col - 1 })",
        );
    }
    let mut args: Vec<Value> = Vec::new();
    args.push(text_value(path));
    args.push(line);
    args.push(col);
    let mut a: Vec<Action> = Vec::new();
    a.push(
        Action::Lua(
            String::from_str(
                "local path, lnum, col = ... vim.cmd.edit(vim.fn.fnameescape(path)) pcall(vim.api.nvim_win_set_cursor, 0, { lnum, col - 1 })",
            ),
            args,
        ),
    );
    a.push(Action::FocusGrid);
    a
}

/// Does the search field's response start a search of `q` (the trimmed query)? Typing does
/// from two characters on; Enter does for any query that is not blank.
pub open spec fn starts_search(resp: TextResponse, q: Seq<char>) -> bool {
    (resp.changed && q.len() >= 2) || (resp.submitted && q.len() > 0)
}

/// Whether the query box keeps the keyboard after `resp`: a click gives it the keyboard;
/// Enter, Down and Escape take it away.
pub open spec fn search_editing_after(editing: bool, resp: TextResponse) -> bool {
    if resp.cancelled || resp.submitted || resp.down {
        false
    } else {
        resp.clicked || editing
    }
}

impl Workbench {
    /// A click on a view's icon in the activity bar: the icon of the view that shows closes
    /// the sidebar; another shows its view and gives it the keyboard.
    pub fn activity_clicked(&mut self, view: View) -> (actions: Vec<Action>)
        ensures
            old(self).sidebar_open && old(self).view == view ==> {
                &&& chrome(final(self)) == spec_toggle_sidebar(chrome(old(self)), Some(view))
                &&& actions@.len() == 0
            },
            !(old(self).sidebar_open && old(self).view == view) ==> {
                &&& chrome(final(self)) == spec_focus_view(chrome(old(self)), view)
                &&& view == View::Git ==> actions@.len() == 1 && (actions@[0] matches Action::Spawn(Task::GitStatus { cwd })
                    && cwd@ == spec_cwd(old(self).nvim.cwd@))
                &&& view != View::Git ==> actions@.len() == 0
            },
            final(self).nvim == old(self).nvim,
    {
        if self.sidebar_open && self.view == view {
            self.toggle_sidebar(Some(view));
            Vec::new()
        } else {
            self.focus_view(view)
        }
    }

    /// A click on a tab of the bottom panel: it shows and has the keyboard; the Terminal tab
    /// opens Neovim's terminal, which takes the keyboard.
    pub fn panel_tab_clicked(&mut self, tab: PanelTab) -> (actions: Vec<Action>)
        ensures
            chrome(final(self)) == (Chrome { panel_tab: tab, focus: Focus::Panel, ..chrome(old(self)) }),
            models_same(final(self), old(self)),
            tab == PanelTab::Terminal ==> actions@.len() == 2 && (actions@[0] matches Action::Lua(code, args) && code@
                == "Snacks.terminal()"@ && args@.len() == 0) && actions@[1] is FocusGrid,
            tab != PanelTab::Terminal ==> actions@.len() == 0,
    {
        proof {
            reveal_strlit("Snacks.terminal()");
        }
        self.panel_tab = tab;
        self.focus = Focus::Panel;
        let mut actions: Vec<Action> = Vec::new();
        if tab == PanelTab::Terminal {
            actions.push(Action::Lua(String::from_str("Snacks.terminal()"), Vec::new()));
            actions.push(Action::FocusGrid);
        }
        actions
    }

    /// What the Search view's query box did this pass (`resp`), with the extra ripgrep
    /// arguments: a click gives it the keyboard; a search starts (see `starts_search`) with the
    /// next generation; a cleared query clears the results; Escape with no results gives the
    /// keyboard back to Neovim.
    #[verifier::rlimit(40)]
    pub fn search_field(&mut self, resp: TextResponse, args: Vec<String>) -> (actions: Vec<Action>)
        requires
            old(self).next_generation < u64::MAX,
        ensures
            ({
                let q = trimmed(old(self).search.query.text@);
                let started = starts_search(resp, q);
                let cleared = resp.changed && q.len() == 0;
                let spawned = if started { 1int } else { 0int };
                &&& chrome(final(self)) == (Chrome {
                    focus: if resp.clicked { Focus::Sidebar } else { old(self).focus },
                    ..chrome(old(self))
                })
                &&& final(self).search.editing == search_editing_after(old(self).search.editing, resp)
                &&& final(self).search.query == old(self).search.query
                &&& started ==> {
                    &&& final(self).search.generation == old(self).next_generation
                    &&& final(self).next_generation == old(self).next_generation + 1
                    &&& final(self).search.searching
                    &&& actions@[0] matches Action::Spawn(Task::Search { generation, cwd, query, args: a })
                        && generation == old(self).next_generation && cwd@ == spec_cwd(old(self).nvim.cwd@) && query@ == q
                        && a == args
                }
                &&& !started ==> {
                    &&& final(self).search.generation == old(self).search.generation
                    &&& final(self).next_generation == old(self).next_generation
                    &&& final(self).search.searching == old(self).search.searching
                }
                &&& cleared ==> final(self).search.hits@.len() == 0 && final(self).search.error is None
                &&& !cleared ==> final(self).search.hits == old(self).search.hits && final(self).search.error
                    == old(self).search.error
                &&& if resp.cancelled && final(self).search.hits@.len() == 0 {
                    actions@.len() == spawned + 1 && actions@[spawned] is FocusGrid
                } else {
                    actions@.len() == spawned
                }
            }),
            final(self).nvim == old(self).nvim,
            final(self).git == old(self).git,
    {
        if resp.clicked {
            self.search.editing = true;
            self.focus = Focus::Sidebar;
        }
        let query = trim(self.search.query.text.as_str());
        let n = chars_of(query.as_str()).len();
        let ghost q = trimmed(old(self).search.query.text@);
        assert(query@ == q && n == q.len());
        let mut actions: Vec<Action> = Vec::new();
        let started = (resp.changed && n >= 2) || (resp.submitted && n > 0);
        assert(started == starts_search(resp, q));
        if started {
            self.search.generation = self.next_generation;
            self.next_generation = self.next_generation + 1;
            self.search.searching = true;
            let cwd = self.cwd();
            actions.push(Action::Spawn(Task::Search { generation: self.search.generation, cwd, query, args }));
        }
        if resp.changed && n == 0 {
            self.search.hits = Vec::new();
            self.search.error = None;
        }
        if resp.submitted || resp.down {
            self.search.editing = false;
        }
        if resp.cancelled {
            self.search.editing = false;
            if self.search.hits.len() == 0 {
                actions.push(Action::FocusGrid);
            }
        }
        actions
    }

    /// Enter or a click on row `i` of the Search view: a hit opens its file at its line and
    /// column, over any screen; a file's header row does nothing.
    pub fn search_row_activated(&mut self, i: usize) -> (actions: Vec<Action>)
        ensures
            ({
                let rows = spec_rows(hit_files(old(self).search.hits@), old(self).search.hits@.len() as int);
                if 0 <= i < rows.len() && rows[i as int] is Hit {
                    let hit = old(self).search.hits@[rows[i as int]->Hit_0];
                    &&& jump_actions(actions@, hit.path@, hit.line as int, hit.col as int)
                    &&& chrome(final(self)) == (Chrome { active_screen: None, ..chrome(old(self)) })
                } else {
                    actions@.len() == 0 && chrome(final(self)) == chrome(old(self))
                }
            }),
            models_same(final(self), old(self)),
    {
        let rows = self.search.rows();
        proof {
            lemma_search_rows_bounded(hit_files(self.search.hits@), self.search.hits@.len() as int);
        }
        if i < rows.len() {
            proof {
                assert(search_rows_view(rows@)[i as int] == spec_rows(hit_files(self.search.hits@), self.search.hits@.len() as int)[i as int]);
            }
            match &rows[i] {
                SearchRow::Hit(h) => {
                    let hit = &self.search.hits[*h];
                    let actions = jump(hit.path.clone(), u64_value(hit.line), u64_value(hit.col));
                    self.active_screen = None;
                    return actions;
                },
                SearchRow::File(_) => {},
            }
        }
        Vec::new()
    }

    /// Enter or a click on problem `i`: its file opens at its line and column, over any screen.
    pub fn problem_activated(&mut self, i: usize) -> (actions: Vec<Action>)
        ensures
            i < old(self).diagnostics@.len() ==> {
                let d = old(self).diagnostics@[i as int];
                &&& jump_actions(actions@, d.path@, d.lnum as int, d.col as int)
                &&& chrome(final(self)) == (Chrome { active_screen: None, ..chrome(old(self)) })
            },
            i >= old(self).diagnostics@.len() ==> actions@.len() == 0 && chrome(final(self)) == chrome(old(self)),
            models_same(final(self), old(self)),
    {
        if i < self.diagnostics.len() {
            let d = &self.diagnostics[i];
            let actions = jump(d.path.clone(), int_value(d.lnum), int_value(d.col));
            self.active_screen = None;
            return actions;
        }
        Vec::new()
    }
}

/// Every hit row of the Search view names a hit.
proof fn lemma_search_rows_bounded(files: Seq<Seq<char>>, n: int)
    requires
        0 <= n <= files.len(),
    ensures
        forall|k: int|
            0 <= k < spec_rows(files, n).len() && (#[trigger] spec_rows(files, n)[k]) is Hit ==> 0 <= spec_rows(files, n)[k]->Hit_0 < n,
    decreases n,
{
    if n > 0 {
        lemma_search_rows_bounded(files, n - 1);
        let before = spec_rows(files, n - 1);
        let with_header = if crate::workbench::search::starts_file(files, n - 1) {
            before.push(SearchRowView::File(files[n - 1]))
        } else {
            before
        };
        assert forall|k: int|
            0 <= k < spec_rows(files, n).len() && (#[trigger] spec_rows(files, n)[k]) is Hit implies 0
                <= spec_rows(files, n)[k]->Hit_0 < n by {
            if k < before.len() {
                assert(spec_rows(files, n)[k] == before[k]);
            } else if k < with_header.len() {
                assert(spec_rows(files, n)[k] == with_header[k]);
            }
        }
    }
}


impl Workbench {
    /// The Source control view shows: a status is asked for, once, until one arrives.
    pub fn git_ensure_status(&mut self) -> (actions: Vec<Action>)
        ensures
            !old(self).git.loaded && !old(self).git.busy ==> {
                &&& final(self).git == (GitView { busy: true, ..old(self).git })
                &&& actions@.len() == 1 && (actions@[0] matches Action::Spawn(Task::GitStatus { cwd }) && cwd@ == spec_cwd(old(self).nvim.cwd@))
            },
            old(self).git.loaded || old(self).git.busy ==> final(self).git == old(self).git && actions@.len() == 0,
            chrome(final(self)) == chrome(old(self)),
            final(self).nvim == old(self).nvim,
            final(self).search == old(self).search,
    {
        let mut actions: Vec<Action> = Vec::new();
        if !self.git.loaded && !self.git.busy {
            self.git.busy = true;
            let cwd = self.cwd();
            actions.push(Action::Spawn(Task::GitStatus { cwd }));
        }
        actions
    }

    /// The Refresh button: a status is asked for unless a git command runs.
    pub fn git_refresh(&mut self) -> (actions: Vec<Action>)
        ensures
            !old(self).git.busy ==> {
                &&& final(self).git == (GitView { busy: true, ..old(self).git })
                &&& actions@.len() == 1 && (actions@[0] matches Action::Spawn(Task::GitStatus { cwd }) && cwd@ == spec_cwd(old(self).nvim.cwd@))
            },
            old(self).git.busy ==> final(self).git == old(self).git && actions@.len() == 0,
            chrome(final(self)) == chrome(old(self)),
            final(self).nvim == old(self).nvim,
            final(self).search == old(self).search,
    {
        let mut actions: Vec<Action> = Vec::new();
        if !self.git.busy {
            self.git.busy = true;
            let cwd = self.cwd();
            actions.push(Action::Spawn(Task::GitStatus { cwd }));
        }
        actions
    }

    /// What the commit message box did this pass: a click gives it the keyboard; Escape and
    /// Down take it away.
    pub fn git_field(&mut self, resp: TextResponse)
        ensures
            final(self).git == (GitView {
                editing: if resp.cancelled || resp.down { false } else { resp.clicked || old(self).git.editing },
                ..old(self).git
            }),
            chrome(final(self)) == (Chrome { focus: if resp.clicked { Focus::Sidebar } else { old(self).focus }, ..chrome(old(self)) }),
            final(self).nvim == old(self).nvim,
            final(self).search == old(self).search,
    {
        if resp.clicked {
            self.git.editing = true;
            self.focus = Focus::Sidebar;
        }
        if resp.cancelled || resp.down {
            self.git.editing = false;
        }
    }

    /// The Commit button (or Enter in the message box): with nothing staged, or no message
    /// (trimmed), the view says so, and in the second case the message box gets the keyboard;
    /// else, unless a git command runs, the staged changes are committed with the message.
    pub fn git_commit(&mut self) -> (actions: Vec<Action>)
        ensures
            ({
                let m = trimmed(old(self).git.message.text@);
                if old(self).git.status.staged@.len() == 0 {
                    &&& final(self).git.last_error matches Some(e) && e@ == "Nothing staged to commit"@
                    &&& final(self).git == (GitView { last_error: final(self).git.last_error, ..old(self).git })
                    &&& actions@.len() == 0
                } else if m.len() == 0 {
                    &&& final(self).git.last_error matches Some(e) && e@ == "Write a commit message first"@
                    &&& final(self).git == (GitView { last_error: final(self).git.last_error, editing: true, ..old(self).git })
                    &&& actions@.len() == 0
                } else if !old(self).git.busy {
                    &&& final(self).git == (GitView { busy: true, last_error: None, ..old(self).git })
                    &&& actions@.len() == 1 && (actions@[0] matches Action::Spawn(Task::GitCommit { cwd, message })
                        && cwd@ == spec_cwd(old(self).nvim.cwd@) && message@ == m)
                } else {
                    final(self).git == old(self).git && actions@.len() == 0
                }
            }),
            chrome(final(self)) == chrome(old(self)),
            final(self).nvim == old(self).nvim,
            final(self).search == old(self).search,
    {
        proof {
            reveal_strlit("Nothing staged to commit");
            reveal_strlit("Write a commit message first");
        }
        let message = trim(self.git.message.text.as_str());
        let n = chars_of(message.as_str()).len();
        let mut actions: Vec<Action> = Vec::new();
        if self.git.status.staged.len() == 0 {
            self.git.last_error = Some(String::from_str("Nothing staged to commit"));
        } else if n == 0 {
            self.git.last_error = Some(String::from_str("Write a commit message first"));
            self.git.editing = true;
        } else if !self.git.busy {
            self.git.busy = true;
            self.git.last_error = None;
            let cwd = self.cwd();
            actions.push(Action::Spawn(Task::GitCommit { cwd, message }));
        }
        actions
    }

    /// Enter or a click on row `i` of Source control: a staged change is unstaged, an
    /// unstaged one staged, unless a git command runs; the headers do nothing.
    pub fn git_row_activated(&mut self, i: usize) -> (actions: Vec<Action>)
        ensures
            ({
                let rows = spec_git_rows(old(self).git.status.staged@.len() as int, old(self).git.status.unstaged@.len() as int);
                if 0 <= i < rows.len() && !old(self).git.busy && (rows[i as int] is Staged || rows[i as int] is Unstaged) {
                    let (stage, path) = match rows[i as int] {
                        GitRowView::Staged(k) => (false, old(self).git.status.staged@[k].path@),
                        GitRowView::Unstaged(k) => (true, old(self).git.status.unstaged@[k].path@),
                        _ => (false, Seq::empty()),
                    };
                    &&& final(self).git == (GitView { busy: true, ..old(self).git })
                    &&& actions@.len() == 1 && (actions@[0] matches Action::Spawn(Task::GitStage { cwd, path: p, stage: s })
                        && cwd@ == spec_cwd(old(self).nvim.cwd@) && p@ == path && s == stage)
                } else {
                    final(self).git == old(self).git && actions@.len() == 0
                }
            }),
            chrome(final(self)) == chrome(old(self)),
            final(self).nvim == old(self).nvim,
            final(self).search == old(self).search,
    {
        let rows = self.git.rows();
        let mut actions: Vec<Action> = Vec::new();
        if i < rows.len() && !self.git.busy {
            proof {
                assert(git_rows_view(rows@)[i as int] == spec_git_rows(
                    self.git.status.staged@.len() as int,
                    self.git.status.unstaged@.len() as int,
                )[i as int]);
            }
            match rows[i] {
                GitRow::Staged(k) => {
                    proof {
                        lemma_git_rows_bounded(self.git.status.staged@.len() as int, self.git.status.unstaged@.len() as int, i as int);
                    }
                    self.git.busy = true;
                    let path = self.git.status.staged[k].path.clone();
                    let cwd = self.cwd();
                    actions.push(Action::Spawn(Task::GitStage { cwd, path, stage: false }));
                },
                GitRow::Unstaged(k) => {
                    proof {
                        lemma_git_rows_bounded(self.git.status.staged@.len() as int, self.git.status.unstaged@.len() as int, i as int);
                    }
                    self.git.busy = true;
                    let path = self.git.status.unstaged[k].path.clone();
                    let cwd = self.cwd();
                    actions.push(Action::Spawn(Task::GitStage { cwd, path, stage: true }));
                },
                GitRow::Header(_, _) => {},
            }
        }
        actions
    }
}

/// The rows of Source control name changes that are there.
proof fn lemma_git_rows_bounded(s: int, u: int, i: int)
    requires
        0 <= s,
        0 <= u,
        0 <= i < spec_git_rows(s, u).len(),
    ensures
        spec_git_rows(s, u)[i] matches GitRowView::Staged(k) ==> 0 <= k < s,
        spec_git_rows(s, u)[i] matches GitRowView::Unstaged(k) ==> 0 <= k < u,
{
    let a = seq![GitRowView::Header("Staged"@, s)];
    let b = Seq::new(s as nat, |k: int| GitRowView::Staged(k));
    let c = seq![GitRowView::Header("Changes"@, u)];
    let d = Seq::new(u as nat, |k: int| GitRowView::Unstaged(k));
    assert(spec_git_rows(s, u) == a + b + c + d);
    if i < 1 {
        assert(spec_git_rows(s, u)[i] == a[i]);
    } else if i < 1 + s {
        assert(spec_git_rows(s, u)[i] == b[i - 1]);
    } else if i < 2 + s {
        assert(spec_git_rows(s, u)[i] == c[i - 1 - s]);
    } else {
        assert(spec_git_rows(s, u)[i] == d[i - 2 - s]);
    }
}


/// The Lua that closes a buffer (with Snacks when it is there, else `:bdelete`).
pub open spec fn close_buffer_lua() -> Seq<char> {
    "local ok = pcall(function() Snacks.bufdelete(...) end) if not ok then vim.cmd('bdelete ' .. ...) end"@
}

/// The chrome with the palette closed: the grid gets the keyboard back if the palette had it.
pub open spec fn palette_closed(c: Chrome) -> Chrome {
    Chrome { palette_open: false, focus: if c.focus == Focus::Palette { Focus::Grid } else { c.focus }, ..c }
}

/// The row the palette runs: the selected one on Enter, else a clicked one.
pub open spec fn palette_run_row(resp: TextResponse, selected: usize, clicked_row: Option<usize>) -> Option<usize> {
    if resp.submitted {
        Some(selected)
    } else {
        clicked_row
    }
}

impl Workbench {
    /// A click on tab `i` of the tab strip, whose tabs are the screens, then Neovim's
    /// buffers: a screen shows; a buffer shows in the grid, over any screen.
    pub fn tab_activated(&mut self, i: usize) -> (actions: Vec<Action>)
        ensures
            i < old(self).screens@.len() ==> {
                &&& chrome(final(self)) == (Chrome {
                    active_screen: Some(old(self).screens@[i as int]),
                    focus: Focus::Grid,
                    ..chrome(old(self))
                })
                &&& actions@.len() == 0
            },
            old(self).screens@.len() <= i < old(self).screens@.len() + old(self).nvim.buffers@.len() ==> {
                let b = old(self).nvim.buffers@[i - old(self).screens@.len()];
                &&& chrome(final(self)) == (Chrome { active_screen: None, ..chrome(old(self)) })
                &&& actions@.len() == 2 && (actions@[0] matches Action::Command(c) && c@ == "buffer "@ + crate::text::signed_decimal(
                    b.bufnr as int,
                )) && actions@[1] is FocusGrid
            },
            i >= old(self).screens@.len() + old(self).nvim.buffers@.len() ==> chrome(final(self)) == chrome(old(self))
                && actions@.len() == 0,
            models_same(final(self), old(self)),
    {
        proof {
            reveal_strlit("buffer ");
        }
        let mut actions: Vec<Action> = Vec::new();
        let sc = self.screens.len();
        if i < sc {
            self.active_screen = Some(self.screens[i]);
            self.focus = Focus::Grid;
        } else if i - sc < self.nvim.buffers.len() {
            let n = crate::text::signed_decimal_string(self.nvim.buffers[i - sc].bufnr);
            self.active_screen = None;
            actions.push(Action::Command(concat("buffer ", n.as_str())));
            actions.push(Action::FocusGrid);
        }
        actions
    }

    /// A click on the close box of tab `i`: a screen's tab closes; a buffer is deleted.
    pub fn tab_closed(&mut self, i: usize) -> (actions: Vec<Action>)
        ensures
            i < old(self).screens@.len() ==> chrome(final(self)) == spec_close_screen(chrome(old(self)), old(self).screens@[i as int])
                && actions@.len() == 0,
            old(self).screens@.len() <= i < old(self).screens@.len() + old(self).nvim.buffers@.len() ==> {
                let b = old(self).nvim.buffers@[i - old(self).screens@.len()];
                &&& chrome(final(self)) == chrome(old(self))
                &&& actions@.len() == 1 && (actions@[0] matches Action::Lua(code, args) && code@ == close_buffer_lua()
                    && args@.len() == 1 && is_int(args@[0], b.bufnr as int))
            },
            i >= old(self).screens@.len() + old(self).nvim.buffers@.len() ==> chrome(final(self)) == chrome(old(self))
                && actions@.len() == 0,
            models_same(final(self), old(self)),
    {
        proof {
            reveal_strlit("local ok = pcall(function() Snacks.bufdelete(...) end) if not ok then vim.cmd('bdelete ' .. ...) end");
        }
        let mut actions: Vec<Action> = Vec::new();
        let sc = self.screens.len();
        if i < sc {
            let s = self.screens[i];
            self.close_screen(s);
        } else if i - sc < self.nvim.buffers.len() {
            let mut args: Vec<Value> = Vec::new();
            args.push(int_value(self.nvim.buffers[i - sc].bufnr));
            actions.push(
                Action::Lua(
                    String::from_str(
                        "local ok = pcall(function() Snacks.bufdelete(...) end) if not ok then vim.cmd('bdelete ' .. ...) end",
                    ),
                    args,
                ),
            );
        }
        actions
    }

    /// What the palette's input did before its list is drawn: typing filters the candidates
    /// again (see `Palette::refilter`); Down and Up move the selection inside them.
    pub fn palette_typed(&mut self, resp: TextResponse)
        ensures
            chrome(final(self)) == chrome(old(self)),
            models_same(final(self), old(self)),
            old(self).palette is None ==> final(self).palette is None,
            old(self).palette matches Some(p0) ==> final(self).palette matches Some(p1) && {
                let n = p1.matches@.len();
                let s0 = if resp.changed {
                    if p0.list.selected < n { p0.list.selected as int } else if n > 0 { n - 1 } else { 0 }
                } else {
                    p0.list.selected as int
                };
                let s1 = if resp.down && n > 0 { if s0 + 1 < n { s0 + 1 } else { n - 1 } } else { s0 };
                let s2 = if resp.up { if s1 > 0 { s1 - 1 } else { 0 } } else { s1 };
                &&& p1.input == p0.input
                &&& p1.files == p0.files
                &&& p1.files_cwd == p0.files_cwd
                &&& resp.changed ==> crate::workbench::palette::matches_view(p1.matches@)
                    == crate::workbench::palette::spec_matches(
                    p0.input.text@,
                    crate::workbench::palette::files_view(p0.files@),
                    crate::workbench::spec_commands(),
                )
                &&& !resp.changed ==> p1.matches == p0.matches
                &&& p1.list.selected == s2
            },
    {
        let commands = self.commands();
        match &mut self.palette {
            None => {},
            Some(p) => {
                if resp.changed {
                    p.refilter(commands.as_slice());
                }
                let n = p.matches.len();
                if resp.down && n > 0 {
                    p.list.selected = if p.list.selected < n - 1 { p.list.selected + 1 } else { n - 1 };
                }
                if resp.up {
                    p.list.selected = if p.list.selected > 0 { p.list.selected - 1 } else { 0 };
                }
            },
        }
    }

    /// What the palette did this pass, once its list was drawn: Enter runs the selected
    /// candidate, a click one (`clicked_row`); Enter with no candidate runs `:` text as an Ex
    /// command; Enter, Escape and a click outside (`clicked_outside`) close it. A candidate
    /// runs after the palette closed (see `run_palette_command`).
    pub fn palette_finish(&mut self, resp: TextResponse, clicked_row: Option<usize>, clicked_outside: bool) -> (actions: Vec<Action>)
        ensures
            final(self).nvim == old(self).nvim,
            old(self).palette is None ==> chrome(final(self)) == chrome(old(self)) && actions@.len() == 0,
            old(self).palette matches Some(p) ==> {
                let run = palette_run_row(resp, p.list.selected, clicked_row);
                let chosen = match run {
                    Some(i) => if i < p.matches@.len() { Some(command_view(p.matches@[i as int].0.command)) } else { None },
                    None => None,
                };
                let empty_submit = resp.submitted && p.matches@.len() == 0;
                let close = clicked_outside || empty_submit || resp.cancelled;
                match chosen {
                    Some(c) => {
                        &&& chrome(final(self)) == crate::workbench::spec_run_chrome(palette_closed(chrome(old(self))), c)
                        &&& crate::workbench::run_actions_ok(c, actions@, spec_cwd(old(self).nvim.cwd@))
                    },
                    None => {
                        let q = crate::workbench::palette::spec_query(p.input.text@);
                        let ex = empty_submit && crate::workbench::palette::spec_prefix(p.input.text@) == Some(':')
                            && q.len() > 0;
                        &&& chrome(final(self)) == if close { palette_closed(chrome(old(self))) } else { chrome(old(self)) }
                        &&& ex ==> actions@.len() == 2 && (actions@[0] matches Action::Command(cmd) && cmd@ == q)
                            && actions@[1] is FocusGrid
                        &&& !ex ==> actions@.len() == 0
                    },
                }
            },
    {
        let mut actions: Vec<Action> = Vec::new();
        let mut close = clicked_outside;
        let mut chosen: Option<PaletteCommand> = None;
        match &self.palette {
            None => {
                return actions;
            },
            Some(p) => {
                let run = if resp.submitted { Some(p.list.selected) } else { clicked_row };
                if resp.submitted && p.matches.len() == 0 {
                    if p.prefix() == Some(':') {
                        let q = p.query();
                        if chars_of(q.as_str()).len() > 0 {
                            actions.push(Action::Command(q));
                            actions.push(Action::FocusGrid);
                        }
                    }
                    close = true;
                }
                if resp.cancelled {
                    close = true;
                }
                match run {
                    Some(i) => {
                        if i < p.matches.len() {
                            chosen = Some(clone_item(&p.matches[i].0).command);
                        }
                    },
                    None => {},
                }
            },
        }
        match chosen {
            Some(command) => {
                self.close_palette();
                self.run_palette_command(command, &mut actions);
                proof {
                    assert(actions@.skip(0) =~= actions@);
                }
            },
            None => {
                if close {
                    self.close_palette();
                }
            },
        }
        actions
    }
}


/// The stage a key asks for on the Learn screen: `1` to `4` typed, unless it is `current`.
pub open spec fn stage_key(k: KeyPress, current: u32) -> Option<u32> {
    if k.spec_is_char("1"@) && current != 1 {
        Some(1)
    } else if k.spec_is_char("2"@) && current != 2 {
        Some(2)
    } else if k.spec_is_char("3"@) && current != 3 {
        Some(3)
    } else if k.spec_is_char("4"@) && current != 4 {
        Some(4)
    } else {
        None
    }
}

/// The stages the keys ask for, in order.
pub open spec fn stages_asked(keys: Seq<KeyPress>, current: u32) -> Seq<u32>
    decreases keys.len(),
{
    if keys.len() == 0 {
        Seq::empty()
    } else {
        let before = stages_asked(keys.drop_last(), current);
        match stage_key(keys.last(), current) {
            Some(n) => before.push(n),
            None => before,
        }
    }
}

/// Which of the start-up settings the chrome applies: the panel opens on start when
/// `panel_on_start` is on, the sidebar closes when `sidebar_on_start` is off.
pub open spec fn spec_startup(c: Chrome, panel_on_start: Option<bool>, sidebar_on_start: Option<bool>) -> Chrome {
    let c1 = if panel_on_start == Some(true) && !c.panel_open {
        crate::workbench::spec_toggle_panel(c, Some(PanelTab::Problems))
    } else {
        c
    };
    if sidebar_on_start == Some(false) && c1.sidebar_open {
        spec_toggle_sidebar(c1, None)
    } else {
        c1
    }
}

impl Workbench {
    /// Keys 1 to 4 on the Learn screen: each switches to its stage (see `stage_key`).
    pub fn stage_keys(&self, keys: &Vec<KeyPress>) -> (actions: Vec<Action>)
        ensures
            actions@.len() == stages_asked(keys@, self.nvim.stage).len(),
            forall|i: int|
                0 <= i < actions@.len() ==> (#[trigger] actions@[i] matches Action::Command(c) && c@ == "NvsStage "@
                    + decimal(stages_asked(keys@, self.nvim.stage)[i] as nat)),
    {
        proof {
            reveal_strlit("NvsStage ");
        }
        let ghost asked = stages_asked(keys@, self.nvim.stage);
        let mut actions: Vec<Action> = Vec::new();
        let mut i: usize = 0;
        while i < keys.len()
            invariant
                i <= keys@.len(),
                actions@.len() == stages_asked(keys@.take(i as int), self.nvim.stage).len(),
                forall|j: int|
                    0 <= j < actions@.len() ==> (#[trigger] actions@[j] matches Action::Command(c) && c@ == "NvsStage "@
                        + decimal(stages_asked(keys@.take(i as int), self.nvim.stage)[j] as nat)),
            decreases keys@.len() - i,
        {
            proof {
                assert(keys@.take(i + 1).drop_last() =~= keys@.take(i as int));
                reveal_strlit("1");
                reveal_strlit("2");
                reveal_strlit("3");
                reveal_strlit("4");
            }
            let k = &keys[i];
            let cur = self.nvim.stage;
            let n: u32 = if k.is_char("1") && cur != 1 {
                1
            } else if k.is_char("2") && cur != 2 {
                2
            } else if k.is_char("3") && cur != 3 {
                3
            } else if k.is_char("4") && cur != 4 {
                4
            } else {
                0
            };
            if n > 0 {
                actions.push(Action::Command(concat("NvsStage ", decimal_string(n as u64).as_str())));
            }
            i += 1;
        }
        proof {
            assert(keys@.take(keys@.len() as int) =~= keys@);
        }
        actions
    }

    /// The start-up settings arrived with the Settings screen's model: applied once (see
    /// `spec_startup`); later models change nothing here.
    pub fn apply_startup_settings(&mut self, panel_on_start: Option<bool>, sidebar_on_start: Option<bool>)
        ensures
            final(self).startup_settings_applied,
            chrome(final(self)) == if old(self).startup_settings_applied {
                chrome(old(self))
            } else {
                spec_startup(chrome(old(self)), panel_on_start, sidebar_on_start)
            },
            final(self).nvim == old(self).nvim,
    {
        if self.startup_settings_applied {
            return;
        }
        self.startup_settings_applied = true;
        if panel_on_start == Some(true) && !self.panel_open {
            self.toggle_panel(Some(PanelTab::Problems));
        }
        if sidebar_on_start == Some(false) && self.sidebar_open {
            self.toggle_sidebar(None);
        }
    }
}


impl Workbench {
    /// A button that runs an Ex command in Neovim and gives it the keyboard; with
    /// `leave_screen`, the grid shows again over any screen.
    pub fn run_ex(&mut self, command: String, leave_screen: bool) -> (actions: Vec<Action>)
        ensures
            actions@.len() == 2 && (actions@[0] matches Action::Command(c) && c@ == command@) && actions@[1] is FocusGrid,
            chrome(final(self)) == if leave_screen { Chrome { active_screen: None, ..chrome(old(self)) } } else { chrome(old(self)) },
            models_same(final(self), old(self)),
    {
        if leave_screen {
            self.active_screen = None;
        }
        let mut actions: Vec<Action> = Vec::new();
        actions.push(Action::Command(command));
        actions.push(Action::FocusGrid);
        actions
    }
}

/// The Lua that remembers the welcome screen was answered.
pub open spec fn welcomed_lua() -> Seq<char> {
    "require('nvs.state').data.welcomed = true require('nvs.state').save()"@
}

/// A stage picked on the welcome screen: Neovim switches to it and remembers the welcome was
/// answered.
pub fn welcome_stage_chosen(n: u32) -> (actions: Vec<Action>)
    ensures
        actions@.len() == 2,
        actions@[0] matches Action::Command(c) && c@ == "NvsStage "@ + decimal(n as nat),
        actions@[1] matches Action::Lua(code, args) && code@ == welcomed_lua() && args@.len() == 0,
{
    proof {
        reveal_strlit("NvsStage ");
        reveal_strlit("require('nvs.state').data.welcomed = true require('nvs.state').save()");
    }
    let mut actions: Vec<Action> = Vec::new();
    actions.push(Action::Command(concat("NvsStage ", decimal_string(n as u64).as_str())));
    actions.push(Action::Lua(String::from_str("require('nvs.state').data.welcomed = true require('nvs.state').save()"), Vec::new()));
    actions
}

} // verus!
