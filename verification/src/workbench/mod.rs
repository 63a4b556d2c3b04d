//! The chrome around the editor: palette, search, source control and their background tasks,
//! and the names and colours the chrome shows.

pub mod explorer;
pub mod git;
pub mod labels;
pub mod palette;
pub mod plugins;
pub mod respond;
pub mod search;
pub mod settings;
pub mod state;
pub mod tasks;

use vstd::prelude::*;

use vstd::view::View as _;

use crate::bridge::value::Value;
use crate::renderer::icons::{icon_name, ICON_COUNT};
use crate::text::{chars_of, string_from_chars, trim, trimmed};
use crate::ui::widgets::ListState;
use crate::workbench::git::GitView;
use crate::workbench::palette::{command_view, item_view, items_view, CommandView, ItemView, Palette, PaletteCommand, PaletteItem, PaletteSource};
use crate::workbench::search::SearchView;
use crate::workbench::state::{Diagnostic, NvimState};
use crate::workbench::tasks::{spec_lowercase, Task, TaskResult};

verus! {

#[derive(Clone, Copy, Debug, PartialEq, Eq, Structural)]
pub enum View {
    Explorer,
    Search,
    Git,
    Debug,
    Plugins,
    Ask,
    Learn,
}

impl View {
    pub open spec fn spec_icon(self) -> Seq<char> {
        match self {
            View::Explorer => "explorer"@,
            View::Search => "search"@,
            View::Git => "git"@,
            View::Debug => "debug"@,
            View::Plugins => "plugins"@,
            View::Ask => "ask"@,
            View::Learn => "learn"@,
        }
    }

    /// The icon's name.
    pub fn icon(self) -> (s: &'static str)
        ensures
            s@ == self.spec_icon(),
    {
        match self {
            View::Explorer => "explorer",
            View::Search => "search",
            View::Git => "git",
            View::Debug => "debug",
            View::Plugins => "plugins",
            View::Ask => "ask",
            View::Learn => "learn",
        }
    }

    pub fn title(self) -> (s: &'static str)
        ensures
            s@ == match self {
                View::Explorer => "Explorer"@,
                View::Search => "Search"@,
                View::Git => "Source control"@,
                View::Debug => "Run and debug"@,
                View::Plugins => "Plugins"@,
                View::Ask => "Ask"@,
                View::Learn => "Learn"@,
            },
    {
        match self {
            View::Explorer => "Explorer",
            View::Search => "Search",
            View::Git => "Source control",
            View::Debug => "Run and debug",
            View::Plugins => "Plugins",
            View::Ask => "Ask",
            View::Learn => "Learn",
        }
    }
}

#[derive(Clone, Copy, Debug, PartialEq, Eq, Structural)]
pub enum PanelTab {
    Problems,
    Output,
    Terminal,
}

/// Native screens that open as tabs and take the editor area.
#[derive(Clone, Copy, Debug, PartialEq, Eq, Structural)]
pub enum Screen {
    Welcome,
    Settings,
    Plugins,
    Learn,
}

impl Screen {
    pub fn title(self) -> (s: &'static str)
        ensures
            s@ == match self {
                Screen::Welcome => "Welcome"@,
                Screen::Settings => "Settings"@,
                Screen::Plugins => "Plugins"@,
                Screen::Learn => "Learn"@,
            },
    {
        match self {
            Screen::Welcome => "Welcome",
            Screen::Settings => "Settings",
            Screen::Plugins => "Plugins",
            Screen::Learn => "Learn",
        }
    }
}

#[derive(Clone, Copy, Debug, PartialEq, Eq, Structural)]
pub enum Focus {
    Grid,
    Sidebar,
    Panel,
    Palette,
    Screen,
}

/// The colours of the chrome's palette, by name; the renderer knows their values.
#[derive(Clone, Copy, Debug, PartialEq, Eq, Structural)]
pub enum ThemeColor {
    Void,
    Crypt,
    CryptHi,
    Stone,
    StoneHi,
    Bone,
    BoneDim,
    Ash,
    Spectral,
    SpectralHi,
    Corpse,
    Necrotic,
    Viscera,
    Gold,
}

/// The text after the last `.`, or the whole name when it has none.
pub open spec fn extension(name: Seq<char>) -> Seq<char>
    decreases name.len(),
{
    if name.len() == 0 {
        Seq::empty()
    } else if name.last() == '.' {
        Seq::empty()
    } else {
        extension(name.drop_last()).push(name.last())
    }
}

/// The colour of a file name in lists, by its extension.
pub open spec fn spec_file_color(name: Seq<char>) -> ThemeColor {
    let ext = extension(name);
    if ext == "lua"@ {
        ThemeColor::Necrotic
    } else if ext == "rs"@ {
        ThemeColor::Gold
    } else if ext == "ts"@ || ext == "js"@ || ext == "tsx"@ || ext == "jsx"@ {
        ThemeColor::Corpse
    } else if ext == "md"@ {
        ThemeColor::Spectral
    } else if ext == "json"@ || ext == "toml"@ || ext == "yaml"@ || ext == "yml"@ {
        ThemeColor::Bone
    } else {
        ThemeColor::BoneDim
    }
}

pub fn file_color(name: &str) -> (c: ThemeColor)
    ensures
        c == spec_file_color(name@),
{
    let cs = chars_of(name);
    let mut start: usize = cs.len();
    proof {
        assert(cs@.take(start as int) =~= name@);
        assert(cs@.subrange(start as int, cs@.len() as int) =~= Seq::<char>::empty());
        assert(extension(name@) + Seq::<char>::empty() =~= extension(name@));
    }
    while start > 0 && cs[start - 1] != '.'
        invariant
            start <= cs@.len(),
            cs@ == name@,
            extension(name@) == extension(cs@.take(start as int)) + cs@.subrange(start as int, cs@.len() as int),
        decreases start,
    {
        proof {
            assert(cs@.take(start as int).drop_last() =~= cs@.take(start - 1));
            assert(cs@.subrange(start - 1, cs@.len() as int) =~= seq![cs@[start - 1]] + cs@.subrange(start as int, cs@.len() as int));
            assert(extension(cs@.take(start - 1)).push(cs@[start - 1]) + cs@.subrange(start as int, cs@.len() as int) =~= extension(
                cs@.take(start - 1),
            ) + cs@.subrange(start - 1, cs@.len() as int));
        }
        start -= 1;
    }
    let ext = crate::text::substring(&cs, start, cs.len());
    proof {
        assert(extension(cs@.take(start as int)) =~= Seq::<char>::empty());
    }
    let e = ext.as_str();
    if crate::text::str_eq(e, "lua") {
        ThemeColor::Necrotic
    } else if crate::text::str_eq(e, "rs") {
        ThemeColor::Gold
    } else if crate::text::str_eq(e, "ts") || crate::text::str_eq(e, "js") || crate::text::str_eq(e, "tsx") || crate::text::str_eq(e, "jsx") {
        ThemeColor::Corpse
    } else if crate::text::str_eq(e, "md") {
        ThemeColor::Spectral
    } else if crate::text::str_eq(e, "json") || crate::text::str_eq(e, "toml") || crate::text::str_eq(e, "yaml") || crate::text::str_eq(e, "yml") {
        ThemeColor::Bone
    } else {
        ThemeColor::BoneDim
    }
}

/// The status bar's mode badge for Neovim's mode name; insert mode at learning stage 1 reads
/// as plain editing.
pub open spec fn spec_mode_badge(mode: Seq<char>, stage: u32) -> (Seq<char>, ThemeColor) {
    let first = if mode.len() > 0 { mode[0] } else { 'n' };
    if first == 'i' && stage == 1 {
        ("EDIT"@, ThemeColor::BoneDim)
    } else if first == 'i' {
        ("INSERT"@, ThemeColor::Corpse)
    } else if first == 'v' || first == 'V' || first == '\u{16}' {
        ("VISUAL"@, ThemeColor::Necrotic)
    } else if first == 's' || first == 'S' || first == '\u{13}' {
        ("SELECT"@, ThemeColor::Necrotic)
    } else if first == 'R' {
        ("REPLACE"@, ThemeColor::Viscera)
    } else if first == 'c' {
        ("COMMAND"@, ThemeColor::Gold)
    } else if first == 't' {
        ("TERMINAL"@, ThemeColor::Gold)
    } else {
        ("NORMAL"@, ThemeColor::Spectral)
    }
}

pub fn mode_badge(mode: &str, stage: u32) -> (r: (&'static str, ThemeColor))
    ensures
        (r.0@, r.1) == spec_mode_badge(mode@, stage),
{
    let cs = chars_of(mode);
    let first = if cs.len() > 0 { cs[0] } else { 'n' };
    if first == 'i' && stage == 1 {
        ("EDIT", ThemeColor::BoneDim)
    } else if first == 'i' {
        ("INSERT", ThemeColor::Corpse)
    } else if first == 'v' || first == 'V' || first == '\u{16}' {
        ("VISUAL", ThemeColor::Necrotic)
    } else if first == 's' || first == 'S' || first == '\u{13}' {
        ("SELECT", ThemeColor::Necrotic)
    } else if first == 'R' {
        ("REPLACE", ThemeColor::Viscera)
    } else if first == 'c' {
        ("COMMAND", ThemeColor::Gold)
    } else if first == 't' {
        ("TERMINAL", ThemeColor::Gold)
    } else {
        ("NORMAL", ThemeColor::Spectral)
    }
}


// ---- the workbench's state ----

/// What the workbench wants done after handling something.
pub enum Action {
    /// Run an Ex command.
    Command(String),
    /// Run Lua with arguments.
    Lua(String, Vec<Value>),
    /// Feed keys through nvim_input.
    Keys(String),
    FocusGrid,
    Spawn(Task),
}

/// The chrome's state: which view and panel show, what has the keyboard, the native screens
/// and the palette, the views' models, and the output log. Pixel geometry (sizes, layout,
/// drags) stays with the window.
pub struct Workbench {
    pub view: View,
    pub sidebar_open: bool,
    pub panel_open: bool,
    pub panel_tab: PanelTab,
    pub focus: Focus,
    pub nvim: NvimState,
    pub diagnostics: Vec<Diagnostic>,
    pub search: SearchView,
    pub git: GitView,
    pub palette: Option<Palette>,
    pub screens: Vec<Screen>,
    pub active_screen: Option<Screen>,
    pub problems_list: ListState,
    pub output: Vec<String>,
    pub output_list: ListState,
    /// The files last listed, and the folder they were listed in.
    pub files_cache: Option<(String, Vec<String>)>,
    /// The generation the next search request gets.
    pub next_generation: u64,
    pub welcome_shown: bool,
    pub startup_settings_applied: bool,
    /// A category or tab to show once the screen's model arrives.
    pub start_part: Option<String>,
}

/// The chrome's layout state as values.
pub struct Chrome {
    pub view: View,
    pub sidebar_open: bool,
    pub panel_open: bool,
    pub panel_tab: PanelTab,
    pub focus: Focus,
    pub screens: Seq<Screen>,
    pub active_screen: Option<Screen>,
    pub palette_open: bool,
}

pub open spec fn chrome(w: &Workbench) -> Chrome {
    Chrome {
        view: w.view,
        sidebar_open: w.sidebar_open,
        panel_open: w.panel_open,
        panel_tab: w.panel_tab,
        focus: w.focus,
        screens: w.screens@,
        active_screen: w.active_screen,
        palette_open: w.palette is Some,
    }
}

/// Everything but the chrome's layout state is the same in `a` and `b`.
pub open spec fn models_same(a: &Workbench, b: &Workbench) -> bool {
    &&& a.nvim == b.nvim
    &&& a.diagnostics == b.diagnostics
    &&& a.search == b.search
    &&& a.git == b.git
    &&& a.problems_list == b.problems_list
    &&& a.output == b.output
    &&& a.output_list == b.output_list
    &&& a.start_part == b.start_part
    &&& a.files_cache == b.files_cache
    &&& a.next_generation == b.next_generation
    &&& a.welcome_shown == b.welcome_shown
    &&& a.startup_settings_applied == b.startup_settings_applied
}

/// Who has the keyboard: the palette while it is open, a native screen while it shows and
/// the grid would have it, else whatever has the focus.
pub open spec fn spec_keyboard_owner(c: Chrome) -> Focus {
    if c.palette_open {
        Focus::Palette
    } else if c.active_screen is Some && c.focus == Focus::Grid {
        Focus::Screen
    } else {
        c.focus
    }
}

/// Ctrl+B or an activity icon: the icon of the view that shows closes the sidebar, another
/// icon shows its view; no view toggles it. A closed sidebar gives the keyboard back to the grid.
pub open spec fn spec_toggle_sidebar(c: Chrome, view: Option<View>) -> Chrome {
    let c1 = match view {
        Some(v) => if c.sidebar_open && c.view == v {
            Chrome { sidebar_open: false, ..c }
        } else {
            Chrome { view: v, sidebar_open: true, ..c }
        },
        None => Chrome { sidebar_open: !c.sidebar_open, ..c },
    };
    if !c1.sidebar_open && c1.focus == Focus::Sidebar {
        Chrome { focus: Focus::Grid, ..c1 }
    } else {
        c1
    }
}

/// The same for the bottom panel and its tabs.
pub open spec fn spec_toggle_panel(c: Chrome, tab: Option<PanelTab>) -> Chrome {
    let c1 = match tab {
        Some(t) => if c.panel_open && c.panel_tab == t {
            Chrome { panel_open: false, ..c }
        } else {
            Chrome { panel_tab: t, panel_open: true, ..c }
        },
        None => Chrome { panel_open: !c.panel_open, ..c },
    };
    if !c1.panel_open && c1.focus == Focus::Panel {
        Chrome { focus: Focus::Grid, ..c1 }
    } else {
        c1
    }
}

/// Show `view` in the sidebar and give it the keyboard.
pub open spec fn spec_focus_view(c: Chrome, view: View) -> Chrome {
    Chrome { view, sidebar_open: true, focus: Focus::Sidebar, ..c }
}

/// A screen opens as a tab (once) and shows; the grid's focus goes to it.
pub open spec fn spec_open_screen(c: Chrome, screen: Screen) -> Chrome {
    Chrome {
        screens: if c.screens.contains(screen) { c.screens } else { c.screens.push(screen) },
        active_screen: Some(screen),
        focus: Focus::Grid,
        ..c
    }
}

/// `s` without any `x`, the rest in order.
pub open spec fn without(s: Seq<Screen>, x: Screen) -> Seq<Screen>
    decreases s.len(),
{
    if s.len() == 0 {
        s
    } else if s.last() == x {
        without(s.drop_last(), x)
    } else {
        without(s.drop_last(), x).push(s.last())
    }
}

/// A screen's tab closes; if it showed, the grid shows again.
pub open spec fn spec_close_screen(c: Chrome, screen: Screen) -> Chrome {
    Chrome {
        screens: without(c.screens, screen),
        active_screen: if c.active_screen == Some(screen) { None } else { c.active_screen },
        ..c
    }
}

/// The folder Neovim works in, `.` until it says.
pub open spec fn spec_cwd(nvim_cwd: Seq<char>) -> Seq<char> {
    if nvim_cwd.len() == 0 { "."@ } else { nvim_cwd }
}

/// The log keeps its last 500 lines.
pub open spec fn spec_log(output: Seq<Seq<char>>, line: Seq<char>) -> Seq<Seq<char>> {
    let o = output.push(line);
    if o.len() > 500 { o.drop_first() } else { o }
}

pub open spec fn lines_view(v: Seq<String>) -> Seq<Seq<char>> {
    Seq::new(v.len(), |i: int| v[i]@)
}

impl Workbench {
    /// Explorer shown, panel closed, the grid focused, no screens, no palette.
    pub fn new() -> (w: Workbench)
        ensures
            chrome(&w) == (Chrome {
                view: View::Explorer,
                sidebar_open: true,
                panel_open: false,
                panel_tab: PanelTab::Problems,
                focus: Focus::Grid,
                screens: Seq::empty(),
                active_screen: None,
                palette_open: false,
            }),
            w.nvim.cwd@ == Seq::<char>::empty(),
            w.output@.len() == 0,
            w.search.generation == 0,
            w.start_part is None,
    {
        Workbench {
            view: View::Explorer,
            sidebar_open: true,
            panel_open: false,
            panel_tab: PanelTab::Problems,
            focus: Focus::Grid,
            nvim: NvimState::new(),
            diagnostics: Vec::new(),
            search: SearchView::new(),
            git: GitView::new(),
            palette: None,
            screens: Vec::new(),
            active_screen: None,
            problems_list: ListState::new(),
            output: Vec::new(),
            output_list: ListState::new(),
            files_cache: None,
            next_generation: 1,
            welcome_shown: false,
            startup_settings_applied: false,
            start_part: None,
        }
    }

    /// The folder Neovim works in (see `spec_cwd`).
    pub fn cwd(&self) -> (s: String)
        ensures
            s@ == spec_cwd(self.nvim.cwd@),
    {
        if self.nvim.cwd.as_str().is_empty() {
            String::from_str(".")
        } else {
            string_from_chars(chars_of(self.nvim.cwd.as_str()).as_slice())
        }
    }

    /// Does the Neovim grid show right now (no native screen on top)?
    pub fn grid_visible(&self) -> (b: bool)
        ensures
            b == (self.active_screen is None),
    {
        self.active_screen.is_none()
    }

    /// Who has the keyboard (see `spec_keyboard_owner`).
    pub fn keyboard_owner(&self) -> (f: Focus)
        ensures
            f == spec_keyboard_owner(chrome(self)),
    {
        if self.palette.is_some() {
            Focus::Palette
        } else if self.active_screen.is_some() && self.focus == Focus::Grid {
            Focus::Screen
        } else {
            self.focus
        }
    }

    /// See `spec_toggle_sidebar`.
    pub fn toggle_sidebar(&mut self, view: Option<View>)
        ensures
            chrome(final(self)) == spec_toggle_sidebar(chrome(old(self)), view),
            models_same(final(self), old(self)),
    {
        match view {
            Some(v) => {
                if self.sidebar_open && self.view == v {
                    self.sidebar_open = false;
                } else {
                    self.view = v;
                    self.sidebar_open = true;
                }
            },
            None => self.sidebar_open = !self.sidebar_open,
        }
        if !self.sidebar_open && self.focus == Focus::Sidebar {
            self.focus = Focus::Grid;
        }
    }

    /// See `spec_toggle_panel`.
    pub fn toggle_panel(&mut self, tab: Option<PanelTab>)
        ensures
            chrome(final(self)) == spec_toggle_panel(chrome(old(self)), tab),
            models_same(final(self), old(self)),
    {
        match tab {
            Some(t) => {
                if self.panel_open && self.panel_tab == t {
                    self.panel_open = false;
                } else {
                    self.panel_tab = t;
                    self.panel_open = true;
                }
            },
            None => self.panel_open = !self.panel_open,
        }
        if !self.panel_open && self.focus == Focus::Panel {
            self.focus = Focus::Grid;
        }
    }

    /// Show a view and give it the keyboard (Ctrl+Shift+E/F/G): the Search view starts
    /// editing its query; Source control stops editing its message and asks for a fresh
    /// `git status`.
    pub fn focus_view(&mut self, view: View) -> (actions: Vec<Action>)
        ensures
            chrome(final(self)) == spec_focus_view(chrome(old(self)), view),
            final(self).search.editing == (view == View::Search || old(self).search.editing),
            final(self).git.editing == (view != View::Git && old(self).git.editing),
            view == View::Git ==> actions@.len() == 1 && (actions@[0] matches Action::Spawn(Task::GitStatus { cwd })
                && cwd@ == spec_cwd(old(self).nvim.cwd@)),
            view != View::Git ==> actions@.len() == 0,
            final(self).nvim == old(self).nvim,
            final(self).output == old(self).output,
    {
        let mut actions: Vec<Action> = Vec::new();
        if !(self.sidebar_open && self.view == view) {
            self.view = view;
            self.sidebar_open = true;
        }
        self.focus = Focus::Sidebar;
        match view {
            View::Search => self.search.editing = true,
            View::Git => {
                self.git.editing = false;
                let cwd = self.cwd();
                actions.push(Action::Spawn(Task::GitStatus { cwd }));
            },
            _ => {},
        }
        actions
    }

    /// See `spec_open_screen`.
    pub fn open_screen(&mut self, screen: Screen)
        ensures
            chrome(final(self)) == spec_open_screen(chrome(old(self)), screen),
            models_same(final(self), old(self)),
    {
        let mut found = false;
        let mut i: usize = 0;
        while i < self.screens.len()
            invariant
                i <= self.screens@.len(),
                found == self.screens@.take(i as int).contains(screen),
            decreases self.screens@.len() - i,
        {
            proof {
                assert(self.screens@.take(i + 1) =~= self.screens@.take(i as int).push(self.screens@[i as int]));
            }
            if self.screens[i] == screen {
                found = true;
                proof {
                    assert(self.screens@.take(i + 1)[i as int] == screen);
                }
            }
            i += 1;
        }
        proof {
            assert(self.screens@.take(i as int) =~= self.screens@);
        }
        if !found {
            self.screens.push(screen);
        }
        self.active_screen = Some(screen);
        self.focus = Focus::Grid;
    }

    /// See `spec_close_screen`.
    pub fn close_screen(&mut self, screen: Screen)
        ensures
            chrome(final(self)) == spec_close_screen(chrome(old(self)), screen),
            models_same(final(self), old(self)),
    {
        let ghost start = self.screens@;
        let mut kept: Vec<Screen> = Vec::new();
        let mut i: usize = 0;
        while i < self.screens.len()
            invariant
                i <= self.screens@.len(),
                self.screens@ == start,
                kept@ == without(start.take(i as int), screen),
            decreases self.screens@.len() - i,
        {
            proof {
                assert(start.take(i + 1).drop_last() =~= start.take(i as int));
            }
            if self.screens[i] != screen {
                kept.push(self.screens[i]);
            }
            i += 1;
        }
        proof {
            assert(start.take(i as int) =~= start);
        }
        self.screens = kept;
        if self.active_screen == Some(screen) {
            self.active_screen = None;
        }
    }

    /// Close the palette; if it had the keyboard, the grid gets it back.
    pub fn close_palette(&mut self)
        ensures
            chrome(final(self)) == (Chrome {
                palette_open: false,
                focus: if old(self).focus == Focus::Palette { Focus::Grid } else { old(self).focus },
                ..chrome(old(self))
            }),
            models_same(final(self), old(self)),
    {
        self.palette = None;
        if self.focus == Focus::Palette {
            self.focus = Focus::Grid;
        }
    }

    /// Add a line to the output log (see `spec_log`).
    pub fn log(&mut self, line: String)
        ensures
            lines_view(final(self).output@) == spec_log(lines_view(old(self).output@), line@),
            chrome(final(self)) == chrome(old(self)),
            final(self).nvim == old(self).nvim,
            final(self).search == old(self).search,
            final(self).git == old(self).git,
            final(self).files_cache == old(self).files_cache,
    {
        let ghost before = lines_view(self.output@);
        self.output.push(line);
        proof {
            assert(lines_view(self.output@) =~= before.push(line@));
        }
        if self.output.len() > 500 {
            let ghost pushed = lines_view(self.output@);
            self.output.remove(0);
            proof {
                assert(lines_view(self.output@) =~= pushed.drop_first());
            }
        }
    }
}


/// `s` split at every `sep`, as `str::split` does: one piece more than there are separators.
pub open spec fn split_at_char(s: Seq<char>, sep: char) -> Seq<Seq<char>>
    decreases s.len(),
{
    if s.len() == 0 {
        seq![Seq::<char>::empty()]
    } else {
        let parts = split_at_char(s.drop_last(), sep);
        if s.last() == sep {
            parts.push(Seq::empty())
        } else {
            parts.update(parts.len() - 1, parts.last().push(s.last()))
        }
    }
}

proof fn lemma_split_at_char_len(s: Seq<char>, sep: char)
    ensures
        split_at_char(s, sep).len() >= 1,
    decreases s.len(),
{
    if s.len() > 0 {
        lemma_split_at_char_len(s.drop_last(), sep);
    }
}

/// The pieces trimmed, the empty ones left out.
pub open spec fn trimmed_names(parts: Seq<Seq<char>>) -> Seq<Seq<char>>
    decreases parts.len(),
{
    if parts.len() == 0 {
        Seq::empty()
    } else {
        let before = trimmed_names(parts.drop_last());
        let t = trimmed(parts.last());
        if t.len() > 0 { before.push(t) } else { before }
    }
}

/// The names of a comma-separated list such as the `exclude` setting: trimmed, empty ones
/// left out.
pub open spec fn spec_exclude_names(s: Seq<char>) -> Seq<Seq<char>> {
    trimmed_names(split_at_char(s, ','))
}

/// The names of a comma-separated list (see `spec_exclude_names`).
pub fn exclude_names(s: &str) -> (names: Vec<String>)
    ensures
        lines_view(names@) == spec_exclude_names(s@),
{
    let cs = chars_of(s);
    let mut out: Vec<String> = Vec::new();
    let mut cur: Vec<char> = Vec::new();
    let ghost mut done: Seq<Seq<char>> = Seq::empty();
    let mut i: usize = 0;
    proof {
        assert(cs@.take(0) =~= Seq::<char>::empty());
        assert(lines_view(out@) =~= Seq::<Seq<char>>::empty());
        assert(done.push(cur@) =~= seq![Seq::<char>::empty()]);
    }
    while i < cs.len()
        invariant
            cs@ == s@,
            i <= cs@.len(),
            split_at_char(cs@.take(i as int), ',') == done.push(cur@),
            lines_view(out@) == trimmed_names(done),
        decreases cs@.len() - i,
    {
        proof {
            assert(cs@.take(i + 1).drop_last() =~= cs@.take(i as int));
        }
        if cs[i] == ',' {
            let t = trim(string_from_chars(cur.as_slice()).as_str());
            proof {
                assert(done.push(cur@).drop_last() =~= done);
            }
            if !t.as_str().is_empty() {
                let ghost before = lines_view(out@);
                out.push(t);
                proof {
                    assert(lines_view(out@) =~= before.push(trimmed(cur@)));
                }
            }
            proof {
                done = done.push(cur@);
                assert(done.push(Seq::<char>::empty()) =~= split_at_char(cs@.take(i + 1), ','));
            }
            cur = Vec::new();
        } else {
            let ghost old_cur = cur@;
            cur.push(cs[i]);
            proof {
                assert(done.push(old_cur).update(done.len() as int, old_cur.push(cs@[i as int])) =~= done.push(cur@));
            }
        }
        i += 1;
    }
    proof {
        assert(cs@.take(i as int) =~= cs@);
    }
    let t = trim(string_from_chars(cur.as_slice()).as_str());
    proof {
        assert(done.push(cur@).drop_last() =~= done);
    }
    if !t.as_str().is_empty() {
        let ghost before = lines_view(out@);
        out.push(t);
        proof {
            assert(lines_view(out@) =~= before.push(trimmed(cur@)));
        }
    }
    out
}

/// The extra ripgrep arguments for the Search view: `--glob !name` for each name of the
/// `exclude` setting, then the words of the `rg_args` setting.
pub open spec fn spec_search_args(exclude: Option<Seq<char>>, rg_args: Option<Seq<char>>) -> Seq<Seq<char>> {
    let names = match exclude {
        Some(e) => spec_exclude_names(e),
        None => Seq::empty(),
    };
    let globs = Seq::new(2 * names.len(), |k: int| if k % 2 == 0 { "--glob"@ } else { seq!['!'] + names[k / 2] });
    globs + match rg_args {
        Some(a) => crate::workbench::plugins::split_whitespace(a),
        None => Seq::empty(),
    }
}

pub open spec fn opt_view(o: Option<&str>) -> Option<Seq<char>> {
    match o {
        Some(s) => Some(s@),
        None => None,
    }
}

/// The extra ripgrep arguments (see `spec_search_args`), from the `exclude` and `rg_args`
/// settings when they are strings.
pub fn search_args(exclude: Option<&str>, rg_args: Option<&str>) -> (args: Vec<String>)
    ensures
        lines_view(args@) == spec_search_args(opt_view(exclude), opt_view(rg_args)),
{
    let mut args: Vec<String> = Vec::new();
    let names = match exclude {
        Some(e) => exclude_names(e),
        None => Vec::new(),
    };
    let ghost nv = lines_view(names@);
    let mut k: usize = 0;
    while k < names.len()
        invariant
            k <= names@.len(),
            nv == lines_view(names@),
            lines_view(args@) =~= Seq::new(2 * k as nat, |j: int| if j % 2 == 0 { "--glob"@ } else { seq!['!'] + nv[j / 2] }),
        decreases names@.len() - k,
    {
        let mut g: Vec<char> = Vec::new();
        g.push('!');
        let nc = chars_of(names[k].as_str());
        let mut j: usize = 0;
        while j < nc.len()
            invariant
                j <= nc@.len(),
                g@ == seq!['!'] + nc@.take(j as int),
            decreases nc@.len() - j,
        {
            g.push(nc[j]);
            j += 1;
            proof {
                assert(nc@.take(j as int) =~= nc@.take(j - 1).push(nc@[j - 1]));
            }
        }
        proof {
            assert(nc@.take(j as int) =~= nc@);
        }
        let ghost before = lines_view(args@);
        args.push(String::from_str("--glob"));
        args.push(string_from_chars(g.as_slice()));
        proof {
            assert(lines_view(args@) =~= before.push("--glob"@).push(seq!['!'] + nv[k as int]));
        }
        k += 1;
    }
    if let Some(a) = rg_args {
        let ws = crate::workbench::plugins::words(a);
        let ghost wv = Seq::new(ws@.len(), |i: int| ws@[i]@);
        let ghost start = lines_view(args@);
        let mut i: usize = 0;
        while i < ws.len()
            invariant
                i <= ws@.len(),
                wv == Seq::new(ws@.len(), |i: int| ws@[i]@),
                lines_view(args@) == start + wv.take(i as int),
            decreases ws@.len() - i,
        {
            let ghost before = lines_view(args@);
            args.push(string_from_chars(ws[i].as_slice()));
            proof {
                assert(lines_view(args@) =~= before.push(wv[i as int]));
                assert(wv.take(i + 1) =~= wv.take(i as int).push(wv[i as int]));
            }
            i += 1;
        }
        proof {
            assert(wv.take(i as int) =~= wv);
        }
    } else {
        proof {
            assert(lines_view(args@) =~= lines_view(args@) + Seq::<Seq<char>>::empty());
        }
    }
    args
}


/// Everything the palette can run: the shell's commands with their VS Code keys and Vim ways,
/// the four stages, and the common Ex commands.
pub open spec fn spec_commands() -> Seq<ItemView> {
    seq![
        ItemView { title: "Toggle sidebar"@, source: PaletteSource::Shell, key: "Ctrl+B"@, vim: "Space e"@, command: CommandView::ToggleSidebar },
        ItemView { title: "Toggle bottom panel"@, source: PaletteSource::Shell, key: "Ctrl+`"@, vim: ""@, command: CommandView::TogglePanel },
        ItemView { title: "View: Explorer"@, source: PaletteSource::Shell, key: "Ctrl+Shift+E"@, vim: "Space e"@, command: CommandView::ShowView(View::Explorer) },
        ItemView { title: "View: Search files"@, source: PaletteSource::Shell, key: "Ctrl+Shift+F"@, vim: "Space /"@, command: CommandView::ShowView(View::Search) },
        ItemView { title: "View: Source control"@, source: PaletteSource::Shell, key: "Ctrl+Shift+G"@, vim: "Space g g"@, command: CommandView::ShowView(View::Git) },
        ItemView { title: "View: Problems"@, source: PaletteSource::Shell, key: "Ctrl+Shift+M"@, vim: "Space x x"@, command: CommandView::ShowPanel(PanelTab::Problems) },
        ItemView { title: "View: Output"@, source: PaletteSource::Shell, key: ""@, vim: ""@, command: CommandView::ShowPanel(PanelTab::Output) },
        ItemView { title: "Terminal: Toggle"@, source: PaletteSource::Shell, key: ""@, vim: "Ctrl+/ (Stage 4)"@, command: CommandView::Ex("lua Snacks.terminal()"@) },
        ItemView { title: "Preferences: Open Settings"@, source: PaletteSource::Shell, key: "Ctrl+,"@, vim: ""@, command: CommandView::Screen(Screen::Settings) },
        ItemView { title: "Plugins: Browse"@, source: PaletteSource::Shell, key: "Ctrl+Shift+X"@, vim: ":Lazy"@, command: CommandView::Screen(Screen::Plugins) },
        ItemView { title: "Plugins: LazyVim extras"@, source: PaletteSource::Shell, key: ""@, vim: ":LazyExtras"@, command: CommandView::Ex("LazyExtras"@) },
        ItemView { title: "Plugins: Update all"@, source: PaletteSource::Shell, key: ""@, vim: ":Lazy update"@, command: CommandView::Ex("Lazy update"@) },
        ItemView { title: "Welcome: Choose your stage"@, source: PaletteSource::Shell, key: ""@, vim: ":NvsWelcome"@, command: CommandView::Screen(Screen::Welcome) },
        ItemView { title: "Learn: Open the lessons"@, source: PaletteSource::Shell, key: ""@, vim: ":NvsTutor"@, command: CommandView::Ex("NvsTutor"@) },
        ItemView { title: "Learn: Progress and stages"@, source: PaletteSource::Shell, key: ""@, vim: ""@, command: CommandView::Screen(Screen::Learn) },
        ItemView { title: "Ask: How do I…"@, source: PaletteSource::Shell, key: "F1"@, vim: "Space ?"@, command: CommandView::Ex("NvsAsk"@) },
        ItemView { title: "Local AI: Status"@, source: PaletteSource::Shell, key: ""@, vim: ":NvsAI status"@, command: CommandView::Ex("NvsAI status"@) },
        ItemView { title: "Local AI: Choose or download a model"@, source: PaletteSource::Shell, key: ""@, vim: ":NvsModel"@, command: CommandView::Ex("NvsModel"@) },
        ItemView { title: "Go to file"@, source: PaletteSource::Shell, key: "Ctrl+P"@, vim: "Space Space"@, command: CommandView::Keys("<cmd>lua Snacks.picker.files()<CR>"@) },
        ItemView { title: "Go to symbol"@, source: PaletteSource::Shell, key: "Ctrl+Shift+O"@, vim: "Space s s"@, command: CommandView::Keys("<cmd>lua Snacks.picker.lsp_symbols()<CR>"@) },
        ItemView { title: "Format document"@, source: PaletteSource::Shell, key: "Shift+Alt+F"@, vim: "Space c f"@, command: CommandView::Ex("lua LazyVim.format({ force = true })"@) },
        ItemView { title: "Go to definition"@, source: PaletteSource::Shell, key: "F12"@, vim: "gd"@, command: CommandView::Ex("lua vim.lsp.buf.definition()"@) },
        ItemView { title: "Find references"@, source: PaletteSource::Shell, key: "Shift+F12"@, vim: "grr"@, command: CommandView::Ex("lua vim.lsp.buf.references()"@) },
        ItemView { title: "Rename symbol"@, source: PaletteSource::Shell, key: "F2"@, vim: "grn"@, command: CommandView::Ex("lua vim.lsp.buf.rename()"@) },
        ItemView { title: "Code action"@, source: PaletteSource::Shell, key: "Ctrl+."@, vim: "gra"@, command: CommandView::Ex("lua vim.lsp.buf.code_action()"@) },
        ItemView { title: "Save file"@, source: PaletteSource::Shell, key: "Ctrl+S"@, vim: ":w"@, command: CommandView::Ex("write"@) },
        ItemView { title: "Close buffer"@, source: PaletteSource::Shell, key: "Ctrl+W"@, vim: "Space b d"@, command: CommandView::Ex("lua Snacks.bufdelete()"@) },
        ItemView { title: "Neovim: Check health"@, source: PaletteSource::Shell, key: ""@, vim: ":checkhealth"@, command: CommandView::Ex("checkhealth"@) },
        ItemView { title: "Learn: Switch to Stage 1, VS Code keys"@, source: PaletteSource::Shell, key: ""@, vim: ""@, command: CommandView::Stage(1) },
        ItemView { title: "Learn: Switch to Stage 2, Hybrid"@, source: PaletteSource::Shell, key: ""@, vim: ""@, command: CommandView::Stage(2) },
        ItemView { title: "Learn: Switch to Stage 3, Modal with safety net"@, source: PaletteSource::Shell, key: ""@, vim: ""@, command: CommandView::Stage(3) },
        ItemView { title: "Learn: Switch to Stage 4, Pure Neovim"@, source: PaletteSource::Shell, key: ""@, vim: ""@, command: CommandView::Stage(4) },
        ItemView { title: "Coach: How often hints repeat"@, source: PaletteSource::Shell, key: ""@, vim: ":NvsCoach"@, command: CommandView::Ex("NvsCoach"@) },
        ItemView { title: ":w"@, source: PaletteSource::Ex, key: ""@, vim: ""@, command: CommandView::Ex("w"@) },
        ItemView { title: ":q"@, source: PaletteSource::Ex, key: ""@, vim: ""@, command: CommandView::Ex("q"@) },
        ItemView { title: ":wq"@, source: PaletteSource::Ex, key: ""@, vim: ""@, command: CommandView::Ex("wq"@) },
        ItemView { title: ":NvsAsk"@, source: PaletteSource::Ex, key: ""@, vim: ""@, command: CommandView::Ex("NvsAsk"@) },
        ItemView { title: ":NvsTutor"@, source: PaletteSource::Ex, key: ""@, vim: ""@, command: CommandView::Ex("NvsTutor"@) },
        ItemView { title: ":NvsStage"@, source: PaletteSource::Ex, key: ""@, vim: ""@, command: CommandView::Ex("NvsStage"@) },
        ItemView { title: ":NvsCoach"@, source: PaletteSource::Ex, key: ""@, vim: ""@, command: CommandView::Ex("NvsCoach"@) },
        ItemView { title: ":NvsSettings"@, source: PaletteSource::Ex, key: ""@, vim: ""@, command: CommandView::Ex("NvsSettings"@) },
        ItemView { title: ":NvsAI status"@, source: PaletteSource::Ex, key: ""@, vim: ""@, command: CommandView::Ex("NvsAI status"@) },
        ItemView { title: ":NvsModel"@, source: PaletteSource::Ex, key: ""@, vim: ""@, command: CommandView::Ex("NvsModel"@) },
        ItemView { title: ":NvsWelcome"@, source: PaletteSource::Ex, key: ""@, vim: ""@, command: CommandView::Ex("NvsWelcome"@) },
        ItemView { title: ":LazyExtras"@, source: PaletteSource::Ex, key: ""@, vim: ""@, command: CommandView::Ex("LazyExtras"@) },
        ItemView { title: ":Tutor"@, source: PaletteSource::Ex, key: ""@, vim: ""@, command: CommandView::Ex("Tutor"@) },
        ItemView { title: ":Lazy"@, source: PaletteSource::Ex, key: ""@, vim: ""@, command: CommandView::Ex("Lazy"@) },
        ItemView { title: ":Mason"@, source: PaletteSource::Ex, key: ""@, vim: ""@, command: CommandView::Ex("Mason"@) },
        ItemView { title: ":LspInfo"@, source: PaletteSource::Ex, key: ""@, vim: ""@, command: CommandView::Ex("LspInfo"@) },
        ItemView { title: ":checkhealth"@, source: PaletteSource::Ex, key: ""@, vim: ""@, command: CommandView::Ex("checkhealth"@) },
        ItemView { title: ":set relativenumber!"@, source: PaletteSource::Ex, key: ""@, vim: ""@, command: CommandView::Ex("set relativenumber!"@) },
        ItemView { title: ":set wrap!"@, source: PaletteSource::Ex, key: ""@, vim: ""@, command: CommandView::Ex("set wrap!"@) },
        ItemView { title: ":set spell!"@, source: PaletteSource::Ex, key: ""@, vim: ""@, command: CommandView::Ex("set spell!"@) },
        ItemView { title: ":vsplit"@, source: PaletteSource::Ex, key: ""@, vim: ""@, command: CommandView::Ex("vsplit"@) },
        ItemView { title: ":split"@, source: PaletteSource::Ex, key: ""@, vim: ""@, command: CommandView::Ex("split"@) },
        ItemView { title: ":terminal"@, source: PaletteSource::Ex, key: ""@, vim: ""@, command: CommandView::Ex("terminal"@) },
        ItemView { title: ":Trouble diagnostics toggle"@, source: PaletteSource::Ex, key: ""@, vim: ""@, command: CommandView::Ex("Trouble diagnostics toggle"@) },
        ItemView { title: ":e $MYVIMRC"@, source: PaletteSource::Ex, key: ""@, vim: ""@, command: CommandView::Ex("e $MYVIMRC"@) },
    ]
}

fn push_item(items: &mut Vec<PaletteItem>, title: &str, source: PaletteSource, key: &'static str, vim: &'static str, command: PaletteCommand)
    ensures
        final(items)@.len() == old(items)@.len() + 1,
        forall|i: int| 0 <= i < old(items)@.len() ==> #[trigger] final(items)@[i] == old(items)@[i],
        final(items)@[old(items)@.len() as int].title@ == title@,
        final(items)@[old(items)@.len() as int].source == source,
        final(items)@[old(items)@.len() as int].key == key,
        final(items)@[old(items)@.len() as int].vim == vim,
        final(items)@[old(items)@.len() as int].command == command,
{
    items.push(PaletteItem { title: String::from_str(title), source, key, vim, command });
}

impl Workbench {
    /// Everything the palette can run (see `spec_commands`).
    pub fn commands(&self) -> (items: Vec<PaletteItem>)
        ensures
            items_view(items@) == spec_commands(),
    {
        let mut items: Vec<PaletteItem> = Vec::new();
        push_item(&mut items, "Toggle sidebar", PaletteSource::Shell, "Ctrl+B", "Space e", PaletteCommand::ToggleSidebar);
        push_item(&mut items, "Toggle bottom panel", PaletteSource::Shell, "Ctrl+`", "", PaletteCommand::TogglePanel);
        push_item(&mut items, "View: Explorer", PaletteSource::Shell, "Ctrl+Shift+E", "Space e", PaletteCommand::ShowView(View::Explorer));
        push_item(&mut items, "View: Search files", PaletteSource::Shell, "Ctrl+Shift+F", "Space /", PaletteCommand::ShowView(View::Search));
        push_item(&mut items, "View: Source control", PaletteSource::Shell, "Ctrl+Shift+G", "Space g g", PaletteCommand::ShowView(View::Git));
        push_item(&mut items, "View: Problems", PaletteSource::Shell, "Ctrl+Shift+M", "Space x x", PaletteCommand::ShowPanel(PanelTab::Problems));
        push_item(&mut items, "View: Output", PaletteSource::Shell, "", "", PaletteCommand::ShowPanel(PanelTab::Output));
        push_item(&mut items, "Terminal: Toggle", PaletteSource::Shell, "", "Ctrl+/ (Stage 4)", PaletteCommand::Ex(String::from_str("lua Snacks.terminal()")));
        push_item(&mut items, "Preferences: Open Settings", PaletteSource::Shell, "Ctrl+,", "", PaletteCommand::Screen(Screen::Settings));
        push_item(&mut items, "Plugins: Browse", PaletteSource::Shell, "Ctrl+Shift+X", ":Lazy", PaletteCommand::Screen(Screen::Plugins));
        push_item(&mut items, "Plugins: LazyVim extras", PaletteSource::Shell, "", ":LazyExtras", PaletteCommand::Ex(String::from_str("LazyExtras")));
        push_item(&mut items, "Plugins: Update all", PaletteSource::Shell, "", ":Lazy update", PaletteCommand::Ex(String::from_str("Lazy update")));
        push_item(&mut items, "Welcome: Choose your stage", PaletteSource::Shell, "", ":NvsWelcome", PaletteCommand::Screen(Screen::Welcome));
        push_item(&mut items, "Learn: Open the lessons", PaletteSource::Shell, "", ":NvsTutor", PaletteCommand::Ex(String::from_str("NvsTutor")));
        push_item(&mut items, "Learn: Progress and stages", PaletteSource::Shell, "", "", PaletteCommand::Screen(Screen::Learn));
        push_item(&mut items, "Ask: How do I…", PaletteSource::Shell, "F1", "Space ?", PaletteCommand::Ex(String::from_str("NvsAsk")));
        push_item(&mut items, "Local AI: Status", PaletteSource::Shell, "", ":NvsAI status", PaletteCommand::Ex(String::from_str("NvsAI status")));
        push_item(&mut items, "Local AI: Choose or download a model", PaletteSource::Shell, "", ":NvsModel", PaletteCommand::Ex(String::from_str("NvsModel")));
        push_item(&mut items, "Go to file", PaletteSource::Shell, "Ctrl+P", "Space Space", PaletteCommand::Keys(String::from_str("<cmd>lua Snacks.picker.files()<CR>")));
        push_item(&mut items, "Go to symbol", PaletteSource::Shell, "Ctrl+Shift+O", "Space s s", PaletteCommand::Keys(String::from_str("<cmd>lua Snacks.picker.lsp_symbols()<CR>")));
        push_item(&mut items, "Format document", PaletteSource::Shell, "Shift+Alt+F", "Space c f", PaletteCommand::Ex(String::from_str("lua LazyVim.format({ force = true })")));
        push_item(&mut items, "Go to definition", PaletteSource::Shell, "F12", "gd", PaletteCommand::Ex(String::from_str("lua vim.lsp.buf.definition()")));
        push_item(&mut items, "Find references", PaletteSource::Shell, "Shift+F12", "grr", PaletteCommand::Ex(String::from_str("lua vim.lsp.buf.references()")));
        push_item(&mut items, "Rename symbol", PaletteSource::Shell, "F2", "grn", PaletteCommand::Ex(String::from_str("lua vim.lsp.buf.rename()")));
        push_item(&mut items, "Code action", PaletteSource::Shell, "Ctrl+.", "gra", PaletteCommand::Ex(String::from_str("lua vim.lsp.buf.code_action()")));
        push_item(&mut items, "Save file", PaletteSource::Shell, "Ctrl+S", ":w", PaletteCommand::Ex(String::from_str("write")));
        push_item(&mut items, "Close buffer", PaletteSource::Shell, "Ctrl+W", "Space b d", PaletteCommand::Ex(String::from_str("lua Snacks.bufdelete()")));
        push_item(&mut items, "Neovim: Check health", PaletteSource::Shell, "", ":checkhealth", PaletteCommand::Ex(String::from_str("checkhealth")));
        push_item(&mut items, "Learn: Switch to Stage 1, VS Code keys", PaletteSource::Shell, "", "", PaletteCommand::Stage(1));
        push_item(&mut items, "Learn: Switch to Stage 2, Hybrid", PaletteSource::Shell, "", "", PaletteCommand::Stage(2));
        push_item(&mut items, "Learn: Switch to Stage 3, Modal with safety net", PaletteSource::Shell, "", "", PaletteCommand::Stage(3));
        push_item(&mut items, "Learn: Switch to Stage 4, Pure Neovim", PaletteSource::Shell, "", "", PaletteCommand::Stage(4));
        push_item(&mut items, "Coach: How often hints repeat", PaletteSource::Shell, "", ":NvsCoach", PaletteCommand::Ex(String::from_str("NvsCoach")));
        push_item(&mut items, ":w", PaletteSource::Ex, "", "", PaletteCommand::Ex(String::from_str("w")));
        push_item(&mut items, ":q", PaletteSource::Ex, "", "", PaletteCommand::Ex(String::from_str("q")));
        push_item(&mut items, ":wq", PaletteSource::Ex, "", "", PaletteCommand::Ex(String::from_str("wq")));
        push_item(&mut items, ":NvsAsk", PaletteSource::Ex, "", "", PaletteCommand::Ex(String::from_str("NvsAsk")));
        push_item(&mut items, ":NvsTutor", PaletteSource::Ex, "", "", PaletteCommand::Ex(String::from_str("NvsTutor")));
        push_item(&mut items, ":NvsStage", PaletteSource::Ex, "", "", PaletteCommand::Ex(String::from_str("NvsStage")));
        push_item(&mut items, ":NvsCoach", PaletteSource::Ex, "", "", PaletteCommand::Ex(String::from_str("NvsCoach")));
        push_item(&mut items, ":NvsSettings", PaletteSource::Ex, "", "", PaletteCommand::Ex(String::from_str("NvsSettings")));
        push_item(&mut items, ":NvsAI status", PaletteSource::Ex, "", "", PaletteCommand::Ex(String::from_str("NvsAI status")));
        push_item(&mut items, ":NvsModel", PaletteSource::Ex, "", "", PaletteCommand::Ex(String::from_str("NvsModel")));
        push_item(&mut items, ":NvsWelcome", PaletteSource::Ex, "", "", PaletteCommand::Ex(String::from_str("NvsWelcome")));
        push_item(&mut items, ":LazyExtras", PaletteSource::Ex, "", "", PaletteCommand::Ex(String::from_str("LazyExtras")));
        push_item(&mut items, ":Tutor", PaletteSource::Ex, "", "", PaletteCommand::Ex(String::from_str("Tutor")));
        push_item(&mut items, ":Lazy", PaletteSource::Ex, "", "", PaletteCommand::Ex(String::from_str("Lazy")));
        push_item(&mut items, ":Mason", PaletteSource::Ex, "", "", PaletteCommand::Ex(String::from_str("Mason")));
        push_item(&mut items, ":LspInfo", PaletteSource::Ex, "", "", PaletteCommand::Ex(String::from_str("LspInfo")));
        push_item(&mut items, ":checkhealth", PaletteSource::Ex, "", "", PaletteCommand::Ex(String::from_str("checkhealth")));
        push_item(&mut items, ":set relativenumber!", PaletteSource::Ex, "", "", PaletteCommand::Ex(String::from_str("set relativenumber!")));
        push_item(&mut items, ":set wrap!", PaletteSource::Ex, "", "", PaletteCommand::Ex(String::from_str("set wrap!")));
        push_item(&mut items, ":set spell!", PaletteSource::Ex, "", "", PaletteCommand::Ex(String::from_str("set spell!")));
        push_item(&mut items, ":vsplit", PaletteSource::Ex, "", "", PaletteCommand::Ex(String::from_str("vsplit")));
        push_item(&mut items, ":split", PaletteSource::Ex, "", "", PaletteCommand::Ex(String::from_str("split")));
        push_item(&mut items, ":terminal", PaletteSource::Ex, "", "", PaletteCommand::Ex(String::from_str("terminal")));
        push_item(&mut items, ":Trouble diagnostics toggle", PaletteSource::Ex, "", "", PaletteCommand::Ex(String::from_str("Trouble diagnostics toggle")));
        push_item(&mut items, ":e $MYVIMRC", PaletteSource::Ex, "", "", PaletteCommand::Ex(String::from_str("e $MYVIMRC")));
        proof {
            assert(items_view(items@) =~= spec_commands());
        }
        items
    }
}


fn copy_strings(v: &Vec<String>) -> (r: Vec<String>)
    ensures
        lines_view(r@) == lines_view(v@),
{
    let mut r: Vec<String> = Vec::new();
    let mut i: usize = 0;
    while i < v.len()
        invariant
            i <= v@.len(),
            lines_view(r@) == lines_view(v@).take(i as int),
        decreases v@.len() - i,
    {
        let ghost before = lines_view(r@);
        r.push(string_from_chars(chars_of(v[i].as_str()).as_slice()));
        proof {
            assert(lines_view(r@) =~= before.push(v@[i as int]@));
            assert(lines_view(v@).take(i + 1) =~= lines_view(v@).take(i as int).push(v@[i as int]@));
        }
        i += 1;
    }
    proof {
        assert(lines_view(v@).take(i as int) =~= lines_view(v@));
    }
    r
}

fn copy_text(s: &String) -> (r: String)
    ensures
        r@ == s@,
{
    string_from_chars(chars_of(s.as_str()).as_slice())
}

fn copy_error(e: &Option<String>) -> (r: Option<String>)
    ensures
        match (r, *e) {
            (Some(a), Some(b)) => a@ == b@,
            (None, None) => true,
            _ => false,
        },
{
    match e {
        Some(s) => Some(copy_text(s)),
        None => None,
    }
}

pub open spec fn error_view(e: Option<String>) -> Option<Seq<char>> {
    match e {
        Some(s) => Some(s@),
        None => None,
    }
}

/// Is the palette `p` the one `open_palette` makes for the input `prefix`, the files `files`
/// (listed in `cwd`, if they were) and the commands?
pub open spec fn palette_for(p: Palette, prefix: Seq<char>, files: Seq<Seq<char>>, cwd: Option<Seq<char>>) -> bool {
    &&& p.input.text@ == prefix
    &&& lines_view(p.files@) == files
    &&& error_view(p.files_cwd) == cwd
    &&& crate::workbench::palette::matches_view(p.matches@) == crate::workbench::palette::spec_matches(prefix, files, spec_commands())
}

impl Workbench {
    /// Open the palette with `prefix` typed and give it the keyboard. The files listed last are
    /// reused when they were listed in Neovim's folder; otherwise a listing is asked for.
    pub fn open_palette(&mut self, prefix: &str) -> (actions: Vec<Action>)
        ensures
            chrome(final(self)) == (Chrome { palette_open: true, focus: Focus::Palette, ..chrome(old(self)) }),
            final(self).palette matches Some(p) && ({
                let cwd = spec_cwd(old(self).nvim.cwd@);
                match old(self).files_cache {
                    Some((c, files)) => if c@ == cwd {
                        palette_for(p, prefix@, lines_view(files@), Some(cwd))
                    } else {
                        palette_for(p, prefix@, Seq::empty(), None)
                    },
                    None => palette_for(p, prefix@, Seq::empty(), None),
                }
            }),
            ({
                let cwd = spec_cwd(old(self).nvim.cwd@);
                let hit = old(self).files_cache matches Some((c, files)) && c@ == cwd;
                &&& hit ==> actions@.len() == 0
                &&& !hit ==> actions@.len() == 1 && (actions@[0] matches Action::Spawn(Task::ListFiles { cwd: c }) && c@ == cwd)
            }),
            models_same(final(self), old(self)),
    {
        let mut palette = Palette::new(prefix);
        let cwd = self.cwd();
        let mut actions: Vec<Action> = Vec::new();
        let mut hit = false;
        match &self.files_cache {
            Some((c, files)) => {
                if crate::text::str_eq(c.as_str(), cwd.as_str()) {
                    palette.files = copy_strings(files);
                    palette.files_cwd = Some(cwd);
                    hit = true;
                }
            },
            None => {},
        }
        if !hit {
            proof {
                assert(lines_view(palette.files@) =~= Seq::<Seq<char>>::empty());
            }
            actions.push(Action::Spawn(Task::ListFiles { cwd: self.cwd() }));
        }
        let commands = self.commands();
        proof {
            assert(crate::workbench::palette::files_view(palette.files@) =~= lines_view(palette.files@));
        }
        palette.refilter(commands.as_slice());
        self.palette = Some(palette);
        self.focus = Focus::Palette;
        actions
    }

    /// A background task finished: a search result of the current generation replaces the
    /// hits (older ones are dropped); a `git status` replaces the status; a finished git
    /// command clears the busy mark, logs its error or clears the commit message, and asks for
    /// a fresh status; a file listing goes to the open palette and is kept for the next one.
    pub fn task_done(&mut self, result: TaskResult) -> (actions: Vec<Action>)
        ensures
            chrome(final(self)) == chrome(old(self)),
            final(self).nvim == old(self).nvim,
            match result {
                TaskResult::Search { generation, hits, error } => {
                    &&& actions@.len() == 0
                    &&& final(self).git == old(self).git
                    &&& if generation == old(self).search.generation {
                        &&& final(self).search.hits == hits
                        &&& final(self).search.error == error
                        &&& !final(self).search.searching
                        &&& final(self).search.list.selected == 0
                        &&& final(self).search.list.scroll == 0
                    } else {
                        final(self).search == old(self).search
                    }
                },
                TaskResult::GitStatus(status) => {
                    &&& actions@.len() == 0
                    &&& final(self).search == old(self).search
                    &&& final(self).git.status == status
                    &&& final(self).git.loaded
                    &&& !final(self).git.busy
                    &&& error_view(final(self).git.last_error) == if status.error is Some {
                        error_view(status.error)
                    } else {
                        error_view(old(self).git.last_error)
                    }
                },
                TaskResult::GitDone { error } => {
                    &&& final(self).search == old(self).search
                    &&& !final(self).git.busy
                    &&& error_view(final(self).git.last_error) == error_view(error)
                    &&& match error {
                        Some(e) => lines_view(final(self).output@) == spec_log(lines_view(old(self).output@), "git: "@ + e@),
                        None => final(self).git.message.text@ == Seq::<char>::empty() && final(self).output == old(self).output,
                    }
                    &&& actions@.len() == 1 && (actions@[0] matches Action::Spawn(Task::GitStatus { cwd }) && cwd@ == spec_cwd(
                        old(self).nvim.cwd@,
                    ))
                },
                TaskResult::Files { cwd, files } => {
                    &&& actions@.len() == 0
                    &&& final(self).search == old(self).search
                    &&& final(self).git == old(self).git
                    &&& final(self).files_cache matches Some((c, f)) && c@ == cwd@ && lines_view(f@) == lines_view(files@)
                    &&& match old(self).palette {
                        Some(p) => final(self).palette matches Some(q) && palette_for(q, p.input.text@, lines_view(files@), Some(cwd@)),
                        None => final(self).palette is None,
                    }
                },
            },
    {
        let mut actions: Vec<Action> = Vec::new();
        match result {
            TaskResult::Search { generation, hits, error } => {
                if generation == self.search.generation {
                    self.search.hits = hits;
                    self.search.error = error;
                    self.search.searching = false;
                    self.search.list.selected = 0;
                    self.search.list.scroll = 0;
                }
            },
            TaskResult::GitStatus(status) => {
                let e = copy_error(&status.error);
                self.git.status = status;
                self.git.loaded = true;
                self.git.busy = false;
                if e.is_some() {
                    self.git.last_error = e;
                }
            },
            TaskResult::GitDone { error } => {
                self.git.busy = false;
                self.git.last_error = copy_error(&error);
                match error {
                    Some(e) => self.log(crate::text::concat("git: ", e.as_str())),
                    None => {
                        proof {
                            reveal_strlit("");
                        }
                        self.git.message.set("");
                    },
                }
                actions.push(Action::Spawn(Task::GitStatus { cwd: self.cwd() }));
            },
            TaskResult::Files { cwd, files } => {
                let cmds = self.commands();
                match &mut self.palette {
                    Some(p) => {
                        p.files = copy_strings(&files);
                        p.files_cwd = Some(copy_text(&cwd));
                        proof {
                            assert(crate::workbench::palette::files_view(p.files@) =~= lines_view(files@));
                        }
                        p.refilter(cmds.as_slice());
                    },
                    None => {},
                }
                self.files_cache = Some((cwd, files));
            },
        }
        actions
    }
}


/// `Path::join`: `rel` under the folder `dir`, joined the way this platform joins paths, as
/// text (lossily where the platform's path is not UTF-8).
#[verifier::external_body]
pub(crate) fn join_path(dir: &str, rel: &str) -> (p: String) {
    std::path::Path::new(dir).join(rel).to_string_lossy().to_string()
}

/// What the chrome looks like after running a palette command (the view and panel commands and
/// the screens; the others leave it, but for opening a file, which closes any screen).
pub open spec fn spec_run_chrome(c: Chrome, command: CommandView) -> Chrome {
    match command {
        CommandView::ToggleSidebar => spec_toggle_sidebar(c, None),
        CommandView::TogglePanel => spec_toggle_panel(c, None),
        CommandView::ShowView(v) => spec_focus_view(c, v),
        CommandView::ShowPanel(t) => {
            let c1 = spec_toggle_panel(c, Some(t));
            if c1.panel_open { Chrome { focus: Focus::Panel, ..c1 } } else { c1 }
        },
        CommandView::OpenFile(_) => Chrome { active_screen: None, ..c },
        CommandView::Screen(s) => spec_open_screen(c, s),
        _ => c,
    }
}

/// Did running `command` append `added` to the actions? Ex commands and keys go to Neovim and
/// give it the keyboard; a file is opened with `:edit`; a stage is switched with `:NvsStage`;
/// the Source control view asks for a `git status`.
pub open spec fn run_actions_ok(command: CommandView, added: Seq<Action>, cwd: Seq<char>) -> bool {
    match command {
        CommandView::Ex(cmd) => added.len() == 2 && (added[0] matches Action::Command(c) && c@ == cmd) && added[1] is FocusGrid,
        CommandView::Keys(k) => added.len() == 2 && (added[0] matches Action::Keys(c) && c@ == k) && added[1] is FocusGrid,
        CommandView::OpenFile(_) => added.len() == 2 && (added[0] matches Action::Lua(code, args) && code@
            == "vim.cmd.edit(vim.fn.fnameescape(...))"@ && args@.len() == 1) && added[1] is FocusGrid,
        CommandView::Stage(n) => added.len() == 2 && (added[0] matches Action::Command(c) && c@ == "NvsStage "@ + crate::text::decimal(
            n as nat,
        )) && added[1] is FocusGrid,
        CommandView::ShowView(v) => if v == View::Git {
            added.len() == 1 && (added[0] matches Action::Spawn(Task::GitStatus { cwd: c }) && c@ == cwd)
        } else {
            added.len() == 0
        },
        _ => added.len() == 0,
    }
}

impl Workbench {
    /// Run a palette command: see `spec_run_chrome` for what it does to the chrome and
    /// `run_actions_ok` for the actions it appends.
    pub fn run_palette_command(&mut self, command: PaletteCommand, actions: &mut Vec<Action>)
        ensures
            chrome(final(self)) == spec_run_chrome(chrome(old(self)), command_view(command)),
            final(actions)@.len() >= old(actions)@.len(),
            final(actions)@.take(old(actions)@.len() as int) == old(actions)@,
            run_actions_ok(
                command_view(command),
                final(actions)@.skip(old(actions)@.len() as int),
                spec_cwd(old(self).nvim.cwd@),
            ),
            final(self).nvim == old(self).nvim,
    {
        let ghost start = actions@;
        proof {
            reveal_strlit("vim.cmd.edit(vim.fn.fnameescape(...))");
            reveal_strlit("NvsStage ");
        }
        match command {
            PaletteCommand::ToggleSidebar => self.toggle_sidebar(None),
            PaletteCommand::TogglePanel => self.toggle_panel(None),
            PaletteCommand::ShowView(v) => {
                let mut more = self.focus_view(v);
                actions.append(&mut more);
            },
            PaletteCommand::ShowPanel(t) => {
                self.toggle_panel(Some(t));
                if self.panel_open {
                    self.focus = Focus::Panel;
                }
            },
            PaletteCommand::Ex(cmd) => {
                actions.push(Action::Command(cmd));
                actions.push(Action::FocusGrid);
            },
            PaletteCommand::Keys(keys) => {
                actions.push(Action::Keys(keys));
                actions.push(Action::FocusGrid);
            },
            PaletteCommand::OpenFile(rel) => {
                let cwd = self.cwd();
                let path = join_path(cwd.as_str(), rel.as_str());
                let mut args: Vec<Value> = Vec::new();
                args.push(Value::String(crate::bridge::value::Utf8Str::Valid(path)));
                actions.push(Action::Lua(String::from_str("vim.cmd.edit(vim.fn.fnameescape(...))"), args));
                self.active_screen = None;
                actions.push(Action::FocusGrid);
            },
            PaletteCommand::Stage(n) => {
                let cmd = crate::text::concat("NvsStage ", crate::text::decimal_string(n as u64).as_str());
                actions.push(Action::Command(cmd));
                actions.push(Action::FocusGrid);
            },
            PaletteCommand::Screen(s) => self.open_screen(s),
        }
        proof {
            assert(actions@.take(start.len() as int) =~= start);
        }
    }
}


/// The shell's own keys, all with Ctrl.
#[derive(Clone, Copy, Debug, PartialEq, Eq, Structural)]
pub enum Shortcut {
    /// Ctrl+B (up to Stage 3; at Stage 4 it is Neovim's).
    ToggleSidebar,
    /// Ctrl+`.
    TogglePanel,
    /// Ctrl+,.
    Settings,
    /// Ctrl+Shift+P.
    Palette,
    /// Ctrl+Shift+E, F and G.
    ShowView(View),
    /// Ctrl+Shift+X.
    Plugins,
    /// Ctrl+Shift+M.
    Problems,
}

/// Which shortcut Ctrl (with `shift`) and the key that types `text` is, at learning `stage`.
pub open spec fn spec_shortcut(text: Seq<char>, shift: bool, stage: u32) -> Option<Shortcut> {
    let c = spec_lowercase(text);
    if !shift {
        if c == seq!['b'] && stage <= 3 {
            Some(Shortcut::ToggleSidebar)
        } else if c == seq!['`'] {
            Some(Shortcut::TogglePanel)
        } else if c == seq![','] {
            Some(Shortcut::Settings)
        } else {
            None
        }
    } else if c == seq!['p'] {
        Some(Shortcut::Palette)
    } else if c == seq!['e'] {
        Some(Shortcut::ShowView(View::Explorer))
    } else if c == seq!['f'] {
        Some(Shortcut::ShowView(View::Search))
    } else if c == seq!['g'] {
        Some(Shortcut::ShowView(View::Git))
    } else if c == seq!['x'] {
        Some(Shortcut::Plugins)
    } else if c == seq!['m'] {
        Some(Shortcut::Problems)
    } else {
        None
    }
}

fn is_one(c: &Vec<char>, x: char) -> (b: bool)
    ensures
        b == (c@ == seq![x]),
{
    let r = c.len() == 1 && c[0] == x;
    proof {
        if c@ == seq![x] {
            assert(c@[0] == x);
        }
        if r {
            assert(c@ =~= seq![x]);
        }
    }
    r
}

/// The shortcut for Ctrl (with `shift`) and a key typing `text` (see `spec_shortcut`).
pub fn shortcut_for(text: &str, shift: bool, stage: u32) -> (s: Option<Shortcut>)
    ensures
        s == spec_shortcut(text@, shift, stage),
{
    let c = chars_of(crate::workbench::tasks::lowercase(text).as_str());
    if !shift {
        if is_one(&c, 'b') && stage <= 3 {
            Some(Shortcut::ToggleSidebar)
        } else if is_one(&c, '`') {
            Some(Shortcut::TogglePanel)
        } else if is_one(&c, ',') {
            Some(Shortcut::Settings)
        } else {
            None
        }
    } else if is_one(&c, 'p') {
        Some(Shortcut::Palette)
    } else if is_one(&c, 'e') {
        Some(Shortcut::ShowView(View::Explorer))
    } else if is_one(&c, 'f') {
        Some(Shortcut::ShowView(View::Search))
    } else if is_one(&c, 'g') {
        Some(Shortcut::ShowView(View::Git))
    } else if is_one(&c, 'x') {
        Some(Shortcut::Plugins)
    } else if is_one(&c, 'm') {
        Some(Shortcut::Problems)
    } else {
        None
    }
}

/// What a shortcut does to the chrome: the toggles toggle, Settings and Plugins open their
/// screens, the palette opens, a view gets the keyboard, Problems shows (and takes the
/// keyboard when the panel is open).
pub open spec fn spec_shortcut_chrome(c: Chrome, s: Shortcut) -> Chrome {
    match s {
        Shortcut::ToggleSidebar => spec_toggle_sidebar(c, None),
        Shortcut::TogglePanel => spec_toggle_panel(c, None),
        Shortcut::Settings => spec_open_screen(c, Screen::Settings),
        Shortcut::Palette => Chrome { palette_open: true, focus: Focus::Palette, ..c },
        Shortcut::ShowView(v) => spec_focus_view(c, v),
        Shortcut::Plugins => spec_open_screen(c, Screen::Plugins),
        Shortcut::Problems => {
            let c1 = spec_toggle_panel(c, Some(PanelTab::Problems));
            if c1.panel_open { Chrome { focus: Focus::Panel, ..c1 } } else { c1 }
        },
    }
}

impl Workbench {
    /// Do what a shortcut does (see `spec_shortcut_chrome`); the actions are those of opening
    /// the palette or showing a view.
    pub fn apply_shortcut(&mut self, s: Shortcut) -> (actions: Vec<Action>)
        ensures
            chrome(final(self)) == spec_shortcut_chrome(chrome(old(self)), s),
            final(self).nvim == old(self).nvim,
            !(s is Palette) && !(s matches Shortcut::ShowView(View::Git)) ==> actions@.len() == 0,
    {
        match s {
            Shortcut::ToggleSidebar => {
                self.toggle_sidebar(None);
                Vec::new()
            },
            Shortcut::TogglePanel => {
                self.toggle_panel(None);
                Vec::new()
            },
            Shortcut::Settings => {
                self.open_screen(Screen::Settings);
                Vec::new()
            },
            Shortcut::Palette => {
                let r = self.open_palette("");
                r
            },
            Shortcut::ShowView(v) => self.focus_view(v),
            Shortcut::Plugins => {
                self.open_screen(Screen::Plugins);
                Vec::new()
            },
            Shortcut::Problems => {
                self.toggle_panel(Some(PanelTab::Problems));
                if self.panel_open {
                    self.focus = Focus::Panel;
                }
                Vec::new()
            },
        }
    }

    /// Neovim sent fresh workbench state: the first time it says the person was never
    /// welcomed, the Welcome screen opens.
    pub fn state_arrived(&mut self)
        ensures
            !old(self).nvim.welcomed && !old(self).welcome_shown ==> chrome(final(self)) == spec_open_screen(
                chrome(old(self)),
                Screen::Welcome,
            ) && final(self).welcome_shown,
            old(self).nvim.welcomed || old(self).welcome_shown ==> chrome(final(self)) == chrome(old(self))
                && final(self).welcome_shown == old(self).welcome_shown,
            final(self).nvim == old(self).nvim,
            final(self).search == old(self).search,
            final(self).git == old(self).git,
            final(self).output == old(self).output,
    {
        if !self.nvim.welcomed && !self.welcome_shown {
            self.welcome_shown = true;
            self.open_screen(Screen::Welcome);
        }
    }
}

/// Every activity-bar view has an icon to draw, and no two views share one.
pub proof fn law_view_icons_exist_and_differ(v: View, w: View)
    ensures
        exists|i: int| 0 <= i < ICON_COUNT && #[trigger] icon_name(i) == v.spec_icon(),
        v != w ==> v.spec_icon() != w.spec_icon(),
{
    reveal_strlit("explorer");
    reveal_strlit("search");
    reveal_strlit("git");
    reveal_strlit("debug");
    reveal_strlit("plugins");
    reveal_strlit("ask");
    reveal_strlit("learn");
    let i: int = match v {
        View::Explorer => 0,
        View::Search => 1,
        View::Git => 2,
        View::Debug => 3,
        View::Plugins => 4,
        View::Ask => 5,
        View::Learn => 6,
    };
    assert(icon_name(i) == v.spec_icon());
    if v != w {
        let a = v.spec_icon();
        let b = w.spec_icon();
        if a.len() == b.len() {
            assert(a[0] != b[0] || a[1] != b[1]);
        }
    }
}

} // verus!
