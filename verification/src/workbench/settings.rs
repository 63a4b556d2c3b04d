//! The Settings screen: moving among its rows with the keyboard, and what importing VS Code
//! settings reports (the settings applied and skipped, the keys kept). The settings' values
//! (numbers among them) stay with the window.

use vstd::prelude::*;

use crate::text::str_eq;
use crate::ui::{KeyPress, NamedKey};

verus! {

#[derive(Clone, Debug)]
pub struct Keybinding {
    pub lhs: String,
    pub command: String,
    pub desc: String,
}

#[derive(Clone, Debug)]
pub struct ImportReport {
    pub dir: String,
    pub applied: Vec<Applied>,
    pub skipped: Vec<Skipped>,
    pub keys: Vec<ImportedKey>,
    pub keys_skipped: Vec<SkippedKey>,
    pub error: Option<String>,
}

#[derive(Clone, Debug)]
pub struct Applied {
    pub key: String,
    pub from: String,
    pub setting: String,
    pub value: String,
}

#[derive(Clone, Debug)]
pub struct Skipped {
    pub key: String,
    pub why: String,
}

#[derive(Clone, Debug)]
pub struct ImportedKey {
    pub key: String,
    pub lhs: String,
    pub command: String,
    pub desc: String,
}

#[derive(Clone, Debug)]
pub struct SkippedKey {
    pub key: String,
    pub command: String,
    pub why: String,
}


/// Where the keyboard goes on the Settings screen.
#[derive(Clone, Copy, Debug, PartialEq, Eq, Structural)]
pub enum SettingsFocus {
    Categories,
    Rows,
    Search,
}

/// The control a setting has.
#[derive(Clone, Copy, Debug, PartialEq, Eq, Structural)]
pub enum SettingKind {
    /// A check box.
    Bool,
    /// A choice among options, stepped through.
    Select,
    /// A number or text, typed.
    Field,
}

/// What a key on the rows asks of the settings.
#[derive(Clone, Copy, Debug, PartialEq, Eq, Structural)]
pub enum RowIntent {
    /// Step the choice of the setting on row `row` forward or back.
    Cycle { row: usize, forward: bool },
    /// Flip the check box on row `row`.
    Toggle(usize),
    /// Start typing into the field on row `row`.
    Edit(usize),
    /// Put the setting on row `row` back to its default.
    Reset(usize),
    /// Clear the search.
    ClearSearch,
    /// Close the screen.
    Close,
}

/// The selected row, where the keyboard is, and the first row shown.
#[derive(Clone, Copy, Debug, PartialEq, Eq, Structural)]
pub struct SettingsNav {
    pub focus: SettingsFocus,
    pub row: usize,
    pub scroll: usize,
}

/// The row `n` rows down, kept on the last of `total` rows.
pub open spec fn down_by(row: usize, n: nat, total: nat) -> usize {
    let last: int = if total > 0 { total - 1 } else { 0 };
    if row + n <= last { (row + n) as usize } else { last as usize }
}

pub open spec fn up_by(row: usize, n: nat) -> usize {
    if row >= n { (row - n) as usize } else { 0 }
}

/// One key on the rows (when no field is being typed into), with `kinds[i]` the control of
/// the setting on row `i` (rows past them are not settings), `total` rows and `per_page` on
/// screen: `j`/`k` and the arrows move, `g`/`G` jump, PageDown/Ctrl-D and PageUp/Ctrl-U move a
/// page, `/` goes to the search; `h`, Left and Shift-Tab step a choice back, or else go to the
/// categories; `l` and Right step it forward; Enter and Space flip a check box, step a choice
/// forward or start typing; `r` resets; Escape clears a search, or else closes.
pub open spec fn rows_key(nav: SettingsNav, k: KeyPress, kinds: Seq<SettingKind>, total: nat, per_page: nat, searching: bool) -> (SettingsNav, Option<RowIntent>) {
    let row = nav.row;
    let kind = if row < kinds.len() { Some(kinds[row as int]) } else { None };
    if k.spec_is_char("j"@) || k.spec_named(NamedKey::ArrowDown) {
        (SettingsNav { row: down_by(row, 1, total), ..nav }, None)
    } else if k.spec_is_char("k"@) || k.spec_named(NamedKey::ArrowUp) {
        (SettingsNav { row: up_by(row, 1), ..nav }, None)
    } else if k.spec_is_char("G"@) {
        (SettingsNav { row: down_by(0, total, total), ..nav }, None)
    } else if k.spec_is_char("g"@) {
        (SettingsNav { row: 0, ..nav }, None)
    } else if k.spec_named(NamedKey::PageDown) || k.spec_ctrl("d"@) {
        (SettingsNav { row: down_by(row, per_page, total), ..nav }, None)
    } else if k.spec_named(NamedKey::PageUp) || k.spec_ctrl("u"@) {
        (SettingsNav { row: up_by(row, per_page), ..nav }, None)
    } else if k.spec_is_char("/"@) {
        (SettingsNav { focus: SettingsFocus::Search, ..nav }, None)
    } else if k.spec_is_char("h"@) || k.spec_named(NamedKey::ArrowLeft) || (k.spec_named(NamedKey::Tab) && k.modifiers.shift) {
        if kind == Some(SettingKind::Select) {
            (nav, Some(RowIntent::Cycle { row, forward: false }))
        } else {
            (SettingsNav { focus: SettingsFocus::Categories, ..nav }, None)
        }
    } else if k.spec_is_char("l"@) || k.spec_named(NamedKey::ArrowRight) {
        (nav, if kind == Some(SettingKind::Select) { Some(RowIntent::Cycle { row, forward: true }) } else { None })
    } else if k.spec_named(NamedKey::Enter) || k.spec_named(NamedKey::Space) {
        (
            nav,
            match kind {
                Some(SettingKind::Bool) => Some(RowIntent::Toggle(row)),
                Some(SettingKind::Select) => Some(RowIntent::Cycle { row, forward: true }),
                Some(SettingKind::Field) => Some(RowIntent::Edit(row)),
                None => None,
            },
        )
    } else if k.spec_is_char("r"@) {
        (nav, if kind is Some { Some(RowIntent::Reset(row)) } else { None })
    } else if k.spec_named(NamedKey::Escape) {
        (nav, Some(if searching { RowIntent::ClearSearch } else { RowIntent::Close }))
    } else {
        (nav, None)
    }
}

/// The keys in order: the final place and the intents they asked for, in order.
pub open spec fn rows_keys_from(nav: SettingsNav, keys: Seq<KeyPress>, kinds: Seq<SettingKind>, total: nat, per_page: nat, searching: bool) -> (SettingsNav, Seq<RowIntent>)
    decreases keys.len(),
{
    if keys.len() == 0 {
        (nav, Seq::empty())
    } else {
        let (n1, acc) = rows_keys_from(nav, keys.drop_last(), kinds, total, per_page, searching);
        let (n2, intent) = rows_key(n1, keys.last(), kinds, total, per_page, searching);
        (n2, match intent {
            Some(i) => acc.push(i),
            None => acc,
        })
    }
}

/// The first row shown keeps `row` on a page of `per_page` rows.
pub open spec fn scroll_following(row: usize, scroll: usize, per_page: nat) -> usize {
    let s = if row < scroll { row } else { scroll };
    if row >= s + per_page { (row + 1 - per_page) as usize } else { s }
}

fn rows_key_step(nav: &mut SettingsNav, k: &KeyPress, kinds: &Vec<SettingKind>, total: usize, per_page: usize, searching: bool) -> (intent: Option<RowIntent>)
    ensures
        (*final(nav), intent) == rows_key(*old(nav), *k, kinds@, total as nat, per_page as nat, searching),
{
    proof {
        reveal_strlit("j");
        reveal_strlit("k");
        reveal_strlit("G");
        reveal_strlit("g");
        reveal_strlit("d");
        reveal_strlit("u");
        reveal_strlit("/");
        reveal_strlit("h");
        reveal_strlit("l");
        reveal_strlit("r");
    }
    let row = nav.row;
    let last = if total > 0 { total - 1 } else { 0 };
    let kind = if row < kinds.len() { Some(kinds[row]) } else { None };
    if k.is_char("j") || k.named(NamedKey::ArrowDown) {
        nav.row = if row < last { row + 1 } else { last };
        None
    } else if k.is_char("k") || k.named(NamedKey::ArrowUp) {
        nav.row = if row >= 1 { row - 1 } else { 0 };
        None
    } else if k.is_char("G") {
        nav.row = last;
        None
    } else if k.is_char("g") {
        nav.row = 0;
        None
    } else if k.named(NamedKey::PageDown) || k.ctrl("d") {
        nav.row = if row <= last && per_page <= last - row { row + per_page } else { last };
        None
    } else if k.named(NamedKey::PageUp) || k.ctrl("u") {
        nav.row = if row >= per_page { row - per_page } else { 0 };
        None
    } else if k.is_char("/") {
        nav.focus = SettingsFocus::Search;
        None
    } else if k.is_char("h") || k.named(NamedKey::ArrowLeft) || (k.named(NamedKey::Tab) && k.modifiers.shift) {
        if kind == Some(SettingKind::Select) {
            Some(RowIntent::Cycle { row, forward: false })
        } else {
            nav.focus = SettingsFocus::Categories;
            None
        }
    } else if k.is_char("l") || k.named(NamedKey::ArrowRight) {
        if kind == Some(SettingKind::Select) {
            Some(RowIntent::Cycle { row, forward: true })
        } else {
            None
        }
    } else if k.named(NamedKey::Enter) || k.named(NamedKey::Space) {
        match kind {
            Some(SettingKind::Bool) => Some(RowIntent::Toggle(row)),
            Some(SettingKind::Select) => Some(RowIntent::Cycle { row, forward: true }),
            Some(SettingKind::Field) => Some(RowIntent::Edit(row)),
            None => None,
        }
    } else if k.is_char("r") {
        if kind.is_some() {
            Some(RowIntent::Reset(row))
        } else {
            None
        }
    } else if k.named(NamedKey::Escape) {
        Some(if searching { RowIntent::ClearSearch } else { RowIntent::Close })
    } else {
        None
    }
}

impl SettingsNav {
    /// The keys on the rows, in order (see `rows_key`), from the selected row kept on the last
    /// row; then the page follows the selected row. The intents come back in order.
    pub fn rows_keys(&mut self, keys: &Vec<KeyPress>, kinds: &Vec<SettingKind>, total: usize, per_page: usize, searching: bool) -> (intents: Vec<RowIntent>)
        requires
            per_page >= 1,
        ensures
            ({
                let last: int = if total > 0 { total - 1 } else { 0 };
                let start = SettingsNav { row: if old(self).row <= last { old(self).row } else { last as usize }, ..*old(self) };
                let (n, is) = rows_keys_from(start, keys@, kinds@, total as nat, per_page as nat, searching);
                &&& final(self).focus == n.focus
                &&& final(self).row == n.row
                &&& final(self).scroll == scroll_following(n.row, n.scroll, per_page as nat)
                &&& intents@ == is
            }),
    {
        let last = if total > 0 { total - 1 } else { 0 };
        if self.row > last {
            self.row = last;
        }
        let ghost start = *self;
        let mut intents: Vec<RowIntent> = Vec::new();
        let mut i: usize = 0;
        while i < keys.len()
            invariant
                i <= keys@.len(),
                (*self, intents@) == rows_keys_from(start, keys@.take(i as int), kinds@, total as nat, per_page as nat, searching),
            decreases keys@.len() - i,
        {
            proof {
                assert(keys@.take(i + 1).drop_last() =~= keys@.take(i as int));
            }
            match rows_key_step(self, &keys[i], kinds, total, per_page, searching) {
                Some(intent) => intents.push(intent),
                None => {},
            }
            i += 1;
        }
        proof {
            assert(keys@.take(keys@.len() as int) =~= keys@);
        }
        if self.row < self.scroll {
            self.scroll = self.row;
        }
        if self.row - self.scroll >= per_page {
            self.scroll = self.row - (per_page - 1);
        }
        intents
    }
}

/// The option after (or before) option `cur` of `n`, going round.
pub open spec fn spec_cycled(cur: int, n: int, forward: bool) -> int {
    if forward {
        if cur + 1 == n { 0 } else { cur + 1 }
    } else {
        if cur == 0 { n - 1 } else { cur - 1 }
    }
}

/// The option a select setting goes to when cycled forward or back from option `cur` of `n`.
pub fn cycled(cur: usize, n: usize, forward: bool) -> (r: usize)
    requires
        cur < n,
    ensures
        r == spec_cycled(cur as int, n as int, forward),
        r < n,
{
    if forward {
        if cur + 1 == n { 0 } else { cur + 1 }
    } else {
        if cur == 0 { n - 1 } else { cur - 1 }
    }
}

/// Where `name` first stands among `names`.
pub open spec fn first_named(names: Seq<Seq<char>>, name: Seq<char>, k: int) -> Option<int>
    decreases names.len() - k,
{
    if k < 0 || k >= names.len() {
        None
    } else if names[k] == name {
        Some(k)
    } else {
        first_named(names, name, k + 1)
    }
}

pub open spec fn texts_view(v: Seq<String>) -> Seq<Seq<char>> {
    Seq::new(v.len(), |i: int| v[i]@)
}

/// The category named `name`, by its place in the list (the first, if it is there twice).
pub fn category_named(categories: &Vec<String>, name: &str) -> (r: Option<usize>)
    ensures
        match r {
            Some(i) => first_named(texts_view(categories@), name@, 0) == Some(i as int),
            None => first_named(texts_view(categories@), name@, 0) is None,
        },
{
    let ghost names = texts_view(categories@);
    let mut i: usize = 0;
    while i < categories.len()
        invariant
            i <= categories@.len(),
            names == texts_view(categories@),
            first_named(names, name@, 0) == first_named(names, name@, i as int),
        decreases categories@.len() - i,
    {
        if str_eq(categories[i].as_str(), name) {
            return Some(i);
        }
        i += 1;
    }
    None
}

/// The settings of a category, by index: those whose category is `category`, in order.
pub open spec fn spec_in_category(cats: Seq<Seq<char>>, category: Seq<char>) -> Seq<usize>
    decreases cats.len(),
{
    if cats.len() == 0 {
        Seq::empty()
    } else {
        let rest = spec_in_category(cats.drop_last(), category);
        if cats.last() == category {
            rest.push((cats.len() - 1) as usize)
        } else {
            rest
        }
    }
}

/// The settings whose category is `category` (`cats` holds each setting's category).
pub fn in_category(cats: &Vec<String>, category: &str) -> (rows: Vec<usize>)
    ensures
        rows@ == spec_in_category(texts_view(cats@), category@),
{
    let ghost all = texts_view(cats@);
    let mut rows: Vec<usize> = Vec::new();
    let mut i: usize = 0;
    while i < cats.len()
        invariant
            i <= cats@.len(),
            all == texts_view(cats@),
            rows@ == spec_in_category(all.take(i as int), category@),
        decreases cats@.len() - i,
    {
        proof {
            assert(all.take(i + 1).drop_last() =~= all.take(i as int));
        }
        if str_eq(cats[i].as_str(), category) {
            rows.push(i);
        }
        i += 1;
    }
    proof {
        assert(all.take(cats@.len() as int) =~= all);
    }
    rows
}

impl SettingsNav {
    /// The rows get the keyboard, from the first one.
    pub fn show_rows(&mut self)
        ensures
            *final(self) == (SettingsNav { focus: SettingsFocus::Rows, row: 0, scroll: 0 }),
    {
        self.focus = SettingsFocus::Rows;
        self.row = 0;
        self.scroll = 0;
    }
}

} // verus!
