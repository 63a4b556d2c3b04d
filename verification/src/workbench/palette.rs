//! The command palette: Ctrl+Shift+P. Plain text finds shell and editor commands, `:` runs an
//! Ex command, `@` finds files, `/` searches the current buffer.

use vstd::prelude::*;
use vstd::view::View as _;

use crate::text::{chars_of, concat, decimal, decimal_string, push_char, substring, trim, trimmed};
use crate::ui::widgets::{ListState, TextState};
use crate::workbench::tasks::{fuzzy_checked, hits_view, spec_fuzzy};
use crate::workbench::{PanelTab, Screen, View};

verus! {

#[derive(Clone, Copy, Debug, PartialEq, Eq, Structural)]
pub enum PaletteSource {
    Shell,
    Ex,
    File,
    Line,
}

impl PaletteSource {
    pub fn tag(&self) -> (s: &'static str)
        ensures
            s@ == match *self {
                PaletteSource::Shell => "shell"@,
                PaletteSource::Ex => "ex"@,
                PaletteSource::File => "file"@,
                PaletteSource::Line => "line"@,
            },
    {
        match self {
            PaletteSource::Shell => "shell",
            PaletteSource::Ex => "ex",
            PaletteSource::File => "file",
            PaletteSource::Line => "line",
        }
    }
}

#[derive(Clone, Debug)]
pub enum PaletteCommand {
    ToggleSidebar,
    TogglePanel,
    ShowView(View),
    ShowPanel(PanelTab),
    Ex(String),
    Keys(String),
    OpenFile(String),
    Stage(u32),
    Screen(Screen),
}

#[derive(Clone, Debug)]
pub struct PaletteItem {
    pub title: String,
    pub source: PaletteSource,
    /// The VS Code key, if any.
    pub key: &'static str,
    /// The Vim way, if any.
    pub vim: &'static str,
    pub command: PaletteCommand,
}

pub enum CommandView {
    ToggleSidebar,
    TogglePanel,
    ShowView(View),
    ShowPanel(PanelTab),
    Ex(Seq<char>),
    Keys(Seq<char>),
    OpenFile(Seq<char>),
    Stage(u32),
    Screen(Screen),
}

pub struct ItemView {
    pub title: Seq<char>,
    pub source: PaletteSource,
    pub key: Seq<char>,
    pub vim: Seq<char>,
    pub command: CommandView,
}

pub open spec fn command_view(c: PaletteCommand) -> CommandView {
    match c {
        PaletteCommand::ToggleSidebar => CommandView::ToggleSidebar,
        PaletteCommand::TogglePanel => CommandView::TogglePanel,
        PaletteCommand::ShowView(v) => CommandView::ShowView(v),
        PaletteCommand::ShowPanel(p) => CommandView::ShowPanel(p),
        PaletteCommand::Ex(s) => CommandView::Ex(s@),
        PaletteCommand::Keys(s) => CommandView::Keys(s@),
        PaletteCommand::OpenFile(s) => CommandView::OpenFile(s@),
        PaletteCommand::Stage(n) => CommandView::Stage(n),
        PaletteCommand::Screen(s) => CommandView::Screen(s),
    }
}

pub open spec fn item_view(i: &PaletteItem) -> ItemView {
    ItemView { title: i.title@, source: i.source, key: i.key@, vim: i.vim@, command: command_view(i.command) }
}

pub fn clone_item(i: &PaletteItem) -> (r: PaletteItem)
    ensures
        item_view(&r) == item_view(i),
{
    let command = match &i.command {
        PaletteCommand::ToggleSidebar => PaletteCommand::ToggleSidebar,
        PaletteCommand::TogglePanel => PaletteCommand::TogglePanel,
        PaletteCommand::ShowView(v) => PaletteCommand::ShowView(*v),
        PaletteCommand::ShowPanel(p) => PaletteCommand::ShowPanel(*p),
        PaletteCommand::Ex(s) => PaletteCommand::Ex(s.clone()),
        PaletteCommand::Keys(s) => PaletteCommand::Keys(s.clone()),
        PaletteCommand::OpenFile(s) => PaletteCommand::OpenFile(s.clone()),
        PaletteCommand::Stage(n) => PaletteCommand::Stage(*n),
        PaletteCommand::Screen(s) => PaletteCommand::Screen(*s),
    };
    PaletteItem { title: i.title.clone(), source: i.source, key: i.key, vim: i.vim, command }
}

pub struct Palette {
    pub input: TextState,
    pub list: ListState,
    pub files: Vec<String>,
    pub files_cwd: Option<String>,
    /// Filtered items for the current query, with match positions.
    pub matches: Vec<(PaletteItem, Vec<usize>)>,
}

/// The mode character the input starts with: `:`, `@` or `/`.
pub open spec fn spec_prefix(text: Seq<char>) -> Option<char> {
    if text.len() > 0 && (text[0] == ':' || text[0] == '@' || text[0] == '/') {
        Some(text[0])
    } else {
        None
    }
}

/// The query: the input after its mode character, trimmed.
pub open spec fn spec_query(text: Seq<char>) -> Seq<char> {
    match spec_prefix(text) {
        Some(_) => trimmed(text.drop_first()),
        None => trimmed(text),
    }
}

/// The footer line for the mode.
pub open spec fn spec_footer(text: Seq<char>, files: nat, matches: nat) -> Seq<char> {
    match spec_prefix(text) {
        Some(c) => if c == ':' {
            "Command line. Enter runs it in Neovim."@
        } else if c == '@' {
            decimal(files) + " files. Enter opens."@
        } else {
            "Search this file. Enter jumps, then n and N."@
        },
        None => decimal(matches) + " commands. Start with : for Ex, @ for files, / to search."@,
    }
}

/// `s` with each `<` written as `<lt>`, as Neovim's key notation wants.
pub open spec fn escape_lt(s: Seq<char>) -> Seq<char>
    decreases s.len(),
{
    if s.len() == 0 {
        Seq::empty()
    } else {
        escape_lt(s.drop_last()) + if s.last() == '<' { "<lt>"@ } else { seq![s.last()] }
    }
}

/// A match candidate: score, position among the candidates' sources, item and hits.
pub type Scored = (i32, int, ItemView, Seq<int>);

/// Put `x` after every candidate whose (score, position) is not greater.
pub open spec fn insert_by_key(s: Seq<Scored>, x: Scored) -> Seq<Scored>
    decreases s.len(),
{
    if s.len() == 0 {
        seq![x]
    } else if (s.last().0 < x.0) || (s.last().0 == x.0 && s.last().1 <= x.1) {
        s.push(x)
    } else {
        insert_by_key(s.drop_last(), x).push(s.last())
    }
}

/// The candidates ordered by score, then position (a stable insertion sort).
pub open spec fn sort_by_key(c: Seq<Scored>) -> Seq<Scored>
    decreases c.len(),
{
    if c.len() == 0 {
        Seq::empty()
    } else {
        insert_by_key(sort_by_key(c.drop_last()), c.last())
    }
}

/// The candidates of `items` (from position `i` on, skipping those `keep` refuses) that
/// `query` matches, in order: score (plus `bonus`), position (plus `shift`), item, hits.
pub open spec fn fuzzy_candidates(query: Seq<char>, items: Seq<ItemView>, keep: spec_fn(ItemView) -> bool, bonus: int, shift: int) -> Seq<Scored>
    decreases items.len(),
{
    if items.len() == 0 {
        Seq::empty()
    } else {
        let before = fuzzy_candidates(query, items.drop_last(), keep, bonus, shift);
        let i = items.len() - 1;
        let item = items.last();
        if keep(item) {
            match fuzzy_or_none(query, item.title) {
                Some(m) => before.push(((m.0 + bonus) as i32, i + shift, item, m.1)),
                None => before,
            }
        } else {
            before
        }
    }
}

/// The fuzzy match where it is defined; none where the shell could not take the target.
pub open spec fn fuzzy_or_none(query: Seq<char>, target: Seq<char>) -> Option<(i32, Seq<int>)> {
    if crate::workbench::tasks::fuzzy_defined(query, target) {
        spec_fuzzy(query, target)
    } else {
        None
    }
}

/// What the palette offers for a file.
pub open spec fn file_item(file: Seq<char>) -> ItemView {
    ItemView { title: file, source: PaletteSource::File, key: Seq::empty(), vim: Seq::empty(), command: CommandView::OpenFile(file) }
}

/// The file candidates, up to and including the one that makes 2001.
pub open spec fn file_candidates(query: Seq<char>, files: Seq<Seq<char>>) -> Seq<Scored>
    decreases files.len(),
{
    if files.len() == 0 {
        Seq::empty()
    } else {
        let before = file_candidates(query, files.drop_last());
        if before.len() > 2000 {
            before
        } else {
            match fuzzy_or_none(query, files.last()) {
                Some(m) => before.push((m.0, files.len() - 1, file_item(files.last()), m.1)),
                None => before,
            }
        }
    }
}

pub open spec fn is_ex(i: ItemView) -> bool {
    i.source == PaletteSource::Ex
}

pub open spec fn not_ex(i: ItemView) -> bool {
    i.source != PaletteSource::Ex
}

/// The "Run" entry of a `:` query, if it is not empty.
pub open spec fn run_candidates(query: Seq<char>) -> Seq<Scored> {
    if query.len() > 0 {
        seq![(
            0i32,
            0int,
            ItemView { title: "Run :"@ + query, source: PaletteSource::Ex, key: Seq::empty(), vim: Seq::empty(), command: CommandView::Ex(query) },
            Seq::<int>::empty(),
        )]
    } else {
        Seq::empty()
    }
}

/// The "Search" entry of a `/` query, if it is not empty.
pub open spec fn search_candidates(query: Seq<char>) -> Seq<Scored> {
    if query.len() > 0 {
        seq![(
            0i32,
            0int,
            ItemView {
                title: "Search for "@ + query,
                source: PaletteSource::Line,
                key: Seq::empty(),
                vim: "/"@,
                command: CommandView::Keys("/"@ + escape_lt(query) + "<CR>"@),
            },
            Seq::<int>::empty(),
        )]
    } else {
        Seq::empty()
    }
}

/// The candidates for the input: files for `@`, a "Run" entry and the Ex commands for `:`, a
/// "Search" entry for `/`, the other commands otherwise.
pub open spec fn candidates(text: Seq<char>, files: Seq<Seq<char>>, commands: Seq<ItemView>) -> Seq<Scored> {
    let query = spec_query(text);
    match spec_prefix(text) {
        Some(c) => if c == '@' {
            file_candidates(query, files)
        } else if c == ':' {
            run_candidates(query) + fuzzy_candidates(query, commands, |i: ItemView| is_ex(i), 1, 1)
        } else {
            search_candidates(query)
        },
        None => fuzzy_candidates(query, commands, |i: ItemView| not_ex(i), 0, 0),
    }
}

pub open spec fn matches_view(m: Seq<(PaletteItem, Vec<usize>)>) -> Seq<(ItemView, Seq<int>)> {
    Seq::new(m.len(), |i: int| (item_view(&m[i].0), hits_view(m[i].1@)))
}

pub open spec fn items_view(items: Seq<PaletteItem>) -> Seq<ItemView> {
    Seq::new(items.len(), |i: int| item_view(&items[i]))
}

pub open spec fn files_view(files: Seq<String>) -> Seq<Seq<char>> {
    Seq::new(files.len(), |i: int| files[i]@)
}

/// The best 200 candidates, best first.
pub open spec fn spec_matches(text: Seq<char>, files: Seq<Seq<char>>, commands: Seq<ItemView>) -> Seq<(ItemView, Seq<int>)> {
    let sorted = sort_by_key(candidates(text, files, commands));
    let kept = if sorted.len() > 200 { sorted.take(200) } else { sorted };
    Seq::new(kept.len(), |i: int| (kept[i].2, kept[i].3))
}

impl Palette {
    /// A palette whose input holds `prefix`.
    pub fn new(prefix: &str) -> (p: Palette)
        ensures
            p.input.text@ == prefix@,
            p.input.cursor == prefix@.len(),
            p.list == (ListState { selected: 0, scroll: 0, pending_g: false }),
            p.files@.len() == 0,
            p.files_cwd is None,
            p.matches@.len() == 0,
    {
        let mut input = TextState::new();
        input.set(prefix);
        Palette { input, list: ListState::new(), files: Vec::new(), files_cwd: None, matches: Vec::new() }
    }

    pub fn prefix(&self) -> (c: Option<char>)
        ensures
            c == spec_prefix(self.input.text@),
    {
        let cs = chars_of(self.input.text.as_str());
        if cs.len() > 0 && (cs[0] == ':' || cs[0] == '@' || cs[0] == '/') {
            Some(cs[0])
        } else {
            None
        }
    }

    pub fn query(&self) -> (q: String)
        ensures
            q@ == spec_query(self.input.text@),
    {
        match self.prefix() {
            Some(_) => {
                let cs = chars_of(self.input.text.as_str());
                let rest = substring(&cs, 1, cs.len());
                proof {
                    assert(cs@.subrange(1, cs@.len() as int) =~= cs@.drop_first());
                }
                trim(rest.as_str())
            },
            None => trim(self.input.text.as_str()),
        }
    }

    pub fn footer(&self) -> (s: String)
        ensures
            s@ == spec_footer(self.input.text@, self.files@.len(), self.matches@.len()),
    {
        proof {
            reveal_strlit("Command line. Enter runs it in Neovim.");
            reveal_strlit(" files. Enter opens.");
            reveal_strlit("Search this file. Enter jumps, then n and N.");
            reveal_strlit(" commands. Start with : for Ex, @ for files, / to search.");
        }
        match self.prefix() {
            Some(c) => if c == ':' {
                "Command line. Enter runs it in Neovim.".to_owned()
            } else if c == '@' {
                let n = decimal_string(self.files.len() as u64);
                concat(n.as_str(), " files. Enter opens.")
            } else {
                "Search this file. Enter jumps, then n and N.".to_owned()
            },
            None => {
                let n = decimal_string(self.matches.len() as u64);
                concat(n.as_str(), " commands. Start with : for Ex, @ for files, / to search.")
            },
        }
    }
}


/// A scored candidate as the palette keeps it.
pub type ScoredItem = (i32, usize, PaletteItem, Vec<usize>);

pub open spec fn scored_view(x: &ScoredItem) -> Scored {
    (x.0, x.1 as int, item_view(&x.2), hits_view(x.3@))
}

pub open spec fn scored_seq_view(s: Seq<ScoredItem>) -> Seq<Scored> {
    Seq::new(s.len(), |i: int| scored_view(&s[i]))
}

/// Insert `x` into `sorted` as `insert_by_key` does.
fn insert_scored(sorted: &mut Vec<ScoredItem>, x: ScoredItem)
    ensures
        scored_seq_view(final(sorted)@) == insert_by_key(scored_seq_view(old(sorted)@), scored_view(&x)),
{
    let ghost sv = scored_seq_view(sorted@);
    let ghost xv = scored_view(&x);
    let mut j: usize = sorted.len();
    proof {
        assert(sv.take(j as int) =~= sv);
        assert(sv.take(j as int) + sv.skip(j as int) =~= sv);
    }
    while j > 0 && !(sorted[j - 1].0 < x.0 || (sorted[j - 1].0 == x.0 && sorted[j - 1].1 <= x.1))
        invariant
            j <= sorted@.len(),
            sv == scored_seq_view(sorted@),
            xv == scored_view(&x),
            insert_by_key(sv, xv) == insert_by_key(sv.take(j as int), xv) + sv.skip(j as int),
        decreases j,
    {
        proof {
            assert(sv.take(j as int).drop_last() =~= sv.take(j - 1));
            assert(sv.take(j as int).last() == sv[j - 1]);
            assert(insert_by_key(sv.take(j - 1), xv).push(sv[j - 1]) + sv.skip(j as int) =~= insert_by_key(sv.take(j - 1), xv)
                + sv.skip(j - 1));
        }
        j -= 1;
    }
    proof {
        if j > 0 {
            assert(insert_by_key(sv.take(j as int), xv) == sv.take(j as int).push(xv));
        } else {
            assert(insert_by_key(sv.take(0), xv) =~= seq![xv]);
        }
    }
    sorted.insert(j, x);
    proof {
        assert(scored_seq_view(sorted@) =~= sv.take(j as int).push(xv) + sv.skip(j as int));
    }
}

fn escape_lt_string(s: &str) -> (r: String)
    ensures
        r@ == escape_lt(s@),
{
    proof {
        reveal_strlit("<lt>");
    }
    let cs = chars_of(s);
    let mut r = String::new();
    let mut i: usize = 0;
    proof {
        assert(cs@.take(0) =~= Seq::<char>::empty());
    }
    while i < cs.len()
        invariant
            i <= cs@.len(),
            cs@ == s@,
            r@ == escape_lt(cs@.take(i as int)),
        decreases cs@.len() - i,
    {
        proof {
            assert(cs@.take(i + 1).drop_last() =~= cs@.take(i as int));
        }
        proof {
            reveal_strlit("<lt>");
        }
        if cs[i] == '<' {
            push_char(&mut r, '<');
            push_char(&mut r, 'l');
            push_char(&mut r, 't');
            push_char(&mut r, '>');
            proof {
                assert(r@ =~= escape_lt(cs@.take(i as int)) + "<lt>"@);
            }
        } else {
            push_char(&mut r, cs[i]);
            proof {
                assert(r@ =~= escape_lt(cs@.take(i as int)) + seq![cs@[i as int]]);
            }
        }
        i += 1;
    }
    proof {
        assert(cs@.take(cs@.len() as int) =~= cs@);
    }
    r
}

/// The candidates of `commands` that `keep` takes (by source), as `fuzzy_candidates` says,
/// inserted into `sorted`.
fn add_command_candidates(sorted: &mut Vec<ScoredItem>, query: &String, commands: &[PaletteItem], ex: bool, bonus: i32, shift: usize)
    requires
        0 <= bonus <= 1,
        shift <= 1,
    ensures
        scored_seq_view(final(sorted)@) == fold_insert(
            scored_seq_view(old(sorted)@),
            fuzzy_candidates(query@, items_view(commands@), if ex { |i: ItemView| is_ex(i) } else { |i: ItemView| not_ex(i) }, bonus as int, shift as int),
        ),
{
    let ghost keep = if ex { |i: ItemView| is_ex(i) } else { |i: ItemView| not_ex(i) };
    let ghost iv = items_view(commands@);
    let ghost start = scored_seq_view(sorted@);
    let mut i: usize = 0;
    proof {
        assert(iv.take(0) =~= Seq::<ItemView>::empty());
    }
    while i < commands.len()
        invariant
            i <= commands@.len(),
            iv == items_view(commands@),
            0 <= bonus <= 1,
            shift <= 1,
            keep == (if ex { |i: ItemView| is_ex(i) } else { |i: ItemView| not_ex(i) }),
            scored_seq_view(sorted@) == fold_insert(start, fuzzy_candidates(query@, iv.take(i as int), keep, bonus as int, shift as int)),
        decreases commands@.len() - i,
    {
        let ghost cands = fuzzy_candidates(query@, iv.take(i as int), keep, bonus as int, shift as int);
        proof {
            assert(iv.take(i + 1).drop_last() =~= iv.take(i as int));
            assert(iv.take(i + 1).last() == item_view(&commands@[i as int]));
        }
        let item = &commands[i];
        let take = if ex { item.source == PaletteSource::Ex } else { item.source != PaletteSource::Ex };
        if take {
            match fuzzy_checked(query.as_str(), item.title.as_str()) {
                Some(Some((score, hits))) => {
                    let s = ((score as i64) + (bonus as i64)) as i32;
                    let x: ScoredItem = (s, i + shift, clone_item(item), hits);
                    let ghost xv = scored_view(&x);
                    insert_scored(sorted, x);
                    proof {
                        lemma_fold_insert_push(start, cands, xv);
                    }
                },
                _ => {},
            }
        }
        i += 1;
    }
    proof {
        assert(iv.take(commands@.len() as int) =~= iv);
    }
}

/// The candidates inserted one by one.
pub open spec fn fold_insert(start: Seq<Scored>, c: Seq<Scored>) -> Seq<Scored>
    decreases c.len(),
{
    if c.len() == 0 {
        start
    } else {
        insert_by_key(fold_insert(start, c.drop_last()), c.last())
    }
}

proof fn lemma_fold_insert_push(start: Seq<Scored>, c: Seq<Scored>, x: Scored)
    ensures
        fold_insert(start, c.push(x)) == insert_by_key(fold_insert(start, c), x),
{
    assert(c.push(x).drop_last() =~= c);
}

proof fn lemma_fold_insert_empty(c: Seq<Scored>)
    ensures
        fold_insert(Seq::empty(), c) == sort_by_key(c),
    decreases c.len(),
{
    if c.len() > 0 {
        lemma_fold_insert_empty(c.drop_last());
    }
}

proof fn lemma_fold_insert_concat(start: Seq<Scored>, a: Seq<Scored>, b: Seq<Scored>)
    ensures
        fold_insert(start, a + b) == fold_insert(fold_insert(start, a), b),
    decreases b.len(),
{
    if b.len() == 0 {
        assert(a + b =~= a);
    } else {
        assert((a + b).drop_last() =~= a + b.drop_last());
        assert((a + b).last() == b.last());
        lemma_fold_insert_concat(start, a, b.drop_last());
    }
}

impl Palette {
    /// Rebuild `matches` from the query: the best 200 candidates, best first (see
    /// `spec_matches`); the selection stays inside them and the list scrolls to the top.
    pub fn refilter(&mut self, commands: &[PaletteItem])
        ensures
            matches_view(final(self).matches@) == spec_matches(old(self).input.text@, files_view(old(self).files@), items_view(commands@)),
            final(self).list.selected == if old(self).list.selected < final(self).matches@.len() {
                old(self).list.selected as int
            } else if final(self).matches@.len() > 0 {
                final(self).matches@.len() - 1
            } else {
                0
            },
            final(self).list.scroll == 0,
            final(self).list.pending_g == old(self).list.pending_g,
            final(self).input == old(self).input,
            final(self).files == old(self).files,
            final(self).files_cwd == old(self).files_cwd,
    {
        proof {
            reveal_strlit("Run :");
            reveal_strlit("Search for ");
            reveal_strlit("/");
            reveal_strlit("<CR>");
            reveal_strlit("");
        }
        let query = self.query();
        let ghost text = self.input.text@;
        let ghost fv = files_view(self.files@);
        let ghost cv = items_view(commands@);
        let mut sorted: Vec<ScoredItem> = Vec::new();
        proof {
            assert(scored_seq_view(sorted@) =~= Seq::<Scored>::empty());
        }
        match self.prefix() {
            Some('@') => {
                let mut i: usize = 0;
                proof {
                    assert(fv.take(0) =~= Seq::<Seq<char>>::empty());
                }
                while i < self.files.len() && sorted.len() <= 2000
                    invariant
                        i <= self.files@.len(),
                        fv == files_view(self.files@),
                        scored_seq_view(sorted@) == sort_by_key(file_candidates(query@, fv.take(i as int))),
                        sorted@.len() == file_candidates(query@, fv.take(i as int)).len(),
                        sorted@.len() <= 2001,
                    decreases self.files@.len() - i,
                {
                    proof {
                        reveal_strlit("");
                        assert(fv.take(i + 1).drop_last() =~= fv.take(i as int));
                        assert(fv.take(i + 1).last() == self.files@[i as int]@);
                    }
                    let file = &self.files[i];
                    match fuzzy_checked(query.as_str(), file.as_str()) {
                        Some(Some((score, hits))) => {
                            let item = PaletteItem {
                                title: file.clone(),
                                source: PaletteSource::File,
                                key: "",
                                vim: "",
                                command: PaletteCommand::OpenFile(file.clone()),
                            };
                            let x: ScoredItem = (score, i, item, hits);
                            let ghost xv = scored_view(&x);
                            proof {
                                assert(""@ =~= Seq::<char>::empty());
                                assert(xv.2.title == fv[i as int]);
                                assert(xv.2.key == Seq::<char>::empty());
                                assert(xv.2.command == CommandView::OpenFile(fv[i as int]));
                                assert(xv.2 == file_item(fv[i as int]));
                                assert(xv == (score, i as int, file_item(fv[i as int]), hits_view(hits@)));
                            }
                            let ghost before = scored_seq_view(sorted@);
                            insert_scored(&mut sorted, x);
                            proof {
                                let c = file_candidates(query@, fv.take(i as int));
                                assert(file_candidates(query@, fv.take(i + 1)) == c.push(xv));
                                assert(c.push(xv).drop_last() =~= c);
                                lemma_insert_len(before, xv);
                            }
                        },
                        _ => {},
                    }
                    i += 1;
                }
                proof {
                    if i == self.files@.len() {
                        assert(fv.take(i as int) =~= fv);
                    } else {
                        lemma_file_candidates_stop(query@, fv, i as int);
                    }
                    assert(candidates(text, fv, cv) == file_candidates(query@, fv));
                }
            },
            Some(':') => {
                if !query.as_str().is_empty() {
                    let item = PaletteItem {
                        title: concat("Run :", query.as_str()),
                        source: PaletteSource::Ex,
                        key: "",
                        vim: "",
                        command: PaletteCommand::Ex(query.clone()),
                    };
                    let x: ScoredItem = (0, 0, item, Vec::new());
                    let ghost xv = scored_view(&x);
                    insert_scored(&mut sorted, x);
                    proof {
                        assert(""@ =~= Seq::<char>::empty());
                        assert(hits_view(Seq::<usize>::empty()) =~= Seq::<int>::empty());
                        assert(insert_by_key(Seq::<Scored>::empty(), xv) =~= seq![xv]);
                        assert(xv.2 == run_candidates(query@)[0].2);
                        assert(xv == run_candidates(query@)[0]);
                    }
                }
                proof {
                    let rc = run_candidates(query@);
                    if query@.len() > 0 {
                        assert(rc.drop_last() =~= Seq::<Scored>::empty());
                        assert(fold_insert(Seq::<Scored>::empty(), rc.drop_last()) =~= Seq::<Scored>::empty());
                        assert(rc.last() == rc[0]);
                        assert(insert_by_key(Seq::<Scored>::empty(), rc[0]) =~= seq![rc[0]]);
                        assert(scored_seq_view(sorted@) =~= seq![rc[0]]);
                    } else {
                        assert(scored_seq_view(sorted@) =~= Seq::<Scored>::empty());
                    }
                    assert(scored_seq_view(sorted@) == fold_insert(Seq::empty(), rc));
                }
                add_command_candidates(&mut sorted, &query, commands, true, 1, 1);
                proof {
                    let fc = fuzzy_candidates(query@, cv, |i: ItemView| is_ex(i), 1, 1);
                    lemma_fold_insert_concat(Seq::empty(), run_candidates(query@), fc);
                    lemma_fold_insert_empty(run_candidates(query@) + fc);
                    assert(candidates(text, fv, cv) == run_candidates(query@) + fc);
                    assert(scored_seq_view(sorted@) == sort_by_key(candidates(text, fv, cv)));
                }
            },
            Some('/') => {
                proof {
                    assert(candidates(text, fv, cv) == search_candidates(query@));
                }
                if !query.as_str().is_empty() {
                    let keys = concat(concat("/", escape_lt_string(query.as_str()).as_str()).as_str(), "<CR>");
                    let item = PaletteItem {
                        title: concat("Search for ", query.as_str()),
                        source: PaletteSource::Line,
                        key: "",
                        vim: "/",
                        command: PaletteCommand::Keys(keys),
                    };
                    let x: ScoredItem = (0, 0, item, Vec::new());
                    let ghost xv = scored_view(&x);
                    insert_scored(&mut sorted, x);
                    proof {
                        assert(""@ =~= Seq::<char>::empty());
                        assert(hits_view(Seq::<usize>::empty()) =~= Seq::<int>::empty());
                        let c = candidates(text, fv, cv);
                        assert(c.len() == 1);
                        assert(xv.2 == c[0].2);
                        assert(xv == c[0]);
                        assert(insert_by_key(Seq::<Scored>::empty(), xv) =~= seq![xv]);
                        assert(c.drop_last() =~= Seq::<Scored>::empty());
                        assert(sort_by_key(c) == insert_by_key(sort_by_key(Seq::<Scored>::empty()), c.last()));
                        assert(scored_seq_view(sorted@) == sort_by_key(c));
                    }
                }
                proof {
                    if query@.len() == 0 {
                        assert(scored_seq_view(sorted@) =~= Seq::<Scored>::empty());
                        assert(candidates(text, fv, cv) =~= Seq::<Scored>::empty());
                    }
                    assert(scored_seq_view(sorted@) == sort_by_key(candidates(text, fv, cv)));
                }
            },
            _ => {
                add_command_candidates(&mut sorted, &query, commands, false, 0, 0);
                proof {
                    lemma_fold_insert_empty(fuzzy_candidates(query@, cv, |i: ItemView| not_ex(i), 0, 0));
                    assert(candidates(text, fv, cv) == fuzzy_candidates(query@, cv, |i: ItemView| not_ex(i), 0, 0));
                }
            },
        }
        proof {
            assert(scored_seq_view(sorted@) == sort_by_key(candidates(text, fv, cv)));
        }
        if sorted.len() > 200 {
            sorted.truncate(200);
        }
        let ghost kept = scored_seq_view(sorted@);
        let mut matches: Vec<(PaletteItem, Vec<usize>)> = Vec::new();
        for x in it: sorted
            invariant
                scored_seq_view(it.seq()) == kept,
                matches_view(matches@) == Seq::new(it.index() as nat, |i: int| (kept[i].2, kept[i].3)),
        {
            let ghost before = matches@;
            let ghost xv = scored_view(&x);
            let (_, _, item, hits) = x;
            matches.push((item, hits));
            proof {
                assert(matches_view(matches@) =~= matches_view(before).push((xv.2, xv.3)));
                assert(matches_view(matches@) =~= Seq::new((it.index() + 1) as nat, |i: int| (kept[i].2, kept[i].3)));
            }
        }
        self.matches = matches;
        let n = self.matches.len();
        let last = if n > 0 { n - 1 } else { 0 };
        if self.list.selected > last {
            self.list.selected = last;
        }
        self.list.scroll = 0;
    }
}

proof fn lemma_insert_len(s: Seq<Scored>, x: Scored)
    ensures
        insert_by_key(s, x).len() == s.len() + 1,
    decreases s.len(),
{
    if s.len() > 0 {
        lemma_insert_len(s.drop_last(), x);
    }
}

proof fn lemma_file_candidates_stop(query: Seq<char>, files: Seq<Seq<char>>, i: int)
    requires
        0 <= i <= files.len(),
        file_candidates(query, files.take(i)).len() > 2000,
    ensures
        file_candidates(query, files) == file_candidates(query, files.take(i)),
    decreases files.len() - i,
{
    if i < files.len() {
        assert(files.take(i + 1).drop_last() =~= files.take(i));
        lemma_file_candidates_stop(query, files, i + 1);
    } else {
        assert(files.take(i) =~= files);
    }
}


/// `a` comes no later than `b`: a lower score, or the same score and an earlier source.
pub open spec fn key_le(a: Scored, b: Scored) -> bool {
    a.0 < b.0 || (a.0 == b.0 && a.1 <= b.1)
}

/// Best first: every candidate comes no later than the ones after it.
pub open spec fn best_first(s: Seq<Scored>) -> bool {
    forall|a: int, b: int| 0 <= a < b < s.len() ==> key_le(#[trigger] s[a], #[trigger] s[b])
}

proof fn lemma_insert_by_key(s: Seq<Scored>, x: Scored)
    requires
        best_first(s),
    ensures
        best_first(insert_by_key(s, x)),
        insert_by_key(s, x).len() == s.len() + 1,
        insert_by_key(s, x).to_multiset() =~= s.to_multiset().insert(x),
        forall|k: int| 0 <= k < insert_by_key(s, x).len() ==> #[trigger] insert_by_key(s, x)[k] == x || s.contains(insert_by_key(s, x)[k]),
    decreases s.len(),
{
    broadcast use vstd::seq_lib::group_to_multiset_ensures;
    if s.len() == 0 {
        assert(seq![x] =~= Seq::<Scored>::empty().push(x));
    } else if key_le(s.last(), x) {
        let r = s.push(x);
        assert forall|k: int| 0 <= k < r.len() implies #[trigger] r[k] == x || s.contains(r[k]) by {
            if k < s.len() {
                assert(r[k] == s[k]);
            }
        }
    } else {
        let d = s.drop_last();
        let last = s.last();
        assert(best_first(d));
        lemma_insert_by_key(d, x);
        let inner = insert_by_key(d, x);
        let r = inner.push(last);
        assert forall|a: int, b: int| 0 <= a < b < r.len() implies key_le(#[trigger] r[a], #[trigger] r[b]) by {
            if b == inner.len() {
                assert(r[a] == inner[a]);
                if inner[a] != x {
                    assert(d.contains(inner[a]));
                    let i = choose|i: int| 0 <= i < d.len() && d[i] == inner[a];
                    assert(s[i] == d[i]);
                    assert(s[s.len() - 1] == last);
                }
            } else {
                assert(r[a] == inner[a] && r[b] == inner[b]);
            }
        }
        assert forall|k: int| 0 <= k < r.len() implies #[trigger] r[k] == x || s.contains(r[k]) by {
            if k < inner.len() {
                assert(r[k] == inner[k]);
                if inner[k] != x {
                    assert(d.contains(inner[k]));
                    let i = choose|i: int| 0 <= i < d.len() && d[i] == inner[k];
                    assert(s[i] == d[i]);
                }
            } else {
                assert(s[s.len() - 1] == last);
            }
        }
        assert(d.push(last) =~= s);
        assert(s.to_multiset() =~= d.to_multiset().insert(last));
    }
}

/// The palette puts its candidates best first and keeps them all: ordering them by score (then
/// source) gives each candidate exactly once, lowest score first, earlier source first on a tie.
pub proof fn law_candidates_best_first(c: Seq<Scored>)
    ensures
        best_first(sort_by_key(c)),
        sort_by_key(c).len() == c.len(),
        sort_by_key(c).to_multiset() =~= c.to_multiset(),
    decreases c.len(),
{
    broadcast use vstd::seq_lib::group_to_multiset_ensures;
    if c.len() > 0 {
        law_candidates_best_first(c.drop_last());
        lemma_insert_by_key(sort_by_key(c.drop_last()), c.last());
        assert(c.drop_last().push(c.last()) =~= c);
    }
}

/// Every candidate of `items` that `keep` takes scores at least `bonus`, when no such item's
/// fuzzy score is negative or at the 32-bit limit.
proof fn lemma_fuzzy_candidates_scores(query: Seq<char>, items: Seq<ItemView>, keep: spec_fn(ItemView) -> bool, bonus: int, shift: int)
    requires
        0 <= bonus <= 1,
        forall|i: int|
            0 <= i < items.len() && keep(items[i]) ==> match #[trigger] fuzzy_or_none(query, items[i].title) {
                Some(m) => 0 <= m.0 < i32::MAX,
                None => true,
            },
    ensures
        forall|k: int|
            0 <= k < fuzzy_candidates(query, items, keep, bonus, shift).len() ==> #[trigger] fuzzy_candidates(
                query,
                items,
                keep,
                bonus,
                shift,
            )[k].0 >= bonus,
        (forall|i: int| 0 <= i < items.len() ==> !keep(#[trigger] items[i])) ==> fuzzy_candidates(query, items, keep, bonus, shift).len() == 0,
    decreases items.len(),
{
    if items.len() > 0 {
        let d = items.drop_last();
        assert forall|i: int| 0 <= i < d.len() && keep(d[i]) implies match #[trigger] fuzzy_or_none(query, d[i].title) {
            Some(m) => 0 <= m.0 < i32::MAX,
            None => true,
        } by {
            assert(d[i] == items[i]);
        }
        lemma_fuzzy_candidates_scores(query, d, keep, bonus, shift);
        let last = items.len() - 1;
        assert(items.last() == items[last]);
        let before = fuzzy_candidates(query, d, keep, bonus, shift);
        let all = fuzzy_candidates(query, items, keep, bonus, shift);
        if keep(items.last()) {
            match fuzzy_or_none(query, items.last().title) {
                Some(m) => {
                    assert(fuzzy_or_none(query, items[last].title) == Some(m));
                    assert(0 <= m.0 + bonus <= i32::MAX);
                    assert(((m.0 + bonus) as i32) >= bonus);
                },
                None => {},
            }
        }
        assert forall|k: int| 0 <= k < all.len() implies #[trigger] all[k].0 >= bonus by {
            if k < before.len() {
                assert(all[k] == before[k]);
            }
        }
        if (forall|i: int| 0 <= i < items.len() ==> !keep(#[trigger] items[i])) {
            assert forall|i: int| 0 <= i < d.len() implies !keep(#[trigger] d[i]) by {
                assert(d[i] == items[i]);
            }
            assert(!keep(items[last]));
        }
    }
}

/// A `:` query that is not empty offers "Run :" and the query first, which runs the query as
/// an Ex command (as long as no Ex command's fuzzy score is negative or at the 32-bit limit);
/// an empty `:` query offers no such entry, so with no Ex commands it offers nothing.
pub proof fn law_colon_query_runs_first(text: Seq<char>, files: Seq<Seq<char>>, commands: Seq<ItemView>)
    requires
        text.len() > 0 && text[0] == ':',
        forall|i: int|
            0 <= i < commands.len() && is_ex(commands[i]) ==> match #[trigger] fuzzy_or_none(spec_query(text), commands[i].title) {
                Some(m) => 0 <= m.0 < i32::MAX,
                None => true,
            },
    ensures
        spec_query(text).len() > 0 ==> {
            &&& spec_matches(text, files, commands).len() >= 1
            &&& spec_matches(text, files, commands)[0] == (
                ItemView {
                    title: "Run :"@ + spec_query(text),
                    source: PaletteSource::Ex,
                    key: Seq::empty(),
                    vim: Seq::empty(),
                    command: CommandView::Ex(spec_query(text)),
                },
                Seq::<int>::empty(),
            )
        },
        spec_query(text).len() == 0 && (forall|i: int| 0 <= i < commands.len() ==> !is_ex(#[trigger] commands[i]))
            ==> spec_matches(text, files, commands).len() == 0,
{
    broadcast use vstd::seq_lib::group_to_multiset_ensures;
    let q = spec_query(text);
    let keep = |i: ItemView| is_ex(i);
    assert forall|i: int| 0 <= i < commands.len() && keep(commands[i]) implies match #[trigger] fuzzy_or_none(q, commands[i].title) {
        Some(m) => 0 <= m.0 < i32::MAX,
        None => true,
    } by {
    }
    lemma_fuzzy_candidates_scores(q, commands, keep, 1, 1);
    let f = fuzzy_candidates(q, commands, keep, 1, 1);
    let c = candidates(text, files, commands);
    assert(c == run_candidates(q) + f);
    let sorted = sort_by_key(c);
    law_candidates_best_first(c);
    if q.len() > 0 {
        let r = run_candidates(q)[0];
        assert(c[0] == r);
        assert(c.to_multiset().count(r) > 0);
        assert(sorted.to_multiset().count(r) > 0);
        assert(sorted.contains(r));
        let j = choose|j: int| 0 <= j < sorted.len() && sorted[j] == r;
        if j != 0 {
            let x = sorted[0];
            assert(sorted.contains(x));
            assert(c.to_multiset().count(x) > 0);
            assert(c.contains(x));
            let k = choose|k: int| 0 <= k < c.len() && c[k] == x;
            if k > 0 {
                assert(c[k] == f[k - 1]);
                assert(f[k - 1].0 >= 1);
            }
            assert(key_le(sorted[0], sorted[j]));
        }
        assert(sorted[0] == r);
        let kept = if sorted.len() > 200 { sorted.take(200) } else { sorted };
        assert(kept[0] == r);
    } else {
        assert(run_candidates(q) =~= Seq::<Scored>::empty());
        if (forall|i: int| 0 <= i < commands.len() ==> !is_ex(#[trigger] commands[i])) {
            assert forall|i: int| 0 <= i < commands.len() implies !keep(#[trigger] commands[i]) by {
                assert(!is_ex(commands[i]));
            }
            assert(f.len() == 0);
            assert(c.len() == 0);
        }
    }
}

} // verus!
