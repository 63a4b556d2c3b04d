//! The Plugins screen's model: lazy.nvim's plugin list and LazyVim's extras; and the word
//! wrap its descriptions use.

use vstd::prelude::*;

use crate::editor::words::{is_white_space, is_whitespace};
use crate::text::{chars_of, push_char, str_eq, string_from_chars, trim, trimmed};
use crate::ui::widgets::{ListState, TextResponse, TextState};
use crate::workbench::tasks::{find_chars, find_from, lowercase, spec_lowercase};

verus! {

#[derive(Clone, Debug)]
pub struct PluginsModel {
    pub plugins: Vec<Plugin>,
    pub extras: Vec<Extra>,
    pub has_updates: bool,
}

#[derive(Clone, Debug)]
pub struct Plugin {
    pub name: String,
    pub url: String,
    pub dir: String,
    pub installed: bool,
    pub loaded: bool,
    pub lazy: bool,
    pub enabled: bool,
    pub dep: bool,
    pub updates: bool,
    pub loads: Vec<String>,
    pub version: String,
    pub desc: String,
    pub eq: Vec<String>,
}

#[derive(Clone, Debug)]
pub struct Extra {
    pub name: String,
    pub module: String,
    pub enabled: bool,
    pub managed: bool,
    pub recommended: bool,
    pub desc: String,
    pub plugins: Vec<String>,
}

/// A plugin is enabled unless lazy.nvim says otherwise.
pub fn yes() -> (b: bool)
    ensures
        b,
{
    true
}

/// The words of `t` (its runs of non-whitespace) so far, and the word being read.
pub open spec fn split_state(t: Seq<char>) -> (Seq<Seq<char>>, Seq<char>)
    decreases t.len(),
{
    if t.len() == 0 {
        (Seq::empty(), Seq::empty())
    } else {
        let (words, cur) = split_state(t.drop_last());
        if is_white_space(t.last()) {
            if cur.len() > 0 {
                (words.push(cur), Seq::empty())
            } else {
                (words, cur)
            }
        } else {
            (words, cur.push(t.last()))
        }
    }
}

/// `str::split_whitespace`: the runs of non-whitespace, in order.
pub open spec fn split_whitespace(t: Seq<char>) -> Seq<Seq<char>> {
    let (words, cur) = split_state(t);
    if cur.len() > 0 {
        words.push(cur)
    } else {
        words
    }
}

/// One word added to the wrapped lines: it starts a new line when the current one is not
/// empty and the word (after a space) would pass `width`.
pub open spec fn wrap_step(st: (Seq<Seq<char>>, Seq<char>), word: Seq<char>, width: nat) -> (Seq<Seq<char>>, Seq<char>) {
    let (lines, line) = if st.1.len() > 0 && st.1.len() + 1 + word.len() > width { (st.0.push(st.1), Seq::empty()) } else { st };
    (lines, if line.len() > 0 { line.push(' ') + word } else { line + word })
}

pub open spec fn wrap_words(words: Seq<Seq<char>>, width: nat) -> (Seq<Seq<char>>, Seq<char>)
    decreases words.len(),
{
    if words.len() == 0 {
        (Seq::empty(), Seq::empty())
    } else {
        wrap_step(wrap_words(words.drop_last(), width), words.last(), width)
    }
}

/// Greedy word wrap to `width` cells (at least 8).
pub open spec fn spec_wrap(text: Seq<char>, width: nat) -> Seq<Seq<char>> {
    let w = if width < 8 { 8 } else { width };
    let (lines, line) = wrap_words(split_whitespace(text), w);
    if line.len() > 0 {
        lines.push(line)
    } else {
        lines
    }
}

pub open spec fn strings_view(v: Seq<String>) -> Seq<Seq<char>> {
    Seq::new(v.len(), |i: int| v[i]@)
}

pub(crate) fn words(text: &str) -> (ws: Vec<Vec<char>>)
    ensures
        Seq::new(ws@.len(), |i: int| ws@[i]@) == split_whitespace(text@),
{
    let cs = chars_of(text);
    let mut out: Vec<Vec<char>> = Vec::new();
    let mut cur: Vec<char> = Vec::new();
    let mut i: usize = 0;
    while i < cs.len()
        invariant
            i <= cs@.len(),
            cs@ == text@,
            (Seq::new(out@.len(), |k: int| out@[k]@), cur@) == split_state(cs@.take(i as int)),
        decreases cs@.len() - i,
    {
        proof {
            assert(cs@.take(i + 1).drop_last() =~= cs@.take(i as int));
        }
        let ghost before = out@;
        if is_whitespace(cs[i]) {
            if cur.len() > 0 {
                let w = cur;
                out.push(w);
                cur = Vec::new();
                proof {
                    assert(Seq::new(out@.len(), |k: int| out@[k]@) =~= Seq::new(before.len(), |k: int| before[k]@).push(w@));
                }
            }
        } else {
            cur.push(cs[i]);
        }
        i += 1;
    }
    proof {
        assert(cs@.take(cs@.len() as int) =~= cs@);
    }
    if cur.len() > 0 {
        let ghost before = out@;
        let w = cur;
        out.push(w);
        proof {
            assert(Seq::new(out@.len(), |k: int| out@[k]@) =~= Seq::new(before.len(), |k: int| before[k]@).push(w@));
        }
    }
    out
}

/// Greedy word wrap to `width` cells (see `spec_wrap`).
pub fn wrap(text: &str, width: usize) -> (lines: Vec<String>)
    ensures
        strings_view(lines@) == spec_wrap(text@, width as nat),
{
    let width = if width < 8 { 8 } else { width };
    let ws = words(text);
    let ghost wv = Seq::new(ws@.len(), |i: int| ws@[i]@);
    let mut lines: Vec<String> = Vec::new();
    let mut line: Vec<char> = Vec::new();
    let mut i: usize = 0;
    while i < ws.len()
        invariant
            i <= ws@.len(),
            wv == Seq::new(ws@.len(), |k: int| ws@[k]@),
            (strings_view(lines@), line@) == wrap_words(wv.take(i as int), width as nat),
        decreases ws@.len() - i,
    {
        proof {
            assert(wv.take(i + 1).drop_last() =~= wv.take(i as int));
            assert(wv.take(i + 1).last() == ws@[i as int]@);
        }
        let word = &ws[i];
        if line.len() > 0 && (word.len() as u128) + (line.len() as u128) + 1 > width as u128 {
            let ghost before = lines@;
            let done = string_from_chars(line.as_slice());
            lines.push(done);
            line = Vec::new();
            proof {
                assert(strings_view(lines@) =~= strings_view(before).push(done@));
            }
        }
        let ghost l0 = line@;
        if line.len() > 0 {
            line.push(' ');
        }
        let ghost l1 = line@;
        let mut j: usize = 0;
        while j < word.len()
            invariant
                j <= word@.len(),
                line@ == l1 + word@.take(j as int),
            decreases word@.len() - j,
        {
            line.push(word[j]);
            j += 1;
            proof {
                assert(line@ =~= l1 + word@.take(j as int));
            }
        }
        proof {
            assert(word@.take(word@.len() as int) =~= word@);
        }
        i += 1;
    }
    proof {
        assert(wv.take(wv.len() as int) =~= wv);
    }
    if line.len() > 0 {
        let ghost before = lines@;
        let done = string_from_chars(line.as_slice());
        lines.push(done);
        proof {
            assert(strings_view(lines@) =~= strings_view(before).push(done@));
        }
    }
    lines
}


// ---- filtering by a search box ----

/// What a search box's text is matched as: trimmed and lower-cased.
pub open spec fn search_key(text: Seq<char>) -> Seq<char> {
    spec_lowercase(trimmed(text))
}

/// Does `hay` match the key `q`? An empty key matches everything; otherwise `q` must occur in
/// the lower-cased `hay`.
pub open spec fn hay_matches(q: Seq<char>, hay: Seq<char>) -> bool {
    q.len() == 0 || find_from(spec_lowercase(hay), q, 0) is Some
}

/// The positions of the hays that match `q`, in order.
pub open spec fn matching(q: Seq<char>, hays: Seq<Seq<char>>) -> Seq<usize>
    decreases hays.len(),
{
    if hays.len() == 0 {
        Seq::empty()
    } else {
        let before = matching(q, hays.drop_last());
        if hay_matches(q, hays.last()) { before.push((hays.len() - 1) as usize) } else { before }
    }
}

fn matches_key(q: &Vec<char>, hay: &str) -> (b: bool)
    ensures
        b == hay_matches(q@, hay@),
{
    if q.len() == 0 {
        return true;
    }
    let h = chars_of(lowercase(hay).as_str());
    find_chars(&h, q).is_some()
}

/// The rows whose text matches a search box's `query` (see `matching` and `search_key`).
pub fn filter_by_query(query: &str, hays: &Vec<String>) -> (rows: Vec<usize>)
    ensures
        rows@ == matching(search_key(query@), strings_view(hays@)),
{
    let q = chars_of(lowercase(trim(query).as_str()).as_str());
    let ghost hv = strings_view(hays@);
    let mut rows: Vec<usize> = Vec::new();
    let mut i: usize = 0;
    while i < hays.len()
        invariant
            i <= hays@.len(),
            hv == strings_view(hays@),
            q@ == search_key(query@),
            rows@ == matching(q@, hv.take(i as int)),
        decreases hays@.len() - i,
    {
        proof {
            assert(hv.take(i + 1).drop_last() =~= hv.take(i as int));
        }
        if matches_key(&q, hays[i].as_str()) {
            rows.push(i);
        }
        i += 1;
    }
    proof {
        assert(hv.take(i as int) =~= hv);
    }
    rows
}

/// `parts` joined with `sep` between them.
pub open spec fn joined(parts: Seq<Seq<char>>, sep: Seq<char>) -> Seq<char>
    decreases parts.len(),
{
    if parts.len() == 0 {
        Seq::empty()
    } else if parts.len() == 1 {
        parts[0]
    } else {
        joined(parts.drop_last(), sep) + sep + parts.last()
    }
}

fn join_strings(parts: &Vec<String>, sep: &str) -> (s: String)
    ensures
        s@ == joined(strings_view(parts@), sep@),
{
    let ghost pv = strings_view(parts@);
    let mut out = String::new();
    let mut i: usize = 0;
    while i < parts.len()
        invariant
            i <= parts@.len(),
            pv == strings_view(parts@),
            out@ == joined(pv.take(i as int), sep@),
        decreases parts@.len() - i,
    {
        proof {
            assert(pv.take(i + 1).drop_last() =~= pv.take(i as int));
        }
        if i == 0 {
            proof {
                reveal_strlit("");
            }
            out = crate::text::concat("", parts[i].as_str());
            proof {
                assert(pv.take(1) =~= seq![pv[0]]);
                assert(out@ =~= pv[0]);
            }
        } else {
            let with_sep = crate::text::concat(out.as_str(), sep);
            out = crate::text::concat(with_sep.as_str(), parts[i].as_str());
        }
        i += 1;
    }
    proof {
        assert(pv.take(i as int) =~= pv);
    }
    out
}

/// What a plugin is found by: its name, description and the VS Code features it covers.
pub open spec fn plugin_hay(p: Plugin) -> Seq<char> {
    p.name@ + " "@ + p.desc@ + " "@ + joined(strings_view(p.eq@), " "@)
}

/// What an extra is found by: its name and description.
pub open spec fn extra_hay(x: Extra) -> Seq<char> {
    x.name@ + " "@ + x.desc@
}

/// Which of the two lists shows.
#[derive(Clone, Copy, Debug, PartialEq, Eq, Structural)]
pub enum Tab {
    Installed,
    Extras,
}

/// Where the keyboard goes on the Plugins screen.
#[derive(Clone, Copy, Debug, PartialEq, Eq, Structural)]
pub enum PluginsFocus {
    Search,
    List,
}

/// The Plugins screen's state.
pub struct PluginsScreen {
    pub model: PluginsModel,
    pub tab: Tab,
    pub search: TextState,
    pub list: ListState,
    pub focus: PluginsFocus,
}

/// `a` sorts before `b`: lexicographically, character by character (the order of `String`,
/// since UTF-8 keeps the order of code points).
pub open spec fn text_less(a: Seq<char>, b: Seq<char>) -> bool
    decreases a.len(),
{
    if a.len() == 0 {
        b.len() > 0
    } else if b.len() == 0 {
        false
    } else if a[0] != b[0] {
        (a[0] as u32) < (b[0] as u32)
    } else {
        text_less(a.skip(1), b.skip(1))
    }
}

/// The order of extras: enabled first, then recommended, then by name.
pub open spec fn extra_key_le(a: Extra, b: Extra) -> bool {
    let (ka, kb) = ((!a.enabled, !a.recommended), (!b.enabled, !b.recommended));
    if ka.0 != kb.0 {
        !ka.0
    } else if ka.1 != kb.1 {
        !ka.1
    } else {
        !text_less(b.name@, a.name@)
    }
}

/// `i` put after every index whose extra is not later (a stable insertion).
pub open spec fn insert_extra(xs: Seq<Extra>, s: Seq<usize>, i: usize) -> Seq<usize>
    decreases s.len(),
{
    if s.len() == 0 {
        seq![i]
    } else if extra_key_le(xs[s.last() as int], xs[i as int]) {
        s.push(i)
    } else {
        insert_extra(xs, s.drop_last(), i).push(s.last())
    }
}

/// `idx` ordered by the extras' order, stably.
pub open spec fn sort_extras(xs: Seq<Extra>, idx: Seq<usize>) -> Seq<usize>
    decreases idx.len(),
{
    if idx.len() == 0 {
        Seq::empty()
    } else {
        insert_extra(xs, sort_extras(xs, idx.drop_last()), idx.last())
    }
}

pub(crate) fn less_text(a: &Vec<char>, b: &Vec<char>) -> (r: bool)
    ensures
        r == text_less(a@, b@),
{
    let mut i: usize = 0;
    proof {
        assert(a@.skip(0) =~= a@);
        assert(b@.skip(0) =~= b@);
        assert(a@.take(0) =~= b@.take(0));
    }
    while i < a.len() && i < b.len()
        invariant
            i <= a@.len(),
            i <= b@.len(),
            a@.take(i as int) == b@.take(i as int),
            text_less(a@, b@) == text_less(a@.skip(i as int), b@.skip(i as int)),
        decreases a@.len() - i,
    {
        proof {
            assert(a@.skip(i as int)[0] == a@[i as int]);
            assert(b@.skip(i as int)[0] == b@[i as int]);
            assert(a@.skip(i as int).skip(1) =~= a@.skip(i + 1));
            assert(b@.skip(i as int).skip(1) =~= b@.skip(i + 1));
        }
        if a[i] != b[i] {
            return (a[i] as u32) < (b[i] as u32);
        }
        proof {
            assert(a@.take(i + 1) =~= a@.take(i as int).push(a@[i as int]));
            assert(b@.take(i + 1) =~= b@.take(i as int).push(b@[i as int]));
        }
        i += 1;
    }
    i == a.len() && i < b.len()
}

fn extra_le(a: &Extra, b: &Extra) -> (r: bool)
    ensures
        r == extra_key_le(*a, *b),
{
    if a.enabled != b.enabled {
        a.enabled
    } else if a.recommended != b.recommended {
        a.recommended
    } else {
        !less_text(&chars_of(b.name.as_str()), &chars_of(a.name.as_str()))
    }
}

fn insert_sorted(xs: &Vec<Extra>, s: &mut Vec<usize>, i: usize)
    requires
        i < xs@.len(),
        forall|k: int| 0 <= k < old(s)@.len() ==> old(s)@[k] < xs@.len(),
    ensures
        final(s)@ == insert_extra(xs@, old(s)@, i),
        forall|k: int| 0 <= k < final(s)@.len() ==> final(s)@[k] < xs@.len(),
    decreases old(s)@.len(),
{
    if s.len() == 0 {
        s.push(i);
        proof {
            assert(s@ =~= seq![i]);
        }
        return;
    }
    let last = s[s.len() - 1];
    if extra_le(&xs[last], &xs[i]) {
        s.push(i);
        return;
    }
    let popped = s.pop().unwrap();
    insert_sorted(xs, s, i);
    s.push(popped);
}

impl PluginsScreen {
    pub fn new() -> (p: PluginsScreen)
        ensures
            p.model.plugins@.len() == 0,
            p.model.extras@.len() == 0,
            p.tab == Tab::Installed,
            p.search.text@ == Seq::<char>::empty(),
            p.focus == PluginsFocus::List,
    {
        PluginsScreen {
            model: PluginsModel { plugins: Vec::new(), extras: Vec::new(), has_updates: false },
            tab: Tab::Installed,
            search: TextState::new(),
            list: ListState::new(),
            focus: PluginsFocus::List,
        }
    }

    /// A tab picked: another tab shows from its first row.
    pub fn select_tab(&mut self, tab: Tab)
        ensures
            final(self).model == old(self).model,
            final(self).search == old(self).search,
            final(self).focus == old(self).focus,
            final(self).tab == tab,
            final(self).list == if tab == old(self).tab {
                old(self).list
            } else {
                ListState { selected: 0, scroll: 0, pending_g: false }
            },
    {
        if self.tab != tab {
            self.tab = tab;
            self.list = ListState::new();
        }
    }

    /// What the search box reported: a click gives it the keyboard; a change shows the list
    /// from its first row; Enter or Down gives the list the keyboard; Escape clears the search,
    /// or, when it is empty already, gives the list the keyboard.
    pub fn search_field(&mut self, resp: TextResponse)
        ensures
            final(self).model == old(self).model,
            final(self).tab == old(self).tab,
            final(self).focus == if (resp.cancelled && old(self).search.text@.len() == 0) || resp.submitted || resp.down {
                PluginsFocus::List
            } else if resp.clicked {
                PluginsFocus::Search
            } else {
                old(self).focus
            },
            final(self).list == if resp.changed {
                ListState { selected: 0, scroll: 0, ..old(self).list }
            } else {
                old(self).list
            },
            resp.cancelled && old(self).search.text@.len() > 0 ==> final(self).search.text@ == Seq::<char>::empty()
                && final(self).search.cursor == 0,
            !(resp.cancelled && old(self).search.text@.len() > 0) ==> final(self).search == old(self).search,
    {
        proof {
            reveal_strlit("");
            assert(""@ =~= Seq::<char>::empty());
            assert(self.search.text@.len() == 0 ==> self.search.text@ =~= Seq::<char>::empty());
        }
        if resp.clicked {
            self.focus = PluginsFocus::Search;
        }
        if resp.changed {
            self.list.selected = 0;
            self.list.scroll = 0;
        }
        if resp.submitted || resp.down {
            self.focus = PluginsFocus::List;
        }
        if resp.cancelled {
            if str_eq(self.search.text.as_str(), "") {
                self.focus = PluginsFocus::List;
            } else {
                self.search.set("");
            }
        }
    }

    /// The list's `/` gives the search box the keyboard; its Escape clears the search, or, when
    /// it is empty already, asks to close the screen (the result).
    pub fn list_keys_done(&mut self, slash: bool, escape: bool) -> (close: bool)
        ensures
            close == (escape && old(self).search.text@.len() == 0),
            final(self).model == old(self).model,
            final(self).tab == old(self).tab,
            final(self).list == old(self).list,
            final(self).focus == if slash { PluginsFocus::Search } else { old(self).focus },
            escape && old(self).search.text@.len() > 0 ==> final(self).search.text@ == Seq::<char>::empty()
                && final(self).search.cursor == 0,
            !(escape && old(self).search.text@.len() > 0) ==> final(self).search == old(self).search,
    {
        proof {
            reveal_strlit("");
            assert(""@ =~= Seq::<char>::empty());
            assert(self.search.text@.len() == 0 ==> self.search.text@ =~= Seq::<char>::empty());
        }
        if slash {
            self.focus = PluginsFocus::Search;
        }
        let mut close = false;
        if escape {
            if str_eq(self.search.text.as_str(), "") {
                close = true;
            } else {
                self.search.set("");
            }
        }
        close
    }

    pub fn set_model(&mut self, model: PluginsModel)
        ensures
            final(self).model == model,
            final(self).tab == old(self).tab,
            final(self).search == old(self).search,
            final(self).list == old(self).list,
            final(self).focus == old(self).focus,
    {
        self.model = model;
    }

    /// The plugins the search box matches (see `plugin_hay`), in list order.
    pub fn visible_plugins(&self) -> (rows: Vec<usize>)
        ensures
            rows@ == matching(search_key(self.search.text@), Seq::new(self.model.plugins@.len(), |i: int| plugin_hay(self.model.plugins@[i]))),
    {
        let mut hays: Vec<String> = Vec::new();
        let mut i: usize = 0;
        while i < self.model.plugins.len()
            invariant
                i <= self.model.plugins@.len(),
                strings_view(hays@) == Seq::new(i as nat, |k: int| plugin_hay(self.model.plugins@[k])),
            decreases self.model.plugins@.len() - i,
        {
            let p = &self.model.plugins[i];
            let eq = join_strings(&p.eq, " ");
            let a = crate::text::concat(p.name.as_str(), " ");
            let b = crate::text::concat(a.as_str(), p.desc.as_str());
            let c = crate::text::concat(b.as_str(), " ");
            let h = crate::text::concat(c.as_str(), eq.as_str());
            let ghost before = strings_view(hays@);
            hays.push(h);
            proof {
                assert(strings_view(hays@) =~= before.push(plugin_hay(self.model.plugins@[i as int])));
                assert(Seq::new((i + 1) as nat, |k: int| plugin_hay(self.model.plugins@[k])) =~= before.push(
                    plugin_hay(self.model.plugins@[i as int]),
                ));
            }
            i += 1;
        }
        filter_by_query(self.search.text.as_str(), &hays)
    }

    /// The extras the search box matches (see `extra_hay`): enabled first, then recommended,
    /// then by name (see `sort_extras`).
    pub fn visible_extras(&self) -> (rows: Vec<usize>)
        ensures
            rows@ == sort_extras(
                self.model.extras@,
                matching(search_key(self.search.text@), Seq::new(self.model.extras@.len(), |i: int| extra_hay(self.model.extras@[i]))),
            ),
    {
        let mut hays: Vec<String> = Vec::new();
        let mut i: usize = 0;
        while i < self.model.extras.len()
            invariant
                i <= self.model.extras@.len(),
                strings_view(hays@) == Seq::new(i as nat, |k: int| extra_hay(self.model.extras@[k])),
            decreases self.model.extras@.len() - i,
        {
            let x = &self.model.extras[i];
            let a = crate::text::concat(x.name.as_str(), " ");
            let h = crate::text::concat(a.as_str(), x.desc.as_str());
            let ghost before = strings_view(hays@);
            hays.push(h);
            proof {
                assert(strings_view(hays@) =~= before.push(extra_hay(self.model.extras@[i as int])));
                assert(Seq::new((i + 1) as nat, |k: int| extra_hay(self.model.extras@[k])) =~= before.push(
                    extra_hay(self.model.extras@[i as int]),
                ));
            }
            i += 1;
        }
        let found = filter_by_query(self.search.text.as_str(), &hays);
        proof {
            lemma_matching_bounds(search_key(self.search.text@), strings_view(hays@));
        }
        let mut sorted: Vec<usize> = Vec::new();
        let mut k: usize = 0;
        while k < found.len()
            invariant
                k <= found@.len(),
                forall|j: int| 0 <= j < found@.len() ==> found@[j] < self.model.extras@.len(),
                forall|j: int| 0 <= j < sorted@.len() ==> sorted@[j] < self.model.extras@.len(),
                sorted@ == sort_extras(self.model.extras@, found@.take(k as int)),
            decreases found@.len() - k,
        {
            proof {
                assert(found@.take(k + 1).drop_last() =~= found@.take(k as int));
            }
            insert_sorted(&self.model.extras, &mut sorted, found[k]);
            k += 1;
        }
        proof {
            assert(found@.take(k as int) =~= found@);
        }
        sorted
    }
}

proof fn lemma_matching_bounds(q: Seq<char>, hays: Seq<Seq<char>>)
    requires
        hays.len() <= usize::MAX,
    ensures
        forall|j: int| 0 <= j < matching(q, hays).len() ==> matching(q, hays)[j] < hays.len(),
    decreases hays.len(),
{
    if hays.len() > 0 {
        lemma_matching_bounds(q, hays.drop_last());
        let before = matching(q, hays.drop_last());
        let m = matching(q, hays);
        assert forall|j: int| 0 <= j < m.len() implies m[j] < hays.len() by {
            if j < before.len() {
                assert(m[j] == before[j]);
            } else {
                assert(m[j] == (hays.len() - 1) as usize);
            }
        }
    }
}

} // verus!
