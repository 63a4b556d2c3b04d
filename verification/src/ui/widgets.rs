//! Widget state: the selection of lists and the text of single-line fields, and what key
//! presses do to them.

use vstd::prelude::*;

use crate::editor::words::{is_white_space, is_whitespace};
use crate::text::{chars_of, string_from_chars};
use crate::ui::{eq_ignore_ascii_case, same_ignoring_ascii_case, Key, KeyPress, NamedKey};

verus! {

// ---- lists ----

#[derive(Clone, Copy, Debug, PartialEq, Eq, Structural)]
pub struct ListState {
    pub selected: usize,
    pub scroll: usize,
    /// Pending `g` for `gg`.
    pub pending_g: bool,
}

impl ListState {
    pub fn new() -> (s: ListState)
        ensures
            s == (ListState { selected: 0, scroll: 0, pending_g: false }),
    {
        ListState { selected: 0, scroll: 0, pending_g: false }
    }
}

#[derive(Clone, Copy, Debug, PartialEq, Eq, Structural)]
pub struct ListResponse {
    /// Enter, `l`/`o`, or a click on the selected row.
    pub activated: Option<usize>,
    /// `h` on a row (collapse) or a click on a toggle.
    pub collapse: Option<usize>,
    pub selection_changed: bool,
    /// The user pressed Escape or `/`.
    pub escape: bool,
    pub slash: bool,
}

pub open spec fn no_list_response() -> ListResponse {
    ListResponse { activated: None, collapse: None, selection_changed: false, escape: false, slash: false }
}

/// One key on a list of `n > 0` rows with `visible` rows on screen: `j`/`k` and the arrows
/// move, `gg`/Home and `G`/End jump, PageDown/Ctrl-D and PageUp/Ctrl-U move half a screen,
/// Enter/`l`/`o` activate, `h` collapses, Escape and `/` are reported.
pub open spec fn list_key(st: (ListState, ListResponse), k: KeyPress, n: nat, visible: nat) -> (ListState, ListResponse) {
    let s0 = st.0;
    let r = st.1;
    let s = ListState { pending_g: false, ..s0 };
    if s0.pending_g && k.spec_is_char("g"@) {
        (ListState { selected: 0, ..s }, r)
    } else if k.spec_is_char("j"@) || k.spec_named(NamedKey::ArrowDown) {
        (ListState { selected: if s.selected + 1 < n { (s.selected + 1) as usize } else { (n - 1) as usize }, ..s }, r)
    } else if k.spec_is_char("k"@) || k.spec_named(NamedKey::ArrowUp) {
        (ListState { selected: if s.selected > 0 { (s.selected - 1) as usize } else { 0 }, ..s }, r)
    } else if k.spec_is_char("G"@) || k.spec_named(NamedKey::End) {
        (ListState { selected: (n - 1) as usize, ..s }, r)
    } else if k.spec_is_char("g"@) {
        (ListState { pending_g: true, ..s }, r)
    } else if k.spec_named(NamedKey::Home) {
        (ListState { selected: 0, ..s }, r)
    } else if k.spec_named(NamedKey::PageDown) || k.spec_ctrl("d"@) {
        (ListState { selected: if s.selected + visible / 2 < n { (s.selected + visible / 2) as usize } else { (n - 1) as usize }, ..s }, r)
    } else if k.spec_named(NamedKey::PageUp) || k.spec_ctrl("u"@) {
        (ListState { selected: if s.selected >= visible / 2 { (s.selected - visible / 2) as usize } else { 0 }, ..s }, r)
    } else if k.spec_named(NamedKey::Enter) || k.spec_is_char("l"@) || k.spec_is_char("o"@) {
        (s, ListResponse { activated: Some(s.selected), ..r })
    } else if k.spec_is_char("h"@) {
        (s, ListResponse { collapse: Some(s.selected), ..r })
    } else if k.spec_named(NamedKey::Escape) {
        (s, ListResponse { escape: true, ..r })
    } else if k.spec_is_char("/"@) {
        (s, ListResponse { slash: true, ..r })
    } else {
        (s, r)
    }
}

pub open spec fn list_keys_from(st: (ListState, ListResponse), keys: Seq<KeyPress>, n: nat, visible: nat) -> (ListState, ListResponse)
    decreases keys.len(),
{
    if keys.len() == 0 {
        st
    } else {
        list_key(list_keys_from(st, keys.drop_last(), n, visible), keys.last(), n, visible)
    }
}

fn list_key_step(state: &mut ListState, resp: &mut ListResponse, k: &KeyPress, n: usize, visible: usize)
    requires
        n > 0,
        old(state).selected < n,
    ensures
        (*final(state), *final(resp)) == list_key((*old(state), *old(resp)), *k, n as nat, visible as nat),
        final(state).selected < n,
{
    proof {
        reveal_strlit("g");
        reveal_strlit("j");
        reveal_strlit("k");
        reveal_strlit("G");
        reveal_strlit("d");
        reveal_strlit("u");
        reveal_strlit("l");
        reveal_strlit("o");
        reveal_strlit("h");
        reveal_strlit("/");
    }
    let pending = state.pending_g;
    state.pending_g = false;
    if pending && k.is_char("g") {
        state.selected = 0;
        return;
    }
    if k.is_char("j") || k.named(NamedKey::ArrowDown) {
        state.selected = if state.selected + 1 < n { state.selected + 1 } else { n - 1 };
    } else if k.is_char("k") || k.named(NamedKey::ArrowUp) {
        state.selected = if state.selected > 0 { state.selected - 1 } else { 0 };
    } else if k.is_char("G") || k.named(NamedKey::End) {
        state.selected = n - 1;
    } else if k.is_char("g") {
        state.pending_g = true;
    } else if k.named(NamedKey::Home) {
        state.selected = 0;
    } else if k.named(NamedKey::PageDown) || k.ctrl("d") {
        state.selected = if visible / 2 < n - state.selected { state.selected + visible / 2 } else { n - 1 };
    } else if k.named(NamedKey::PageUp) || k.ctrl("u") {
        state.selected = if state.selected >= visible / 2 { state.selected - visible / 2 } else { 0 };
    } else if k.named(NamedKey::Enter) || k.is_char("l") || k.is_char("o") {
        resp.activated = Some(state.selected);
    } else if k.is_char("h") {
        resp.collapse = Some(state.selected);
    } else if k.named(NamedKey::Escape) {
        resp.escape = true;
    } else if k.is_char("/") {
        resp.slash = true;
    }
}

/// The scroll that keeps the selection in view: the first row scrolls to it, a row below the
/// screen scrolls so it is the last one shown, and the scroll never passes the last screen.
pub open spec fn kept_in_view(selected: nat, scroll: nat, n: nat, visible: nat) -> nat {
    let s = if selected < scroll {
        selected
    } else if selected >= scroll + visible {
        (selected + 1 - visible) as nat
    } else {
        scroll
    };
    let last = if n >= visible { (n - visible) as nat } else { 0 };
    if s < last { s } else { last }
}

/// The key handling of a list of `n` rows with `visible >= 1` rows on screen: nothing for an
/// empty list; else the selection is brought inside the list, each key (when `focused`) is
/// applied in order, the scroll follows the selection, and the response says whether the
/// selection changed.
pub fn list_keys(state: &mut ListState, n: usize, visible: usize, focused: bool, keys: &Vec<KeyPress>) -> (resp: ListResponse)
    requires
        visible >= 1,
    ensures
        n == 0 ==> *final(state) == *old(state) && resp == no_list_response(),
        n > 0 ==> {
            let start = ListState { selected: if old(state).selected < n { old(state).selected } else { (n - 1) as usize }, ..*old(state) };
            let keyed = if focused { list_keys_from((start, no_list_response()), keys@, n as nat, visible as nat) } else { (start, no_list_response()) };
            &&& final(state).selected == keyed.0.selected
            &&& final(state).pending_g == keyed.0.pending_g
            &&& final(state).scroll == kept_in_view(keyed.0.selected as nat, keyed.0.scroll as nat, n as nat, visible as nat)
            &&& resp == ListResponse { selection_changed: keyed.0.selected != old(state).selected, ..keyed.1 }
        },
{
    let mut resp = ListResponse { activated: None, collapse: None, selection_changed: false, escape: false, slash: false };
    if n == 0 {
        return resp;
    }
    let old_selected = state.selected;
    if state.selected >= n {
        state.selected = n - 1;
    }
    if focused {
        let ghost start = *state;
        let mut i: usize = 0;
        while i < keys.len()
            invariant
                n > 0,
                i <= keys@.len(),
                state.selected < n,
                (*state, resp) == list_keys_from((start, no_list_response()), keys@.take(i as int), n as nat, visible as nat),
            decreases keys@.len() - i,
        {
            proof {
                assert(keys@.take(i + 1).drop_last() =~= keys@.take(i as int));
            }
            list_key_step(state, &mut resp, &keys[i], n, visible);
            i += 1;
        }
        proof {
            assert(keys@.take(keys@.len() as int) =~= keys@);
        }
    }
    if state.selected < state.scroll {
        state.scroll = state.selected;
    } else if state.selected - state.scroll >= visible {
        state.scroll = state.selected + 1 - visible;
    }
    let last = if n >= visible { n - visible } else { 0 };
    if state.scroll > last {
        state.scroll = last;
    }
    resp.selection_changed = state.selected != old_selected;
    resp
}

// ---- text fields ----

#[derive(Clone, Debug)]
pub struct TextState {
    pub text: String,
    /// Cursor position in chars.
    pub cursor: usize,
}

/// `s` typed at the cursor (or at the end when the cursor is past it).
pub open spec fn spec_insert(t: Seq<char>, cursor: int, s: Seq<char>) -> (Seq<char>, int) {
    let at = if cursor < t.len() { cursor } else { t.len() as int };
    (t.take(at) + s + t.skip(at), cursor + s.len())
}

/// The character before the cursor removed.
pub open spec fn spec_backspace(t: Seq<char>, cursor: int) -> (Seq<char>, int) {
    if cursor == 0 {
        (t, cursor)
    } else {
        let start = if cursor - 1 < t.len() { cursor - 1 } else { t.len() as int };
        let end = if cursor < t.len() { cursor } else { t.len() as int };
        (t.take(start) + t.skip(end), cursor - 1)
    }
}

/// The character under the cursor removed.
pub open spec fn spec_delete(t: Seq<char>, cursor: int) -> (Seq<char>, int) {
    if cursor >= t.len() {
        (t, cursor)
    } else {
        (t.take(cursor) + t.skip(cursor + 1), cursor)
    }
}

pub open spec fn skip_blanks(t: Seq<char>, i: int) -> int
    decreases i,
{
    if i > 0 && i <= t.len() && is_white_space(t[i - 1]) {
        skip_blanks(t, i - 1)
    } else {
        i
    }
}

pub open spec fn skip_word(t: Seq<char>, i: int) -> int
    decreases i,
{
    if i > 0 && i <= t.len() && !is_white_space(t[i - 1]) {
        skip_word(t, i - 1)
    } else {
        i
    }
}

/// The word before the cursor (and the blanks after it) removed.
pub open spec fn spec_word_back(t: Seq<char>, cursor: int) -> (Seq<char>, int) {
    let i = skip_word(t, skip_blanks(t, cursor));
    (t.take(i) + t.skip(cursor), i)
}

proof fn lemma_skip_bounds(t: Seq<char>, i: int)
    requires
        0 <= i <= t.len(),
    ensures
        0 <= skip_blanks(t, i) <= i,
        0 <= skip_word(t, i) <= i,
    decreases i,
{
    if i > 0 {
        lemma_skip_bounds(t, i - 1);
    }
}

impl TextState {
    pub fn new() -> (s: TextState)
        ensures
            s.text@ == Seq::<char>::empty(),
            s.cursor == 0,
    {
        TextState { text: String::new(), cursor: 0 }
    }

    /// Replace the text; the cursor goes to its end.
    pub fn set(&mut self, text: &str)
        ensures
            final(self).text@ == text@,
            final(self).cursor == text@.len(),
    {
        let cs = chars_of(text);
        self.text = string_from_chars(cs.as_slice());
        self.cursor = cs.len();
    }

    /// Type `s` at the cursor.
    pub fn insert(&mut self, s: &str)
        requires
            old(self).cursor + s@.len() <= usize::MAX,
        ensures
            (final(self).text@, final(self).cursor as int) == spec_insert(old(self).text@, old(self).cursor as int, s@),
    {
        let t = chars_of(self.text.as_str());
        let add = chars_of(s);
        let at = if self.cursor < t.len() { self.cursor } else { t.len() };
        let mut out: Vec<char> = Vec::new();
        let mut i: usize = 0;
        while i < at
            invariant
                at <= t@.len(),
                i <= at,
                out@ == t@.take(i as int),
            decreases at - i,
        {
            out.push(t[i]);
            i += 1;
            proof {
                assert(out@ =~= t@.take(i as int));
            }
        }
        let mut j: usize = 0;
        while j < add.len()
            invariant
                j <= add@.len(),
                out@ == t@.take(at as int) + add@.take(j as int),
            decreases add@.len() - j,
        {
            out.push(add[j]);
            j += 1;
            proof {
                assert(out@ =~= t@.take(at as int) + add@.take(j as int));
            }
        }
        let mut k: usize = at;
        while k < t.len()
            invariant
                at <= k <= t@.len(),
                out@ == t@.take(at as int) + add@ + t@.subrange(at as int, k as int),
            decreases t@.len() - k,
        {
            out.push(t[k]);
            k += 1;
            proof {
                assert(out@ =~= t@.take(at as int) + add@ + t@.subrange(at as int, k as int));
            }
        }
        proof {
            assert(add@.take(add@.len() as int) =~= add@);
            assert(t@.subrange(at as int, t@.len() as int) =~= t@.skip(at as int));
        }
        self.text = string_from_chars(out.as_slice());
        self.cursor = self.cursor + add.len();
    }

    /// Remove the characters from `start` to `end` (character positions, `start <= end <= len`).
    fn remove_range(&mut self, start: usize, end: usize)
        requires
            start <= end <= old(self).text@.len(),
        ensures
            final(self).text@ == old(self).text@.take(start as int) + old(self).text@.skip(end as int),
            final(self).cursor == old(self).cursor,
    {
        let t = chars_of(self.text.as_str());
        let mut out: Vec<char> = Vec::new();
        let mut i: usize = 0;
        while i < start
            invariant
                start <= t@.len(),
                i <= start,
                out@ == t@.take(i as int),
            decreases start - i,
        {
            out.push(t[i]);
            i += 1;
            proof {
                assert(out@ =~= t@.take(i as int));
            }
        }
        let mut k: usize = end;
        while k < t.len()
            invariant
                start <= end <= k <= t@.len(),
                out@ == t@.take(start as int) + t@.subrange(end as int, k as int),
            decreases t@.len() - k,
        {
            out.push(t[k]);
            k += 1;
            proof {
                assert(out@ =~= t@.take(start as int) + t@.subrange(end as int, k as int));
            }
        }
        proof {
            assert(t@.subrange(end as int, t@.len() as int) =~= t@.skip(end as int));
        }
        self.text = string_from_chars(out.as_slice());
    }

    pub fn backspace(&mut self)
        ensures
            (final(self).text@, final(self).cursor as int) == spec_backspace(old(self).text@, old(self).cursor as int),
    {
        if self.cursor == 0 {
            return;
        }
        let len = chars_of(self.text.as_str()).len();
        let start = if self.cursor - 1 < len { self.cursor - 1 } else { len };
        let end = if self.cursor < len { self.cursor } else { len };
        self.remove_range(start, end);
        self.cursor = self.cursor - 1;
    }

    pub fn delete(&mut self)
        ensures
            (final(self).text@, final(self).cursor as int) == spec_delete(old(self).text@, old(self).cursor as int),
    {
        let len = chars_of(self.text.as_str()).len();
        if self.cursor >= len {
            return;
        }
        self.remove_range(self.cursor, self.cursor + 1);
    }

    pub fn word_back(&mut self)
        requires
            old(self).cursor <= old(self).text@.len(),
        ensures
            (final(self).text@, final(self).cursor as int) == spec_word_back(old(self).text@, old(self).cursor as int),
    {
        let chars = chars_of(self.text.as_str());
        let mut i = self.cursor;
        while i > 0 && is_whitespace(chars[i - 1])
            invariant
                i <= self.cursor <= chars@.len(),
                chars@ == self.text@,
                skip_blanks(chars@, self.cursor as int) == skip_blanks(chars@, i as int),
            decreases i,
        {
            i -= 1;
        }
        let ghost mid = i;
        while i > 0 && !is_whitespace(chars[i - 1])
            invariant
                i <= mid <= self.cursor <= chars@.len(),
                chars@ == self.text@,
                mid == skip_blanks(chars@, self.cursor as int),
                skip_word(chars@, mid as int) == skip_word(chars@, i as int),
            decreases i,
        {
            i -= 1;
        }
        let cursor = self.cursor;
        self.remove_range(i, cursor);
        self.cursor = i;
    }
}

#[derive(Clone, Copy, Debug, PartialEq, Eq, Structural)]
pub struct TextResponse {
    pub changed: bool,
    pub submitted: bool,
    pub cancelled: bool,
    /// Up/Down arrows, for lists driven from a search box.
    pub up: bool,
    pub down: bool,
    pub clicked: bool,
}

#[derive(Clone, Copy, Debug, PartialEq, Eq, Structural)]
pub struct TabResponse {
    pub activated: Option<usize>,
    pub closed: Option<usize>,
}


/// What one key does to a text field (text, cursor) and its response: Enter submits, Escape
/// cancels, Up/Down (and Ctrl-N/P/J/K) are reported; Backspace and Delete remove a character
/// (Ctrl-Backspace and Ctrl-W the word before the cursor), Ctrl-U clears; the arrows,
/// Home/End and Ctrl-A/E move the cursor; Space and plain characters type their text.
pub open spec fn spec_text_key(t: Seq<char>, c: int, r: TextResponse, k: KeyPress) -> (Seq<char>, int, TextResponse) {
    let ctrl = k.modifiers.control;
    match k.key {
        Key::Named(NamedKey::Enter) => (t, c, TextResponse { submitted: true, ..r }),
        Key::Named(NamedKey::Escape) => (t, c, TextResponse { cancelled: true, ..r }),
        Key::Named(NamedKey::ArrowUp) => (t, c, TextResponse { up: true, ..r }),
        Key::Named(NamedKey::ArrowDown) => (t, c, TextResponse { down: true, ..r }),
        Key::Named(NamedKey::Backspace) => {
            let e = if ctrl { spec_word_back(t, c) } else { spec_backspace(t, c) };
            (e.0, e.1, TextResponse { changed: true, ..r })
        },
        Key::Named(NamedKey::Delete) => {
            let e = spec_delete(t, c);
            (e.0, e.1, TextResponse { changed: true, ..r })
        },
        Key::Named(NamedKey::ArrowLeft) => (t, if c > 0 { c - 1 } else { 0 }, r),
        Key::Named(NamedKey::ArrowRight) => (t, if c + 1 < t.len() { c + 1 } else { t.len() as int }, r),
        Key::Named(NamedKey::Home) => (t, 0, r),
        Key::Named(NamedKey::End) => (t, t.len() as int, r),
        Key::Named(NamedKey::Space) => {
            let e = spec_insert(t, c, seq![' ']);
            (e.0, e.1, TextResponse { changed: true, ..r })
        },
        Key::Character(s) => if ctrl && eq_ignore_ascii_case(s@, "u"@) {
            (Seq::empty(), 0, TextResponse { changed: true, ..r })
        } else if ctrl && eq_ignore_ascii_case(s@, "w"@) {
            let e = spec_word_back(t, c);
            (e.0, e.1, TextResponse { changed: true, ..r })
        } else if ctrl && eq_ignore_ascii_case(s@, "a"@) {
            (t, 0, r)
        } else if ctrl && eq_ignore_ascii_case(s@, "e"@) {
            (t, t.len() as int, r)
        } else if ctrl && (eq_ignore_ascii_case(s@, "n"@) || eq_ignore_ascii_case(s@, "j"@)) {
            (t, c, TextResponse { down: true, ..r })
        } else if ctrl && (eq_ignore_ascii_case(s@, "p"@) || eq_ignore_ascii_case(s@, "k"@)) {
            (t, c, TextResponse { up: true, ..r })
        } else if !ctrl && !k.modifiers.alt {
            match k.text {
                Some(typed) => {
                    let e = spec_insert(t, c, typed@);
                    (e.0, e.1, TextResponse { changed: true, ..r })
                },
                None => (t, c, r),
            }
        } else {
            (t, c, r)
        },
        _ => (t, c, r),
    }
}

/// Can `text_key` take this key? Removing a word needs the cursor inside the text, and typing
/// needs the cursor to count on.
pub open spec fn text_key_ok(t: Seq<char>, c: int, k: KeyPress) -> bool {
    &&& (k.modifiers.control && (k.key matches Key::Named(NamedKey::Backspace))) ==> c <= t.len()
    &&& match k.key {
        Key::Character(s) => k.modifiers.control && eq_ignore_ascii_case(s@, "w"@) ==> c <= t.len(),
        _ => true,
    }
    &&& (k.key matches Key::Named(NamedKey::Space)) ==> c + 1 <= usize::MAX
    &&& match (k.key, k.text) {
        (Key::Character(_), Some(typed)) => c + typed@.len() <= usize::MAX,
        _ => true,
    }
}

/// Apply one key press to a text field's state (see `spec_text_key`).
pub fn text_key(state: &mut TextState, k: &KeyPress, resp: &mut TextResponse)
    requires
        text_key_ok(old(state).text@, old(state).cursor as int, *k),
    ensures
        (final(state).text@, final(state).cursor as int, *final(resp)) == spec_text_key(
            old(state).text@,
            old(state).cursor as int,
            *old(resp),
            *k,
        ),
{
    proof {
        reveal_strlit("u");
        reveal_strlit("w");
        reveal_strlit("a");
        reveal_strlit("e");
        reveal_strlit("n");
        reveal_strlit("j");
        reveal_strlit("p");
        reveal_strlit("k");
        reveal_strlit(" ");
    }
    let ctrl = k.modifiers.control;
    match &k.key {
        Key::Named(NamedKey::Enter) => resp.submitted = true,
        Key::Named(NamedKey::Escape) => resp.cancelled = true,
        Key::Named(NamedKey::ArrowUp) => resp.up = true,
        Key::Named(NamedKey::ArrowDown) => resp.down = true,
        Key::Named(NamedKey::Backspace) => {
            if ctrl {
                state.word_back();
            } else {
                state.backspace();
            }
            resp.changed = true;
        },
        Key::Named(NamedKey::Delete) => {
            state.delete();
            resp.changed = true;
        },
        Key::Named(NamedKey::ArrowLeft) => state.cursor = if state.cursor > 0 { state.cursor - 1 } else { 0 },
        Key::Named(NamedKey::ArrowRight) => {
            let len = chars_of(state.text.as_str()).len();
            state.cursor = if state.cursor < len { state.cursor + 1 } else { len };
        },
        Key::Named(NamedKey::Home) => state.cursor = 0,
        Key::Named(NamedKey::End) => state.cursor = chars_of(state.text.as_str()).len(),
        Key::Named(NamedKey::Space) => {
            state.insert(" ");
            resp.changed = true;
        },
        Key::Character(c) => {
            let s = c.as_str();
            if ctrl && same_ignoring_ascii_case(s, "u") {
                state.text = String::new();
                state.cursor = 0;
                resp.changed = true;
            } else if ctrl && same_ignoring_ascii_case(s, "w") {
                state.word_back();
                resp.changed = true;
            } else if ctrl && same_ignoring_ascii_case(s, "a") {
                state.cursor = 0;
            } else if ctrl && same_ignoring_ascii_case(s, "e") {
                state.cursor = chars_of(state.text.as_str()).len();
            } else if ctrl && (same_ignoring_ascii_case(s, "n") || same_ignoring_ascii_case(s, "j")) {
                resp.down = true;
            } else if ctrl && (same_ignoring_ascii_case(s, "p") || same_ignoring_ascii_case(s, "k")) {
                resp.up = true;
            } else if !ctrl && !k.modifiers.alt {
                match &k.text {
                    Some(typed) => {
                        state.insert(typed.as_str());
                        resp.changed = true;
                    },
                    None => {},
                }
            }
        },
        _ => {},
    }
}


/// Typing a character and then pressing backspace gives the text and the cursor back.
pub proof fn law_insert_then_backspace(t: Seq<char>, cursor: int, c: char)
    requires
        0 <= cursor <= t.len(),
    ensures
        spec_backspace(spec_insert(t, cursor, seq![c]).0, spec_insert(t, cursor, seq![c]).1) == (t, cursor),
{
    let (t1, c1) = spec_insert(t, cursor, seq![c]);
    assert(t1.take(cursor) + t1.skip(cursor + 1) =~= t);
}

/// Deleting at the cursor after typing a character and stepping back over it gives the text
/// back: delete removes what is under the cursor.
pub proof fn law_insert_then_delete(t: Seq<char>, cursor: int, c: char)
    requires
        0 <= cursor <= t.len(),
    ensures
        spec_delete(spec_insert(t, cursor, seq![c]).0, cursor) == (t, cursor),
{
    let (t1, c1) = spec_insert(t, cursor, seq![c]);
    assert(t1.take(cursor) + t1.skip(cursor + 1) =~= t);
}


/// Whatever keys come, the selection of a non-empty list stays on one of its rows.
pub proof fn law_list_selection_stays_inside(st: (ListState, ListResponse), keys: Seq<KeyPress>, n: nat, visible: nat)
    requires
        n > 0,
        st.0.selected < n,
    ensures
        list_keys_from(st, keys, n, visible).0.selected < n,
    decreases keys.len(),
{
    if keys.len() > 0 {
        law_list_selection_stays_inside(st, keys.drop_last(), n, visible);
    }
}

/// The scroll that follows the selection shows it: the selected row is among the `visible`
/// rows from the scroll on.
pub proof fn law_scroll_shows_selection(selected: nat, scroll: nat, n: nat, visible: nat)
    requires
        selected < n,
        visible >= 1,
    ensures
        kept_in_view(selected, scroll, n, visible) <= selected < kept_in_view(selected, scroll, n, visible) + visible,
{
}


/// Can `text_key` take `k` in this state (see `text_key_ok`)? Ctrl+Backspace and Ctrl+W need
/// the cursor inside the text; typing needs the cursor to stay a `usize`.
pub fn text_key_accepts(state: &TextState, k: &KeyPress) -> (b: bool)
    ensures
        b == text_key_ok(state.text@, state.cursor as int, *k),
{
    proof {
        reveal_strlit("w");
    }
    let len = chars_of(state.text.as_str()).len();
    let inside = state.cursor <= len;
    let ctrl_bs = k.modifiers.control && k.named(NamedKey::Backspace);
    let ctrl_w = match &k.key {
        Key::Character(s) => k.modifiers.control && same_ignoring_ascii_case(s.as_str(), "w"),
        _ => false,
    };
    let space_ok = !k.named(NamedKey::Space) || state.cursor < usize::MAX;
    let typed_ok = match (&k.key, &k.text) {
        (Key::Character(_), Some(typed)) => chars_of(typed.as_str()).len() <= usize::MAX - state.cursor,
        _ => true,
    };
    (!ctrl_bs || inside) && (!ctrl_w || inside) && space_ok && typed_ok
}

/// Typing one character at the cursor and then a backspace gives back the text and the cursor
/// as they were.
pub proof fn law_backspace_undoes_insert(t: Seq<char>, cursor: int, c: char)
    requires
        0 <= cursor <= t.len(),
    ensures
        spec_backspace(spec_insert(t, cursor, seq![c]).0, spec_insert(t, cursor, seq![c]).1) == (t, cursor),
{
    let u = spec_insert(t, cursor, seq![c]).0;
    assert(u.len() == t.len() + 1);
    assert(u.take(cursor) + u.skip(cursor + 1) =~= t);
}

/// A click on row `row` of `n` rows (`toggle`: the row's open/closed marker, if it has one;
/// `at_toggle`: the click fell on it). A row past the end does nothing. Otherwise the row is
/// selected; a click on the marker of an open row collapses it, and a click on the marker or
/// on the row already selected activates it. The result is (activated, collapsed).
pub open spec fn spec_list_click(s: ListState, row: nat, n: nat, toggle: Option<bool>, at_toggle: bool) -> (ListState, Option<usize>, Option<usize>) {
    if row >= n {
        (s, None, None)
    } else {
        let hit = toggle is Some && at_toggle;
        let s2 = ListState { selected: row as usize, ..s };
        if row == s.selected || hit {
            if hit && toggle == Some(true) {
                (s2, None, Some(row as usize))
            } else {
                (s2, Some(row as usize), None)
            }
        } else {
            (s2, None, None)
        }
    }
}

pub fn list_click(state: &mut ListState, row: usize, n: usize, toggle: Option<bool>, at_toggle: bool) -> (r: (Option<usize>, Option<usize>))
    ensures
        (*final(state), r.0, r.1) == spec_list_click(*old(state), row as nat, n as nat, toggle, at_toggle),
{
    if row >= n {
        return (None, None);
    }
    let hit = toggle.is_some() && at_toggle;
    let mut r: (Option<usize>, Option<usize>) = (None, None);
    if row == state.selected || hit {
        if hit && toggle == Some(true) {
            r = (None, Some(row));
        } else {
            r = (Some(row), None);
        }
    }
    state.selected = row;
    r
}

/// The scroll after a wheel movement of `delta` rows, kept between the top and the last
/// screenful of `n` rows with `visible` on screen.
pub open spec fn spec_wheel_scroll(scroll: int, delta: int, n: int, visible: int) -> int {
    let last = if n > visible { n - visible } else { 0 };
    let s = scroll + delta;
    if s < 0 {
        0
    } else if s > last {
        last
    } else {
        s
    }
}

pub fn list_wheel(state: &mut ListState, delta: i64, n: usize, visible: usize)
    ensures
        *final(state) == (ListState {
            scroll: spec_wheel_scroll(old(state).scroll as int, delta as int, n as int, visible as int) as usize,
            ..*old(state)
        }),
{
    let last: usize = if n > visible { n - visible } else { 0 };
    let s: i128 = state.scroll as i128 + delta as i128;
    if s < 0 {
        state.scroll = 0;
    } else if s > last as i128 {
        state.scroll = last;
    } else {
        state.scroll = s as usize;
    }
}

/// The scroll that keeps the selection in view with `visible` rows on screen, then kept within
/// the last screenful of `n` rows.
pub open spec fn spec_follow_scroll(selected: int, scroll: int, n: int, visible: int) -> int {
    let s = if selected < scroll {
        selected
    } else if selected >= scroll + visible {
        selected + 1 - visible
    } else {
        scroll
    };
    let last = if n > visible { n - visible } else { 0 };
    if s < last { s } else { last }
}

pub fn list_follow(state: &mut ListState, n: usize, visible: usize)
    requires
        visible >= 1,
    ensures
        *final(state) == (ListState {
            scroll: spec_follow_scroll(old(state).selected as int, old(state).scroll as int, n as int, visible as int) as usize,
            ..*old(state)
        }),
{
    if state.selected < state.scroll {
        state.scroll = state.selected;
    } else if state.selected - state.scroll >= visible {
        state.scroll = state.selected - (visible - 1);
    }
    let last: usize = if n > visible { n - visible } else { 0 };
    if state.scroll > last {
        state.scroll = last;
    }
}

} // verus!
