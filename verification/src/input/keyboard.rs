//! Key events to Neovim input strings. The rules that matter:
//! - only key presses are sent, never releases; synthetic events are ignored;
//! - the OS-composed `text` is used for normal keys, so dead keys, AltGr and shifted layouts
//!   come out right; special keys use Neovim's names (<BS>, <F5>, <kEnter>...);
//! - Shift is only spelled out for special keys and for Ctrl+letter (Ctrl+Shift+a is <S-C-A>);
//! - `<` becomes `<lt>`, because a bare `<` would swallow the keys after it;
//! - Alt is Meta (<M-x>).

use vstd::prelude::*;

use crate::text::{chars_of, decimal, decimal_string, digit_char, string_from_chars};
use crate::ui::{Key, Modifiers, NamedKey};

verus! {

/// The physical keys whose meaning depends on the numpad; every other key is `Other`.
#[derive(Clone, Copy, Debug, PartialEq, Eq, Structural)]
pub enum KeyCode {
    NumpadDivide,
    NumpadMultiply,
    NumpadSubtract,
    NumpadAdd,
    NumpadEnter,
    NumpadEqual,
    NumpadComma,
    NumpadDecimal,
    Numpad0,
    Numpad1,
    Numpad2,
    Numpad3,
    Numpad4,
    Numpad5,
    Numpad6,
    Numpad7,
    Numpad8,
    Numpad9,
    Other,
}

/// A key press or release: the key as the layout reads it, the physical key, whether it is on
/// the numpad, and the text the OS composed for it.
pub struct KeyEvent {
    pub logical_key: Key,
    pub physical_key: KeyCode,
    pub numpad: bool,
    pub text: Option<String>,
    pub pressed: bool,
}

/// What the window reports that the keyboard cares about.
pub enum WindowInput {
    Keyboard { event: KeyEvent, is_synthetic: bool },
    ImeCommit(String),
    ImePreedit(String),
    ModifiersChanged(Modifiers),
    Other,
}

/// What a keyboard event turned into.
#[derive(Debug, Clone, PartialEq, Eq)]
pub enum KeyOutput {
    /// Send this through `nvim_input`.
    Input(String),
    /// IME composition text changed (shown by the shell, not sent).
    Preedit(String),
    Nothing,
}

/// `KeyOutput` as values.
pub enum KeyOutputView {
    Input(Seq<char>),
    Preedit(Seq<char>),
    Nothing,
}

pub open spec fn output_view(o: KeyOutput) -> KeyOutputView {
    match o {
        KeyOutput::Input(s) => KeyOutputView::Input(s@),
        KeyOutput::Preedit(s) => KeyOutputView::Preedit(s@),
        KeyOutput::Nothing => KeyOutputView::Nothing,
    }
}

pub open spec fn is_ascii_alpha(c: char) -> bool {
    ('a' <= c && c <= 'z') || ('A' <= c && c <= 'Z')
}

/// One ASCII letter.
pub open spec fn is_ascii_letter(text: Seq<char>) -> bool {
    text.len() == 1 && is_ascii_alpha(text[0])
}

pub open spec fn ascii_upper(c: char) -> char {
    if 'a' <= c && c <= 'z' {
        ((c as u8) - 32) as char
    } else {
        c
    }
}

/// The numpad key's name; with Num Lock (the key has text) the digits, else the moves.
pub open spec fn spec_numpad_name(code: KeyCode, numlock: bool, logical: Option<Seq<char>>) -> Option<Seq<char>> {
    let point = if logical == Some(","@) {
        Some("kComma"@)
    } else if logical == Some("."@) {
        Some("kPoint"@)
    } else {
        None
    };
    match code {
        KeyCode::NumpadDivide => Some("kDivide"@),
        KeyCode::NumpadMultiply => Some("kMultiply"@),
        KeyCode::NumpadSubtract => Some("kMinus"@),
        KeyCode::NumpadAdd => Some("kPlus"@),
        KeyCode::NumpadEnter => Some("kEnter"@),
        KeyCode::NumpadEqual => Some("kEqual"@),
        KeyCode::NumpadComma => point,
        KeyCode::NumpadDecimal => if numlock { point } else { Some("kDel"@) },
        KeyCode::Numpad9 => Some(if numlock { "k9"@ } else { "kPageUp"@ }),
        KeyCode::Numpad8 => Some(if numlock { "k8"@ } else { "kUp"@ }),
        KeyCode::Numpad7 => Some(if numlock { "k7"@ } else { "kHome"@ }),
        KeyCode::Numpad6 => Some(if numlock { "k6"@ } else { "kRight"@ }),
        KeyCode::Numpad5 => Some(if numlock { "k5"@ } else { "kOrigin"@ }),
        KeyCode::Numpad4 => Some(if numlock { "k4"@ } else { "kLeft"@ }),
        KeyCode::Numpad3 => Some(if numlock { "k3"@ } else { "kPageDown"@ }),
        KeyCode::Numpad2 => Some(if numlock { "k2"@ } else { "kDown"@ }),
        KeyCode::Numpad1 => Some(if numlock { "k1"@ } else { "kEnd"@ }),
        KeyCode::Numpad0 => Some(if numlock { "k0"@ } else { "Insert"@ }),
        KeyCode::Other => None,
    }
}

/// Neovim's name for a named key; Space only when it types a space (or nothing), since it
/// can also finish a dead-key sequence.
pub open spec fn spec_named_key_name(key: NamedKey, text: Option<Seq<char>>) -> Option<Seq<char>> {
    match key {
        NamedKey::ArrowDown => Some("Down"@),
        NamedKey::ArrowLeft => Some("Left"@),
        NamedKey::ArrowRight => Some("Right"@),
        NamedKey::ArrowUp => Some("Up"@),
        NamedKey::Backspace => Some("BS"@),
        NamedKey::Delete => Some("Del"@),
        NamedKey::End => Some("End"@),
        NamedKey::Enter => Some("Enter"@),
        NamedKey::Escape => Some("Esc"@),
        NamedKey::F(n) => if 1 <= n <= 24 { Some(seq!['F'] + decimal(n as nat)) } else { None },
        NamedKey::Home => Some("Home"@),
        NamedKey::Insert => Some("Insert"@),
        NamedKey::PageDown => Some("PageDown"@),
        NamedKey::PageUp => Some("PageUp"@),
        NamedKey::Space => if text == Some(" "@) || text is None { Some("Space"@) } else { None },
        NamedKey::Tab => Some("Tab"@),
        NamedKey::Other => None,
    }
}

pub open spec fn text_view(t: Option<String>) -> Option<Seq<char>> {
    match t {
        Some(s) => Some(s@),
        None => None,
    }
}

pub open spec fn character_view(k: Key) -> Option<Seq<char>> {
    match k {
        Key::Character(s) => Some(s@),
        _ => None,
    }
}

/// The special name of a key event, if it has one: numpad keys by their numpad name, named
/// keys by Neovim's name.
pub open spec fn spec_special_key(e: &KeyEvent) -> Option<Seq<char>> {
    if e.numpad {
        spec_numpad_name(e.physical_key, e.text is Some, character_view(e.logical_key))
    } else {
        match e.logical_key {
            Key::Named(k) => spec_named_key_name(k, text_view(e.text)),
            _ => None,
        }
    }
}

/// The modifier prefix, `S-C-M-D-` style: Shift only for special keys or Ctrl with a letter.
pub open spec fn spec_modifier_string(m: Modifiers, text: Seq<char>, is_special: bool) -> Seq<char> {
    let include_shift = is_special || (m.control && is_ascii_letter(text));
    (if m.shift && include_shift { "S-"@ } else { Seq::empty() }) + (if m.control { "C-"@ } else { Seq::empty() }) + (if m.alt {
        "M-"@
    } else {
        Seq::empty()
    }) + (if m.logo { "D-"@ } else { Seq::empty() })
}

/// A key's text for Neovim: a shifted letter upper-cased, `<` spelled `lt`, and special keys or
/// modified ones in angle brackets with their modifiers.
pub open spec fn spec_format_key_text(m: Modifiers, text: Seq<char>, is_special: bool) -> Seq<char> {
    let text = if m.shift && is_ascii_letter(text) { seq![ascii_upper(text[0])] } else { text };
    let modifiers = spec_modifier_string(m, text, is_special);
    let (text, is_special) = if text == seq!['<'] { ("lt"@, true) } else { (text, is_special) };
    if modifiers.len() == 0 {
        if is_special { seq!['<'] + text + seq!['>'] } else { text }
    } else {
        seq!['<'] + modifiers + text + seq!['>']
    }
}

/// A key press for Neovim: its special name formatted, else its text (or the character it
/// types) formatted, else nothing.
pub open spec fn spec_format_key(m: Modifiers, e: &KeyEvent) -> Option<Seq<char>> {
    match spec_special_key(e) {
        Some(name) => Some(spec_format_key_text(m, name, true)),
        None => match text_view(e.text) {
            Some(t) => Some(spec_format_key_text(m, t, false)),
            None => match character_view(e.logical_key) {
                Some(t) => Some(spec_format_key_text(m, t, false)),
                None => None,
            },
        },
    }
}

fn str_is(s: &str, lit: &str) -> (b: bool)
    ensures
        b == (s@ == lit@),
{
    crate::text::str_eq(s, lit)
}

fn numpad_name(code: KeyCode, numlock: bool, logical: &Key) -> (r: Option<&'static str>)
    ensures
        match r {
            Some(s) => spec_numpad_name(code, numlock, character_view(*logical)) == Some(s@),
            None => spec_numpad_name(code, numlock, character_view(*logical)) is None,
        },
{
    let point = match logical {
        Key::Character(s) => if str_is(s.as_str(), ",") {
            Some("kComma")
        } else if str_is(s.as_str(), ".") {
            Some("kPoint")
        } else {
            None
        },
        _ => None,
    };
    match code {
        KeyCode::NumpadDivide => Some("kDivide"),
        KeyCode::NumpadMultiply => Some("kMultiply"),
        KeyCode::NumpadSubtract => Some("kMinus"),
        KeyCode::NumpadAdd => Some("kPlus"),
        KeyCode::NumpadEnter => Some("kEnter"),
        KeyCode::NumpadEqual => Some("kEqual"),
        KeyCode::NumpadComma => point,
        KeyCode::NumpadDecimal => if numlock { point } else { Some("kDel") },
        KeyCode::Numpad9 => Some(if numlock { "k9" } else { "kPageUp" }),
        KeyCode::Numpad8 => Some(if numlock { "k8" } else { "kUp" }),
        KeyCode::Numpad7 => Some(if numlock { "k7" } else { "kHome" }),
        KeyCode::Numpad6 => Some(if numlock { "k6" } else { "kRight" }),
        KeyCode::Numpad5 => Some(if numlock { "k5" } else { "kOrigin" }),
        KeyCode::Numpad4 => Some(if numlock { "k4" } else { "kLeft" }),
        KeyCode::Numpad3 => Some(if numlock { "k3" } else { "kPageDown" }),
        KeyCode::Numpad2 => Some(if numlock { "k2" } else { "kDown" }),
        KeyCode::Numpad1 => Some(if numlock { "k1" } else { "kEnd" }),
        KeyCode::Numpad0 => Some(if numlock { "k0" } else { "Insert" }),
        KeyCode::Other => None,
    }
}


fn named_key_name(key: NamedKey, text: &Option<String>) -> (r: Option<String>)
    ensures
        match r {
            Some(s) => spec_named_key_name(key, text_view(*text)) == Some(s@),
            None => spec_named_key_name(key, text_view(*text)) is None,
        },
{
    let name: &str = match key {
        NamedKey::ArrowDown => "Down",
        NamedKey::ArrowLeft => "Left",
        NamedKey::ArrowRight => "Right",
        NamedKey::ArrowUp => "Up",
        NamedKey::Backspace => "BS",
        NamedKey::Delete => "Del",
        NamedKey::End => "End",
        NamedKey::Enter => "Enter",
        NamedKey::Escape => "Esc",
        NamedKey::F(n) => {
            if 1 <= n && n <= 24 {
                let digits = chars_of(decimal_string(n as u64).as_str());
                let mut cs: Vec<char> = Vec::new();
                cs.push('F');
                let mut i: usize = 0;
                while i < digits.len()
                    invariant
                        i <= digits@.len(),
                        cs@ == seq!['F'] + digits@.take(i as int),
                    decreases digits@.len() - i,
                {
                    cs.push(digits[i]);
                    i += 1;
                    proof {
                        assert(digits@.take(i as int) =~= digits@.take(i - 1).push(digits@[i - 1]));
                    }
                }
                proof {
                    assert(digits@.take(i as int) =~= digits@);
                }
                return Some(string_from_chars(cs.as_slice()));
            }
            return None;
        },
        NamedKey::Home => "Home",
        NamedKey::Insert => "Insert",
        NamedKey::PageDown => "PageDown",
        NamedKey::PageUp => "PageUp",
        NamedKey::Space => {
            let ok = match text {
                Some(t) => str_is(t.as_str(), " "),
                None => true,
            };
            if ok {
                "Space"
            } else {
                return None;
            }
        },
        NamedKey::Tab => "Tab",
        NamedKey::Other => {
            return None;
        },
    };
    Some(String::from_str(name))
}

/// The special name of a key event (see `spec_special_key`).
pub fn get_special_key(e: &KeyEvent) -> (r: Option<String>)
    ensures
        match r {
            Some(s) => spec_special_key(e) == Some(s@),
            None => spec_special_key(e) is None,
        },
{
    if e.numpad {
        return match numpad_name(e.physical_key, e.text.is_some(), &e.logical_key) {
            Some(s) => Some(String::from_str(s)),
            None => None,
        };
    }
    match &e.logical_key {
        Key::Named(k) => named_key_name(*k, &e.text),
        _ => None,
    }
}

fn push_all(out: &mut Vec<char>, s: &str)
    ensures
        final(out)@ == old(out)@ + s@,
{
    let cs = chars_of(s);
    let ghost start = out@;
    let mut i: usize = 0;
    while i < cs.len()
        invariant
            i <= cs@.len(),
            out@ == start + cs@.take(i as int),
        decreases cs@.len() - i,
    {
        out.push(cs[i]);
        i += 1;
        proof {
            assert(cs@.take(i as int) =~= cs@.take(i - 1).push(cs@[i - 1]));
        }
    }
    proof {
        assert(cs@.take(i as int) =~= cs@);
    }
}

fn letter(text: &Vec<char>) -> (b: bool)
    ensures
        b == is_ascii_letter(text@),
{
    text.len() == 1 && (('a' <= text[0] && text[0] <= 'z') || ('A' <= text[0] && text[0] <= 'Z'))
}

fn modifier_chars(m: Modifiers, text: &Vec<char>, is_special: bool) -> (out: Vec<char>)
    ensures
        out@ == spec_modifier_string(m, text@, is_special),
{
    let include_shift = is_special || (m.control && letter(text));
    let mut out: Vec<char> = Vec::new();
    if m.shift && include_shift {
        push_all(&mut out, "S-");
    }
    let ghost a = out@;
    if m.control {
        push_all(&mut out, "C-");
    }
    let ghost b = out@;
    if m.alt {
        push_all(&mut out, "M-");
    }
    let ghost c = out@;
    if m.logo {
        push_all(&mut out, "D-");
    }
    proof {
        assert(a + (if m.control { "C-"@ } else { Seq::empty() }) =~= b);
        assert(b + (if m.alt { "M-"@ } else { Seq::empty() }) =~= c);
        assert(c + (if m.logo { "D-"@ } else { Seq::empty() }) =~= out@);
        assert((if m.shift && include_shift { "S-"@ } else { Seq::empty() }) =~= a);
    }
    out
}

fn format_text(m: Modifiers, text: &str, is_special: bool) -> (s: String)
    ensures
        s@ == spec_format_key_text(m, text@, is_special),
{
    let mut t = chars_of(text);
    if m.shift && letter(&t) {
        let c = t[0];
        let u = if 'a' <= c && c <= 'z' { ((c as u8) - 32) as char } else { c };
        t = Vec::new();
        t.push(u);
        proof {
            assert(t@ =~= seq![ascii_upper(text@[0])]);
        }
    }
    let modifiers = modifier_chars(m, &t, is_special);
    let lt = t.len() == 1 && t[0] == '<';
    proof {
        if t@ == seq!['<'] {
            assert(t@[0] == '<');
        }
        if lt {
            assert(t@ =~= seq!['<']);
        }
    }
    let special = is_special || lt;
    let mut out: Vec<char> = Vec::new();
    if modifiers.len() == 0 && !special {
        return string_from_chars(t.as_slice());
    }
    out.push('<');
    push_all(&mut out, string_from_chars(modifiers.as_slice()).as_str());
    if lt {
        push_all(&mut out, "lt");
    } else {
        push_all(&mut out, string_from_chars(t.as_slice()).as_str());
    }
    out.push('>');
    proof {
        if modifiers@.len() == 0 {
            assert(modifiers@ =~= Seq::<char>::empty());
        }
    }
    string_from_chars(out.as_slice())
}

/// Turns key events into Neovim input, keeping the modifiers held and the IME's composition.
pub struct KeyboardManager {
    modifiers: Modifiers,
    ime_preedit: String,
}

/// The keyboard as values: the modifiers held and the IME composition text.
pub struct KeyboardView {
    pub modifiers: Modifiers,
    pub preedit: Seq<char>,
}

/// What one window event does: a real key press (while no IME composition is shown) is
/// formatted and sent; an IME commit is sent as text; an IME composition is shown; a
/// modifier change is remembered; anything else does nothing.
pub open spec fn spec_handle_event(k: KeyboardView, e: &WindowInput) -> (KeyboardView, KeyOutputView) {
    match e {
        WindowInput::Keyboard { event, is_synthetic } => if !*is_synthetic && k.preedit.len() == 0 && event.pressed {
            match spec_format_key(k.modifiers, event) {
                Some(t) => (k, KeyOutputView::Input(t)),
                None => (k, KeyOutputView::Nothing),
            }
        } else {
            (k, KeyOutputView::Nothing)
        },
        WindowInput::ImeCommit(t) => (k, KeyOutputView::Input(spec_format_key_text(k.modifiers, t@, false))),
        WindowInput::ImePreedit(t) => (KeyboardView { preedit: t@, ..k }, KeyOutputView::Preedit(t@)),
        WindowInput::ModifiersChanged(m) => (KeyboardView { modifiers: *m, ..k }, KeyOutputView::Nothing),
        WindowInput::Other => (k, KeyOutputView::Nothing),
    }
}

impl KeyboardManager {
    pub closed spec fn spec_view(&self) -> KeyboardView {
        KeyboardView { modifiers: self.modifiers, preedit: self.ime_preedit@ }
    }

    /// No modifiers, no composition.
    pub fn new() -> (k: KeyboardManager)
        ensures
            k.spec_view() == (KeyboardView {
                modifiers: Modifiers { control: false, alt: false, shift: false, logo: false },
                preedit: Seq::empty(),
            }),
    {
        KeyboardManager { modifiers: Modifiers { control: false, alt: false, shift: false, logo: false }, ime_preedit: String::new() }
    }

    pub fn modifiers(&self) -> (m: Modifiers)
        ensures
            m == self.spec_view().modifiers,
    {
        self.modifiers
    }

    /// A key's text for Neovim (see `spec_format_key_text`).
    pub fn format_key_text(&self, text: &str, is_special: bool) -> (s: String)
        ensures
            s@ == spec_format_key_text(self.spec_view().modifiers, text@, is_special),
    {
        format_text(self.modifiers, text, is_special)
    }

    /// The modifier prefix (see `spec_modifier_string`).
    pub fn format_modifier_string(&self, text: &str, is_special: bool) -> (s: String)
        ensures
            s@ == spec_modifier_string(self.spec_view().modifiers, text@, is_special),
    {
        let t = chars_of(text);
        string_from_chars(modifier_chars(self.modifiers, &t, is_special).as_slice())
    }

    fn format_normal_key(&self, e: &KeyEvent) -> (r: Option<String>)
        ensures
            match r {
                Some(s) => spec_special_key(e) is None ==> spec_format_key(self.spec_view().modifiers, e) == Some(s@),
                None => spec_special_key(e) is None ==> spec_format_key(self.spec_view().modifiers, e) is None,
            },
    {
        match &e.text {
            Some(t) => Some(self.format_key_text(t.as_str(), false)),
            None => match &e.logical_key {
                Key::Character(t) => Some(self.format_key_text(t.as_str(), false)),
                _ => None,
            },
        }
    }

    /// A key press for Neovim (see `spec_format_key`).
    pub fn format_key(&self, e: &KeyEvent) -> (r: Option<String>)
        ensures
            match r {
                Some(s) => spec_format_key(self.spec_view().modifiers, e) == Some(s@),
                None => spec_format_key(self.spec_view().modifiers, e) is None,
            },
    {
        match get_special_key(e) {
            Some(name) => Some(self.format_key_text(name.as_str(), true)),
            None => self.format_normal_key(e),
        }
    }

    /// Handle one window event (see `spec_handle_event`).
    pub fn handle_event(&mut self, event: &WindowInput) -> (out: KeyOutput)
        ensures
            (final(self).spec_view(), output_view(out)) == spec_handle_event(old(self).spec_view(), event),
    {
        match event {
            WindowInput::Keyboard { event: key_event, is_synthetic } => {
                if !*is_synthetic && self.ime_preedit.as_str().is_empty() && key_event.pressed {
                    if let Some(text) = self.format_key(key_event) {
                        return KeyOutput::Input(text);
                    }
                }
                KeyOutput::Nothing
            },
            WindowInput::ImeCommit(text) => KeyOutput::Input(self.format_key_text(text.as_str(), false)),
            WindowInput::ImePreedit(text) => {
                self.ime_preedit = string_from_chars(chars_of(text.as_str()).as_slice());
                KeyOutput::Preedit(string_from_chars(chars_of(text.as_str()).as_slice()))
            },
            WindowInput::ModifiersChanged(m) => {
                self.modifiers = *m;
                KeyOutput::Nothing
            },
            WindowInput::Other => KeyOutput::Nothing,
        }
    }
}

proof fn lemma_decimal_shape(n: nat)
    ensures
        decimal(n).len() >= 1,
        n < 10 <==> decimal(n).len() == 1,
        forall|i: int| 0 <= i < decimal(n).len() ==> '0' <= #[trigger] decimal(n)[i] <= '9',
    decreases n,
{
    if n >= 10 {
        lemma_decimal_shape(n / 10);
        let d = decimal(n / 10);
        assert(decimal(n) == d.push(digit_char((n % 10) as u8)));
        assert forall|i: int| 0 <= i < decimal(n).len() implies '0' <= #[trigger] decimal(n)[i] <= '9' by {
            if i < d.len() {
                assert(decimal(n)[i] == d[i]);
            } else {
                assert(((n % 10) as u8) < 10);
                assert(48 <= ((48 + ((n % 10) as u8)) as u8) <= 57);
            }
        }
    } else {
        assert(((n % 10) as u8) < 10);
    }
}

proof fn lemma_digit_char_injective(a: u8, b: u8)
    requires
        a < 10,
        b < 10,
        digit_char(a) == digit_char(b),
    ensures
        a == b,
{
    assert((('0' as u8) + a) as char == (('0' as u8) + b) as char);
    assert(((('0' as u8) + a) as char) as u32 == ('0' as u8) + a);
    assert(((('0' as u8) + b) as char) as u32 == ('0' as u8) + b);
}

/// Different numbers are written differently.
proof fn lemma_decimal_injective(a: nat, b: nat)
    requires
        decimal(a) == decimal(b),
    ensures
        a == b,
    decreases a,
{
    lemma_decimal_shape(a);
    lemma_decimal_shape(b);
    let da = decimal(a);
    let db = decimal(b);
    if a < 10 && b < 10 {
        assert(da[0] == db[0]);
        lemma_digit_char_injective((a % 10) as u8, (b % 10) as u8);
    } else if a >= 10 && b >= 10 {
        assert(da.last() == db.last());
        lemma_digit_char_injective((a % 10) as u8, (b % 10) as u8);
        assert(da.drop_last() =~= decimal(a / 10));
        assert(db.drop_last() =~= decimal(b / 10));
        lemma_decimal_injective(a / 10, b / 10);
    }
}

/// Neovim's names for the named keys: no two keys share one, Home is `Home` and End is `End`.
pub proof fn law_named_key_names_differ(k1: NamedKey, k2: NamedKey, t1: Option<Seq<char>>, t2: Option<Seq<char>>)
    requires
        k1 != k2,
        spec_named_key_name(k1, t1) is Some,
        spec_named_key_name(k2, t2) is Some,
    ensures
        spec_named_key_name(k1, t1) != spec_named_key_name(k2, t2),
        spec_named_key_name(NamedKey::Home, t1) == Some("Home"@),
        spec_named_key_name(NamedKey::End, t1) == Some("End"@),
{
    reveal_strlit("Down");
    reveal_strlit("Left");
    reveal_strlit("Right");
    reveal_strlit("Up");
    reveal_strlit("BS");
    reveal_strlit("Del");
    reveal_strlit("End");
    reveal_strlit("Enter");
    reveal_strlit("Esc");
    reveal_strlit("Home");
    reveal_strlit("Insert");
    reveal_strlit("PageDown");
    reveal_strlit("PageUp");
    reveal_strlit("Space");
    reveal_strlit("Tab");
    let n1 = spec_named_key_name(k1, t1)->0;
    let n2 = spec_named_key_name(k2, t2)->0;
    if n1 == n2 {
        match (k1, k2) {
            (NamedKey::F(a), NamedKey::F(b)) => {
                assert(n1.drop_first() =~= decimal(a as nat));
                assert(n2.drop_first() =~= decimal(b as nat));
                lemma_decimal_injective(a as nat, b as nat);
            },
            (NamedKey::F(a), _) => {
                lemma_decimal_shape(a as nat);
                assert(n1[0] == 'F');
                assert(n1.len() >= 2);
                assert(n2[0] == n1[0]);
                assert(n2[1] == n1[1]);
                assert('0' <= n1[1] <= '9');
            },
            (_, NamedKey::F(b)) => {
                lemma_decimal_shape(b as nat);
                assert(n2[0] == 'F');
                assert(n2.len() >= 2);
                assert(n1[0] == n2[0]);
                assert(n1[1] == n2[1]);
                assert('0' <= n2[1] <= '9');
            },
            _ => {
                assert(n1.len() == n2.len());
                assert(n1[0] == n2[0]);
                if n1.len() > 1 {
                    assert(n1[1] == n2[1]);
                }
                if n1.len() > 2 {
                    assert(n1[2] == n2[2]);
                }
                if n1.len() > 4 {
                    assert(n1[4] == n2[4]);
                }
            },
        }
    }
}

/// A real press of a named key, with no modifier held and no composition shown, sends the
/// key's name in angle brackets, so two different named keys send different input.
pub proof fn law_named_key_press_sends_its_name(k: KeyboardView, e: KeyEvent, nk: NamedKey)
    requires
        k.modifiers == (Modifiers { control: false, alt: false, shift: false, logo: false }),
        k.preedit.len() == 0,
        e.logical_key == Key::Named(nk),
        !e.numpad,
        e.pressed,
        spec_named_key_name(nk, text_view(e.text)) is Some,
    ensures
        spec_handle_event(k, &WindowInput::Keyboard { event: e, is_synthetic: false }).1 == KeyOutputView::Input(
            seq!['<'] + spec_named_key_name(nk, text_view(e.text))->0 + seq!['>'],
        ),
{
    let n = spec_named_key_name(nk, text_view(e.text))->0;
    reveal_strlit("S-");
    reveal_strlit("C-");
    reveal_strlit("M-");
    reveal_strlit("D-");
    reveal_strlit("Down");
    reveal_strlit("Left");
    reveal_strlit("Right");
    reveal_strlit("Up");
    reveal_strlit("BS");
    reveal_strlit("Del");
    reveal_strlit("End");
    reveal_strlit("Enter");
    reveal_strlit("Esc");
    reveal_strlit("Home");
    reveal_strlit("Insert");
    reveal_strlit("PageDown");
    reveal_strlit("PageUp");
    reveal_strlit("Space");
    reveal_strlit("Tab");
    assert(spec_special_key(&e) == Some(n));
    let m = k.modifiers;
    assert(spec_modifier_string(m, n, true) =~= Seq::<char>::empty());
    if n == seq!['<'] {
        match nk {
            NamedKey::F(a) => {
                lemma_decimal_shape(a as nat);
                assert(n.len() >= 2);
            },
            _ => {
                assert(n.len() != 1 || n[0] != '<');
            },
        }
    }
    let shifted = if m.shift && is_ascii_letter(n) { seq![ascii_upper(n[0])] } else { n };
    assert(shifted == n);
}

/// The named keys go by the names of Neovim's key notation (`:help key-notation`): arrows by
/// their direction, `BS`, `Del`, `Esc`, `Enter`, `Tab`, `Home`, `End`, `Insert`, `PageUp`,
/// `PageDown`, `F1` to `F24` (`F` and the number), and `Space` when it types a space.
pub proof fn law_key_notation(n: u8)
    ensures
        spec_named_key_name(NamedKey::ArrowUp, None) == Some("Up"@),
        spec_named_key_name(NamedKey::ArrowDown, None) == Some("Down"@),
        spec_named_key_name(NamedKey::ArrowLeft, None) == Some("Left"@),
        spec_named_key_name(NamedKey::ArrowRight, None) == Some("Right"@),
        spec_named_key_name(NamedKey::Backspace, None) == Some("BS"@),
        spec_named_key_name(NamedKey::Delete, None) == Some("Del"@),
        spec_named_key_name(NamedKey::Escape, None) == Some("Esc"@),
        spec_named_key_name(NamedKey::Enter, None) == Some("Enter"@),
        spec_named_key_name(NamedKey::Tab, None) == Some("Tab"@),
        spec_named_key_name(NamedKey::Home, None) == Some("Home"@),
        spec_named_key_name(NamedKey::End, None) == Some("End"@),
        spec_named_key_name(NamedKey::Insert, None) == Some("Insert"@),
        spec_named_key_name(NamedKey::PageUp, None) == Some("PageUp"@),
        spec_named_key_name(NamedKey::PageDown, None) == Some("PageDown"@),
        spec_named_key_name(NamedKey::Space, Some(" "@)) == Some("Space"@),
        1 <= n <= 24 ==> spec_named_key_name(NamedKey::F(n), None) == Some(seq!['F'] + decimal(n as nat)),
        !(1 <= n <= 24) ==> spec_named_key_name(NamedKey::F(n), None) is None,
{
}

} // verus!
