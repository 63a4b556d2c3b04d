//! The workbench's widget layer: the state the widgets keep and how keys change it. Drawing
//! (pixels, colours, the glyph renderer) stays with the app.

pub mod widgets;

use vstd::prelude::*;

use crate::text::{chars_of, push_char};

verus! {

/// The named keys the widgets tell apart; every other named key is `Other`.
#[derive(Clone, Copy, Debug, PartialEq, Eq, Structural)]
pub enum NamedKey {
    Enter,
    Escape,
    Tab,
    Space,
    Backspace,
    Delete,
    ArrowUp,
    ArrowDown,
    ArrowLeft,
    ArrowRight,
    Home,
    End,
    PageUp,
    PageDown,
    Insert,
    /// A function key, F1 to F35.
    F(u8),
    Other,
}

/// A key: a named one, or the characters it types without modifiers.
#[derive(Clone, Debug)]
pub enum Key {
    Named(NamedKey),
    Character(String),
    Unidentified,
}

/// The modifier keys held.
#[derive(Clone, Copy, Debug, PartialEq, Eq, Structural)]
pub struct Modifiers {
    pub control: bool,
    pub alt: bool,
    pub shift: bool,
    pub logo: bool,
}

/// A key press for the chrome, already reduced to what widgets care about.
#[derive(Clone, Debug)]
pub struct KeyPress {
    pub key: Key,
    pub modifiers: Modifiers,
    pub text: Option<String>,
}

/// The ASCII lower case of `c`; other characters are themselves.
pub open spec fn ascii_lower(c: char) -> char {
    if 'A' <= c <= 'Z' {
        ((c as u8) + 32) as char
    } else {
        c
    }
}

/// Equal but for ASCII case.
pub open spec fn eq_ignore_ascii_case(a: Seq<char>, b: Seq<char>) -> bool {
    a.len() == b.len() && forall|i: int| 0 <= i < a.len() ==> ascii_lower(#[trigger] a[i]) == ascii_lower(b[i])
}

fn lower_char(c: char) -> (r: char)
    ensures
        r == ascii_lower(c),
{
    if 'A' <= c && c <= 'Z' {
        ((c as u8) + 32) as char
    } else {
        c
    }
}

/// `str::eq_ignore_ascii_case`.
pub fn same_ignoring_ascii_case(a: &str, b: &str) -> (r: bool)
    ensures
        r == eq_ignore_ascii_case(a@, b@),
{
    let ac = chars_of(a);
    let bc = chars_of(b);
    if ac.len() != bc.len() {
        return false;
    }
    let mut i: usize = 0;
    while i < ac.len()
        invariant
            ac@ == a@,
            bc@ == b@,
            ac@.len() == bc@.len(),
            i <= ac@.len(),
            forall|j: int| 0 <= j < i ==> ascii_lower(#[trigger] ac@[j]) == ascii_lower(bc@[j]),
        decreases ac@.len() - i,
    {
        if lower_char(ac[i]) != lower_char(bc[i]) {
            return false;
        }
        i += 1;
    }
    true
}

impl KeyPress {
    pub open spec fn spec_named(&self, name: NamedKey) -> bool {
        self.key matches Key::Named(n) && n == name
    }

    pub open spec fn spec_is_char(&self, c: Seq<char>) -> bool {
        !self.modifiers.control && !self.modifiers.alt && (self.key matches Key::Character(s) && s@ == c)
    }

    pub open spec fn spec_ctrl(&self, c: Seq<char>) -> bool {
        self.modifiers.control && (self.key matches Key::Character(s) && eq_ignore_ascii_case(s@, c))
    }

    /// Is this the named key `name`?
    pub fn named(&self, name: NamedKey) -> (b: bool)
        ensures
            b == self.spec_named(name),
    {
        match &self.key {
            Key::Named(n) => *n == name,
            _ => false,
        }
    }

    /// Does it type exactly `c`, with neither Ctrl nor Alt held?
    pub fn is_char(&self, c: &str) -> (b: bool)
        ensures
            b == self.spec_is_char(c@),
    {
        if self.modifiers.control || self.modifiers.alt {
            return false;
        }
        match &self.key {
            Key::Character(s) => crate::text::str_eq(s.as_str(), c),
            _ => false,
        }
    }

    /// Is it Ctrl with the character `c`, in either case?
    pub fn ctrl(&self, c: &str) -> (b: bool)
        ensures
            b == self.spec_ctrl(c@),
    {
        if !self.modifiers.control {
            return false;
        }
        match &self.key {
            Key::Character(s) => same_ignoring_ascii_case(s.as_str(), c),
            _ => false,
        }
    }
}

/// `text` cut to its first `max_cells` characters: a hard cut, with no ellipsis.
pub open spec fn spec_fit(text: Seq<char>, max_cells: nat) -> Seq<char> {
    if text.len() <= max_cells {
        text
    } else {
        text.take(max_cells as int)
    }
}

/// Truncate `text` to `max_cells` cells, with an ellipsis-free hard cut (monospace).
pub fn fit(text: &str, max_cells: usize) -> (s: String)
    ensures
        s@ == spec_fit(text@, max_cells as nat),
{
    let cs = chars_of(text);
    let keep: usize = if cs.len() <= max_cells {
        cs.len()
    } else {
        max_cells
    };
    let mut s = String::new();
    let mut i: usize = 0;
    while i < keep
        invariant
            keep <= cs@.len(),
            i <= keep,
            s@ == cs@.take(i as int),
        decreases keep - i,
    {
        push_char(&mut s, cs[i]);
        i += 1;
        proof {
            assert(cs@.take(i as int) =~= cs@.take(i - 1).push(cs@[i - 1]));
        }
    }
    proof {
        assert(cs@.take(cs@.len() as int) =~= cs@);
    }
    s
}

} // verus!
