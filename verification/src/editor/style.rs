//! Highlight styles as Neovim defines them in `hl_attr_define`.
//!
//! Colours are kept the way Neovim sends them: 24-bit `0xRRGGBB` values. The renderer turns
//! them into floating-point RGBA at the edge.

use vstd::prelude::*;

verus! {

/// One colour: a 24-bit `0xRRGGBB` value, or the mid grey (half of every channel) that the
/// editor uses as its default special colour.
#[derive(Clone, Copy, Debug, PartialEq, Eq, Structural)]
pub enum Color {
    Rgb(u32),
    Grey,
}

/// The colour Neovim means by a packed value: the low 24 bits.
pub open spec fn packed_color(packed: u64) -> Color {
    Color::Rgb((packed % 0x100_0000) as u32)
}

pub open spec fn white() -> Color {
    Color::Rgb(0xff_ffff)
}

pub open spec fn black() -> Color {
    Color::Rgb(0)
}

impl Color {
    /// Neovim packs colours as 0xRRGGBB in a u64; only the low 24 bits carry colour.
    pub fn from_packed(packed: u64) -> (c: Color)
        ensures
            c == packed_color(packed),
    {
        Color::Rgb((packed % 0x100_0000) as u32)
    }

    pub fn white() -> (c: Color)
        ensures
            c == white(),
    {
        Color::Rgb(0xff_ffff)
    }

    pub fn black() -> (c: Color)
        ensures
            c == black(),
    {
        Color::Rgb(0)
    }
}

#[derive(Clone, Copy, Debug, PartialEq, Eq, Structural)]
pub struct Colors {
    pub foreground: Option<Color>,
    pub background: Option<Color>,
    /// Colour for underlines and undercurls.
    pub special: Option<Color>,
}

impl Colors {
    pub fn new(foreground: Option<Color>, background: Option<Color>, special: Option<Color>) -> (c: Colors)
        ensures
            c == (Colors { foreground, background, special }),
    {
        Colors { foreground, background, special }
    }
}

#[derive(Debug, Clone, Copy, Eq, PartialEq, Hash, Structural)]
pub enum UnderlineStyle {
    Underline,
    UnderDouble,
    UnderDash,
    UnderDot,
    UnderCurl,
}

#[derive(Debug, Clone, Copy, PartialEq, Eq, Structural)]
pub struct Style {
    pub colors: Colors,
    pub reverse: bool,
    pub italic: bool,
    pub bold: bool,
    pub strikethrough: bool,
    /// Blend level 0..=100 (from 'winblend' / 'pumblend').
    pub blend: u8,
    pub underline: Option<UnderlineStyle>,
}

pub open spec fn or_else(c: Option<Color>, fallback: Color) -> Color {
    match c {
        Some(c) => c,
        None => fallback,
    }
}

impl Style {
    /// A style with these colours and every attribute off.
    pub open spec fn plain(colors: Colors) -> Style {
        Style { colors, reverse: false, italic: false, bold: false, strikethrough: false, blend: 0, underline: None }
    }

    pub fn new(colors: Colors) -> (s: Style)
        ensures
            s == Style::plain(colors),
    {
        Style { colors, reverse: false, italic: false, bold: false, strikethrough: false, blend: 0, underline: None }
    }

    pub open spec fn spec_foreground(self, default: Colors) -> Color {
        if self.reverse {
            or_else(self.colors.background, or_else(default.background, black()))
        } else {
            or_else(self.colors.foreground, or_else(default.foreground, white()))
        }
    }

    pub open spec fn spec_background(self, default: Colors) -> Color {
        if self.reverse {
            or_else(self.colors.foreground, or_else(default.foreground, white()))
        } else {
            or_else(self.colors.background, or_else(default.background, black()))
        }
    }

    /// The text colour: the background when reversed, with the defaults (then white/black)
    /// for whatever the style leaves unset.
    pub fn foreground(&self, default: &Colors) -> (c: Color)
        ensures
            c == self.spec_foreground(*default),
    {
        if self.reverse {
            match self.colors.background {
                Some(c) => c,
                None => match default.background {
                    Some(c) => c,
                    None => Color::black(),
                },
            }
        } else {
            match self.colors.foreground {
                Some(c) => c,
                None => match default.foreground {
                    Some(c) => c,
                    None => Color::white(),
                },
            }
        }
    }

    pub fn background(&self, default: &Colors) -> (c: Color)
        ensures
            c == self.spec_background(*default),
    {
        if self.reverse {
            match self.colors.foreground {
                Some(c) => c,
                None => match default.foreground {
                    Some(c) => c,
                    None => Color::white(),
                },
            }
        } else {
            match self.colors.background {
                Some(c) => c,
                None => match default.background {
                    Some(c) => c,
                    None => Color::black(),
                },
            }
        }
    }

    /// The underline colour: the style's special colour, else its foreground.
    pub fn special(&self, default: &Colors) -> (c: Color)
        ensures
            c == or_else(self.colors.special, self.spec_foreground(*default)),
    {
        match self.colors.special {
            Some(c) => c,
            None => self.foreground(default),
        }
    }
}

/// Reversing a style swaps its text and background colours.
pub proof fn law_reverse_swaps_colours(style: Style, default: Colors)
    ensures
        (Style { reverse: !style.reverse, ..style }).spec_foreground(default) == style.spec_background(default),
        (Style { reverse: !style.reverse, ..style }).spec_background(default) == style.spec_foreground(default),
{
}

} // verus!
