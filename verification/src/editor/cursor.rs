//! Cursor shape, colours and blink parameters, from `mode_info_set` / `mode_change`.

use vstd::prelude::*;

use crate::editor::style::{black, or_else, white, Color, Colors, Style};
use crate::editor::window::lookup_style;
use crate::text::{space, str_eq};

verus! {

#[derive(Debug, Clone, Copy, Eq, PartialEq, Structural)]
pub enum CursorShape {
    Block,
    Horizontal,
    Vertical,
}

pub open spec fn spec_shape_named(name: Seq<char>) -> Option<CursorShape> {
    if name == "block"@ {
        Some(CursorShape::Block)
    } else if name == "horizontal"@ {
        Some(CursorShape::Horizontal)
    } else if name == "vertical"@ {
        Some(CursorShape::Vertical)
    } else {
        None
    }
}

impl CursorShape {
    /// The shape Neovim names in `mode_info_set`'s `cursor_shape`.
    pub fn from_type_name(name: &str) -> (s: Option<CursorShape>)
        ensures
            s == spec_shape_named(name@),
    {
        if str_eq(name, "block") {
            Some(CursorShape::Block)
        } else if str_eq(name, "horizontal") {
            Some(CursorShape::Horizontal)
        } else if str_eq(name, "vertical") {
            Some(CursorShape::Vertical)
        } else {
            None
        }
    }
}

/// One entry of `mode_info_set`. `cell_percentage` is the percentage of the cell a
/// horizontal or vertical cursor covers, as Neovim sends it.
#[derive(Debug, Clone, Copy, PartialEq, Eq, Structural)]
pub struct CursorMode {
    pub shape: Option<CursorShape>,
    pub style_id: Option<u64>,
    pub cell_percentage: Option<u64>,
    pub blinkwait: Option<u64>,
    pub blinkon: Option<u64>,
    pub blinkoff: Option<u64>,
}

impl CursorMode {
    pub open spec fn empty() -> CursorMode {
        CursorMode { shape: None, style_id: None, cell_percentage: None, blinkwait: None, blinkon: None, blinkoff: None }
    }

    pub fn new() -> (m: CursorMode)
        ensures
            m == CursorMode::empty(),
    {
        CursorMode { shape: None, style_id: None, cell_percentage: None, blinkwait: None, blinkon: None, blinkoff: None }
    }
}


/// The cursor: where it is, how it looks, and the cell under it.
#[derive(Debug)]
pub struct Cursor {
    /// (column, row) inside `parent_grid`.
    pub grid_position: (u64, u64),
    pub parent_grid: u64,
    pub shape: CursorShape,
    pub cell_percentage: Option<u64>,
    pub blinkwait: Option<u64>,
    pub blinkon: Option<u64>,
    pub blinkoff: Option<u64>,
    pub style: Option<Style>,
    pub enabled: bool,
    pub double_width: bool,
    /// The text and style of the cell under the cursor, so a block cursor can redraw it inverted.
    pub grid_cell: (String, Option<Style>),
}

/// The colours of the cell under the cursor: its style's, or the defaults (then white on black).
pub open spec fn spec_cell_colors(cell_style: Option<Style>, default: Colors) -> (Color, Color) {
    match cell_style {
        Some(s) => (s.spec_foreground(default), s.spec_background(default)),
        None => (or_else(default.foreground, white()), or_else(default.background, black())),
    }
}

/// Cursor colours: the cursor style's colours over the cell's, reversed if it says so; with
/// no cursor style, the cell's colours swapped, as Neovim does.
pub open spec fn spec_cursor_colors(style: Option<Style>, cell_style: Option<Style>, default: Colors) -> (Color, Color) {
    let (cell_fg, cell_bg) = spec_cell_colors(cell_style, default);
    match style {
        Some(s) => {
            let fg = or_else(s.colors.foreground, cell_bg);
            let bg = or_else(s.colors.background, cell_fg);
            if s.reverse {
                (bg, fg)
            } else {
                (fg, bg)
            }
        },
        None => (cell_bg, cell_fg),
    }
}

impl Cursor {
    /// A block cursor at the top-left of grid 0 over an empty cell.
    pub fn new() -> (c: Cursor)
        ensures
            c.grid_position == (0u64, 0u64),
            c.parent_grid == 0,
            c.shape == CursorShape::Block,
            c.cell_percentage is None,
            c.blinkwait is None,
            c.blinkon is None,
            c.blinkoff is None,
            c.style is None,
            c.enabled,
            !c.double_width,
            c.grid_cell.0@ == seq![' '],
            c.grid_cell.1 is None,
    {
        Cursor {
            grid_position: (0, 0),
            parent_grid: 0,
            shape: CursorShape::Block,
            cell_percentage: None,
            blinkwait: None,
            blinkon: None,
            blinkoff: None,
            style: None,
            enabled: true,
            double_width: false,
            grid_cell: (space(), None),
        }
    }

    fn cell_colors(&self, default: &Colors) -> (r: (Color, Color))
        ensures
            r == spec_cell_colors(self.grid_cell.1, *default),
    {
        match &self.grid_cell.1 {
            Some(style) => (style.foreground(default), style.background(default)),
            None => (
                match default.foreground {
                    Some(c) => c,
                    None => Color::white(),
                },
                match default.background {
                    Some(c) => c,
                    None => Color::black(),
                },
            ),
        }
    }

    /// Cursor colours: (foreground for the glyph under it, background of the cursor block).
    pub fn colors(&self, default: &Colors) -> (r: (Color, Color))
        ensures
            r == spec_cursor_colors(self.style, self.grid_cell.1, *default),
    {
        let (cell_fg, cell_bg) = self.cell_colors(default);
        match &self.style {
            Some(style) => {
                let fg = match style.colors.foreground {
                    Some(c) => c,
                    None => cell_bg,
                };
                let bg = match style.colors.background {
                    Some(c) => c,
                    None => cell_fg,
                };
                if style.reverse {
                    (bg, fg)
                } else {
                    (fg, bg)
                }
            },
            None => (cell_bg, cell_fg),
        }
    }

    /// Take the shape, style and blink timing of a mode: a shape or style the mode leaves
    /// unset stays; an unknown style id clears the style; the timing is the mode's.
    pub fn change_mode(&mut self, cursor_mode: &CursorMode, styles: &std::collections::HashMap<u64, Style>)
        ensures
            final(self).shape == match cursor_mode.shape {
                Some(s) => s,
                None => old(self).shape,
            },
            final(self).style == match cursor_mode.style_id {
                Some(id) => if styles@.contains_key(id) { Some(styles@[id]) } else { None },
                None => old(self).style,
            },
            final(self).cell_percentage == cursor_mode.cell_percentage,
            final(self).blinkwait == cursor_mode.blinkwait,
            final(self).blinkon == cursor_mode.blinkon,
            final(self).blinkoff == cursor_mode.blinkoff,
            final(self).grid_position == old(self).grid_position,
            final(self).parent_grid == old(self).parent_grid,
            final(self).enabled == old(self).enabled,
            final(self).double_width == old(self).double_width,
            final(self).grid_cell == old(self).grid_cell,
    {
        if let Some(shape) = cursor_mode.shape {
            self.shape = shape;
        }
        if let Some(style_id) = cursor_mode.style_id {
            self.style = lookup_style(styles, style_id);
        }
        self.cell_percentage = cursor_mode.cell_percentage;
        self.blinkwait = cursor_mode.blinkwait;
        self.blinkon = cursor_mode.blinkon;
        self.blinkoff = cursor_mode.blinkoff;
    }

    /// No blinking when either the on or the off phase is missing or zero.
    pub fn is_static(&self) -> (b: bool)
        ensures
            b == (self.blinkoff is None || self.blinkoff == Some(0u64) || self.blinkon is None || self.blinkon == Some(0u64)),
    {
        match (self.blinkoff, self.blinkon) {
            (None, _) | (Some(0), _) | (_, None) | (_, Some(0)) => true,
            _ => false,
        }
    }
}

} // verus!
