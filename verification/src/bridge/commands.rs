//! Commands from the shell to Neovim.
//!
//! Serial commands (keys, mouse) must reach Neovim in the order they happened; parallel
//! commands (resize, focus, quit) can run concurrently. Consecutive wheel scrolls with the
//! same target are merged so a fast wheel does not flood the RPC channel.

use vstd::prelude::*;

use crate::bridge::value::Value;
use crate::text::str_eq;

verus! {

#[derive(Debug)]
pub enum SerialCommand {
    Keyboard(String),
    /// Text committed by an IME, already escaped for `nvim_input`.
    ImeCommit(String),
    MouseButton { button: String, action: String, grid_id: u64, position: (u32, u32), modifier_string: String },
    Scroll { direction: String, grid_id: u64, position: (u32, u32), count: u32, modifier_string: String },
    Drag { button: String, grid_id: u64, position: (u32, u32), modifier_string: String },
}

#[derive(Debug)]
pub enum ParallelCommand {
    Quit { confirm: bool },
    Resize { width: u64, height: u64 },
    FocusLost,
    FocusGained,
    Command(String),
    ExecLua { code: String, args: Vec<Value> },
    Paste(String),
}

#[derive(Debug)]
pub enum UiCommand {
    Serial(SerialCommand),
    Parallel(ParallelCommand),
}

/// Do two scrolls go to the same place: same direction, grid, cell and modifiers?
pub open spec fn same_scroll_target(a: SerialCommand, b: SerialCommand) -> bool {
    match (a, b) {
        (
            SerialCommand::Scroll { direction: d1, grid_id: g1, position: p1, modifier_string: m1, .. },
            SerialCommand::Scroll { direction: d2, grid_id: g2, position: p2, modifier_string: m2, .. },
        ) => d1@ == d2@ && g1 == g2 && p1 == p2 && m1@ == m2@,
        _ => false,
    }
}

pub open spec fn scroll_count(c: SerialCommand) -> u32 {
    match c {
        SerialCommand::Scroll { count, .. } => count,
        _ => 0,
    }
}

impl SerialCommand {
    /// Absorb `next` into this scroll if they target the same place (the counts add, capped
    /// at `u32::MAX`); otherwise hand it back.
    pub fn try_merge_scroll(&mut self, next: SerialCommand) -> (r: Option<SerialCommand>)
        ensures
            same_scroll_target(*old(self), next) ==> r is None && (match (*old(self), *final(self)) {
                (
                    SerialCommand::Scroll { direction: d1, grid_id: g1, position: p1, modifier_string: m1, .. },
                    SerialCommand::Scroll { direction: d2, grid_id: g2, position: p2, modifier_string: m2, count },
                ) => d1 == d2 && g1 == g2 && p1 == p2 && m1 == m2 && count as int == if scroll_count(*old(self))
                    + scroll_count(next) > u32::MAX { u32::MAX as int } else { scroll_count(*old(self)) + scroll_count(next) },
                _ => false,
            }),
            !same_scroll_target(*old(self), next) ==> r == Some(next) && *final(self) == *old(self),
    {
        let same = match (&*self, &next) {
            (
                SerialCommand::Scroll { direction: d1, grid_id: g1, position: p1, modifier_string: m1, .. },
                SerialCommand::Scroll { direction: d2, grid_id: g2, position: p2, modifier_string: m2, .. },
            ) => str_eq(d1.as_str(), d2.as_str()) && *g1 == *g2 && p1.0 == p2.0 && p1.1 == p2.1 && str_eq(m1.as_str(), m2.as_str()),
            _ => false,
        };
        if !same {
            return Some(next);
        }
        let add = match &next {
            SerialCommand::Scroll { count, .. } => *count,
            _ => 0,
        };
        match self {
            SerialCommand::Scroll { count, .. } => {
                *count = if *count as u64 + add as u64 > u32::MAX as u64 { u32::MAX } else { *count + add };
            },
            _ => {},
        }
        None
    }
}


/// The size asked of `nvim_ui_try_resize`: at least the 10x3 cells Neovim needs.
pub fn resize_request(width: u64, height: u64) -> (r: (u64, u64))
    ensures
        r.0 == if width < 10 { 10 } else { width },
        r.1 == if height < 3 { 3 } else { height },
{
    (if width < 10 { 10 } else { width }, if height < 3 { 3 } else { height })
}

/// The Lua that asks Neovim to quit: `:confirm qa` prompts for unsaved buffers, `:qa!` does
/// not.
pub fn quit_lua(confirm: bool) -> (code: &'static str)
    ensures
        code@ == if confirm { "vim.cmd('confirm qa')"@ } else { "vim.cmd('qa!')"@ },
{
    if confirm { "vim.cmd('confirm qa')" } else { "vim.cmd('qa!')" }
}

} // verus!
