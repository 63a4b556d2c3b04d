//! Mouse input for `nvim_input_mouse`: presses, releases and drags decided on window ids and
//! cells, drags kept on the window they started in, and wheel movement turned into scrolls.
//! The window finds which grid and cell lie under the pointer; what that means is decided here.

use vstd::prelude::*;

use crate::bridge::commands::SerialCommand;

verus! {

/// The mouse buttons Neovim knows.
#[derive(Clone, Copy, Debug, PartialEq, Eq, Structural)]
pub enum MouseButtonName {
    Left,
    Right,
    Middle,
    Back,
    Forward,
}

impl MouseButtonName {
    pub open spec fn spec_name(self) -> Seq<char> {
        match self {
            MouseButtonName::Left => "left"@,
            MouseButtonName::Right => "right"@,
            MouseButtonName::Middle => "middle"@,
            MouseButtonName::Back => "x1"@,
            MouseButtonName::Forward => "x2"@,
        }
    }

    /// The button's name for `nvim_input_mouse`.
    pub fn name(self) -> (s: &'static str)
        ensures
            s@ == self.spec_name(),
    {
        match self {
            MouseButtonName::Left => "left",
            MouseButtonName::Right => "right",
            MouseButtonName::Middle => "middle",
            MouseButtonName::Back => "x1",
            MouseButtonName::Forward => "x2",
        }
    }
}

/// A grid and the cell of it under the pointer.
#[derive(Clone, Copy, Debug)]
pub struct Hit {
    pub grid: u64,
    pub cell: (u32, u32),
}

/// What the window saw: the topmost grid under the pointer (`under`) and, while a drag is on,
/// the pointer's cell in the grid the drag started in (`dragged`, none if that grid is gone).
#[derive(Clone, Copy, Debug)]
pub enum MouseInput {
    Moved { under: Option<Hit>, dragged: Option<Hit> },
    /// A button went down or up; `button` is none for a button Neovim does not know.
    Button { button: Option<MouseButtonName>, down: bool, under: Option<Hit>, dragged: Option<Hit> },
}

/// The mouse's state between events: the drag in progress (its button and grid), the last
/// cell the pointer was in, whether the drag has moved, and whether Neovim wants the mouse.
#[derive(Clone, Copy, Debug)]
pub struct MouseState {
    pub drag: Option<(MouseButtonName, u64)>,
    pub grid_position: (u32, u32),
    pub has_moved: bool,
    pub enabled: bool,
}

/// A serial command as its contracts see it.
pub enum SerialView {
    Keyboard(Seq<char>),
    ImeCommit(Seq<char>),
    MouseButton { button: Seq<char>, action: Seq<char>, grid_id: u64, position: (u32, u32), modifier_string: Seq<char> },
    Scroll { direction: Seq<char>, grid_id: u64, position: (u32, u32), count: u32, modifier_string: Seq<char> },
    Drag { button: Seq<char>, grid_id: u64, position: (u32, u32), modifier_string: Seq<char> },
}

pub open spec fn serial_view(c: SerialCommand) -> SerialView {
    match c {
        SerialCommand::Keyboard(s) => SerialView::Keyboard(s@),
        SerialCommand::ImeCommit(s) => SerialView::ImeCommit(s@),
        SerialCommand::MouseButton { button, action, grid_id, position, modifier_string } => SerialView::MouseButton {
            button: button@,
            action: action@,
            grid_id,
            position,
            modifier_string: modifier_string@,
        },
        SerialCommand::Scroll { direction, grid_id, position, count, modifier_string } => SerialView::Scroll {
            direction: direction@,
            grid_id,
            position,
            count,
            modifier_string: modifier_string@,
        },
        SerialCommand::Drag { button, grid_id, position, modifier_string } => SerialView::Drag {
            button: button@,
            grid_id,
            position,
            modifier_string: modifier_string@,
        },
    }
}

pub open spec fn cmd_view(c: Option<SerialCommand>) -> Option<SerialView> {
    match c {
        Some(c) => Some(serial_view(c)),
        None => None,
    }
}

/// One mouse event:
/// - a move goes to the drag's grid while a drag is on, else to the grid under the pointer;
///   there it records the cell, and when the cell changed during a drag, sends a drag to it
///   and marks the drag as moved;
/// - a button Neovim knows, while Neovim wants the mouse, goes to the drag's grid when it is a
///   release during a drag, else to the grid under the pointer; there it sends a press or a
///   release (a release after a drag moved is at the last drag cell), and a press starts a
///   drag on that grid while a release ends it; with no grid, any drag ends. When no drag is
///   left, the drag has not moved.
pub open spec fn spec_mouse_step(s: MouseState, input: MouseInput, mods: Seq<char>) -> (MouseState, Option<SerialView>) {
    match input {
        MouseInput::Moved { under, dragged } => {
            let region = if s.drag is Some { dragged } else { under };
            match region {
                None => (s, None),
                Some(h) => if h.cell != s.grid_position && s.drag is Some {
                    (
                        MouseState { grid_position: h.cell, has_moved: true, ..s },
                        Some(SerialView::Drag {
                            button: (s.drag->0).0.spec_name(),
                            grid_id: h.grid,
                            position: h.cell,
                            modifier_string: mods,
                        }),
                    )
                } else {
                    (MouseState { grid_position: h.cell, ..s }, None)
                },
            }
        },
        MouseInput::Button { button, down, under, dragged } => {
            if !s.enabled || button is None {
                (s, None)
            } else {
                let b = button->0;
                let region = if !down && s.drag is Some { dragged } else { under };
                match region {
                    None => (MouseState { drag: None, has_moved: false, ..s }, None),
                    Some(h) => {
                        let drag = if down { Some((b, h.grid)) } else { None };
                        (
                            MouseState { drag, has_moved: if drag is None { false } else { s.has_moved }, ..s },
                            Some(SerialView::MouseButton {
                                button: b.spec_name(),
                                action: if down { "press"@ } else { "release"@ },
                                grid_id: h.grid,
                                position: if !down && s.has_moved { s.grid_position } else { h.cell },
                                modifier_string: mods,
                            }),
                        )
                    },
                }
            }
        },
    }
}

impl MouseState {
    /// No drag, at the first cell, and the mouse wanted.
    pub fn new() -> (s: MouseState)
        ensures
            s == (MouseState { drag: None, grid_position: (0, 0), has_moved: false, enabled: true }),
    {
        MouseState { drag: None, grid_position: (0, 0), has_moved: false, enabled: true }
    }

    /// The grid a drag in progress started in.
    pub fn drag_grid(&self) -> (g: Option<u64>)
        ensures
            g == match self.drag {
                Some(d) => Some(d.1),
                None => None,
            },
    {
        match self.drag {
            Some(d) => Some(d.1),
            None => None,
        }
    }
}

/// The command for one mouse event, and the state after it (see `spec_mouse_step`).
pub fn mouse_step(state: &mut MouseState, input: MouseInput, modifiers: &str) -> (cmd: Option<SerialCommand>)
    ensures
        (*final(state), cmd_view(cmd)) == spec_mouse_step(*old(state), input, modifiers@),
{
    proof {
        reveal_strlit("press");
        reveal_strlit("release");
    }
    match input {
        MouseInput::Moved { under, dragged } => {
            let region = if state.drag.is_some() { dragged } else { under };
            match region {
                None => None,
                Some(h) => {
                    let previous = state.grid_position;
                    state.grid_position = h.cell;
                    if h.cell.0 != previous.0 || h.cell.1 != previous.1 {
                        match state.drag {
                            Some(d) => {
                                state.has_moved = true;
                                Some(SerialCommand::Drag {
                                    button: String::from_str(d.0.name()),
                                    grid_id: h.grid,
                                    position: h.cell,
                                    modifier_string: String::from_str(modifiers),
                                })
                            },
                            None => None,
                        }
                    } else {
                        None
                    }
                },
            }
        },
        MouseInput::Button { button, down, under, dragged } => {
            if !state.enabled {
                return None;
            }
            let b = match button {
                Some(b) => b,
                None => return None,
            };
            let region = if !down && state.drag.is_some() { dragged } else { under };
            match region {
                None => {
                    state.drag = None;
                    state.has_moved = false;
                    None
                },
                Some(h) => {
                    let position = if !down && state.has_moved { state.grid_position } else { h.cell };
                    let action = if down { "press" } else { "release" };
                    state.drag = if down { Some((b, h.grid)) } else { None };
                    if state.drag.is_none() {
                        state.has_moved = false;
                    }
                    Some(SerialCommand::MouseButton {
                        button: String::from_str(b.name()),
                        action: String::from_str(action),
                        grid_id: h.grid,
                        position,
                        modifier_string: String::from_str(modifiers),
                    })
                },
            }
        },
    }
}

/// The scrolls for a wheel movement whose whole cells went from `before` to `after`
/// (horizontal, vertical): first the vertical one (up for a positive change), then the
/// horizontal one (right for a positive change), each only when that change is not zero, each
/// by the size of the change, at the grid and cell under the pointer (grid 0 and cell (0, 0)
/// when the pointer is over no grid).
pub open spec fn spec_scrolls(before: (i32, i32), after: (i32, i32), under: Option<Hit>, mods: Seq<char>) -> Seq<SerialView> {
    let (grid_id, position) = match under {
        Some(h) => (h.grid, h.cell),
        None => (0u64, (0u32, 0u32)),
    };
    let v = after.1 - before.1;
    let h = after.0 - before.0;
    let vertical = if v != 0 {
        seq![
            SerialView::Scroll {
                direction: if v > 0 { "up"@ } else { "down"@ },
                grid_id,
                position,
                count: abs(v) as u32,
                modifier_string: mods,
            },
        ]
    } else {
        Seq::empty()
    };
    let horizontal = if h != 0 {
        seq![
            SerialView::Scroll {
                direction: if h > 0 { "right"@ } else { "left"@ },
                grid_id,
                position,
                count: abs(h) as u32,
                modifier_string: mods,
            },
        ]
    } else {
        Seq::empty()
    };
    vertical + horizontal
}

pub open spec fn abs(x: int) -> int {
    if x < 0 { -x } else { x }
}

pub open spec fn serial_views(v: Seq<SerialCommand>) -> Seq<SerialView> {
    Seq::new(v.len(), |i: int| serial_view(v[i]))
}

fn count_of(d: i32) -> (c: u32)
    ensures
        c == abs(d as int),
{
    if d < 0 {
        let m: i64 = -(d as i64);
        m as u32
    } else {
        d as u32
    }
}

/// The scrolls for a wheel movement (see `spec_scrolls`).
pub fn scroll_commands(before: (i32, i32), after: (i32, i32), under: Option<Hit>, modifiers: &str) -> (v: Vec<SerialCommand>)
    requires
        i32::MIN <= after.0 - before.0 <= i32::MAX,
        i32::MIN <= after.1 - before.1 <= i32::MAX,
    ensures
        serial_views(v@) == spec_scrolls(before, after, under, modifiers@),
{
    proof {
        reveal_strlit("up");
        reveal_strlit("down");
        reveal_strlit("right");
        reveal_strlit("left");
    }
    let (grid_id, position) = match under {
        Some(h) => (h.grid, h.cell),
        None => (0u64, (0u32, 0u32)),
    };
    let mut v: Vec<SerialCommand> = Vec::new();
    let vertical: i32 = after.1 - before.1;
    if vertical != 0 {
        v.push(SerialCommand::Scroll {
            direction: String::from_str(if vertical > 0 { "up" } else { "down" }),
            grid_id,
            position,
            count: count_of(vertical),
            modifier_string: String::from_str(modifiers),
        });
    }
    let horizontal: i32 = after.0 - before.0;
    if horizontal != 0 {
        v.push(SerialCommand::Scroll {
            direction: String::from_str(if horizontal > 0 { "right" } else { "left" }),
            grid_id,
            position,
            count: count_of(horizontal),
            modifier_string: String::from_str(modifiers),
        });
    }
    proof {
        assert(serial_views(v@) =~= spec_scrolls(before, after, under, modifiers@));
    }
    v
}

/// A scroll's direction, grid, cell, count and modifiers (a count of -1 for anything else).
pub open spec fn scroll_parts(x: SerialView) -> (Seq<char>, u64, (u32, u32), int, Seq<char>) {
    match x {
        SerialView::Scroll { direction, grid_id, position, count, modifier_string } => (direction, grid_id, position, count as int, modifier_string),
        _ => (Seq::empty(), 0, (0, 0), -1, Seq::empty()),
    }
}

/// A wheel movement scrolls each way it moved and no other: vertically first (up for a rise,
/// down for a fall), then horizontally (right for a rise, left for a fall), each by the size of
/// the change, at the grid and cell under the pointer; moving back the other way scrolls the
/// other way by as much.
pub proof fn law_scroll_direction_follows_sign(before: (i32, i32), after: (i32, i32), under: Option<Hit>, mods: Seq<char>)
    ensures
        ({
            let v = after.1 - before.1;
            let h = after.0 - before.0;
            let s = spec_scrolls(before, after, under, mods);
            let back = spec_scrolls(after, before, under, mods);
            &&& s.len() == (if v != 0 { 1int } else { 0 }) + (if h != 0 { 1int } else { 0 })
            &&& back.len() == s.len()
            &&& forall|k: int|
                0 <= k < s.len() ==> scroll_parts(#[trigger] s[k]).0 != scroll_parts(back[k]).0
                    && scroll_parts(s[k]).3 == scroll_parts(back[k]).3
                    && scroll_parts(s[k]).4 == mods
                    && scroll_parts(s[k]).1 == (match under { Some(x) => x.grid, None => 0 })
                    && scroll_parts(s[k]).2 == (match under { Some(x) => x.cell, None => (0u32, 0u32) })
            &&& v > 0 ==> scroll_parts(s[0]).0 == "up"@ && scroll_parts(s[0]).3 == v
            &&& v < 0 ==> scroll_parts(s[0]).0 == "down"@ && scroll_parts(s[0]).3 == -v
            &&& h > 0 ==> scroll_parts(s.last()).0 == "right"@ && scroll_parts(s.last()).3 == h
            &&& h < 0 ==> scroll_parts(s.last()).0 == "left"@ && scroll_parts(s.last()).3 == -h
        }),
{
    reveal_strlit("up");
    reveal_strlit("down");
    reveal_strlit("right");
    reveal_strlit("left");
    assert("up"@ != "down"@) by {
        assert("up"@.len() != "down"@.len());
    }
    assert("right"@ != "left"@) by {
        assert("right"@.len() != "left"@.len());
    }
}

} // verus!
