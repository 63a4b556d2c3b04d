//! The editor model: redraw events in, frame snapshots out.

pub mod cursor;
pub mod grid;
pub mod style;
pub mod window;
pub mod words;

use std::collections::HashMap;

use vstd::prelude::*;

use crate::bridge::events::{
    buffers_view, cells_view, tabs_view, BufferEntry, EditorMode, EditorModeView, GridLineCell, GridLineCellView, GuiOption,
    GuiOptionView, RedrawEvent, RedrawEventView, TabEntry, WindowAnchor,
};
use crate::bridge::value::{clone_value, FloatValue, Integer, Value, ValueView};
use crate::editor::cursor::{Cursor, CursorMode, CursorShape};
use crate::editor::grid::{default_cell_view, is_full_scroll, region_scrolled, resized, rotated, rotation, CellView};
use crate::editor::style::{black, white, Color, Colors, Style};
use crate::text::{chars_of, space};
use crate::editor::window::{
    anchored_top_left, cells_pos, clone_pos, drawn_line, fragments_from, lemma_resized_same, lines_view, modified_top_left,
    lemma_size_round_trip, new_window_view, offset_pos,
    Coord, FragmentView, Line, Pos, Window, WindowType, WindowView,
};

verus! {

/// Draw order among floats: higher z-index on top, then later composition on top.
#[derive(Clone, Copy, Debug, PartialEq, Eq, Structural)]
pub struct SortOrder {
    pub z_index: u64,
    pub composition_order: u64,
}

/// Where a float hangs: which corner of it sits at which point of its anchor grid.
#[derive(Clone, Copy, Debug, PartialEq, Eq, Structural)]
pub struct AnchorInfo {
    pub anchor_grid_id: u64,
    pub anchor_type: WindowAnchor,
    pub anchor_left: FloatValue,
    pub anchor_top: FloatValue,
    pub sort_order: SortOrder,
}


pub const BASE_GRID_ID: u64 = 1;
/// From nvim_open_win's documentation: the message grid floats above everything at 200.
pub const MSG_ZINDEX: u64 = 200;

// ---- values ----

pub struct CursorView {
    pub grid_position: (u64, u64),
    pub parent_grid: u64,
    pub shape: CursorShape,
    pub cell_percentage: Option<u64>,
    pub blinkwait: Option<u64>,
    pub blinkon: Option<u64>,
    pub blinkoff: Option<u64>,
    pub style: Option<Style>,
    pub enabled: bool,
    pub double_width: bool,
    pub grid_cell: CellView,
}

impl View for Cursor {
    type V = CursorView;

    open spec fn view(&self) -> CursorView {
        CursorView {
            grid_position: self.grid_position,
            parent_grid: self.parent_grid,
            shape: self.shape,
            cell_percentage: self.cell_percentage,
            blinkwait: self.blinkwait,
            blinkon: self.blinkon,
            blinkoff: self.blinkoff,
            style: self.style,
            enabled: self.enabled,
            double_width: self.double_width,
            grid_cell: (self.grid_cell.0@, self.grid_cell.1),
        }
    }
}

/// The tab line, when ext_tabline is on.
#[derive(Debug)]
pub struct TablineFrame {
    pub current_tab: Value,
    pub tabs: Vec<TabEntry>,
    pub current_buffer: Value,
    pub buffers: Vec<BufferEntry>,
}

pub struct TablineView {
    pub current_tab: ValueView,
    pub tabs: Seq<(ValueView, Seq<char>)>,
    pub current_buffer: ValueView,
    pub buffers: Seq<(ValueView, Seq<char>)>,
}

impl View for TablineFrame {
    type V = TablineView;

    open spec fn view(&self) -> TablineView {
        TablineView {
            current_tab: self.current_tab@,
            tabs: tabs_view(self.tabs@),
            current_buffer: self.current_buffer@,
            buffers: buffers_view(self.buffers@),
        }
    }
}

pub open spec fn tabline_view(t: Option<TablineFrame>) -> Option<TablineView> {
    match t {
        Some(f) => Some(f@),
        None => None,
    }
}

pub open spec fn windows_view(ws: Seq<Window>) -> Seq<WindowView> {
    Seq::new(ws.len(), |i: int| ws[i]@)
}

/// The editor as values.
pub struct EditorView {
    pub windows: Seq<WindowView>,
    pub cursor: CursorView,
    pub styles: Map<u64, Style>,
    pub mode_list: Seq<CursorMode>,
    pub current_mode_index: Option<u64>,
    pub current_mode: EditorModeView,
    pub default_style: Style,
    pub composition_order: u64,
    pub tabline: Option<TablineView>,
    pub sequence: u64,
}

// ---- window lookup and positions ----

/// Where the window of grid `grid` is in the list.
pub open spec fn window_index(ws: Seq<WindowView>, grid: u64) -> Option<int> {
    if exists|i: int| 0 <= i < ws.len() && ws[i].grid_id == grid {
        Some(choose|i: int| 0 <= i < ws.len() && ws[i].grid_id == grid)
    } else {
        None
    }
}

/// No two windows show the same grid.
pub open spec fn unique_ids(ws: Seq<WindowView>) -> bool {
    forall|i: int, j: int| 0 <= i < ws.len() && 0 <= j < ws.len() && i != j ==> ws[i].grid_id != ws[j].grid_id
}

pub proof fn lemma_window_index(ws: Seq<WindowView>, grid: u64, i: int)
    requires
        unique_ids(ws),
        0 <= i < ws.len(),
        ws[i].grid_id == grid,
    ensures
        window_index(ws, grid) == Some(i),
{
}

/// The top-left of grid `grid` in grid-1 cells, following the chain of anchor grids for at
/// most `fuel` windows: a window that is not anchored (or is placed absolutely) is where it was
/// put; an anchored one is offset from its anchor grid's top-left. None for a grid that is not
/// there, or a chain that does not end within `fuel` windows.
pub open spec fn top_left(ws: Seq<WindowView>, grid: u64, fuel: nat) -> Option<Pos>
    decreases fuel,
{
    if fuel == 0 {
        None
    } else {
        match window_index(ws, grid) {
            None => None,
            Some(i) => match ws[i].anchor_info {
                None => Some(ws[i].grid_position),
                Some(info) => if info.anchor_type == WindowAnchor::Absolute {
                    Some(ws[i].grid_position)
                } else {
                    match top_left(ws, info.anchor_grid_id, (fuel - 1) as nat) {
                        None => None,
                        Some(p) => Some(
                            offset_pos(
                                p,
                                anchored_top_left(info.anchor_type, info.anchor_left, info.anchor_top, ws[i].width as u64, ws[i].height as u64),
                            ),
                        ),
                    }
                },
            },
        }
    }
}

/// The cursor after switching to mode `m`.
pub open spec fn cursor_in_mode(c: CursorView, m: CursorMode, styles: Map<u64, Style>) -> CursorView {
    CursorView {
        shape: match m.shape {
            Some(s) => s,
            None => c.shape,
        },
        style: match m.style_id {
            Some(id) => if styles.contains_key(id) {
                Some(styles[id])
            } else {
                None
            },
            None => c.style,
        },
        cell_percentage: m.cell_percentage,
        blinkwait: m.blinkwait,
        blinkon: m.blinkon,
        blinkoff: m.blinkoff,
        ..c
    }
}

impl Editor {
    pub closed spec fn wf(&self) -> bool {
        &&& unique_ids(windows_view(self.windows@))
        &&& forall|i: int| 0 <= i < self.windows@.len() ==> #[trigger] self.windows@[i].wf()
    }

    pub closed spec fn spec_view(&self) -> EditorView {
        EditorView {
            windows: windows_view(self.windows@),
            cursor: self.cursor@,
            styles: self.defined_styles@,
            mode_list: self.mode_list@,
            current_mode_index: self.current_mode_index,
            current_mode: self.current_mode@,
            default_style: self.default_style,
            composition_order: self.composition_order,
            tabline: tabline_view(self.tabline),
            sequence: self.sequence,
        }
    }

    /// The index of grid `grid`'s window.
    fn find_window(&self, grid: u64) -> (r: Option<usize>)
        requires
            self.wf(),
        ensures
            match r {
                Some(i) => window_index(windows_view(self.windows@), grid) == Some(i as int) && i < self.windows@.len(),
                None => window_index(windows_view(self.windows@), grid) is None,
            },
    {
        let ghost wv = windows_view(self.windows@);
        let mut i: usize = 0;
        while i < self.windows.len()
            invariant
                i <= self.windows@.len(),
                wv == windows_view(self.windows@),
                unique_ids(wv),
                forall|k: int| 0 <= k < i ==> wv[k].grid_id != grid,
            decreases self.windows@.len() - i,
        {
            if self.windows[i].grid_id == grid {
                proof {
                    assert(wv[i as int].grid_id == grid);
                    lemma_window_index(wv, grid, i as int);
                }
                return Some(i);
            }
            i += 1;
        }
        None
    }

    /// The top-left of grid `grid`, following anchors for at most `fuel` windows.
    fn get_window_top_left(&self, grid: u64, fuel: usize) -> (r: Option<Pos>)
        requires
            self.wf(),
        ensures
            r == top_left(windows_view(self.windows@), grid, fuel as nat),
        decreases fuel,
    {
        if fuel == 0 {
            return None;
        }
        let i = match self.find_window(grid) {
            Some(i) => i,
            None => return None,
        };
        let window = &self.windows[i];
        proof {
            assert(windows_view(self.windows@)[i as int] == window@);
        }
        match window.anchor_info {
            None => Some(clone_pos(&window.grid_position)),
            Some(info) => if info.anchor_type == WindowAnchor::Absolute {
                Some(clone_pos(&window.grid_position))
            } else {
                match self.get_window_top_left(info.anchor_grid_id, fuel - 1) {
                    None => None,
                    Some(p) => {
                        let off = modified_top_left(info.anchor_type, info.anchor_left, info.anchor_top, window.get_width(), window.get_height());
                        Some(Pos { left: Coord::Sum(Box::new(p.left), Box::new(off.left)), top: Coord::Sum(Box::new(p.top), Box::new(off.top)) })
                    },
                }
            },
        }
    }
}


// ---- what an event does ----

/// The window `w` resized to `width` x `height`.
pub open spec fn resized_view(w: WindowView, width: u64, height: u64) -> WindowView {
    WindowView {
        cells: resized(w.cells, (width as usize) as int, (height as usize) as int),
        width: (width as usize) as nat,
        height: (height as usize) as nat,
        ..w
    }
}

/// The windows with `f` applied to grid `grid`'s window, if there is one.
pub open spec fn map_window(ws: Seq<WindowView>, grid: u64, f: spec_fn(WindowView) -> WindowView) -> Seq<WindowView> {
    match window_index(ws, grid) {
        Some(i) => ws.update(i, f(ws[i])),
        None => ws,
    }
}

/// Place grid `grid` as a float with `anchor`. A grid anchored to itself, or one that is not
/// there, stays as it is. An absolute anchor puts it at the screen position when both are
/// given (else where it was); any other anchor puts the given corner at the anchor point of
/// the anchor grid. Its composition order stays while its z-index does not change.
pub open spec fn floated(ws: Seq<WindowView>, grid: u64, anchor: AnchorInfo, screen_col: Option<u64>, screen_row: Option<u64>) -> Seq<WindowView> {
    if anchor.anchor_grid_id == grid {
        ws
    } else {
        match window_index(ws, grid) {
            None => ws,
            Some(i) => {
                let w = ws[i];
                let parent = top_left(ws, anchor.anchor_grid_id, ws.len());
                let pos = if anchor.anchor_type == WindowAnchor::Absolute {
                    match (screen_col, screen_row) {
                        (Some(c), Some(r)) => cells_pos(c, r),
                        _ => w.grid_position,
                    }
                } else {
                    let off = anchored_top_left(anchor.anchor_type, anchor.anchor_left, anchor.anchor_top, w.width as u64, w.height as u64);
                    match parent {
                        Some(p) => offset_pos(p, off),
                        None => off,
                    }
                };
                let sort_order = if anchor.anchor_type == WindowAnchor::Absolute {
                    anchor.sort_order
                } else {
                    match w.anchor_info {
                        Some(old) => if old.sort_order.z_index == anchor.sort_order.z_index {
                            old.sort_order
                        } else {
                            anchor.sort_order
                        },
                        None => anchor.sort_order,
                    }
                };
                ws.update(i, WindowView { anchor_info: Some(AnchorInfo { sort_order, ..anchor }), grid_position: pos, hidden: false, ..w })
            },
        }
    }
}

/// `grid_resize`: an existing window is resized (and a float placed again); a new one is
/// created at the origin, hidden unless it is grid 1, until a position event shows it.
pub open spec fn windows_resized(ws: Seq<WindowView>, grid: u64, width: u64, height: u64) -> Seq<WindowView> {
    match window_index(ws, grid) {
        Some(i) => {
            let ws2 = ws.update(i, resized_view(ws[i], width, height));
            match ws[i].anchor_info {
                Some(anchor) => floated(ws2, grid, anchor, None, None),
                None => ws2,
            }
        },
        None => ws.push(
            WindowView { hidden: grid != BASE_GRID_ID, ..new_window_view(grid, WindowType::Editor, None, cells_pos(0, 0), width, height) },
        ),
    }
}

/// `win_pos`: the window is put at (`left`, `top`) with this size, not anchored, shown.
pub open spec fn windows_positioned(ws: Seq<WindowView>, grid: u64, left: u64, top: u64, width: u64, height: u64) -> Seq<WindowView> {
    match window_index(ws, grid) {
        Some(i) => ws.update(
            i,
            WindowView { anchor_info: None, grid_position: cells_pos(left, top), hidden: false, ..resized_view(ws[i], width, height) },
        ),
        None => ws.push(new_window_view(grid, WindowType::Editor, None, cells_pos(left, top), width, height)),
    }
}

pub open spec fn zero_float() -> FloatValue {
    FloatValue::F64(0)
}

/// The anchor of the message grid at row `row`.
pub open spec fn message_anchor(row: u64, z_index: Option<u64>, comp_index: Option<u64>, composition_order: u64) -> AnchorInfo {
    AnchorInfo {
        anchor_grid_id: BASE_GRID_ID,
        anchor_type: WindowAnchor::NorthWest,
        anchor_left: zero_float(),
        anchor_top: FloatValue::Int(Integer::PosInt(row)),
        sort_order: SortOrder {
            z_index: match z_index {
                Some(z) => z,
                None => MSG_ZINDEX,
            },
            composition_order: match comp_index {
                Some(c) => c,
                None => composition_order,
            },
        },
    }
}

/// `msg_set_pos`: the message grid spans grid 1's width (1 without grid 1) from row `row`;
/// grid 0 is ignored.
pub open spec fn windows_with_message(
    ws: Seq<WindowView>,
    grid: u64,
    row: u64,
    scrolled: bool,
    z_index: Option<u64>,
    comp_index: Option<u64>,
    composition_order: u64,
) -> Seq<WindowView> {
    if grid == 0 {
        ws
    } else {
        let parent_width: u64 = match window_index(ws, BASE_GRID_ID) {
            Some(p) => ws[p].width as u64,
            None => 1,
        };
        let anchor = message_anchor(row, z_index, comp_index, composition_order);
        match window_index(ws, grid) {
            Some(i) => ws.update(
                i,
                WindowView {
                    window_type: WindowType::Message { scrolled },
                    anchor_info: Some(anchor),
                    grid_position: cells_pos(0, row),
                    hidden: false,
                    ..resized_view(ws[i], parent_width, ws[i].height as u64)
                },
            ),
            None => ws.push(new_window_view(grid, WindowType::Message { scrolled }, Some(anchor), cells_pos(0, row), parent_width, 1)),
        }
    }
}

/// The window's grid after a `grid_line`.
pub open spec fn line_drawn(w: WindowView, row: u64, column_start: u64, cells: Seq<GridLineCellView>, styles: Map<u64, Style>) -> WindowView {
    WindowView {
        cells: if (row as usize) < w.height {
            w.cells.update(
                (row as usize) as int,
                drawn_line(w.cells[(row as usize) as int], (column_start as usize) as int, cells, styles).0,
            )
        } else {
            w.cells
        },
        ..w
    }
}

pub open spec fn cleared(w: WindowView) -> WindowView {
    WindowView { cells: Seq::new(w.height, |y: int| Seq::new(w.width, |x: int| default_cell_view())), ..w }
}

pub open spec fn scrolled(w: WindowView, top: u64, bottom: u64, left: u64, right: u64, rows: i64, cols: i64) -> WindowView {
    WindowView {
        cells: if is_full_scroll(top as int, bottom as int, left as int, right as int, cols as int, w.width as int, w.height as int) {
            rotated(w.cells, rotation(rows as int, w.height as int))
        } else {
            region_scrolled(w.cells, top as int, bottom as int, left as int, right as int, rows as int, cols as int, w.width as int, w.height as int)
        },
        ..w
    }
}

/// The cell under the cursor and whether it is double width; a space outside any window.
pub open spec fn cursor_cell(ws: Seq<WindowView>, c: CursorView) -> (CellView, bool) {
    match window_index(ws, c.parent_grid) {
        Some(i) => {
            let w = ws[i];
            let x = (c.grid_position.0 as usize) as int;
            let y = (c.grid_position.1 as usize) as int;
            (
                if y < w.height && x < w.width {
                    w.cells[y][x]
                } else {
                    default_cell_view()
                },
                y < w.height && x + 1 < w.width && w.cells[y][x + 1].0.len() == 0,
            )
        },
        None => (default_cell_view(), false),
    }
}

/// The editor `s` with these windows.
pub open spec fn with_windows(s: EditorView, ws: Seq<WindowView>) -> EditorView {
    EditorView { windows: ws, ..s }
}

/// The editor after one event.
pub open spec fn next_state(s: EditorView, e: RedrawEventView) -> EditorView {
    match e {
        RedrawEventView::ModeInfoSet { cursor_modes } => EditorView {
            mode_list: cursor_modes,
            cursor: match s.current_mode_index {
                Some(i) => if (i as usize) < cursor_modes.len() {
                    cursor_in_mode(s.cursor, cursor_modes[(i as usize) as int], s.styles)
                } else {
                    s.cursor
                },
                None => s.cursor,
            },
            ..s
        },
        RedrawEventView::ModeChange { mode, mode_index } => if (mode_index as usize) < s.mode_list.len() {
            EditorView {
                cursor: cursor_in_mode(s.cursor, s.mode_list[(mode_index as usize) as int], s.styles),
                current_mode_index: Some(mode_index),
                current_mode: mode,
                ..s
            }
        } else {
            EditorView { current_mode_index: None, current_mode: mode, ..s }
        },
        RedrawEventView::BusyStart => EditorView { cursor: CursorView { enabled: false, ..s.cursor }, ..s },
        RedrawEventView::BusyStop => EditorView { cursor: CursorView { enabled: true, ..s.cursor }, ..s },
        RedrawEventView::Flush => {
            let (cell, double_width) = cursor_cell(s.windows, s.cursor);
            EditorView { cursor: CursorView { grid_cell: cell, double_width, ..s.cursor }, sequence: (s.sequence + 1) as u64, ..s }
        },
        RedrawEventView::DefaultColorsSet { colors } => EditorView { default_style: Style::plain(colors), ..s },
        RedrawEventView::HighlightAttributesDefine { id, style, .. } => EditorView { styles: s.styles.insert(id, style), ..s },
        RedrawEventView::CursorGoto { grid, row, column } => {
            let moved = CursorView { parent_grid: grid, grid_position: (column, row), ..s.cursor };
            match window_index(s.windows, grid) {
                Some(i) => match s.windows[i].anchor_info {
                    Some(a) => {
                        let order = (s.composition_order + 1) as u64;
                        EditorView {
                            windows: s.windows.update(
                                i,
                                WindowView {
                                    anchor_info: Some(AnchorInfo { sort_order: SortOrder { composition_order: order, ..a.sort_order }, ..a }),
                                    ..s.windows[i]
                                },
                            ),
                            composition_order: order,
                            cursor: moved,
                            ..s
                        }
                    },
                    None => EditorView { cursor: moved, ..s },
                },
                None => EditorView { cursor: moved, ..s },
            }
        },
        RedrawEventView::Resize { grid, width, height } => EditorView { windows: windows_resized(s.windows, grid, width, height), ..s },
        RedrawEventView::GridLine { grid, row, column_start, cells } => EditorView {
            windows: map_window(s.windows, grid, |w: WindowView| line_drawn(w, row, column_start, cells, s.styles)),
            ..s
        },
        RedrawEventView::Clear { grid } => EditorView { windows: map_window(s.windows, grid, |w: WindowView| cleared(w)), ..s },
        RedrawEventView::Destroy { grid } | RedrawEventView::WindowClose { grid } => EditorView {
            windows: match window_index(s.windows, grid) {
                Some(i) => s.windows.remove(i),
                None => s.windows,
            },
            ..s
        },
        RedrawEventView::Scroll { grid, top, bottom, left, right, rows, columns } => EditorView {
            windows: map_window(s.windows, grid, |w: WindowView| scrolled(w, top, bottom, left, right, rows, columns)),
            ..s
        },
        RedrawEventView::WindowPosition { grid, start_row, start_column, width, height } => EditorView {
            windows: windows_positioned(s.windows, grid, start_column, start_row, width, height),
            ..s
        },
        RedrawEventView::WindowFloatPosition { grid, anchor, anchor_grid, anchor_row, anchor_column, z_index, comp_index, screen_row, screen_col, .. } => {
            let order: u64 = if comp_index is Some { s.composition_order } else { (s.composition_order + 1) as u64 };
            let info = AnchorInfo {
                anchor_grid_id: anchor_grid,
                anchor_type: if comp_index is Some { WindowAnchor::Absolute } else { anchor },
                anchor_left: anchor_column,
                anchor_top: anchor_row,
                sort_order: SortOrder {
                    z_index,
                    composition_order: match comp_index {
                        Some(c) => c,
                        None => order,
                    },
                },
            };
            EditorView { windows: floated(s.windows, grid, info, screen_col, screen_row), composition_order: order, ..s }
        },
        RedrawEventView::WindowExternalPosition { grid } => {
            let info = AnchorInfo {
                anchor_grid_id: BASE_GRID_ID,
                anchor_type: WindowAnchor::NorthWest,
                anchor_left: zero_float(),
                anchor_top: zero_float(),
                sort_order: SortOrder { z_index: 50, composition_order: s.composition_order },
            };
            EditorView { windows: floated(s.windows, grid, info, None, None), ..s }
        },
        RedrawEventView::WindowHide { grid } => EditorView {
            windows: map_window(s.windows, grid, |w: WindowView| WindowView { anchor_info: None, hidden: true, ..w }),
            ..s
        },
        RedrawEventView::MessageSetPosition { grid, row, scrolled, z_index, comp_index, .. } => EditorView {
            windows: windows_with_message(s.windows, grid, row, scrolled, z_index, comp_index, s.composition_order),
            ..s
        },
        RedrawEventView::WindowViewportMargins { grid, top, bottom, .. } => EditorView {
            windows: map_window(s.windows, grid, |w: WindowView| WindowView { viewport_margins: (top, bottom), ..w }),
            ..s
        },
        RedrawEventView::TablineUpdate { current_tab, tabs, current_buffer, buffers } => EditorView {
            tabline: Some(TablineView { current_tab, tabs, current_buffer, buffers }),
            ..s
        },
        _ => s,
    }
}

// ---- what an event tells the app ----

/// Things the editor tells the app besides frames.
#[derive(Debug)]
pub enum EditorNotice {
    Title(String),
    FontChanged(String),
    LineSpaceChanged(FloatValue),
    MouseEnabled(bool),
    /// Neovim sent an `ext_*` option; a plugin can force ext_messages on after attach.
    ExtOption { name: String, enabled: bool },
    ModeChanged(EditorMode),
}

pub enum NoticeView {
    Title(Seq<char>),
    FontChanged(Seq<char>),
    LineSpaceChanged(FloatValue),
    MouseEnabled(bool),
    ExtOption { name: Seq<char>, enabled: bool },
    ModeChanged(EditorModeView),
}

impl View for EditorNotice {
    type V = NoticeView;

    open spec fn view(&self) -> NoticeView {
        match self {
            EditorNotice::Title(t) => NoticeView::Title(t@),
            EditorNotice::FontChanged(f) => NoticeView::FontChanged(f@),
            EditorNotice::LineSpaceChanged(f) => NoticeView::LineSpaceChanged(*f),
            EditorNotice::MouseEnabled(b) => NoticeView::MouseEnabled(*b),
            EditorNotice::ExtOption { name, enabled } => NoticeView::ExtOption { name: name@, enabled: *enabled },
            EditorNotice::ModeChanged(m) => NoticeView::ModeChanged(m@),
        }
    }
}

/// The notice an event gives: the title, the font, the line space, mouse on/off, `ext_*`
/// options with a boolean value, and mode changes.
pub open spec fn notice_of(e: RedrawEventView) -> Option<NoticeView> {
    match e {
        RedrawEventView::SetTitle { title } => Some(NoticeView::Title(title)),
        RedrawEventView::OptionSet { gui_option } => match gui_option {
            GuiOptionView::GuiFont(font) => Some(NoticeView::FontChanged(font)),
            GuiOptionView::LineSpace(ls) => Some(NoticeView::LineSpaceChanged(ls)),
            GuiOptionView::Unknown(name, value) => if name.len() >= 4 && name.take(4) == "ext_"@ {
                match value {
                    ValueView::Boolean(b) => Some(NoticeView::ExtOption { name, enabled: b }),
                    _ => None,
                }
            } else {
                None
            },
            _ => None,
        },
        RedrawEventView::ModeChange { mode, .. } => Some(NoticeView::ModeChanged(mode)),
        RedrawEventView::MouseOn => Some(NoticeView::MouseEnabled(true)),
        RedrawEventView::MouseOff => Some(NoticeView::MouseEnabled(false)),
        _ => None,
    }
}


// ---- frames ----

/// One window as the renderer sees it.
#[derive(Debug)]
pub struct WindowFrame {
    pub id: u64,
    /// Top-left in grid-1 cells, absolute.
    pub left: Coord,
    pub top: Coord,
    pub width: u32,
    pub height: u32,
    pub floating: bool,
    pub sort_order: SortOrder,
    pub window_type: WindowType,
    pub lines: Vec<Line>,
}

pub struct WindowFrameView {
    pub id: u64,
    pub left: Coord,
    pub top: Coord,
    pub width: u32,
    pub height: u32,
    pub floating: bool,
    pub sort_order: SortOrder,
    pub window_type: WindowType,
    pub lines: Seq<Seq<FragmentView>>,
}

pub open spec fn frame_view(f: &WindowFrame) -> WindowFrameView {
    WindowFrameView {
        id: f.id,
        left: f.left,
        top: f.top,
        width: f.width,
        height: f.height,
        floating: f.floating,
        sort_order: f.sort_order,
        window_type: f.window_type,
        lines: lines_view(f.lines@),
    }
}

pub open spec fn frames_view(fs: Seq<WindowFrame>) -> Seq<WindowFrameView> {
    Seq::new(fs.len(), |i: int| frame_view(&fs[i]))
}

/// Everything needed to draw one flush.
#[derive(Debug)]
pub struct Frame {
    /// Windows in draw order: base grid first, then floats by z-index and creation order.
    pub windows: Vec<WindowFrame>,
    pub cursor: Cursor,
    pub default_style: Style,
    pub mode: EditorMode,
    /// Size of grid 1 in cells.
    pub grid_size: (u32, u32),
    /// The tab line, when ext_tabline is on.
    pub tabline: Option<TablineFrame>,
    /// Counts the flushes.
    pub sequence: u64,
}

/// Is the window drawn? Shown, and at least one cell in each direction.
pub open spec fn visible(w: WindowView) -> bool {
    !w.hidden && w.width > 0 && w.height > 0
}

/// The frame of the `k`th window: its resolved top-left (where it was put, if its anchor chain
/// does not resolve), its draw order (floats by their sort order; grid 1 below the other
/// non-floating grids) and its lines.
#[verifier::opaque]
pub open spec fn frame_of(ws: Seq<WindowView>, k: int) -> WindowFrameView {
    let w = ws[k];
    let pos = match top_left(ws, w.grid_id, ws.len()) {
        Some(p) => p,
        None => w.grid_position,
    };
    WindowFrameView {
        id: w.grid_id,
        left: pos.left,
        top: pos.top,
        width: w.width as u32,
        height: w.height as u32,
        floating: w.anchor_info is Some,
        sort_order: match w.anchor_info {
            Some(info) => info.sort_order,
            None => SortOrder { z_index: 0, composition_order: if w.grid_id == BASE_GRID_ID { 0 } else { 1 } },
        },
        window_type: w.window_type,
        lines: Seq::new(w.height, |y: int| fragments_from(w.cells[y], 0)),
    }
}

/// Draw order: non-floating first, then by z-index, composition order and grid id.
pub open spec fn frame_before(a: WindowFrameView, b: WindowFrameView) -> bool {
    ||| (!a.floating && b.floating)
    ||| (a.floating == b.floating && a.sort_order.z_index < b.sort_order.z_index)
    ||| (a.floating == b.floating && a.sort_order.z_index == b.sort_order.z_index && a.sort_order.composition_order
        < b.sort_order.composition_order)
    ||| (a.floating == b.floating && a.sort_order == b.sort_order && a.id < b.id)
}

/// The frames are the visible windows' frames, each once, in draw order.
pub open spec fn frames_ok(fs: Seq<WindowFrameView>, ws: Seq<WindowView>) -> bool {
    &&& forall|i: int, j: int| 0 <= i < j < fs.len() ==> frame_before(#[trigger] fs[i], #[trigger] fs[j])
    &&& forall|i: int|
        #![trigger fs[i]]
        0 <= i < fs.len() ==> exists|k: int| #![trigger frame_of(ws, k)] 0 <= k < ws.len() && visible(ws[k]) && fs[i] == frame_of(ws, k)
    &&& forall|k: int|
        #![trigger ws[k]]
        0 <= k < ws.len() && visible(ws[k]) ==> exists|i: int| #![trigger fs[i]] 0 <= i < fs.len() && fs[i] == frame_of(ws, k)
}

/// A frame of the editor `s`.
pub open spec fn frame_ok(f: &Frame, s: EditorView) -> bool {
    &&& frames_ok(frames_view(f.windows@), s.windows)
    &&& f.cursor@ == s.cursor
    &&& f.default_style == s.default_style
    &&& f.mode@ == s.current_mode
    &&& f.grid_size == match window_index(s.windows, BASE_GRID_ID) {
        Some(i) => (s.windows[i].width as u32, s.windows[i].height as u32),
        None => (0u32, 0u32),
    }
    &&& tabline_view(f.tabline) == s.tabline
    &&& f.sequence == s.sequence
}

/// What handling an event gives the app.
#[derive(Debug)]
pub enum EditorOutput {
    Nothing,
    Notice(EditorNotice),
    Frame(Frame),
}


// ---- the editor ----

/// The editor model: redraw events in, frame snapshots out.
#[derive(Debug)]
pub struct Editor {
    pub windows: Vec<Window>,
    pub cursor: Cursor,
    pub defined_styles: HashMap<u64, Style>,
    pub mode_list: Vec<CursorMode>,
    pub current_mode_index: Option<u64>,
    pub current_mode: EditorMode,
    pub default_style: Style,
    composition_order: u64,
    tabline: Option<TablineFrame>,
    sequence: u64,
}

/// The editor before any event: no windows, white on black with a grey special colour.
pub open spec fn initial_state() -> EditorView {
    EditorView {
        windows: Seq::empty(),
        cursor: CursorView {
            grid_position: (0, 0),
            parent_grid: 0,
            shape: CursorShape::Block,
            cell_percentage: None,
            blinkwait: None,
            blinkon: None,
            blinkoff: None,
            style: None,
            enabled: true,
            double_width: false,
            grid_cell: default_cell_view(),
        },
        styles: Map::empty(),
        mode_list: Seq::empty(),
        current_mode_index: None,
        current_mode: EditorModeView::Normal,
        default_style: Style::plain(Colors { foreground: Some(white()), background: Some(black()), special: Some(Color::Grey) }),
        composition_order: 0,
        tabline: None,
        sequence: 0,
    }
}

/// The inputs an event needs to be handled without overflow: a flush needs the sequence to
/// count on and every drawn window at most `u32::MAX` cells wide; an event that raises a float
/// needs the composition order to count on; a scroll of an existing grid needs its bounds and
/// steps to fit `isize`.
pub open spec fn event_ok(s: EditorView, e: RedrawEventView) -> bool {
    match e {
        RedrawEventView::Flush => s.sequence < u64::MAX && forall|k: int|
            0 <= k < s.windows.len() && visible(s.windows[k]) ==> #[trigger] s.windows[k].width <= u32::MAX,
        RedrawEventView::CursorGoto { grid, .. } => match window_index(s.windows, grid) {
            Some(i) => s.windows[i].anchor_info is Some ==> s.composition_order < u64::MAX,
            None => true,
        },
        RedrawEventView::WindowFloatPosition { comp_index, .. } => comp_index is None ==> s.composition_order < u64::MAX,
        RedrawEventView::Scroll { grid, top, bottom, left, right, rows, columns } => window_index(s.windows, grid) is Some ==> {
            &&& top <= isize::MAX
            &&& bottom <= isize::MAX
            &&& left <= isize::MAX
            &&& right <= isize::MAX
            &&& isize::MIN <= top + rows <= isize::MAX
            &&& isize::MIN <= bottom + rows <= isize::MAX
            &&& isize::MIN <= left + columns <= isize::MAX
            &&& isize::MIN <= right + columns <= isize::MAX
            &&& isize::MIN < rows <= isize::MAX
            &&& isize::MIN <= columns <= isize::MAX
        },
        _ => true,
    }
}

impl Editor {
    pub fn new() -> (e: Editor)
        ensures
            e.wf(),
            e.spec_view() == initial_state(),
    {
        let e = Editor {
            windows: Vec::new(),
            cursor: Cursor::new(),
            defined_styles: HashMap::new(),
            mode_list: Vec::new(),
            current_mode_index: None,
            current_mode: EditorMode::Normal,
            default_style: Style::new(Colors::new(Some(Color::white()), Some(Color::black()), Some(Color::Grey))),
            composition_order: 0,
            tabline: None,
            sequence: 0,
        };
        proof {
            assert(windows_view(e.windows@) =~= Seq::<WindowView>::empty());
            assert(e.cursor@.grid_cell == default_cell_view());
            assert(e.spec_view().styles =~= Map::<u64, Style>::empty());
        }
        e
    }
}


impl Editor {
    /// Clear grid `grid`'s window, if there is one.
    fn clear_window(&mut self, grid: u64)
        requires
            old(self).wf(),
        ensures
            final(self).wf(),
            final(self).spec_view() == with_windows(
                old(self).spec_view(),
                map_window(old(self).spec_view().windows, grid, (|w: WindowView| cleared(w))),
            ),
    {
        match self.find_window(grid) {
            Some(i) => {
                let ghost wv = windows_view(self.windows@);
                self.windows[i].clear();
                proof {
                    assert(windows_view(self.windows@) =~= wv.update(i as int, cleared(wv[i as int])));
                }
            },
            None => {},
        }
    }
}


impl Editor {
    /// Place grid `grid` as a float with `anchor` (see `floated`).
    fn set_window_float_position(&mut self, grid: u64, anchor: AnchorInfo, screen_col: Option<u64>, screen_row: Option<u64>)
        requires
            old(self).wf(),
        ensures
            final(self).wf(),
            final(self).spec_view() == with_windows(
                old(self).spec_view(),
                floated(old(self).spec_view().windows, grid, anchor, screen_col, screen_row),
            ),
    {
        if anchor.anchor_grid_id == grid {
            return;
        }
        let parent = self.get_window_top_left(anchor.anchor_grid_id, self.windows.len());
        let i = match self.find_window(grid) {
            Some(i) => i,
            None => return,
        };
        let ghost wv = windows_view(self.windows@);
        let width = self.windows[i].get_width();
        let height = self.windows[i].get_height();
        let pos = if anchor.anchor_type == WindowAnchor::Absolute {
            match (screen_col, screen_row) {
                (Some(c), Some(r)) => Pos { left: Coord::Cells(c), top: Coord::Cells(r) },
                _ => clone_pos(&self.windows[i].grid_position),
            }
        } else {
            let off = modified_top_left(anchor.anchor_type, anchor.anchor_left, anchor.anchor_top, width, height);
            match parent {
                Some(p) => Pos { left: Coord::Sum(Box::new(p.left), Box::new(off.left)), top: Coord::Sum(Box::new(p.top), Box::new(off.top)) },
                None => off,
            }
        };
        let sort_order = if anchor.anchor_type == WindowAnchor::Absolute {
            anchor.sort_order
        } else {
            match self.windows[i].anchor_info {
                Some(old) => if old.sort_order.z_index == anchor.sort_order.z_index {
                    old.sort_order
                } else {
                    anchor.sort_order
                },
                None => anchor.sort_order,
            }
        };
        let placed = AnchorInfo { sort_order, ..anchor };
        proof {
            assert(wv[i as int] == self.windows@[i as int]@);
            assert(self.windows@[i as int].wf());
            self.windows@[i as int].grid.lemma_shape();
            self.windows@[i as int].grid.lemma_size_bounds();
            lemma_size_round_trip(wv[i as int].width as usize);
            lemma_size_round_trip(wv[i as int].height as usize);
        }
        self.windows[i].position(Some(placed), (width, height), pos);
        self.windows[i].hidden = false;
        proof {
            lemma_resized_same(wv[i as int].cells, wv[i as int].width as int, wv[i as int].height as int);
            let nw = self.windows@[i as int]@;
            assert(nw.cells == wv[i as int].cells);
            assert(nw.width == wv[i as int].width);
            assert(nw.height == wv[i as int].height);
            assert(nw.anchor_info == Some(placed));
            assert(nw.grid_position == pos);
            assert(nw.hidden == false);
            assert(nw.grid_id == wv[i as int].grid_id);
            assert(nw.window_type == wv[i as int].window_type);
            assert(nw.viewport_margins == wv[i as int].viewport_margins);
            assert(window_index(wv, grid) == Some(i as int));
            let fl = floated(wv, grid, anchor, screen_col, screen_row);
            assert(fl[i as int] == nw);
            assert(fl.len() == wv.len());
            assert(windows_view(self.windows@) =~= floated(wv, grid, anchor, screen_col, screen_row));
        }
    }

    /// `grid_resize` (see `windows_resized`).
    fn resize_window(&mut self, grid: u64, width: u64, height: u64)
        requires
            old(self).wf(),
        ensures
            final(self).wf(),
            final(self).spec_view() == with_windows(old(self).spec_view(), windows_resized(old(self).spec_view().windows, grid, width, height)),
    {
        let ghost wv = windows_view(self.windows@);
        match self.find_window(grid) {
            Some(i) => {
                self.windows[i].resize((width, height));
                proof {
                    assert(windows_view(self.windows@) =~= wv.update(i as int, resized_view(wv[i as int], width, height)));
                }
                if let Some(anchor) = self.windows[i].anchor_info {
                    self.set_window_float_position(grid, anchor, None, None);
                }
            },
            None => {
                let mut window = Window::new(grid, WindowType::Editor, None, Pos { left: Coord::Cells(0), top: Coord::Cells(0) }, (width, height));
                if grid != BASE_GRID_ID {
                    window.hidden = true;
                }
                self.windows.push(window);
                proof {
                    assert(windows_view(self.windows@) =~= wv.push(window@));
                }
            },
        }
    }

    /// `win_pos` (see `windows_positioned`).
    fn set_window_position(&mut self, grid: u64, left: u64, top: u64, width: u64, height: u64)
        requires
            old(self).wf(),
        ensures
            final(self).wf(),
            final(self).spec_view() == with_windows(
                old(self).spec_view(),
                windows_positioned(old(self).spec_view().windows, grid, left, top, width, height),
            ),
    {
        let ghost wv = windows_view(self.windows@);
        let pos = Pos { left: Coord::Cells(left), top: Coord::Cells(top) };
        match self.find_window(grid) {
            Some(i) => {
                self.windows[i].position(None, (width, height), pos);
                self.windows[i].hidden = false;
                proof {
                    assert(windows_view(self.windows@) =~= windows_positioned(wv, grid, left, top, width, height));
                }
            },
            None => {
                let window = Window::new(grid, WindowType::Editor, None, pos, (width, height));
                self.windows.push(window);
                proof {
                    assert(windows_view(self.windows@) =~= wv.push(window@));
                }
            },
        }
    }

    /// `msg_set_pos` (see `windows_with_message`).
    fn set_message_position(&mut self, grid: u64, grid_top: u64, scrolled: bool, z_index: Option<u64>, comp_index: Option<u64>)
        requires
            old(self).wf(),
        ensures
            final(self).wf(),
            final(self).spec_view() == with_windows(
                old(self).spec_view(),
                windows_with_message(old(self).spec_view().windows, grid, grid_top, scrolled, z_index, comp_index, old(self).spec_view().composition_order),
            ),
    {
        if grid == 0 {
            return;
        }
        let ghost wv = windows_view(self.windows@);
        let z = match z_index {
            Some(z) => z,
            None => MSG_ZINDEX,
        };
        let parent_width = match self.find_window(BASE_GRID_ID) {
            Some(p) => self.windows[p].get_width(),
            None => 1,
        };
        let anchor = AnchorInfo {
            anchor_grid_id: BASE_GRID_ID,
            anchor_type: WindowAnchor::NorthWest,
            anchor_left: FloatValue::F64(0),
            anchor_top: FloatValue::Int(Integer::PosInt(grid_top)),
            sort_order: SortOrder {
                z_index: z,
                composition_order: match comp_index {
                    Some(c) => c,
                    None => self.composition_order,
                },
            },
        };
        let pos = Pos { left: Coord::Cells(0), top: Coord::Cells(grid_top) };
        match self.find_window(grid) {
            Some(i) => {
                proof {
                    assert(self.windows@[i as int].wf());
                }
                self.windows[i].window_type = WindowType::Message { scrolled };
                let height = self.windows[i].get_height();
                self.windows[i].position(Some(anchor), (parent_width, height), pos);
                self.windows[i].hidden = false;
                proof {
                    assert(windows_view(self.windows@) =~= windows_with_message(wv, grid, grid_top, scrolled, z_index, comp_index, self.composition_order));
                }
            },
            None => {
                let window = Window::new(grid, WindowType::Message { scrolled }, Some(anchor), pos, (parent_width, 1));
                self.windows.push(window);
                proof {
                    assert(windows_view(self.windows@) =~= wv.push(window@));
                }
            },
        }
    }
}


// ---- snapshots ----

pub proof fn lemma_before_transitive(a: WindowFrameView, b: WindowFrameView, c: WindowFrameView)
    requires
        frame_before(a, b),
        frame_before(b, c),
    ensures
        frame_before(a, c),
{
}

pub proof fn lemma_before_total(a: WindowFrameView, b: WindowFrameView)
    requires
        a.id != b.id,
    ensures
        frame_before(a, b) || frame_before(b, a),
{
}

pub proof fn lemma_before_asymmetric(a: WindowFrameView, b: WindowFrameView)
    requires
        frame_before(a, b),
    ensures
        !frame_before(b, a),
{
}

pub open spec fn frames_sorted(fs: Seq<WindowFrameView>) -> bool {
    forall|i: int, j: int| 0 <= i < j < fs.len() ==> frame_before(#[trigger] fs[i], #[trigger] fs[j])
}

fn frame_is_before(a: &WindowFrame, b: &WindowFrame) -> (r: bool)
    ensures
        r == frame_before(frame_view(a), frame_view(b)),
{
    (!a.floating && b.floating) || (a.floating == b.floating && a.sort_order.z_index < b.sort_order.z_index) || (a.floating
        == b.floating && a.sort_order.z_index == b.sort_order.z_index && a.sort_order.composition_order
        < b.sort_order.composition_order) || (a.floating == b.floating && a.sort_order.z_index == b.sort_order.z_index
        && a.sort_order.composition_order == b.sort_order.composition_order && a.id < b.id)
}

/// Insert `f` in draw order.
fn insert_sorted(frames: &mut Vec<WindowFrame>, f: WindowFrame)
    requires
        frames_sorted(frames_view(old(frames)@)),
        forall|i: int| 0 <= i < old(frames)@.len() ==> (#[trigger] old(frames)@[i]).id != f.id,
    ensures
        frames_sorted(frames_view(final(frames)@)),
        exists|p: int| 0 <= p <= old(frames)@.len() && frames_view(final(frames)@) == frames_view(old(frames)@).insert(p, frame_view(&f)),
{
    let ghost fv = frames_view(frames@);
    let mut p: usize = 0;
    while p < frames.len()
        invariant
            p <= frames@.len(),
            frames@ == old(frames)@,
            fv == frames_view(frames@),
            forall|i: int| 0 <= i < frames@.len() ==> (#[trigger] frames@[i]).id != f.id,
            forall|i: int| 0 <= i < p ==> frame_before(#[trigger] fv[i], frame_view(&f)),
        ensures
            p == frames@.len() || frame_before(frame_view(&f), fv[p as int]),
        decreases frames@.len() - p,
    {
        if frame_is_before(&f, &frames[p]) {
            break;
        }
        proof {
            assert(fv[p as int] == frame_view(&frames@[p as int]));
            assert(frames@[p as int].id != f.id);
            lemma_before_total(fv[p as int], frame_view(&f));
        }
        p += 1;
    }
    let ghost fview = frame_view(&f);
    proof {
        if p < frames@.len() {
            assert(fv[p as int] == frame_view(&frames@[p as int]));
            assert(frame_before(fview, fv[p as int]));
            assert forall|j: int| p <= j < fv.len() implies frame_before(fview, #[trigger] fv[j]) by {
                if j > p {
                    lemma_before_transitive(fview, fv[p as int], fv[j]);
                }
            }
        }
    }
    frames.insert(p, f);
    proof {
        let nv = frames_view(frames@);
        assert(nv =~= fv.insert(p as int, fview));
        assert forall|i: int, j: int| 0 <= i < j < nv.len() implies frame_before(#[trigger] nv[i], #[trigger] nv[j]) by {
            if j < p {
            } else if i < p && j == p {
            } else if i < p && j > p {
                assert(nv[j] == fv[j - 1]);
                assert(frame_before(fv[i], fv[j - 1]));
            } else if i == p {
                assert(nv[j] == fv[j - 1]);
            } else {
                assert(nv[i] == fv[i - 1]);
                assert(nv[j] == fv[j - 1]);
            }
        }
    }
}

pub fn clone_cursor(c: &Cursor) -> (r: Cursor)
    ensures
        r@ == c@,
{
    Cursor {
        grid_position: c.grid_position,
        parent_grid: c.parent_grid,
        shape: c.shape,
        cell_percentage: c.cell_percentage,
        blinkwait: c.blinkwait,
        blinkon: c.blinkon,
        blinkoff: c.blinkoff,
        style: c.style,
        enabled: c.enabled,
        double_width: c.double_width,
        grid_cell: (c.grid_cell.0.clone(), c.grid_cell.1),
    }
}

fn clone_tabs(tabs: &Vec<TabEntry>) -> (r: Vec<TabEntry>)
    ensures
        tabs_view(r@) == tabs_view(tabs@),
{
    let mut out: Vec<TabEntry> = Vec::new();
    let mut i: usize = 0;
    while i < tabs.len()
        invariant
            i <= tabs@.len(),
            tabs_view(out@) == tabs_view(tabs@).take(i as int),
        decreases tabs@.len() - i,
    {
        let e = TabEntry { handle: clone_value(&tabs[i].handle), name: tabs[i].name.clone() };
        let ghost before = out@;
        out.push(e);
        proof {
            assert(tabs_view(out@) =~= tabs_view(before).push((e.handle@, e.name@)));
            assert(tabs_view(out@) =~= tabs_view(tabs@).take(i + 1));
        }
        i += 1;
    }
    proof {
        assert(tabs_view(tabs@).take(tabs@.len() as int) =~= tabs_view(tabs@));
    }
    out
}

fn clone_buffers(buffers: &Vec<BufferEntry>) -> (r: Vec<BufferEntry>)
    ensures
        buffers_view(r@) == buffers_view(buffers@),
{
    let mut out: Vec<BufferEntry> = Vec::new();
    let mut i: usize = 0;
    while i < buffers.len()
        invariant
            i <= buffers@.len(),
            buffers_view(out@) == buffers_view(buffers@).take(i as int),
        decreases buffers@.len() - i,
    {
        let e = BufferEntry { handle: clone_value(&buffers[i].handle), name: buffers[i].name.clone() };
        let ghost before = out@;
        out.push(e);
        proof {
            assert(buffers_view(out@) =~= buffers_view(before).push((e.handle@, e.name@)));
            assert(buffers_view(out@) =~= buffers_view(buffers@).take(i + 1));
        }
        i += 1;
    }
    proof {
        assert(buffers_view(buffers@).take(buffers@.len() as int) =~= buffers_view(buffers@));
    }
    out
}

fn clone_tabline(t: &Option<TablineFrame>) -> (r: Option<TablineFrame>)
    ensures
        tabline_view(r) == tabline_view(*t),
{
    match t {
        Some(f) => Some(
            TablineFrame {
                current_tab: clone_value(&f.current_tab),
                tabs: clone_tabs(&f.tabs),
                current_buffer: clone_value(&f.current_buffer),
                buffers: clone_buffers(&f.buffers),
            },
        ),
        None => None,
    }
}

impl Editor {
    /// The frame of window `k`.
    fn window_frame(&self, k: usize) -> (f: WindowFrame)
        requires
            self.wf(),
            k < self.windows@.len(),
            self.windows@[k as int].width() <= u32::MAX,
        ensures
            frame_view(&f) == frame_of(windows_view(self.windows@), k as int),
            f.id == self.windows@[k as int].grid_id,
    {
        reveal(frame_of);
        let ghost wv = windows_view(self.windows@);
        let w = &self.windows[k];
        proof {
            assert(wv[k as int] == w@);
            assert(self.windows@[k as int].wf());
            w.grid.lemma_size_bounds();
        }
        let pos = match self.get_window_top_left(w.grid_id, self.windows.len()) {
            Some(p) => p,
            None => clone_pos(&w.grid_position),
        };
        let (floating, sort_order) = match w.anchor_info {
            Some(info) => (true, info.sort_order),
            None => (false, SortOrder { z_index: 0, composition_order: if w.grid_id == BASE_GRID_ID { 0 } else { 1 } }),
        };
        let f = WindowFrame {
            id: w.grid_id,
            left: pos.left,
            top: pos.top,
            width: w.get_width() as u32,
            height: w.get_height() as u32,
            floating,
            sort_order,
            window_type: w.window_type,
            lines: w.snapshot_lines(),
        };
        f
    }

    /// The frames of the visible windows, in draw order.
    fn window_frames(&self) -> (fs: Vec<WindowFrame>)
        requires
            self.wf(),
            forall|k: int| 0 <= k < self.windows@.len() && visible(#[trigger] windows_view(self.windows@)[k]) ==> windows_view(self.windows@)[k].width <= u32::MAX,
        ensures
            frames_ok(frames_view(fs@), windows_view(self.windows@)),
    {
        let ghost wv = windows_view(self.windows@);
        let mut frames: Vec<WindowFrame> = Vec::new();
        let mut k: usize = 0;
        proof {
            reveal(frames_cover);
        }
        while k < self.windows.len()
            invariant
                self.wf(),
                wv == windows_view(self.windows@),
                forall|q: int| 0 <= q < self.windows@.len() && visible(#[trigger] wv[q]) ==> wv[q].width <= u32::MAX,
                k <= self.windows@.len(),
                frames_sorted(frames_view(frames@)),
                frames_cover(frames_view(frames@), wv, k as int),
            decreases self.windows@.len() - k,
        {
            let w = &self.windows[k];
            proof {
                assert(wv[k as int] == w@);
                w.grid.lemma_size_bounds();
            }
            if !w.hidden && w.get_width() > 0 && w.get_height() > 0 {
                let f = self.window_frame(k);
                let ghost old_fv = frames_view(frames@);
                proof {
                    assert forall|i: int| 0 <= i < frames@.len() implies (#[trigger] frames@[i]).id != f.id by {
                        assert(old_fv[i] == frame_view(&frames@[i]));
                        lemma_cover_ids(old_fv, wv, k as int, i);
                    }
                }
                insert_sorted(&mut frames, f);
                proof {
                    let nv = frames_view(frames@);
                    let p = choose|p: int| 0 <= p <= old_fv.len() && nv == old_fv.insert(p, frame_view(&f));
                    lemma_cover_insert(old_fv, wv, k as int, p);
                }
            } else {
                proof {
                    lemma_cover_skip(frames_view(frames@), wv, k as int);
                }
            }
            k += 1;
        }
        proof {
            reveal(frames_cover);
        }
        frames
    }
}

/// The frames are those of the visible windows before `k`, each once.
#[verifier::opaque]
pub open spec fn frames_cover(fs: Seq<WindowFrameView>, wv: Seq<WindowView>, k: int) -> bool {
    &&& forall|i: int|
        #![trigger fs[i]]
        0 <= i < fs.len() ==> exists|q: int| #![trigger frame_of(wv, q)] 0 <= q < k && visible(wv[q]) && fs[i] == frame_of(wv, q)
    &&& forall|q: int|
        #![trigger wv[q]]
        0 <= q < k && visible(wv[q]) ==> exists|i: int| #![trigger fs[i]] 0 <= i < fs.len() && fs[i] == frame_of(wv, q)
}

proof fn lemma_cover_ids(fs: Seq<WindowFrameView>, wv: Seq<WindowView>, k: int, i: int)
    requires
        frames_cover(fs, wv, k),
        unique_ids(wv),
        0 <= k < wv.len(),
        0 <= i < fs.len(),
    ensures
        fs[i].id != wv[k].grid_id,
{
    reveal(frames_cover);
    reveal(frame_of);
    let q = choose|q: int| 0 <= q < k && visible(wv[q]) && fs[i] == frame_of(wv, q);
    assert(frame_of(wv, q).id == wv[q].grid_id);
}

proof fn lemma_cover_skip(fs: Seq<WindowFrameView>, wv: Seq<WindowView>, k: int)
    requires
        frames_cover(fs, wv, k),
        0 <= k < wv.len(),
        !visible(wv[k]),
    ensures
        frames_cover(fs, wv, k + 1),
{
    reveal(frames_cover);
    assert forall|i: int| #![trigger fs[i]] 0 <= i < fs.len() implies exists|q: int|
        #![trigger frame_of(wv, q)]
        0 <= q < k + 1 && visible(wv[q]) && fs[i] == frame_of(wv, q) by {
        let q = choose|q: int| #![trigger frame_of(wv, q)] 0 <= q < k && visible(wv[q]) && fs[i] == frame_of(wv, q);
        assert(0 <= q < k + 1 && visible(wv[q]) && fs[i] == frame_of(wv, q));
    }
    assert forall|q: int| #![trigger wv[q]] 0 <= q < k + 1 && visible(wv[q]) implies exists|i: int|
        #![trigger fs[i]]
        0 <= i < fs.len() && fs[i] == frame_of(wv, q) by {
        assert(q != k);
        assert(0 <= q < k);
    }
}

proof fn lemma_cover_insert(fs: Seq<WindowFrameView>, wv: Seq<WindowView>, k: int, p: int)
    requires
        frames_cover(fs, wv, k),
        0 <= k < wv.len(),
        visible(wv[k]),
        0 <= p <= fs.len(),
    ensures
        frames_cover(fs.insert(p, frame_of(wv, k)), wv, k + 1),
{
    reveal(frames_cover);
    let nv = fs.insert(p, frame_of(wv, k));
    assert forall|i: int| #![trigger nv[i]] 0 <= i < nv.len() implies exists|q: int|
        #![trigger frame_of(wv, q)]
        0 <= q < k + 1 && visible(wv[q]) && nv[i] == frame_of(wv, q) by {
        if i < p {
            assert(nv[i] == fs[i]);
            let q = choose|q: int| 0 <= q < k && visible(wv[q]) && fs[i] == frame_of(wv, q);
            assert(nv[i] == frame_of(wv, q));
        } else if i == p {
            assert(nv[i] == frame_of(wv, k));
        } else {
            assert(nv[i] == fs[i - 1]);
            let q = choose|q: int| 0 <= q < k && visible(wv[q]) && fs[i - 1] == frame_of(wv, q);
            assert(nv[i] == frame_of(wv, q));
        }
    }
    assert forall|q: int| #![trigger wv[q]] 0 <= q < k + 1 && visible(wv[q]) implies exists|i: int|
        #![trigger nv[i]]
        0 <= i < nv.len() && nv[i] == frame_of(wv, q) by {
        if q == k {
            assert(nv[p] == frame_of(wv, q));
        } else {
            let i = choose|i: int| #![trigger fs[i]] 0 <= i < fs.len() && fs[i] == frame_of(wv, q);
            if i < p {
                assert(nv[i] == fs[i]);
            } else {
                assert(nv[i + 1] == fs[i]);
            }
        }
    }
}


/// Does `s` start with `ext_`?
fn is_ext_name(s: &str) -> (b: bool)
    ensures
        b == (s@.len() >= 4 && s@.take(4) == "ext_"@),
{
    proof {
        reveal_strlit("ext_");
    }
    let cs = chars_of(s);
    if cs.len() < 4 {
        return false;
    }
    let b = cs[0] == 'e' && cs[1] == 'x' && cs[2] == 't' && cs[3] == '_';
    proof {
        if b {
            assert(s@.take(4) =~= "ext_"@);
        } else {
            assert(s@.take(4)[0] != "ext_"@[0] || s@.take(4)[1] != "ext_"@[1] || s@.take(4)[2] != "ext_"@[2] || s@.take(4)[3] != "ext_"@[3]);
        }
    }
    b
}

fn option_notice(option: GuiOption) -> (n: Option<EditorNotice>)
    ensures
        match n {
            Some(x) => notice_of(RedrawEventView::OptionSet { gui_option: option@ }) == Some(x@),
            None => notice_of(RedrawEventView::OptionSet { gui_option: option@ }) is None,
        },
{
    match option {
        GuiOption::GuiFont(font) => Some(EditorNotice::FontChanged(font)),
        GuiOption::LineSpace(ls) => Some(EditorNotice::LineSpaceChanged(ls)),
        GuiOption::Unknown(name, value) => if is_ext_name(name.as_str()) {
            match value {
                Value::Boolean(enabled) => Some(EditorNotice::ExtOption { name, enabled }),
                _ => None,
            }
        } else {
            None
        },
        _ => None,
    }
}

impl Editor {
    /// The frame of the editor: its visible windows in draw order, the cursor, colours, mode,
    /// grid 1's size and the tab line. Counts the flush.
    pub fn snapshot(&mut self) -> (f: Frame)
        requires
            old(self).wf(),
            old(self).spec_view().sequence < u64::MAX,
            forall|k: int|
                0 <= k < old(self).spec_view().windows.len() && visible(#[trigger] old(self).spec_view().windows[k])
                    ==> old(self).spec_view().windows[k].width <= u32::MAX,
        ensures
            final(self).wf(),
            final(self).spec_view() == (EditorView { sequence: (old(self).spec_view().sequence + 1) as u64, ..old(self).spec_view() }),
            frame_ok(&f, final(self).spec_view()),
    {
        self.sequence = self.sequence + 1;
        let windows = self.window_frames();
        let grid_size = match self.find_window(BASE_GRID_ID) {
            Some(i) => {
                proof {
                    self.windows@[i as int].grid.lemma_size_bounds();
                }
                (self.windows[i].get_width() as u32, self.windows[i].get_height() as u32)
            },
            None => (0, 0),
        };
        Frame {
            windows,
            cursor: clone_cursor(&self.cursor),
            default_style: self.default_style,
            mode: self.current_mode.clone_mode(),
            grid_size,
            tabline: clone_tabline(&self.tabline),
            sequence: self.sequence,
        }
    }

    fn update_cursor_cell(&mut self)
        requires
            old(self).wf(),
        ensures
            final(self).wf(),
            final(self).spec_view() == ({
                let (cell, double_width) = cursor_cell(old(self).spec_view().windows, old(self).spec_view().cursor);
                EditorView { cursor: CursorView { grid_cell: cell, double_width, ..old(self).spec_view().cursor }, ..old(self).spec_view() }
            }),
    {
        let (left, top) = self.cursor.grid_position;
        match self.find_window(self.cursor.parent_grid) {
            Some(i) => {
                proof {
                    assert(self.windows@[i as int].wf());
                    assert(windows_view(self.windows@)[i as int] == self.windows@[i as int]@);
                }
                let (text, style, double_width) = self.windows[i].get_cursor_grid_cell(left, top);
                self.cursor.grid_cell = (text, style);
                self.cursor.double_width = double_width;
            },
            None => {
                self.cursor.grid_cell = (space(), None);
                self.cursor.double_width = false;
            },
        }
    }

    /// `grid_cursor_goto`: the cursor moves; a float it enters is raised.
    fn set_cursor_position(&mut self, grid: u64, left: u64, top: u64)
        requires
            old(self).wf(),
            event_ok(old(self).spec_view(), RedrawEventView::CursorGoto { grid, row: top, column: left }),
        ensures
            final(self).wf(),
            final(self).spec_view() == next_state(old(self).spec_view(), RedrawEventView::CursorGoto { grid, row: top, column: left }),
    {
        let ghost wv = windows_view(self.windows@);
        match self.find_window(grid) {
            Some(i) => {
                proof {
                    assert(wv[i as int] == self.windows@[i as int]@);
                }
                proof {
                    assert(self.windows@[i as int].wf());
                }
                let ghost before = self.windows@;
                match self.windows[i].anchor_info {
                    Some(a) => {
                        self.composition_order = self.composition_order + 1;
                        let order = self.composition_order;
                        self.windows[i].anchor_info = Some(
                            AnchorInfo { sort_order: SortOrder { composition_order: order, ..a.sort_order }, ..a },
                        );
                        proof {
                            assert(windows_view(self.windows@) =~= wv.update(
                                i as int,
                                WindowView {
                                    anchor_info: Some(AnchorInfo { sort_order: SortOrder { composition_order: order, ..a.sort_order }, ..a }),
                                    ..wv[i as int]
                                },
                            ));
                            assert forall|k: int| 0 <= k < self.windows@.len() implies #[trigger] self.windows@[k].wf() by {
                                if k != i {
                                    assert(self.windows@[k] == before[k]);
                                    assert(before[k].wf());
                                }
                            }
                        }
                    },
                    None => {},
                }
            },
            None => {},
        }
        self.cursor.parent_grid = grid;
        self.cursor.grid_position = (left, top);
    }

    /// `grid_line` into grid `grid`'s window, if there is one.
    fn draw_grid_line(&mut self, grid: u64, row: u64, column_start: u64, cells: Vec<GridLineCell>)
        requires
            old(self).wf(),
        ensures
            final(self).wf(),
            final(self).spec_view() == with_windows(
                old(self).spec_view(),
                map_window(
                    old(self).spec_view().windows,
                    grid,
                    (|w: WindowView| line_drawn(w, row, column_start, cells_view(cells@), old(self).spec_view().styles)),
                ),
            ),
    {
        let ghost wv = windows_view(self.windows@);
        match self.find_window(grid) {
            Some(i) => {
                proof {
                    assert(self.windows@[i as int].wf());
                }
                let ghost cv = cells_view(cells@);
                self.windows[i].draw_grid_line(row, column_start, cells, &self.defined_styles);
                proof {
                    assert(windows_view(self.windows@) =~= wv.update(
                        i as int,
                        line_drawn(wv[i as int], row, column_start, cv, self.defined_styles@),
                    ));
                }
            },
            None => {},
        }
    }
}


impl Editor {
    /// Apply one event: the editor moves to `next_state`; a flush gives a frame of the new
    /// state, other events the notice `notice_of` names, if any.
    #[verifier::spinoff_prover]
    #[verifier::rlimit(100)]
    pub fn handle_redraw_event(&mut self, event: RedrawEvent) -> (out: EditorOutput)
        requires
            old(self).wf(),
            event_ok(old(self).spec_view(), event@),
        ensures
            final(self).wf(),
            final(self).spec_view() == next_state(old(self).spec_view(), event@),
            match out {
                EditorOutput::Nothing => !(event@ is Flush) && notice_of(event@) is None,
                EditorOutput::Notice(n) => !(event@ is Flush) && notice_of(event@) == Some(n@),
                EditorOutput::Frame(f) => event@ is Flush && frame_ok(&f, final(self).spec_view()),
            },
    {
        let ghost s = self.spec_view();
        let ghost ev = event@;
        match event {
            RedrawEvent::SetTitle { title } => EditorOutput::Notice(EditorNotice::Title(title)),
            RedrawEvent::ModeInfoSet { cursor_modes } => {
                self.mode_list = cursor_modes;
                if let Some(i) = self.current_mode_index {
                    if (i as usize) < self.mode_list.len() {
                        let mode = self.mode_list[i as usize];
                        self.cursor.change_mode(&mode, &self.defined_styles);
                    }
                }
                EditorOutput::Nothing
            },
            RedrawEvent::OptionSet { gui_option } => match option_notice(gui_option) {
                Some(n) => EditorOutput::Notice(n),
                None => EditorOutput::Nothing,
            },
            RedrawEvent::ModeChange { mode, mode_index } => {
                if (mode_index as usize) < self.mode_list.len() {
                    let m = self.mode_list[mode_index as usize];
                    self.cursor.change_mode(&m, &self.defined_styles);
                    self.current_mode_index = Some(mode_index);
                } else {
                    self.current_mode_index = None;
                }
                self.current_mode = mode.clone_mode();
                EditorOutput::Notice(EditorNotice::ModeChanged(mode))
            },
            RedrawEvent::MouseOn => EditorOutput::Notice(EditorNotice::MouseEnabled(true)),
            RedrawEvent::MouseOff => EditorOutput::Notice(EditorNotice::MouseEnabled(false)),
            RedrawEvent::BusyStart => {
                self.cursor.enabled = false;
                EditorOutput::Nothing
            },
            RedrawEvent::BusyStop => {
                self.cursor.enabled = true;
                EditorOutput::Nothing
            },
            RedrawEvent::Flush => {
                self.update_cursor_cell();
                let frame = self.snapshot();
                EditorOutput::Frame(frame)
            },
            RedrawEvent::DefaultColorsSet { colors } => {
                self.default_style = Style::new(colors);
                EditorOutput::Nothing
            },
            RedrawEvent::HighlightAttributesDefine { id, style, .. } => {
                self.defined_styles.insert(id, style);
                EditorOutput::Nothing
            },
            RedrawEvent::CursorGoto { grid, row, column } => {
                self.set_cursor_position(grid, column, row);
                EditorOutput::Nothing
            },
            RedrawEvent::Resize { grid, width, height } => {
                self.resize_window(grid, width, height);
                EditorOutput::Nothing
            },
            RedrawEvent::GridLine { grid, row, column_start, cells } => {
                self.draw_grid_line(grid, row, column_start, cells);
                EditorOutput::Nothing
            },
            RedrawEvent::Clear { grid } => {
                self.clear_window(grid);
                EditorOutput::Nothing
            },
            RedrawEvent::Destroy { grid } | RedrawEvent::WindowClose { grid } => {
                self.remove_window(grid);
                EditorOutput::Nothing
            },
            RedrawEvent::Scroll { grid, top, bottom, left, right, rows, columns } => {
                self.scroll_window(grid, top, bottom, left, right, rows, columns);
                EditorOutput::Nothing
            },
            RedrawEvent::WindowPosition { grid, start_row, start_column, width, height } => {
                self.set_window_position(grid, start_column, start_row, width, height);
                EditorOutput::Nothing
            },
            RedrawEvent::WindowFloatPosition { grid, anchor, anchor_grid, anchor_row, anchor_column, z_index, comp_index, screen_row, screen_col, .. } => {
                let anchor_type = if comp_index.is_some() {
                    WindowAnchor::Absolute
                } else {
                    self.composition_order = self.composition_order + 1;
                    anchor
                };
                let sort_order = SortOrder {
                    z_index,
                    composition_order: match comp_index {
                        Some(c) => c,
                        None => self.composition_order,
                    },
                };
                let info = AnchorInfo { anchor_grid_id: anchor_grid, anchor_type, anchor_left: anchor_column, anchor_top: anchor_row, sort_order };
                self.set_window_float_position(grid, info, screen_col, screen_row);
                EditorOutput::Nothing
            },
            RedrawEvent::WindowExternalPosition { grid } => {
                let info = AnchorInfo {
                    anchor_grid_id: BASE_GRID_ID,
                    anchor_type: WindowAnchor::NorthWest,
                    anchor_left: FloatValue::F64(0),
                    anchor_top: FloatValue::F64(0),
                    sort_order: SortOrder { z_index: 50, composition_order: self.composition_order },
                };
                self.set_window_float_position(grid, info, None, None);
                EditorOutput::Nothing
            },
            RedrawEvent::WindowHide { grid } => {
                self.hide_window(grid);
                EditorOutput::Nothing
            },
            RedrawEvent::MessageSetPosition { grid, row, scrolled, z_index, comp_index, .. } => {
                self.set_message_position(grid, row, scrolled, z_index, comp_index);
                EditorOutput::Nothing
            },
            RedrawEvent::WindowViewportMargins { grid, top, bottom, .. } => {
                self.set_viewport_margins(grid, top, bottom);
                EditorOutput::Nothing
            },
            RedrawEvent::TablineUpdate { current_tab, tabs, current_buffer, buffers } => {
                self.tabline = Some(TablineFrame { current_tab, tabs, current_buffer, buffers });
                EditorOutput::Nothing
            },
            _ => EditorOutput::Nothing,
        }
    }

    fn remove_window(&mut self, grid: u64)
        requires
            old(self).wf(),
        ensures
            final(self).wf(),
            final(self).spec_view() == with_windows(
                old(self).spec_view(),
                match window_index(old(self).spec_view().windows, grid) {
                    Some(i) => old(self).spec_view().windows.remove(i),
                    None => old(self).spec_view().windows,
                },
            ),
    {
        let ghost wv = windows_view(self.windows@);
        let ghost before = self.windows@;
        match self.find_window(grid) {
            Some(i) => {
                self.windows.remove(i);
                proof {
                    assert(windows_view(self.windows@) =~= wv.remove(i as int));
                    assert forall|k: int| 0 <= k < self.windows@.len() implies #[trigger] self.windows@[k].wf() by {
                        if k < i {
                            assert(self.windows@[k] == before[k]);
                            assert(before[k].wf());
                        } else {
                            assert(self.windows@[k] == before[k + 1]);
                            assert(before[k + 1].wf());
                        }
                    }
                }
            },
            None => {},
        }
    }

    fn scroll_window(&mut self, grid: u64, top: u64, bottom: u64, left: u64, right: u64, rows: i64, cols: i64)
        requires
            old(self).wf(),
            event_ok(old(self).spec_view(), RedrawEventView::Scroll { grid, top, bottom, left, right, rows, columns: cols }),
        ensures
            final(self).wf(),
            final(self).spec_view() == with_windows(
                old(self).spec_view(),
                map_window(old(self).spec_view().windows, grid, (|w: WindowView| scrolled(w, top, bottom, left, right, rows, cols))),
            ),
    {
        let ghost wv = windows_view(self.windows@);
        match self.find_window(grid) {
            Some(i) => {
                proof {
                    assert(self.windows@[i as int].wf());
                }
                let _ = self.windows[i].scroll_region(top, bottom, left, right, rows, cols);
                proof {
                    assert(windows_view(self.windows@) =~= wv.update(i as int, scrolled(wv[i as int], top, bottom, left, right, rows, cols)));
                }
            },
            None => {},
        }
    }

    fn hide_window(&mut self, grid: u64)
        requires
            old(self).wf(),
        ensures
            final(self).wf(),
            final(self).spec_view() == with_windows(
                old(self).spec_view(),
                map_window(old(self).spec_view().windows, grid, (|w: WindowView| WindowView { anchor_info: None, hidden: true, ..w })),
            ),
    {
        let ghost wv = windows_view(self.windows@);
        let ghost before = self.windows@;
        match self.find_window(grid) {
            Some(i) => {
                proof {
                    assert(self.windows@[i as int].wf());
                }
                self.windows[i].anchor_info = None;
                self.windows[i].hidden = true;
                proof {
                    assert(windows_view(self.windows@) =~= wv.update(i as int, WindowView { anchor_info: None, hidden: true, ..wv[i as int] }));
                    assert forall|k: int| 0 <= k < self.windows@.len() implies #[trigger] self.windows@[k].wf() by {
                        if k != i {
                            assert(self.windows@[k] == before[k]);
                            assert(before[k].wf());
                        }
                    }
                }
            },
            None => {},
        }
    }

    fn set_viewport_margins(&mut self, grid: u64, top: u64, bottom: u64)
        requires
            old(self).wf(),
        ensures
            final(self).wf(),
            final(self).spec_view() == with_windows(
                old(self).spec_view(),
                map_window(old(self).spec_view().windows, grid, (|w: WindowView| WindowView { viewport_margins: (top, bottom), ..w })),
            ),
    {
        let ghost wv = windows_view(self.windows@);
        let ghost before = self.windows@;
        match self.find_window(grid) {
            Some(i) => {
                proof {
                    assert(self.windows@[i as int].wf());
                }
                self.windows[i].viewport_margins = (top, bottom);
                proof {
                    assert(windows_view(self.windows@) =~= wv.update(i as int, WindowView { viewport_margins: (top, bottom), ..wv[i as int] }));
                    assert forall|k: int| 0 <= k < self.windows@.len() implies #[trigger] self.windows@[k].wf() by {
                        if k != i {
                            assert(self.windows@[k] == before[k]);
                            assert(before[k].wf());
                        }
                    }
                }
            },
            None => {},
        }
    }
}


// ---- laws of the window list ----

/// A grid other than grid 1 that first appears through `grid_resize` gets a window that is
/// not drawn: it waits for a position event.
pub proof fn law_new_grid_hidden_until_positioned(s: EditorView, grid: u64, width: u64, height: u64)
    requires
        window_index(s.windows, grid) is None,
        grid != BASE_GRID_ID,
    ensures
        ({
            let s1 = next_state(s, RedrawEventView::Resize { grid, width, height });
            &&& window_index(s1.windows, grid) == Some(s.windows.len() as int)
            &&& !visible(s1.windows[s.windows.len() as int])
        }),
{
    let s1 = next_state(s, RedrawEventView::Resize { grid, width, height });
    let n = s.windows.len() as int;
    assert(s1.windows[n].grid_id == grid);
    assert forall|i: int| 0 <= i < s1.windows.len() && s1.windows[i].grid_id == grid implies i == n by {
        if i < n {
            assert(s.windows[i].grid_id == grid);
        }
    }
}

/// A position event with a size of at least one cell each way makes its grid's window drawn.
pub proof fn law_positioned_window_is_drawn(
    s: EditorView,
    grid: u64,
    start_row: u64,
    start_column: u64,
    width: u64,
    height: u64,
)
    requires
        unique_ids(s.windows),
        0 < width <= usize::MAX,
        0 < height <= usize::MAX,
    ensures
        ({
            let s1 = next_state(s, RedrawEventView::WindowPosition { grid, start_row, start_column, width, height });
            &&& window_index(s1.windows, grid) matches Some(i)
            &&& visible(s1.windows[i])
            &&& s1.windows[i].grid_position == cells_pos(start_column, start_row)
        }),
{
    let s1 = next_state(s, RedrawEventView::WindowPosition { grid, start_row, start_column, width, height });
    match window_index(s.windows, grid) {
        Some(i) => {
            assert(s1.windows[i].grid_id == grid);
            assert forall|j: int| 0 <= j < s1.windows.len() && s1.windows[j].grid_id == grid implies j == i by {
                if j != i {
                    assert(s.windows[j].grid_id == grid);
                }
            }
        },
        None => {
            let n = s.windows.len() as int;
            assert(s1.windows[n].grid_id == grid);
            assert forall|j: int| 0 <= j < s1.windows.len() && s1.windows[j].grid_id == grid implies j == n by {
                if j < n {
                    assert(s.windows[j].grid_id == grid);
                }
            }
        },
    }
}

/// A hidden window is not drawn.
pub proof fn law_hidden_window_is_not_drawn(s: EditorView, grid: u64)
    requires
        unique_ids(s.windows),
    ensures
        ({
            let s1 = next_state(s, RedrawEventView::WindowHide { grid });
            window_index(s1.windows, grid) matches Some(i) ==> !visible(s1.windows[i])
        }),
{
    let s1 = next_state(s, RedrawEventView::WindowHide { grid });
    if let Some(i) = window_index(s.windows, grid) {
        assert forall|j: int| 0 <= j < s1.windows.len() && s1.windows[j].grid_id == grid implies j == i by {
            if j != i {
                assert(s.windows[j].grid_id == grid);
            }
        }
    }
}

/// A destroyed (or closed) grid has no window any more.
pub proof fn law_destroyed_grid_is_gone(s: EditorView, grid: u64)
    requires
        unique_ids(s.windows),
    ensures
        window_index(next_state(s, RedrawEventView::Destroy { grid }).windows, grid) is None,
        window_index(next_state(s, RedrawEventView::WindowClose { grid }).windows, grid) is None,
{
    if let Some(i) = window_index(s.windows, grid) {
        let ws = s.windows.remove(i);
        assert forall|j: int| 0 <= j < ws.len() implies ws[j].grid_id != grid by {
            if j < i {
                assert(ws[j] == s.windows[j]);
            } else {
                assert(ws[j] == s.windows[j + 1]);
            }
        }
    }
}


fn fits_isize(v: i128) -> (b: bool)
    ensures
        b == (isize::MIN <= v <= isize::MAX),
{
    (isize::MIN as i128) <= v && v <= (isize::MAX as i128)
}

impl Editor {
    /// Can the editor take `event` now (see `event_ok`)? A flush needs the flush count to
    /// grow and every shown window to be narrower than 2^32 cells; a cursor move into a float
    /// or a float placed without a composition index needs the composition order to grow; a
    /// scroll needs its region and counts to be machine-sized.
    pub fn accepts(&self, event: &RedrawEvent) -> (b: bool)
        requires
            self.wf(),
        ensures
            b == event_ok(self.spec_view(), event@),
    {
        match event {
            RedrawEvent::Flush => {
                if self.sequence == u64::MAX {
                    return false;
                }
                let ghost ws = windows_view(self.windows@);
                let mut k: usize = 0;
                while k < self.windows.len()
                    invariant
                        k <= self.windows@.len(),
                        ws == windows_view(self.windows@),
                        ws == self.spec_view().windows,
                        event@ == RedrawEventView::Flush,
                        self.sequence < u64::MAX,
                        forall|j: int| 0 <= j < k && visible(ws[j]) ==> #[trigger] ws[j].width <= u32::MAX,
                    decreases self.windows@.len() - k,
                {
                    let w = &self.windows[k];
                    proof {
                        w.grid.lemma_size_bounds();
                        assert(ws[k as int] == w@);
                    }
                    let shown = !w.hidden && w.get_width() > 0 && w.get_height() > 0;
                    if shown && w.get_width() > u32::MAX as u64 {
                        proof {
                            assert(visible(ws[k as int]));
                            assert(!(ws[k as int].width <= u32::MAX));
                        }
                        return false;
                    }
                    k += 1;
                }
                true
            },
            RedrawEvent::CursorGoto { grid, .. } => match self.find_window(*grid) {
                Some(i) => !self.windows[i].anchor_info.is_some() || self.composition_order < u64::MAX,
                None => true,
            },
            RedrawEvent::WindowFloatPosition { comp_index, .. } => comp_index.is_some() || self.composition_order < u64::MAX,
            RedrawEvent::Scroll { grid, top, bottom, left, right, rows, columns } => {
                if self.find_window(*grid).is_none() {
                    return true;
                }
                let m = isize::MAX as u64;
                *top <= m && *bottom <= m && *left <= m && *right <= m && fits_isize(*top as i128 + *rows as i128)
                    && fits_isize(*bottom as i128 + *rows as i128) && fits_isize(*left as i128 + *columns as i128)
                    && fits_isize(*right as i128 + *columns as i128) && *rows as i128 > isize::MIN as i128
                    && fits_isize(*rows as i128) && fits_isize(*columns as i128)
            },
            _ => true,
        }
    }
}

/// `grid_clear` blanks the whole grid, whatever it showed: afterwards every cell of the
/// cleared grid is a space with no highlight, the grid keeps its size, and the other windows
/// stay as they were.
pub proof fn law_clear_blanks_the_grid(s: EditorView, grid: u64, i: int)
    requires
        unique_ids(s.windows),
        0 <= i < s.windows.len(),
        s.windows[i].grid_id == grid,
    ensures
        ({
            let s1 = next_state(s, RedrawEventView::Clear { grid });
            let w = s1.windows[i];
            &&& s1.windows.len() == s.windows.len()
            &&& w.grid_id == grid
            &&& w.width == s.windows[i].width
            &&& w.height == s.windows[i].height
            &&& w.cells.len() == w.height
            &&& forall|y: int| 0 <= y < w.height ==> (#[trigger] w.cells[y]).len() == w.width
            &&& forall|y: int, x: int| 0 <= y < w.height && 0 <= x < w.width ==> #[trigger] w.cells[y][x] == (seq![' '], None::<Style>)
            &&& forall|j: int| 0 <= j < s.windows.len() && j != i ==> #[trigger] s1.windows[j] == s.windows[j]
        }),
{
    lemma_window_index(s.windows, grid, i);
}

} // verus!
