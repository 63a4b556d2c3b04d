//! Redraw-event parser for Neovim's external UI protocol (ext_linegrid + ext_multigrid,
//! plus the cmdline/message/tabline/popupmenu families, which the shell parses so it can
//! ignore them safely when a plugin forces those flags on).
//!
//! Every parser states its result over the values of its arguments: `spec_*` functions say
//! what each event is, or which error comes first.

use vstd::prelude::*;

use crate::bridge::value::{clone_values, entries_view, values_view, FloatValue, Integer, StrView, Utf8Str, Value, ValueView};
use crate::editor::cursor::{spec_shape_named, CursorMode, CursorShape};
use crate::editor::style::{packed_color, Color, Colors, Style, UnderlineStyle};
use crate::text::{push_char, str_eq};

verus! {

/// What went wrong in a redraw batch.
#[derive(Debug)]
pub enum ParseError {
    Array(Value),
    Dict(Value),
    String(Value),
    U64(Value),
    I64(Value),
    F64(Value),
    Bool(Value),
    WindowAnchor(Value),
    Format(FormatError),
}

/// The malformed shapes: too few values, an empty event, or an event whose arguments failed.
#[derive(Debug)]
pub enum FormatError {
    /// These values are fewer than the event needs, or a cell or chunk is too short.
    Values(Vec<Value>),
    /// The batch has no event name.
    EmptyEvent,
    /// Event `name` with arguments `params` failed with `error`.
    Event { name: String, params: Vec<Value>, error: Box<ParseError> },
}

pub enum ParseErrorView {
    Array(ValueView),
    Dict(ValueView),
    String(ValueView),
    U64(ValueView),
    I64(ValueView),
    F64(ValueView),
    Bool(ValueView),
    WindowAnchor(ValueView),
    Values(Seq<ValueView>),
    EmptyEvent,
    Event { name: Seq<char>, params: Seq<ValueView>, error: Box<ParseErrorView> },
}

pub open spec fn error_view(e: &ParseError) -> ParseErrorView
    decreases e,
{
    match e {
        ParseError::Array(v) => ParseErrorView::Array(v@),
        ParseError::Dict(v) => ParseErrorView::Dict(v@),
        ParseError::String(v) => ParseErrorView::String(v@),
        ParseError::U64(v) => ParseErrorView::U64(v@),
        ParseError::I64(v) => ParseErrorView::I64(v@),
        ParseError::F64(v) => ParseErrorView::F64(v@),
        ParseError::Bool(v) => ParseErrorView::Bool(v@),
        ParseError::WindowAnchor(v) => ParseErrorView::WindowAnchor(v@),
        ParseError::Format(FormatError::Values(vs)) => ParseErrorView::Values(values_view(vs@)),
        ParseError::Format(FormatError::EmptyEvent) => ParseErrorView::EmptyEvent,
        ParseError::Format(FormatError::Event { name, params, error }) => ParseErrorView::Event {
            name: name@,
            params: values_view(params@),
            error: Box::new(error_view(error)),
        },
    }
}

impl View for ParseError {
    type V = ParseErrorView;

    open spec fn view(&self) -> ParseErrorView {
        error_view(self)
    }
}

/// A parse result as values.
pub open spec fn result_view<T, V>(r: &Result<T, ParseError>, f: spec_fn(&T) -> V) -> Result<V, ParseErrorView> {
    match r {
        Ok(t) => Ok(f(t)),
        Err(e) => Err(e@),
    }
}

// ---- the primitive readers ----

pub open spec fn sp_array(v: ValueView) -> Result<Seq<ValueView>, ParseErrorView> {
    match v {
        ValueView::Array(items) => Ok(items),
        _ => Err(ParseErrorView::Array(v)),
    }
}

pub open spec fn sp_map(v: ValueView) -> Result<Seq<(ValueView, ValueView)>, ParseErrorView> {
    match v {
        ValueView::Dict(entries) => Ok(entries),
        _ => Err(ParseErrorView::Dict(v)),
    }
}

/// A string's text; invalid UTF-8 reads as one replacement character.
pub open spec fn sp_string(v: ValueView) -> Result<Seq<char>, ParseErrorView> {
    match v {
        ValueView::String(StrView::Valid(t)) => Ok(t),
        ValueView::String(StrView::Invalid(_)) => Ok(seq!['\u{FFFD}']),
        _ => Err(ParseErrorView::String(v)),
    }
}

pub open spec fn sp_u64(v: ValueView) -> Result<u64, ParseErrorView> {
    match v {
        ValueView::Integer(n) => match n.spec_as_u64() {
            Some(x) => Ok(x),
            None => Err(ParseErrorView::U64(v)),
        },
        _ => Err(ParseErrorView::U64(v)),
    }
}

pub open spec fn sp_i64(v: ValueView) -> Result<i64, ParseErrorView> {
    match v {
        ValueView::Integer(n) => match n.spec_as_i64() {
            Some(x) => Ok(x),
            None => Err(ParseErrorView::I64(v)),
        },
        _ => Err(ParseErrorView::I64(v)),
    }
}

/// Integers and both float widths read as a float.
pub open spec fn sp_f64(v: ValueView) -> Result<FloatValue, ParseErrorView> {
    match v {
        ValueView::Integer(n) => Ok(FloatValue::Int(n)),
        ValueView::F32(b) => Ok(FloatValue::F32(b)),
        ValueView::F64(b) => Ok(FloatValue::F64(b)),
        _ => Err(ParseErrorView::F64(v)),
    }
}

pub open spec fn sp_bool(v: ValueView) -> Result<bool, ParseErrorView> {
    match v {
        ValueView::Boolean(b) => Ok(b),
        _ => Err(ParseErrorView::Bool(v)),
    }
}

/// The text of a string value, when it is valid UTF-8.
pub open spec fn sp_as_str(v: ValueView) -> Option<Seq<char>> {
    match v {
        ValueView::String(StrView::Valid(t)) => Some(t),
        _ => None,
    }
}

fn replacement_string() -> (s: String)
    ensures
        s@ == seq!['\u{FFFD}'],
{
    let mut s = String::new();
    push_char(&mut s, '\u{FFFD}');
    proof {
        assert(s@ =~= seq!['\u{FFFD}']);
    }
    s
}

pub fn parse_array(v: Value) -> (r: Result<Vec<Value>, ParseError>)
    ensures
        match r {
            Ok(items) => sp_array(v@) == Ok::<Seq<ValueView>, ParseErrorView>(values_view(items@)),
            Err(e) => sp_array(v@) == Err::<Seq<ValueView>, ParseErrorView>(e@),
        },
{
    match v {
        Value::Array(items) => Ok(items),
        _ => Err(ParseError::Array(v)),
    }
}

pub fn parse_map(v: Value) -> (r: Result<Vec<(Value, Value)>, ParseError>)
    ensures
        match r {
            Ok(entries) => sp_map(v@) == Ok::<Seq<(ValueView, ValueView)>, ParseErrorView>(entries_view(entries@)),
            Err(e) => sp_map(v@) == Err::<Seq<(ValueView, ValueView)>, ParseErrorView>(e@),
        },
{
    match v {
        Value::Dict(entries) => Ok(entries),
        _ => Err(ParseError::Dict(v)),
    }
}

pub fn parse_string(v: Value) -> (r: Result<String, ParseError>)
    ensures
        match r {
            Ok(s) => sp_string(v@) == Ok::<Seq<char>, ParseErrorView>(s@),
            Err(e) => sp_string(v@) == Err::<Seq<char>, ParseErrorView>(e@),
        },
{
    match v {
        Value::String(Utf8Str::Valid(s)) => Ok(s),
        Value::String(Utf8Str::Invalid(_)) => Ok(replacement_string()),
        _ => Err(ParseError::String(v)),
    }
}

pub fn parse_u64(v: Value) -> (r: Result<u64, ParseError>)
    ensures
        match r {
            Ok(x) => sp_u64(v@) == Ok::<u64, ParseErrorView>(x),
            Err(e) => sp_u64(v@) == Err::<u64, ParseErrorView>(e@),
        },
{
    let n = match &v {
        Value::Integer(n) => n.as_u64(),
        _ => None,
    };
    match n {
        Some(x) => Ok(x),
        None => Err(ParseError::U64(v)),
    }
}

pub fn parse_i64(v: Value) -> (r: Result<i64, ParseError>)
    ensures
        match r {
            Ok(x) => sp_i64(v@) == Ok::<i64, ParseErrorView>(x),
            Err(e) => sp_i64(v@) == Err::<i64, ParseErrorView>(e@),
        },
{
    let n = match &v {
        Value::Integer(n) => n.as_i64(),
        _ => None,
    };
    match n {
        Some(x) => Ok(x),
        None => Err(ParseError::I64(v)),
    }
}

pub fn parse_f64(v: Value) -> (r: Result<FloatValue, ParseError>)
    ensures
        match r {
            Ok(x) => sp_f64(v@) == Ok::<FloatValue, ParseErrorView>(x),
            Err(e) => sp_f64(v@) == Err::<FloatValue, ParseErrorView>(e@),
        },
{
    match v {
        Value::Integer(n) => Ok(FloatValue::Int(n)),
        Value::F32(b) => Ok(FloatValue::F32(b)),
        Value::F64(b) => Ok(FloatValue::F64(b)),
        _ => Err(ParseError::F64(v)),
    }
}

pub fn parse_bool(v: Value) -> (r: Result<bool, ParseError>)
    ensures
        match r {
            Ok(x) => sp_bool(v@) == Ok::<bool, ParseErrorView>(x),
            Err(e) => sp_bool(v@) == Err::<bool, ParseErrorView>(e@),
        },
{
    match v {
        Value::Boolean(b) => Ok(b),
        _ => Err(ParseError::Bool(v)),
    }
}

// ---- argument lists ----

/// The first `req` values, or an error when there are fewer.
pub open spec fn sp_extract(values: Seq<ValueView>, req: nat) -> Result<Seq<ValueView>, ParseErrorView> {
    if req > values.len() {
        Err(ParseErrorView::Values(values))
    } else {
        Ok(values.take(req as int))
    }
}

/// The `opt` values after the first `req`, each present or not.
pub open spec fn sp_optional(values: Seq<ValueView>, req: nat, opt: nat) -> Seq<Option<ValueView>> {
    Seq::new(opt, |i: int| if req + i < values.len() { Some(values[req + i]) } else { None })
}

pub open spec fn options_view(v: Seq<Option<Value>>) -> Seq<Option<ValueView>> {
    Seq::new(v.len(), |i: int| match v[i] { Some(x) => Some(x@), None => None })
}

/// The first `req` values (the rest dropped), or `Format` when there are fewer.
pub fn extract_values(values: Vec<Value>, req: usize) -> (r: Result<Vec<Value>, ParseError>)
    ensures
        match r {
            Ok(v) => v@.len() == req && sp_extract(values_view(values@), req as nat) == Ok::<Seq<ValueView>, ParseErrorView>(values_view(v@)),
            Err(e) => sp_extract(values_view(values@), req as nat) == Err::<Seq<ValueView>, ParseErrorView>(e@),
        },
{
    if req > values.len() {
        let ghost vv = values_view(values@);
        let e = ParseError::Format(FormatError::Values(values));
        proof {
            assert(e@ == ParseErrorView::Values(vv));
        }
        Err(e)
    } else {
        let ghost before = values@;
        let mut v = values;
        v.truncate(req);
        proof {
            assert(values_view(v@) =~= values_view(before).take(req as int));
        }
        Ok(v)
    }
}

/// The first `req` values and up to `opt` more, or `Format` when there are fewer than `req`.
pub fn extract_values_with_optional(values: Vec<Value>, req: usize, opt: usize) -> (r: Result<(Vec<Value>, Vec<Option<Value>>), ParseError>)
    ensures
        match r {
            Ok((v, o)) => {
                &&& v@.len() == req
                &&& o@.len() == opt
                &&& sp_extract(values_view(values@), req as nat) == Ok::<Seq<ValueView>, ParseErrorView>(values_view(v@))
                &&& options_view(o@) == sp_optional(values_view(values@), req as nat, opt as nat)
            },
            Err(e) => sp_extract(values_view(values@), req as nat) == Err::<Seq<ValueView>, ParseErrorView>(e@),
        },
{
    if req > values.len() {
        let ghost vv = values_view(values@);
        let e = ParseError::Format(FormatError::Values(values));
        proof {
            assert(e@ == ParseErrorView::Values(vv));
        }
        return Err(e);
    }
    let ghost all = values_view(values@);
    let mut v = values;
    let mut rest = v.split_off(req);
    let mut o: Vec<Option<Value>> = Vec::new();
    let mut i: usize = 0;
    while i < opt
        invariant
            i <= opt,
            o@.len() == i,
            req <= all.len(),
            values_view(v@) == all.take(req as int),
            rest@.len() == if req + i <= all.len() { all.len() - req - i } else { 0 },
            forall|k: int| 0 <= k < rest@.len() ==> #[trigger] value_of(rest@[k]) == all[req + i + k],
            forall|k: int| 0 <= k < i ==> #[trigger] options_view(o@)[k] == sp_optional(all, req as nat, opt as nat)[k],
        decreases opt - i,
    {
        let ghost o_old = o@;
        let ghost rest_old = rest@;
        if rest.len() > 0 {
            let x = rest.remove(0);
            proof {
                assert(value_of(rest_old[0]) == all[req + i + 0]);
                assert forall|k: int| 0 <= k < rest@.len() implies #[trigger] value_of(rest@[k]) == all[req + (i + 1) + k] by {
                    assert(rest@[k] == rest_old[k + 1]);
                }
            }
            o.push(Some(x));
        } else {
            o.push(None);
        }
        proof {
            assert forall|k: int| 0 <= k < i + 1 implies #[trigger] options_view(o@)[k] == sp_optional(all, req as nat, opt as nat)[k] by {
                if k < i {
                    assert(o@[k] == o_old[k]);
                    assert(options_view(o_old)[k] == options_view(o@)[k]);
                }
            }
        }
        i += 1;
    }
    proof {
        assert(options_view(o@) =~= sp_optional(all, req as nat, opt as nat));
        assert(values_view(v@) =~= all.take(req as int));
    }
    Ok((v, o))
}

pub open spec fn value_of(v: Value) -> ValueView {
    v@
}

/// Take the first value out of a list.
fn take_first(v: &mut Vec<Value>) -> (x: Value)
    requires
        old(v)@.len() > 0,
    ensures
        x@ == values_view(old(v)@)[0],
        final(v)@.len() == old(v)@.len() - 1,
        values_view(final(v)@) == values_view(old(v)@).drop_first(),
{
    let x = v.remove(0);
    proof {
        assert(values_view(v@) =~= values_view(old(v)@).drop_first());
    }
    x
}

// ---- events ----

#[derive(Debug)]
pub struct GridLineCell {
    /// UTF-8 text for the cell; empty for the right half of a double-width char.
    pub text: String,
    /// Highlight id from an earlier `hl_attr_define`; `None` means "same as the previous cell".
    pub highlight_id: Option<u64>,
    /// Repeat count; `None` draws once.
    pub repeat: Option<u64>,
}

pub struct GridLineCellView {
    pub text: Seq<char>,
    pub highlight_id: Option<u64>,
    pub repeat: Option<u64>,
}

impl View for GridLineCell {
    type V = GridLineCellView;

    open spec fn view(&self) -> GridLineCellView {
        GridLineCellView { text: self.text@, highlight_id: self.highlight_id, repeat: self.repeat }
    }
}

pub open spec fn cells_view(cells: Seq<GridLineCell>) -> Seq<GridLineCellView> {
    Seq::new(cells.len(), |i: int| cells[i]@)
}

/// Styled text chunks: `(highlight id, text)`.
pub type StyledContent = Vec<(u64, String)>;

pub open spec fn styled_view(c: Seq<(u64, String)>) -> Seq<(u64, Seq<char>)> {
    Seq::new(c.len(), |i: int| (c[i].0, c[i].1@))
}

pub open spec fn styled_lines_view(lines: Seq<StyledContent>) -> Seq<Seq<(u64, Seq<char>)>> {
    Seq::new(lines.len(), |i: int| styled_view(lines[i]@))
}

#[derive(Clone, Copy, Debug, PartialEq, Eq, Structural)]
pub enum MessageKind {
    Unknown,
    Confirm,
    ConfirmSubstitute,
    Error,
    Echo,
    EchoMessage,
    EchoError,
    LuaError,
    RpcError,
    ReturnPrompt,
    QuickFix,
    SearchCount,
    Warning,
}

pub open spec fn spec_message_kind(kind: Seq<char>) -> MessageKind {
    if kind == "confirm"@ {
        MessageKind::Confirm
    } else if kind == "confirm_sub"@ {
        MessageKind::ConfirmSubstitute
    } else if kind == "emsg"@ {
        MessageKind::Error
    } else if kind == "echo"@ {
        MessageKind::Echo
    } else if kind == "echomsg"@ {
        MessageKind::EchoMessage
    } else if kind == "echoerr"@ {
        MessageKind::EchoError
    } else if kind == "lua_error"@ {
        MessageKind::LuaError
    } else if kind == "rpc_error"@ {
        MessageKind::RpcError
    } else if kind == "return_prompt"@ {
        MessageKind::ReturnPrompt
    } else if kind == "quickfix"@ {
        MessageKind::QuickFix
    } else if kind == "search_count"@ {
        MessageKind::SearchCount
    } else if kind == "wmsg"@ {
        MessageKind::Warning
    } else {
        MessageKind::Unknown
    }
}

impl MessageKind {
    /// The kind `msg_show` names; anything else is `Unknown`.
    pub fn parse(kind: &str) -> (k: MessageKind)
        ensures
            k == spec_message_kind(kind@),
    {
        if str_eq(kind, "confirm") {
            MessageKind::Confirm
        } else if str_eq(kind, "confirm_sub") {
            MessageKind::ConfirmSubstitute
        } else if str_eq(kind, "emsg") {
            MessageKind::Error
        } else if str_eq(kind, "echo") {
            MessageKind::Echo
        } else if str_eq(kind, "echomsg") {
            MessageKind::EchoMessage
        } else if str_eq(kind, "echoerr") {
            MessageKind::EchoError
        } else if str_eq(kind, "lua_error") {
            MessageKind::LuaError
        } else if str_eq(kind, "rpc_error") {
            MessageKind::RpcError
        } else if str_eq(kind, "return_prompt") {
            MessageKind::ReturnPrompt
        } else if str_eq(kind, "quickfix") {
            MessageKind::QuickFix
        } else if str_eq(kind, "search_count") {
            MessageKind::SearchCount
        } else if str_eq(kind, "wmsg") {
            MessageKind::Warning
        } else {
            MessageKind::Unknown
        }
    }
}

#[derive(Debug)]
pub enum GuiOption {
    ArabicShape(bool),
    AmbiWidth(String),
    Emoji(bool),
    GuiFont(String),
    GuiFontSet(String),
    GuiFontWide(String),
    LineSpace(FloatValue),
    Pumblend(u64),
    ShowTabLine(u64),
    TermGuiColors(bool),
    /// `ext_*` flags and anything else: name and raw value.
    Unknown(String, Value),
}

pub enum GuiOptionView {
    ArabicShape(bool),
    AmbiWidth(Seq<char>),
    Emoji(bool),
    GuiFont(Seq<char>),
    GuiFontSet(Seq<char>),
    GuiFontWide(Seq<char>),
    LineSpace(FloatValue),
    Pumblend(u64),
    ShowTabLine(u64),
    TermGuiColors(bool),
    Unknown(Seq<char>, ValueView),
}

impl View for GuiOption {
    type V = GuiOptionView;

    open spec fn view(&self) -> GuiOptionView {
        match self {
            GuiOption::ArabicShape(b) => GuiOptionView::ArabicShape(*b),
            GuiOption::AmbiWidth(s) => GuiOptionView::AmbiWidth(s@),
            GuiOption::Emoji(b) => GuiOptionView::Emoji(*b),
            GuiOption::GuiFont(s) => GuiOptionView::GuiFont(s@),
            GuiOption::GuiFontSet(s) => GuiOptionView::GuiFontSet(s@),
            GuiOption::GuiFontWide(s) => GuiOptionView::GuiFontWide(s@),
            GuiOption::LineSpace(f) => GuiOptionView::LineSpace(*f),
            GuiOption::Pumblend(n) => GuiOptionView::Pumblend(*n),
            GuiOption::ShowTabLine(n) => GuiOptionView::ShowTabLine(*n),
            GuiOption::TermGuiColors(b) => GuiOptionView::TermGuiColors(*b),
            GuiOption::Unknown(name, v) => GuiOptionView::Unknown(name@, v@),
        }
    }
}

#[derive(Clone, Copy, Debug, PartialEq, Eq, Structural)]
pub enum WindowAnchor {
    NorthWest,
    NorthEast,
    SouthWest,
    SouthEast,
    /// Position given directly in grid-1 coordinates (Neovim composed the layout for us).
    Absolute,
}

#[derive(Debug)]
pub enum EditorMode {
    Normal,
    Insert,
    Visual,
    Replace,
    CmdLine,
    Unknown(String),
}

pub enum EditorModeView {
    Normal,
    Insert,
    Visual,
    Replace,
    CmdLine,
    Unknown(Seq<char>),
}

impl View for EditorMode {
    type V = EditorModeView;

    open spec fn view(&self) -> EditorModeView {
        match self {
            EditorMode::Normal => EditorModeView::Normal,
            EditorMode::Insert => EditorModeView::Insert,
            EditorMode::Visual => EditorModeView::Visual,
            EditorMode::Replace => EditorModeView::Replace,
            EditorMode::CmdLine => EditorModeView::CmdLine,
            EditorMode::Unknown(s) => EditorModeView::Unknown(s@),
        }
    }
}

impl EditorMode {
    pub fn clone_mode(&self) -> (m: EditorMode)
        ensures
            m@ == self@,
    {
        match self {
            EditorMode::Normal => EditorMode::Normal,
            EditorMode::Insert => EditorMode::Insert,
            EditorMode::Visual => EditorMode::Visual,
            EditorMode::Replace => EditorMode::Replace,
            EditorMode::CmdLine => EditorMode::CmdLine,
            EditorMode::Unknown(s) => EditorMode::Unknown(s.clone()),
        }
    }
}

/// One tab page or buffer entry of `tabline_update`: its handle and name.
#[derive(Debug)]
pub struct TabEntry {
    pub handle: Value,
    pub name: String,
}

#[derive(Debug)]
pub struct BufferEntry {
    pub handle: Value,
    pub name: String,
}

pub open spec fn tabs_view(t: Seq<TabEntry>) -> Seq<(ValueView, Seq<char>)> {
    Seq::new(t.len(), |i: int| (t[i].handle@, t[i].name@))
}

pub open spec fn buffers_view(t: Seq<BufferEntry>) -> Seq<(ValueView, Seq<char>)> {
    Seq::new(t.len(), |i: int| (t[i].handle@, t[i].name@))
}

pub open spec fn history_view(h: Seq<(MessageKind, StyledContent)>) -> Seq<(MessageKind, Seq<(u64, Seq<char>)>)> {
    Seq::new(h.len(), |i: int| (h[i].0, styled_view(h[i].1@)))
}

pub open spec fn items_view(items: Seq<Vec<String>>) -> Seq<Seq<Seq<char>>> {
    Seq::new(items.len(), |i: int| Seq::new(items[i]@.len(), |j: int| items[i]@[j]@))
}

#[derive(Debug)]
pub enum RedrawEvent {
    SetTitle { title: String },
    ModeInfoSet { cursor_modes: Vec<CursorMode> },
    OptionSet { gui_option: GuiOption },
    ModeChange { mode: EditorMode, mode_index: u64 },
    MouseOn,
    MouseOff,
    BusyStart,
    BusyStop,
    Flush,
    Resize { grid: u64, width: u64, height: u64 },
    DefaultColorsSet { colors: Colors },
    HighlightAttributesDefine { id: u64, style: Style, name: Option<String> },
    HighlightGroupSet { name: String, id: u64 },
    GridLine { grid: u64, row: u64, column_start: u64, cells: Vec<GridLineCell> },
    Clear { grid: u64 },
    Destroy { grid: u64 },
    CursorGoto { grid: u64, row: u64, column: u64 },
    Scroll { grid: u64, top: u64, bottom: u64, left: u64, right: u64, rows: i64, columns: i64 },
    WindowPosition { grid: u64, start_row: u64, start_column: u64, width: u64, height: u64 },
    WindowFloatPosition {
        grid: u64,
        anchor: WindowAnchor,
        anchor_grid: u64,
        anchor_row: FloatValue,
        anchor_column: FloatValue,
        mouse_enabled: bool,
        z_index: u64,
        comp_index: Option<u64>,
        screen_row: Option<u64>,
        screen_col: Option<u64>,
    },
    WindowExternalPosition { grid: u64 },
    WindowHide { grid: u64 },
    WindowClose { grid: u64 },
    MessageSetPosition {
        grid: u64,
        row: u64,
        scrolled: bool,
        separator_character: String,
        z_index: Option<u64>,
        comp_index: Option<u64>,
    },
    WindowViewport {
        grid: u64,
        top_line: FloatValue,
        bottom_line: FloatValue,
        current_line: FloatValue,
        current_column: FloatValue,
        line_count: Option<FloatValue>,
        scroll_delta: Option<FloatValue>,
    },
    WindowViewportMargins { grid: u64, top: u64, bottom: u64, left: u64, right: u64 },
    TablineUpdate { current_tab: Value, tabs: Vec<TabEntry>, current_buffer: Value, buffers: Vec<BufferEntry> },
    CommandLineShow {
        content: StyledContent,
        position: u64,
        first_character: String,
        prompt: String,
        indent: u64,
        level: u64,
    },
    CommandLinePosition { position: u64, level: u64 },
    CommandLineSpecialCharacter { character: String, shift: bool, level: u64 },
    CommandLineHide,
    CommandLineBlockShow { lines: Vec<StyledContent> },
    CommandLineBlockAppend { line: StyledContent },
    CommandLineBlockHide,
    MessageShow { kind: MessageKind, content: StyledContent, replace_last: bool, append: bool },
    MessageClear,
    MessageShowMode { content: StyledContent },
    MessageShowCommand { content: StyledContent },
    MessageRuler { content: StyledContent },
    MessageHistoryShow { entries: Vec<(MessageKind, StyledContent)> },
    PopupmenuShow { items: Vec<Vec<String>>, selected: i64, row: u64, col: u64, grid: u64 },
    PopupmenuSelect { selected: i64 },
    PopupmenuHide,
    Suspend,
    Restart { listen_addr: String },
}

pub enum RedrawEventView {
    SetTitle { title: Seq<char> },
    ModeInfoSet { cursor_modes: Seq<CursorMode> },
    OptionSet { gui_option: GuiOptionView },
    ModeChange { mode: EditorModeView, mode_index: u64 },
    MouseOn,
    MouseOff,
    BusyStart,
    BusyStop,
    Flush,
    Resize { grid: u64, width: u64, height: u64 },
    DefaultColorsSet { colors: Colors },
    HighlightAttributesDefine { id: u64, style: Style, name: Option<Seq<char>> },
    HighlightGroupSet { name: Seq<char>, id: u64 },
    GridLine { grid: u64, row: u64, column_start: u64, cells: Seq<GridLineCellView> },
    Clear { grid: u64 },
    Destroy { grid: u64 },
    CursorGoto { grid: u64, row: u64, column: u64 },
    Scroll { grid: u64, top: u64, bottom: u64, left: u64, right: u64, rows: i64, columns: i64 },
    WindowPosition { grid: u64, start_row: u64, start_column: u64, width: u64, height: u64 },
    WindowFloatPosition {
        grid: u64,
        anchor: WindowAnchor,
        anchor_grid: u64,
        anchor_row: FloatValue,
        anchor_column: FloatValue,
        mouse_enabled: bool,
        z_index: u64,
        comp_index: Option<u64>,
        screen_row: Option<u64>,
        screen_col: Option<u64>,
    },
    WindowExternalPosition { grid: u64 },
    WindowHide { grid: u64 },
    WindowClose { grid: u64 },
    MessageSetPosition {
        grid: u64,
        row: u64,
        scrolled: bool,
        separator_character: Seq<char>,
        z_index: Option<u64>,
        comp_index: Option<u64>,
    },
    WindowViewport {
        grid: u64,
        top_line: FloatValue,
        bottom_line: FloatValue,
        current_line: FloatValue,
        current_column: FloatValue,
        line_count: Option<FloatValue>,
        scroll_delta: Option<FloatValue>,
    },
    WindowViewportMargins { grid: u64, top: u64, bottom: u64, left: u64, right: u64 },
    TablineUpdate {
        current_tab: ValueView,
        tabs: Seq<(ValueView, Seq<char>)>,
        current_buffer: ValueView,
        buffers: Seq<(ValueView, Seq<char>)>,
    },
    CommandLineShow {
        content: Seq<(u64, Seq<char>)>,
        position: u64,
        first_character: Seq<char>,
        prompt: Seq<char>,
        indent: u64,
        level: u64,
    },
    CommandLinePosition { position: u64, level: u64 },
    CommandLineSpecialCharacter { character: Seq<char>, shift: bool, level: u64 },
    CommandLineHide,
    CommandLineBlockShow { lines: Seq<Seq<(u64, Seq<char>)>> },
    CommandLineBlockAppend { line: Seq<(u64, Seq<char>)> },
    CommandLineBlockHide,
    MessageShow { kind: MessageKind, content: Seq<(u64, Seq<char>)>, replace_last: bool, append: bool },
    MessageClear,
    MessageShowMode { content: Seq<(u64, Seq<char>)> },
    MessageShowCommand { content: Seq<(u64, Seq<char>)> },
    MessageRuler { content: Seq<(u64, Seq<char>)> },
    MessageHistoryShow { entries: Seq<(MessageKind, Seq<(u64, Seq<char>)>)> },
    PopupmenuShow { items: Seq<Seq<Seq<char>>>, selected: i64, row: u64, col: u64, grid: u64 },
    PopupmenuSelect { selected: i64 },
    PopupmenuHide,
    Suspend,
    Restart { listen_addr: Seq<char> },
}

pub open spec fn opt_string_view(s: Option<String>) -> Option<Seq<char>> {
    match s {
        Some(t) => Some(t@),
        None => None,
    }
}

impl View for RedrawEvent {
    type V = RedrawEventView;

    open spec fn view(&self) -> RedrawEventView {
        match self {
            RedrawEvent::SetTitle { title } => RedrawEventView::SetTitle { title: title@ },
            RedrawEvent::ModeInfoSet { cursor_modes } => RedrawEventView::ModeInfoSet { cursor_modes: cursor_modes@ },
            RedrawEvent::OptionSet { gui_option } => RedrawEventView::OptionSet { gui_option: gui_option@ },
            RedrawEvent::ModeChange { mode, mode_index } => RedrawEventView::ModeChange { mode: mode@, mode_index: *mode_index },
            RedrawEvent::MouseOn => RedrawEventView::MouseOn,
            RedrawEvent::MouseOff => RedrawEventView::MouseOff,
            RedrawEvent::BusyStart => RedrawEventView::BusyStart,
            RedrawEvent::BusyStop => RedrawEventView::BusyStop,
            RedrawEvent::Flush => RedrawEventView::Flush,
            RedrawEvent::Resize { grid, width, height } => RedrawEventView::Resize { grid: *grid, width: *width, height: *height },
            RedrawEvent::DefaultColorsSet { colors } => RedrawEventView::DefaultColorsSet { colors: *colors },
            RedrawEvent::HighlightAttributesDefine { id, style, name } => RedrawEventView::HighlightAttributesDefine {
                id: *id,
                style: *style,
                name: opt_string_view(*name),
            },
            RedrawEvent::HighlightGroupSet { name, id } => RedrawEventView::HighlightGroupSet { name: name@, id: *id },
            RedrawEvent::GridLine { grid, row, column_start, cells } => RedrawEventView::GridLine {
                grid: *grid,
                row: *row,
                column_start: *column_start,
                cells: cells_view(cells@),
            },
            RedrawEvent::Clear { grid } => RedrawEventView::Clear { grid: *grid },
            RedrawEvent::Destroy { grid } => RedrawEventView::Destroy { grid: *grid },
            RedrawEvent::CursorGoto { grid, row, column } => RedrawEventView::CursorGoto { grid: *grid, row: *row, column: *column },
            RedrawEvent::Scroll { grid, top, bottom, left, right, rows, columns } => RedrawEventView::Scroll {
                grid: *grid,
                top: *top,
                bottom: *bottom,
                left: *left,
                right: *right,
                rows: *rows,
                columns: *columns,
            },
            RedrawEvent::WindowPosition { grid, start_row, start_column, width, height } => RedrawEventView::WindowPosition {
                grid: *grid,
                start_row: *start_row,
                start_column: *start_column,
                width: *width,
                height: *height,
            },
            RedrawEvent::WindowFloatPosition {
                grid,
                anchor,
                anchor_grid,
                anchor_row,
                anchor_column,
                mouse_enabled,
                z_index,
                comp_index,
                screen_row,
                screen_col,
            } => RedrawEventView::WindowFloatPosition {
                grid: *grid,
                anchor: *anchor,
                anchor_grid: *anchor_grid,
                anchor_row: *anchor_row,
                anchor_column: *anchor_column,
                mouse_enabled: *mouse_enabled,
                z_index: *z_index,
                comp_index: *comp_index,
                screen_row: *screen_row,
                screen_col: *screen_col,
            },
            RedrawEvent::WindowExternalPosition { grid } => RedrawEventView::WindowExternalPosition { grid: *grid },
            RedrawEvent::WindowHide { grid } => RedrawEventView::WindowHide { grid: *grid },
            RedrawEvent::WindowClose { grid } => RedrawEventView::WindowClose { grid: *grid },
            RedrawEvent::MessageSetPosition { grid, row, scrolled, separator_character, z_index, comp_index } =>
                RedrawEventView::MessageSetPosition {
                grid: *grid,
                row: *row,
                scrolled: *scrolled,
                separator_character: separator_character@,
                z_index: *z_index,
                comp_index: *comp_index,
            },
            RedrawEvent::WindowViewport { grid, top_line, bottom_line, current_line, current_column, line_count, scroll_delta } =>
                RedrawEventView::WindowViewport {
                grid: *grid,
                top_line: *top_line,
                bottom_line: *bottom_line,
                current_line: *current_line,
                current_column: *current_column,
                line_count: *line_count,
                scroll_delta: *scroll_delta,
            },
            RedrawEvent::WindowViewportMargins { grid, top, bottom, left, right } => RedrawEventView::WindowViewportMargins {
                grid: *grid,
                top: *top,
                bottom: *bottom,
                left: *left,
                right: *right,
            },
            RedrawEvent::TablineUpdate { current_tab, tabs, current_buffer, buffers } => RedrawEventView::TablineUpdate {
                current_tab: current_tab@,
                tabs: tabs_view(tabs@),
                current_buffer: current_buffer@,
                buffers: buffers_view(buffers@),
            },
            RedrawEvent::CommandLineShow { content, position, first_character, prompt, indent, level } =>
                RedrawEventView::CommandLineShow {
                content: styled_view(content@),
                position: *position,
                first_character: first_character@,
                prompt: prompt@,
                indent: *indent,
                level: *level,
            },
            RedrawEvent::CommandLinePosition { position, level } => RedrawEventView::CommandLinePosition {
                position: *position,
                level: *level,
            },
            RedrawEvent::CommandLineSpecialCharacter { character, shift, level } => RedrawEventView::CommandLineSpecialCharacter {
                character: character@,
                shift: *shift,
                level: *level,
            },
            RedrawEvent::CommandLineHide => RedrawEventView::CommandLineHide,
            RedrawEvent::CommandLineBlockShow { lines } => RedrawEventView::CommandLineBlockShow { lines: styled_lines_view(lines@) },
            RedrawEvent::CommandLineBlockAppend { line } => RedrawEventView::CommandLineBlockAppend { line: styled_view(line@) },
            RedrawEvent::CommandLineBlockHide => RedrawEventView::CommandLineBlockHide,
            RedrawEvent::MessageShow { kind, content, replace_last, append } => RedrawEventView::MessageShow {
                kind: *kind,
                content: styled_view(content@),
                replace_last: *replace_last,
                append: *append,
            },
            RedrawEvent::MessageClear => RedrawEventView::MessageClear,
            RedrawEvent::MessageShowMode { content } => RedrawEventView::MessageShowMode { content: styled_view(content@) },
            RedrawEvent::MessageShowCommand { content } => RedrawEventView::MessageShowCommand { content: styled_view(content@) },
            RedrawEvent::MessageRuler { content } => RedrawEventView::MessageRuler { content: styled_view(content@) },
            RedrawEvent::MessageHistoryShow { entries } => RedrawEventView::MessageHistoryShow { entries: history_view(entries@) },
            RedrawEvent::PopupmenuShow { items, selected, row, col, grid } => RedrawEventView::PopupmenuShow {
                items: items_view(items@),
                selected: *selected,
                row: *row,
                col: *col,
                grid: *grid,
            },
            RedrawEvent::PopupmenuSelect { selected } => RedrawEventView::PopupmenuSelect { selected: *selected },
            RedrawEvent::PopupmenuHide => RedrawEventView::PopupmenuHide,
            RedrawEvent::Suspend => RedrawEventView::Suspend,
            RedrawEvent::Restart { listen_addr } => RedrawEventView::Restart { listen_addr: listen_addr@ },
        }
    }
}

/// A parsed event as values.
pub open spec fn event_result_view(r: Result<RedrawEvent, ParseError>) -> Result<RedrawEventView, ParseErrorView> {
    match r {
        Ok(e) => Ok(e@),
        Err(e) => Err(e@),
    }
}

// ---- field readers ----

pub open spec fn spec_non_negative(v: i64) -> u64 {
    if v < 0 { 0 } else { v as u64 }
}

/// Negative positions clamp to zero.
pub fn non_negative(v: i64) -> (r: u64)
    ensures
        r == spec_non_negative(v),
{
    if v < 0 {
        0
    } else {
        v as u64
    }
}

pub open spec fn sp_window_anchor(v: ValueView) -> Result<WindowAnchor, ParseErrorView> {
    match sp_string(v) {
        Err(e) => Err(e),
        Ok(s) => if s == "NW"@ {
            Ok(WindowAnchor::NorthWest)
        } else if s == "NE"@ {
            Ok(WindowAnchor::NorthEast)
        } else if s == "SW"@ {
            Ok(WindowAnchor::SouthWest)
        } else if s == "SE"@ {
            Ok(WindowAnchor::SouthEast)
        } else {
            Err(ParseErrorView::WindowAnchor(ValueView::String(StrView::Valid(s))))
        },
    }
}

pub fn parse_window_anchor(v: Value) -> (r: Result<WindowAnchor, ParseError>)
    ensures
        match r {
            Ok(a) => sp_window_anchor(v@) == Ok::<WindowAnchor, ParseErrorView>(a),
            Err(e) => sp_window_anchor(v@) == Err::<WindowAnchor, ParseErrorView>(e@),
        },
{
    let s = match parse_string(v) {
        Ok(s) => s,
        Err(e) => return Err(e),
    };
    if str_eq(s.as_str(), "NW") {
        Ok(WindowAnchor::NorthWest)
    } else if str_eq(s.as_str(), "NE") {
        Ok(WindowAnchor::NorthEast)
    } else if str_eq(s.as_str(), "SW") {
        Ok(WindowAnchor::SouthWest)
    } else if str_eq(s.as_str(), "SE") {
        Ok(WindowAnchor::SouthEast)
    } else {
        Err(ParseError::WindowAnchor(Value::String(Utf8Str::Valid(s))))
    }
}

/// An optional field: absent reads as `None`, present ones must parse.
pub open spec fn sp_opt_u64(v: Option<ValueView>) -> Result<Option<u64>, ParseErrorView> {
    match v {
        None => Ok(None),
        Some(x) => match sp_u64(x) {
            Ok(n) => Ok(Some(n)),
            Err(e) => Err(e),
        },
    }
}

pub open spec fn sp_opt_f64(v: Option<ValueView>) -> Result<Option<FloatValue>, ParseErrorView> {
    match v {
        None => Ok(None),
        Some(x) => match sp_f64(x) {
            Ok(n) => Ok(Some(n)),
            Err(e) => Err(e),
        },
    }
}

pub open spec fn sp_opt_bool(v: Option<ValueView>) -> Result<Option<bool>, ParseErrorView> {
    match v {
        None => Ok(None),
        Some(x) => match sp_bool(x) {
            Ok(n) => Ok(Some(n)),
            Err(e) => Err(e),
        },
    }
}

pub open spec fn opt_view(v: Option<Value>) -> Option<ValueView> {
    match v {
        Some(x) => Some(x@),
        None => None,
    }
}

pub fn parse_opt_u64(v: Option<Value>) -> (r: Result<Option<u64>, ParseError>)
    ensures
        match r {
            Ok(x) => sp_opt_u64(opt_view(v)) == Ok::<Option<u64>, ParseErrorView>(x),
            Err(e) => sp_opt_u64(opt_view(v)) == Err::<Option<u64>, ParseErrorView>(e@),
        },
{
    match v {
        None => Ok(None),
        Some(x) => match parse_u64(x) {
            Ok(n) => Ok(Some(n)),
            Err(e) => Err(e),
        },
    }
}

pub fn parse_opt_f64(v: Option<Value>) -> (r: Result<Option<FloatValue>, ParseError>)
    ensures
        match r {
            Ok(x) => sp_opt_f64(opt_view(v)) == Ok::<Option<FloatValue>, ParseErrorView>(x),
            Err(e) => sp_opt_f64(opt_view(v)) == Err::<Option<FloatValue>, ParseErrorView>(e@),
        },
{
    match v {
        None => Ok(None),
        Some(x) => match parse_f64(x) {
            Ok(n) => Ok(Some(n)),
            Err(e) => Err(e),
        },
    }
}

pub fn parse_opt_bool(v: Option<Value>) -> (r: Result<Option<bool>, ParseError>)
    ensures
        match r {
            Ok(x) => sp_opt_bool(opt_view(v)) == Ok::<Option<bool>, ParseErrorView>(x),
            Err(e) => sp_opt_bool(opt_view(v)) == Err::<Option<bool>, ParseErrorView>(e@),
        },
{
    match v {
        None => Ok(None),
        Some(x) => match parse_bool(x) {
            Ok(n) => Ok(Some(n)),
            Err(e) => Err(e),
        },
    }
}

/// Take the first optional value out of a list.
fn take_first_opt(v: &mut Vec<Option<Value>>) -> (x: Option<Value>)
    requires
        old(v)@.len() > 0,
    ensures
        opt_view(x) == options_view(old(v)@)[0],
        final(v)@.len() == old(v)@.len() - 1,
        options_view(final(v)@) == options_view(old(v)@).drop_first(),
{
    let x = v.remove(0);
    proof {
        assert(options_view(v@) =~= options_view(old(v)@).drop_first());
    }
    x
}

// ---- events with plain fields ----

pub open spec fn spec_parse_set_title(args: Seq<ValueView>) -> Result<RedrawEventView, ParseErrorView> {
    match sp_extract(args, 1) {
        Err(e) => Err(e),
        Ok(vs) => {
        match sp_string(vs[0]) {
            Err(e) => Err(e),
            Ok(title) => {
                Ok(RedrawEventView::SetTitle { title: title })
            },
        }
        },
    }
}

pub fn parse_set_title(args: Vec<Value>) -> (r: Result<RedrawEvent, ParseError>)
    ensures
        event_result_view(r) == spec_parse_set_title(values_view(args@)),
{
    let ghost av = values_view(args@);
    let mut vs = match extract_values(args, 1) {
        Ok(v) => v,
        Err(e) => return Err(e),
    };
    let ghost vv = values_view(vs@);
    let v_0 = take_first(&mut vs);
    proof {
        assert(v_0@ == vv[0]);
    }
    let title = match parse_string(v_0) {
        Ok(x) => x,
        Err(e) => return Err(e),
    };
    Ok(RedrawEvent::SetTitle { title })
}

pub open spec fn spec_parse_restart(args: Seq<ValueView>) -> Result<RedrawEventView, ParseErrorView> {
    match sp_extract(args, 1) {
        Err(e) => Err(e),
        Ok(vs) => {
        match sp_string(vs[0]) {
            Err(e) => Err(e),
            Ok(addr) => {
                Ok(RedrawEventView::Restart { listen_addr: addr })
            },
        }
        },
    }
}

pub fn parse_restart(args: Vec<Value>) -> (r: Result<RedrawEvent, ParseError>)
    ensures
        event_result_view(r) == spec_parse_restart(values_view(args@)),
{
    let ghost av = values_view(args@);
    let mut vs = match extract_values(args, 1) {
        Ok(v) => v,
        Err(e) => return Err(e),
    };
    let ghost vv = values_view(vs@);
    let v_0 = take_first(&mut vs);
    proof {
        assert(v_0@ == vv[0]);
    }
    let addr = match parse_string(v_0) {
        Ok(x) => x,
        Err(e) => return Err(e),
    };
    Ok(RedrawEvent::Restart { listen_addr: addr })
}

pub open spec fn spec_parse_grid_resize(args: Seq<ValueView>) -> Result<RedrawEventView, ParseErrorView> {
    match sp_extract(args, 3) {
        Err(e) => Err(e),
        Ok(vs) => {
        match sp_u64(vs[0]) {
            Err(e) => Err(e),
            Ok(grid) => {
                match sp_u64(vs[1]) {
                    Err(e) => Err(e),
                    Ok(width) => {
                        match sp_u64(vs[2]) {
                            Err(e) => Err(e),
                            Ok(height) => {
                                Ok(RedrawEventView::Resize { grid: grid, width: width, height: height })
                            },
                        }
                    },
                }
            },
        }
        },
    }
}

pub fn parse_grid_resize(args: Vec<Value>) -> (r: Result<RedrawEvent, ParseError>)
    ensures
        event_result_view(r) == spec_parse_grid_resize(values_view(args@)),
{
    let ghost av = values_view(args@);
    let mut vs = match extract_values(args, 3) {
        Ok(v) => v,
        Err(e) => return Err(e),
    };
    let ghost vv = values_view(vs@);
    let v_0 = take_first(&mut vs);
    let v_1 = take_first(&mut vs);
    let v_2 = take_first(&mut vs);
    proof {
        assert(v_0@ == vv[0]);
        assert(v_1@ == vv[1]);
        assert(v_2@ == vv[2]);
    }
    let grid = match parse_u64(v_0) {
        Ok(x) => x,
        Err(e) => return Err(e),
    };
    let width = match parse_u64(v_1) {
        Ok(x) => x,
        Err(e) => return Err(e),
    };
    let height = match parse_u64(v_2) {
        Ok(x) => x,
        Err(e) => return Err(e),
    };
    Ok(RedrawEvent::Resize { grid, width, height })
}

pub open spec fn spec_parse_grid_clear(args: Seq<ValueView>) -> Result<RedrawEventView, ParseErrorView> {
    match sp_extract(args, 1) {
        Err(e) => Err(e),
        Ok(vs) => {
        match sp_u64(vs[0]) {
            Err(e) => Err(e),
            Ok(grid) => {
                Ok(RedrawEventView::Clear { grid: grid })
            },
        }
        },
    }
}

pub fn parse_grid_clear(args: Vec<Value>) -> (r: Result<RedrawEvent, ParseError>)
    ensures
        event_result_view(r) == spec_parse_grid_clear(values_view(args@)),
{
    let ghost av = values_view(args@);
    let mut vs = match extract_values(args, 1) {
        Ok(v) => v,
        Err(e) => return Err(e),
    };
    let ghost vv = values_view(vs@);
    let v_0 = take_first(&mut vs);
    proof {
        assert(v_0@ == vv[0]);
    }
    let grid = match parse_u64(v_0) {
        Ok(x) => x,
        Err(e) => return Err(e),
    };
    Ok(RedrawEvent::Clear { grid })
}

pub open spec fn spec_parse_grid_destroy(args: Seq<ValueView>) -> Result<RedrawEventView, ParseErrorView> {
    match sp_extract(args, 1) {
        Err(e) => Err(e),
        Ok(vs) => {
        match sp_u64(vs[0]) {
            Err(e) => Err(e),
            Ok(grid) => {
                Ok(RedrawEventView::Destroy { grid: grid })
            },
        }
        },
    }
}

pub fn parse_grid_destroy(args: Vec<Value>) -> (r: Result<RedrawEvent, ParseError>)
    ensures
        event_result_view(r) == spec_parse_grid_destroy(values_view(args@)),
{
    let ghost av = values_view(args@);
    let mut vs = match extract_values(args, 1) {
        Ok(v) => v,
        Err(e) => return Err(e),
    };
    let ghost vv = values_view(vs@);
    let v_0 = take_first(&mut vs);
    proof {
        assert(v_0@ == vv[0]);
    }
    let grid = match parse_u64(v_0) {
        Ok(x) => x,
        Err(e) => return Err(e),
    };
    Ok(RedrawEvent::Destroy { grid })
}

pub open spec fn spec_parse_grid_cursor_goto(args: Seq<ValueView>) -> Result<RedrawEventView, ParseErrorView> {
    match sp_extract(args, 3) {
        Err(e) => Err(e),
        Ok(vs) => {
        match sp_u64(vs[0]) {
            Err(e) => Err(e),
            Ok(grid) => {
                match sp_i64(vs[1]) {
                    Err(e) => Err(e),
                    Ok(row_raw) => {
                        match sp_i64(vs[2]) {
                            Err(e) => Err(e),
                            Ok(column_raw) => {
                                Ok(RedrawEventView::CursorGoto { grid: grid, row: spec_non_negative(row_raw), column: spec_non_negative(column_raw) })
                            },
                        }
                    },
                }
            },
        }
        },
    }
}

pub fn parse_grid_cursor_goto(args: Vec<Value>) -> (r: Result<RedrawEvent, ParseError>)
    ensures
        event_result_view(r) == spec_parse_grid_cursor_goto(values_view(args@)),
{
    let ghost av = values_view(args@);
    let mut vs = match extract_values(args, 3) {
        Ok(v) => v,
        Err(e) => return Err(e),
    };
    let ghost vv = values_view(vs@);
    let v_0 = take_first(&mut vs);
    let v_1 = take_first(&mut vs);
    let v_2 = take_first(&mut vs);
    proof {
        assert(v_0@ == vv[0]);
        assert(v_1@ == vv[1]);
        assert(v_2@ == vv[2]);
    }
    let grid = match parse_u64(v_0) {
        Ok(x) => x,
        Err(e) => return Err(e),
    };
    let row_raw = match parse_i64(v_1) {
        Ok(x) => x,
        Err(e) => return Err(e),
    };
    let row = non_negative(row_raw);
    let column_raw = match parse_i64(v_2) {
        Ok(x) => x,
        Err(e) => return Err(e),
    };
    let column = non_negative(column_raw);
    Ok(RedrawEvent::CursorGoto { grid, row, column })
}

pub open spec fn spec_parse_grid_scroll(args: Seq<ValueView>) -> Result<RedrawEventView, ParseErrorView> {
    match sp_extract(args, 7) {
        Err(e) => Err(e),
        Ok(vs) => {
        match sp_u64(vs[0]) {
            Err(e) => Err(e),
            Ok(grid) => {
                match sp_u64(vs[1]) {
                    Err(e) => Err(e),
                    Ok(top) => {
                        match sp_u64(vs[2]) {
                            Err(e) => Err(e),
                            Ok(bottom) => {
                                match sp_u64(vs[3]) {
                                    Err(e) => Err(e),
                                    Ok(left) => {
                                        match sp_u64(vs[4]) {
                                            Err(e) => Err(e),
                                            Ok(right) => {
                                                match sp_i64(vs[5]) {
                                                    Err(e) => Err(e),
                                                    Ok(rows) => {
                                                        match sp_i64(vs[6]) {
                                                            Err(e) => Err(e),
                                                            Ok(columns) => {
                                                                Ok(RedrawEventView::Scroll { grid: grid, top: top, bottom: bottom, left: left, right: right, rows: rows, columns: columns })
                                                            },
                                                        }
                                                    },
                                                }
                                            },
                                        }
                                    },
                                }
                            },
                        }
                    },
                }
            },
        }
        },
    }
}

pub fn parse_grid_scroll(args: Vec<Value>) -> (r: Result<RedrawEvent, ParseError>)
    ensures
        event_result_view(r) == spec_parse_grid_scroll(values_view(args@)),
{
    let ghost av = values_view(args@);
    let mut vs = match extract_values(args, 7) {
        Ok(v) => v,
        Err(e) => return Err(e),
    };
    let ghost vv = values_view(vs@);
    let v_0 = take_first(&mut vs);
    let v_1 = take_first(&mut vs);
    let v_2 = take_first(&mut vs);
    let v_3 = take_first(&mut vs);
    let v_4 = take_first(&mut vs);
    let v_5 = take_first(&mut vs);
    let v_6 = take_first(&mut vs);
    proof {
        assert(v_0@ == vv[0]);
        assert(v_1@ == vv[1]);
        assert(v_2@ == vv[2]);
        assert(v_3@ == vv[3]);
        assert(v_4@ == vv[4]);
        assert(v_5@ == vv[5]);
        assert(v_6@ == vv[6]);
    }
    let grid = match parse_u64(v_0) {
        Ok(x) => x,
        Err(e) => return Err(e),
    };
    let top = match parse_u64(v_1) {
        Ok(x) => x,
        Err(e) => return Err(e),
    };
    let bottom = match parse_u64(v_2) {
        Ok(x) => x,
        Err(e) => return Err(e),
    };
    let left = match parse_u64(v_3) {
        Ok(x) => x,
        Err(e) => return Err(e),
    };
    let right = match parse_u64(v_4) {
        Ok(x) => x,
        Err(e) => return Err(e),
    };
    let rows = match parse_i64(v_5) {
        Ok(x) => x,
        Err(e) => return Err(e),
    };
    let columns = match parse_i64(v_6) {
        Ok(x) => x,
        Err(e) => return Err(e),
    };
    Ok(RedrawEvent::Scroll { grid, top, bottom, left, right, rows, columns })
}

pub open spec fn spec_parse_win_pos(args: Seq<ValueView>) -> Result<RedrawEventView, ParseErrorView> {
    match sp_extract(args, 6) {
        Err(e) => Err(e),
        Ok(vs) => {
        match sp_u64(vs[0]) {
            Err(e) => Err(e),
            Ok(grid) => {
                match sp_u64(vs[2]) {
                    Err(e) => Err(e),
                    Ok(start_row) => {
                        match sp_u64(vs[3]) {
                            Err(e) => Err(e),
                            Ok(start_column) => {
                                match sp_u64(vs[4]) {
                                    Err(e) => Err(e),
                                    Ok(width) => {
                                        match sp_u64(vs[5]) {
                                            Err(e) => Err(e),
                                            Ok(height) => {
                                                Ok(RedrawEventView::WindowPosition { grid: grid, start_row: start_row, start_column: start_column, width: width, height: height })
                                            },
                                        }
                                    },
                                }
                            },
                        }
                    },
                }
            },
        }
        },
    }
}

pub fn parse_win_pos(args: Vec<Value>) -> (r: Result<RedrawEvent, ParseError>)
    ensures
        event_result_view(r) == spec_parse_win_pos(values_view(args@)),
{
    let ghost av = values_view(args@);
    let mut vs = match extract_values(args, 6) {
        Ok(v) => v,
        Err(e) => return Err(e),
    };
    let ghost vv = values_view(vs@);
    let v_0 = take_first(&mut vs);
    let v_1 = take_first(&mut vs);
    let v_2 = take_first(&mut vs);
    let v_3 = take_first(&mut vs);
    let v_4 = take_first(&mut vs);
    let v_5 = take_first(&mut vs);
    proof {
        assert(v_0@ == vv[0]);
        assert(v_1@ == vv[1]);
        assert(v_2@ == vv[2]);
        assert(v_3@ == vv[3]);
        assert(v_4@ == vv[4]);
        assert(v_5@ == vv[5]);
    }
    let grid = match parse_u64(v_0) {
        Ok(x) => x,
        Err(e) => return Err(e),
    };
    let start_row = match parse_u64(v_2) {
        Ok(x) => x,
        Err(e) => return Err(e),
    };
    let start_column = match parse_u64(v_3) {
        Ok(x) => x,
        Err(e) => return Err(e),
    };
    let width = match parse_u64(v_4) {
        Ok(x) => x,
        Err(e) => return Err(e),
    };
    let height = match parse_u64(v_5) {
        Ok(x) => x,
        Err(e) => return Err(e),
    };
    Ok(RedrawEvent::WindowPosition { grid, start_row, start_column, width, height })
}

pub open spec fn spec_parse_win_float_pos(args: Seq<ValueView>) -> Result<RedrawEventView, ParseErrorView> {
    match sp_extract(args, 8) {
        Err(e) => Err(e),
        Ok(vs) => {
        let os = sp_optional(args, 8, 3);
        match sp_u64(vs[0]) {
            Err(e) => Err(e),
            Ok(grid) => {
                match sp_window_anchor(vs[2]) {
                    Err(e) => Err(e),
                    Ok(anchor) => {
                        match sp_u64(vs[3]) {
                            Err(e) => Err(e),
                            Ok(anchor_grid) => {
                                match sp_f64(vs[4]) {
                                    Err(e) => Err(e),
                                    Ok(anchor_row) => {
                                        match sp_f64(vs[5]) {
                                            Err(e) => Err(e),
                                            Ok(anchor_column) => {
                                                match sp_bool(vs[6]) {
                                                    Err(e) => Err(e),
                                                    Ok(mouse_enabled) => {
                                                        match sp_u64(vs[7]) {
                                                            Err(e) => Err(e),
                                                            Ok(z_index) => {
                                                                match sp_opt_u64(os[0]) {
                                                                    Err(e) => Err(e),
                                                                    Ok(comp_index) => {
                                                                        match sp_opt_u64(os[1]) {
                                                                            Err(e) => Err(e),
                                                                            Ok(screen_row) => {
                                                                                match sp_opt_u64(os[2]) {
                                                                                    Err(e) => Err(e),
                                                                                    Ok(screen_col) => {
                                                                                        Ok(RedrawEventView::WindowFloatPosition { grid: grid, anchor: anchor, anchor_grid: anchor_grid, anchor_row: anchor_row, anchor_column: anchor_column, mouse_enabled: mouse_enabled, z_index: z_index, comp_index: comp_index, screen_row: screen_row, screen_col: screen_col })
                                                                                    },
                                                                                }
                                                                            },
                                                                        }
                                                                    },
                                                                }
                                                            },
                                                        }
                                                    },
                                                }
                                            },
                                        }
                                    },
                                }
                            },
                        }
                    },
                }
            },
        }
        },
    }
}

pub fn parse_win_float_pos(args: Vec<Value>) -> (r: Result<RedrawEvent, ParseError>)
    ensures
        event_result_view(r) == spec_parse_win_float_pos(values_view(args@)),
{
    let ghost av = values_view(args@);
    let (mut vs, mut os) = match extract_values_with_optional(args, 8, 3) {
        Ok(v) => v,
        Err(e) => return Err(e),
    };
    let ghost vv = values_view(vs@);
    let ghost ov = options_view(os@);
    let v_0 = take_first(&mut vs);
    let v_1 = take_first(&mut vs);
    let v_2 = take_first(&mut vs);
    let v_3 = take_first(&mut vs);
    let v_4 = take_first(&mut vs);
    let v_5 = take_first(&mut vs);
    let v_6 = take_first(&mut vs);
    let v_7 = take_first(&mut vs);
    let o_0 = take_first_opt(&mut os);
    let o_1 = take_first_opt(&mut os);
    let o_2 = take_first_opt(&mut os);
    proof {
        assert(v_0@ == vv[0]);
        assert(v_1@ == vv[1]);
        assert(v_2@ == vv[2]);
        assert(v_3@ == vv[3]);
        assert(v_4@ == vv[4]);
        assert(v_5@ == vv[5]);
        assert(v_6@ == vv[6]);
        assert(v_7@ == vv[7]);
        assert(opt_view(o_0) == ov[0]);
        assert(opt_view(o_1) == ov[1]);
        assert(opt_view(o_2) == ov[2]);
    }
    let grid = match parse_u64(v_0) {
        Ok(x) => x,
        Err(e) => return Err(e),
    };
    let anchor = match parse_window_anchor(v_2) {
        Ok(x) => x,
        Err(e) => return Err(e),
    };
    let anchor_grid = match parse_u64(v_3) {
        Ok(x) => x,
        Err(e) => return Err(e),
    };
    let anchor_row = match parse_f64(v_4) {
        Ok(x) => x,
        Err(e) => return Err(e),
    };
    let anchor_column = match parse_f64(v_5) {
        Ok(x) => x,
        Err(e) => return Err(e),
    };
    let mouse_enabled = match parse_bool(v_6) {
        Ok(x) => x,
        Err(e) => return Err(e),
    };
    let z_index = match parse_u64(v_7) {
        Ok(x) => x,
        Err(e) => return Err(e),
    };
    let comp_index = match parse_opt_u64(o_0) {
        Ok(x) => x,
        Err(e) => return Err(e),
    };
    let screen_row = match parse_opt_u64(o_1) {
        Ok(x) => x,
        Err(e) => return Err(e),
    };
    let screen_col = match parse_opt_u64(o_2) {
        Ok(x) => x,
        Err(e) => return Err(e),
    };
    Ok(RedrawEvent::WindowFloatPosition { grid, anchor, anchor_grid, anchor_row, anchor_column, mouse_enabled, z_index, comp_index, screen_row, screen_col })
}

pub open spec fn spec_parse_win_external_pos(args: Seq<ValueView>) -> Result<RedrawEventView, ParseErrorView> {
    match sp_extract(args, 2) {
        Err(e) => Err(e),
        Ok(vs) => {
        match sp_u64(vs[0]) {
            Err(e) => Err(e),
            Ok(grid) => {
                Ok(RedrawEventView::WindowExternalPosition { grid: grid })
            },
        }
        },
    }
}

pub fn parse_win_external_pos(args: Vec<Value>) -> (r: Result<RedrawEvent, ParseError>)
    ensures
        event_result_view(r) == spec_parse_win_external_pos(values_view(args@)),
{
    let ghost av = values_view(args@);
    let mut vs = match extract_values(args, 2) {
        Ok(v) => v,
        Err(e) => return Err(e),
    };
    let ghost vv = values_view(vs@);
    let v_0 = take_first(&mut vs);
    let v_1 = take_first(&mut vs);
    proof {
        assert(v_0@ == vv[0]);
        assert(v_1@ == vv[1]);
    }
    let grid = match parse_u64(v_0) {
        Ok(x) => x,
        Err(e) => return Err(e),
    };
    Ok(RedrawEvent::WindowExternalPosition { grid })
}

pub open spec fn spec_parse_win_hide(args: Seq<ValueView>) -> Result<RedrawEventView, ParseErrorView> {
    match sp_extract(args, 1) {
        Err(e) => Err(e),
        Ok(vs) => {
        match sp_u64(vs[0]) {
            Err(e) => Err(e),
            Ok(grid) => {
                Ok(RedrawEventView::WindowHide { grid: grid })
            },
        }
        },
    }
}

pub fn parse_win_hide(args: Vec<Value>) -> (r: Result<RedrawEvent, ParseError>)
    ensures
        event_result_view(r) == spec_parse_win_hide(values_view(args@)),
{
    let ghost av = values_view(args@);
    let mut vs = match extract_values(args, 1) {
        Ok(v) => v,
        Err(e) => return Err(e),
    };
    let ghost vv = values_view(vs@);
    let v_0 = take_first(&mut vs);
    proof {
        assert(v_0@ == vv[0]);
    }
    let grid = match parse_u64(v_0) {
        Ok(x) => x,
        Err(e) => return Err(e),
    };
    Ok(RedrawEvent::WindowHide { grid })
}

pub open spec fn spec_parse_win_close(args: Seq<ValueView>) -> Result<RedrawEventView, ParseErrorView> {
    match sp_extract(args, 1) {
        Err(e) => Err(e),
        Ok(vs) => {
        match sp_u64(vs[0]) {
            Err(e) => Err(e),
            Ok(grid) => {
                Ok(RedrawEventView::WindowClose { grid: grid })
            },
        }
        },
    }
}

pub fn parse_win_close(args: Vec<Value>) -> (r: Result<RedrawEvent, ParseError>)
    ensures
        event_result_view(r) == spec_parse_win_close(values_view(args@)),
{
    let ghost av = values_view(args@);
    let mut vs = match extract_values(args, 1) {
        Ok(v) => v,
        Err(e) => return Err(e),
    };
    let ghost vv = values_view(vs@);
    let v_0 = take_first(&mut vs);
    proof {
        assert(v_0@ == vv[0]);
    }
    let grid = match parse_u64(v_0) {
        Ok(x) => x,
        Err(e) => return Err(e),
    };
    Ok(RedrawEvent::WindowClose { grid })
}

pub open spec fn spec_parse_msg_set_pos(args: Seq<ValueView>) -> Result<RedrawEventView, ParseErrorView> {
    match sp_extract(args, 4) {
        Err(e) => Err(e),
        Ok(vs) => {
        let os = sp_optional(args, 4, 2);
        match sp_u64(vs[0]) {
            Err(e) => Err(e),
            Ok(grid) => {
                match sp_u64(vs[1]) {
                    Err(e) => Err(e),
                    Ok(row) => {
                        match sp_bool(vs[2]) {
                            Err(e) => Err(e),
                            Ok(scrolled) => {
                                match sp_string(vs[3]) {
                                    Err(e) => Err(e),
                                    Ok(separator_character) => {
                                        match sp_opt_u64(os[0]) {
                                            Err(e) => Err(e),
                                            Ok(z_index) => {
                                                match sp_opt_u64(os[1]) {
                                                    Err(e) => Err(e),
                                                    Ok(comp_index) => {
                                                        Ok(RedrawEventView::MessageSetPosition { grid: grid, row: row, scrolled: scrolled, separator_character: separator_character, z_index: z_index, comp_index: comp_index })
                                                    },
                                                }
                                            },
                                        }
                                    },
                                }
                            },
                        }
                    },
                }
            },
        }
        },
    }
}

pub fn parse_msg_set_pos(args: Vec<Value>) -> (r: Result<RedrawEvent, ParseError>)
    ensures
        event_result_view(r) == spec_parse_msg_set_pos(values_view(args@)),
{
    let ghost av = values_view(args@);
    let (mut vs, mut os) = match extract_values_with_optional(args, 4, 2) {
        Ok(v) => v,
        Err(e) => return Err(e),
    };
    let ghost vv = values_view(vs@);
    let ghost ov = options_view(os@);
    let v_0 = take_first(&mut vs);
    let v_1 = take_first(&mut vs);
    let v_2 = take_first(&mut vs);
    let v_3 = take_first(&mut vs);
    let o_0 = take_first_opt(&mut os);
    let o_1 = take_first_opt(&mut os);
    proof {
        assert(v_0@ == vv[0]);
        assert(v_1@ == vv[1]);
        assert(v_2@ == vv[2]);
        assert(v_3@ == vv[3]);
        assert(opt_view(o_0) == ov[0]);
        assert(opt_view(o_1) == ov[1]);
    }
    let grid = match parse_u64(v_0) {
        Ok(x) => x,
        Err(e) => return Err(e),
    };
    let row = match parse_u64(v_1) {
        Ok(x) => x,
        Err(e) => return Err(e),
    };
    let scrolled = match parse_bool(v_2) {
        Ok(x) => x,
        Err(e) => return Err(e),
    };
    let separator_character = match parse_string(v_3) {
        Ok(x) => x,
        Err(e) => return Err(e),
    };
    let z_index = match parse_opt_u64(o_0) {
        Ok(x) => x,
        Err(e) => return Err(e),
    };
    let comp_index = match parse_opt_u64(o_1) {
        Ok(x) => x,
        Err(e) => return Err(e),
    };
    Ok(RedrawEvent::MessageSetPosition { grid, row, scrolled, separator_character, z_index, comp_index })
}

pub open spec fn spec_parse_win_viewport(args: Seq<ValueView>) -> Result<RedrawEventView, ParseErrorView> {
    match sp_extract(args, 6) {
        Err(e) => Err(e),
        Ok(vs) => {
        let os = sp_optional(args, 6, 2);
        match sp_u64(vs[0]) {
            Err(e) => Err(e),
            Ok(grid) => {
                match sp_f64(vs[2]) {
                    Err(e) => Err(e),
                    Ok(top_line) => {
                        match sp_f64(vs[3]) {
                            Err(e) => Err(e),
                            Ok(bottom_line) => {
                                match sp_f64(vs[4]) {
                                    Err(e) => Err(e),
                                    Ok(current_line) => {
                                        match sp_f64(vs[5]) {
                                            Err(e) => Err(e),
                                            Ok(current_column) => {
                                                match sp_opt_f64(os[0]) {
                                                    Err(e) => Err(e),
                                                    Ok(line_count) => {
                                                        match sp_opt_f64(os[1]) {
                                                            Err(e) => Err(e),
                                                            Ok(scroll_delta) => {
                                                                Ok(RedrawEventView::WindowViewport { grid: grid, top_line: top_line, bottom_line: bottom_line, current_line: current_line, current_column: current_column, line_count: line_count, scroll_delta: scroll_delta })
                                                            },
                                                        }
                                                    },
                                                }
                                            },
                                        }
                                    },
                                }
                            },
                        }
                    },
                }
            },
        }
        },
    }
}

pub fn parse_win_viewport(args: Vec<Value>) -> (r: Result<RedrawEvent, ParseError>)
    ensures
        event_result_view(r) == spec_parse_win_viewport(values_view(args@)),
{
    let ghost av = values_view(args@);
    let (mut vs, mut os) = match extract_values_with_optional(args, 6, 2) {
        Ok(v) => v,
        Err(e) => return Err(e),
    };
    let ghost vv = values_view(vs@);
    let ghost ov = options_view(os@);
    let v_0 = take_first(&mut vs);
    let v_1 = take_first(&mut vs);
    let v_2 = take_first(&mut vs);
    let v_3 = take_first(&mut vs);
    let v_4 = take_first(&mut vs);
    let v_5 = take_first(&mut vs);
    let o_0 = take_first_opt(&mut os);
    let o_1 = take_first_opt(&mut os);
    proof {
        assert(v_0@ == vv[0]);
        assert(v_1@ == vv[1]);
        assert(v_2@ == vv[2]);
        assert(v_3@ == vv[3]);
        assert(v_4@ == vv[4]);
        assert(v_5@ == vv[5]);
        assert(opt_view(o_0) == ov[0]);
        assert(opt_view(o_1) == ov[1]);
    }
    let grid = match parse_u64(v_0) {
        Ok(x) => x,
        Err(e) => return Err(e),
    };
    let top_line = match parse_f64(v_2) {
        Ok(x) => x,
        Err(e) => return Err(e),
    };
    let bottom_line = match parse_f64(v_3) {
        Ok(x) => x,
        Err(e) => return Err(e),
    };
    let current_line = match parse_f64(v_4) {
        Ok(x) => x,
        Err(e) => return Err(e),
    };
    let current_column = match parse_f64(v_5) {
        Ok(x) => x,
        Err(e) => return Err(e),
    };
    let line_count = match parse_opt_f64(o_0) {
        Ok(x) => x,
        Err(e) => return Err(e),
    };
    let scroll_delta = match parse_opt_f64(o_1) {
        Ok(x) => x,
        Err(e) => return Err(e),
    };
    Ok(RedrawEvent::WindowViewport { grid, top_line, bottom_line, current_line, current_column, line_count, scroll_delta })
}

pub open spec fn spec_parse_win_viewport_margins(args: Seq<ValueView>) -> Result<RedrawEventView, ParseErrorView> {
    match sp_extract(args, 6) {
        Err(e) => Err(e),
        Ok(vs) => {
        match sp_u64(vs[0]) {
            Err(e) => Err(e),
            Ok(grid) => {
                match sp_u64(vs[2]) {
                    Err(e) => Err(e),
                    Ok(top) => {
                        match sp_u64(vs[3]) {
                            Err(e) => Err(e),
                            Ok(bottom) => {
                                match sp_u64(vs[4]) {
                                    Err(e) => Err(e),
                                    Ok(left) => {
                                        match sp_u64(vs[5]) {
                                            Err(e) => Err(e),
                                            Ok(right) => {
                                                Ok(RedrawEventView::WindowViewportMargins { grid: grid, top: top, bottom: bottom, left: left, right: right })
                                            },
                                        }
                                    },
                                }
                            },
                        }
                    },
                }
            },
        }
        },
    }
}

pub fn parse_win_viewport_margins(args: Vec<Value>) -> (r: Result<RedrawEvent, ParseError>)
    ensures
        event_result_view(r) == spec_parse_win_viewport_margins(values_view(args@)),
{
    let ghost av = values_view(args@);
    let mut vs = match extract_values(args, 6) {
        Ok(v) => v,
        Err(e) => return Err(e),
    };
    let ghost vv = values_view(vs@);
    let v_0 = take_first(&mut vs);
    let v_1 = take_first(&mut vs);
    let v_2 = take_first(&mut vs);
    let v_3 = take_first(&mut vs);
    let v_4 = take_first(&mut vs);
    let v_5 = take_first(&mut vs);
    proof {
        assert(v_0@ == vv[0]);
        assert(v_1@ == vv[1]);
        assert(v_2@ == vv[2]);
        assert(v_3@ == vv[3]);
        assert(v_4@ == vv[4]);
        assert(v_5@ == vv[5]);
    }
    let grid = match parse_u64(v_0) {
        Ok(x) => x,
        Err(e) => return Err(e),
    };
    let top = match parse_u64(v_2) {
        Ok(x) => x,
        Err(e) => return Err(e),
    };
    let bottom = match parse_u64(v_3) {
        Ok(x) => x,
        Err(e) => return Err(e),
    };
    let left = match parse_u64(v_4) {
        Ok(x) => x,
        Err(e) => return Err(e),
    };
    let right = match parse_u64(v_5) {
        Ok(x) => x,
        Err(e) => return Err(e),
    };
    Ok(RedrawEvent::WindowViewportMargins { grid, top, bottom, left, right })
}

pub open spec fn spec_parse_hl_group_set(args: Seq<ValueView>) -> Result<RedrawEventView, ParseErrorView> {
    match sp_extract(args, 2) {
        Err(e) => Err(e),
        Ok(vs) => {
        match sp_string(vs[0]) {
            Err(e) => Err(e),
            Ok(name) => {
                match sp_u64(vs[1]) {
                    Err(e) => Err(e),
                    Ok(id) => {
                        Ok(RedrawEventView::HighlightGroupSet { name: name, id: id })
                    },
                }
            },
        }
        },
    }
}

pub fn parse_hl_group_set(args: Vec<Value>) -> (r: Result<RedrawEvent, ParseError>)
    ensures
        event_result_view(r) == spec_parse_hl_group_set(values_view(args@)),
{
    let ghost av = values_view(args@);
    let mut vs = match extract_values(args, 2) {
        Ok(v) => v,
        Err(e) => return Err(e),
    };
    let ghost vv = values_view(vs@);
    let v_0 = take_first(&mut vs);
    let v_1 = take_first(&mut vs);
    proof {
        assert(v_0@ == vv[0]);
        assert(v_1@ == vv[1]);
    }
    let name = match parse_string(v_0) {
        Ok(x) => x,
        Err(e) => return Err(e),
    };
    let id = match parse_u64(v_1) {
        Ok(x) => x,
        Err(e) => return Err(e),
    };
    Ok(RedrawEvent::HighlightGroupSet { name, id })
}

pub open spec fn spec_parse_cmdline_pos(args: Seq<ValueView>) -> Result<RedrawEventView, ParseErrorView> {
    match sp_extract(args, 2) {
        Err(e) => Err(e),
        Ok(vs) => {
        match sp_u64(vs[0]) {
            Err(e) => Err(e),
            Ok(position) => {
                match sp_u64(vs[1]) {
                    Err(e) => Err(e),
                    Ok(level) => {
                        Ok(RedrawEventView::CommandLinePosition { position: position, level: level })
                    },
                }
            },
        }
        },
    }
}

pub fn parse_cmdline_pos(args: Vec<Value>) -> (r: Result<RedrawEvent, ParseError>)
    ensures
        event_result_view(r) == spec_parse_cmdline_pos(values_view(args@)),
{
    let ghost av = values_view(args@);
    let mut vs = match extract_values(args, 2) {
        Ok(v) => v,
        Err(e) => return Err(e),
    };
    let ghost vv = values_view(vs@);
    let v_0 = take_first(&mut vs);
    let v_1 = take_first(&mut vs);
    proof {
        assert(v_0@ == vv[0]);
        assert(v_1@ == vv[1]);
    }
    let position = match parse_u64(v_0) {
        Ok(x) => x,
        Err(e) => return Err(e),
    };
    let level = match parse_u64(v_1) {
        Ok(x) => x,
        Err(e) => return Err(e),
    };
    Ok(RedrawEvent::CommandLinePosition { position, level })
}

pub open spec fn spec_parse_cmdline_special_char(args: Seq<ValueView>) -> Result<RedrawEventView, ParseErrorView> {
    match sp_extract(args, 3) {
        Err(e) => Err(e),
        Ok(vs) => {
        match sp_string(vs[0]) {
            Err(e) => Err(e),
            Ok(character) => {
                match sp_bool(vs[1]) {
                    Err(e) => Err(e),
                    Ok(shift) => {
                        match sp_u64(vs[2]) {
                            Err(e) => Err(e),
                            Ok(level) => {
                                Ok(RedrawEventView::CommandLineSpecialCharacter { character: character, shift: shift, level: level })
                            },
                        }
                    },
                }
            },
        }
        },
    }
}

pub fn parse_cmdline_special_char(args: Vec<Value>) -> (r: Result<RedrawEvent, ParseError>)
    ensures
        event_result_view(r) == spec_parse_cmdline_special_char(values_view(args@)),
{
    let ghost av = values_view(args@);
    let mut vs = match extract_values(args, 3) {
        Ok(v) => v,
        Err(e) => return Err(e),
    };
    let ghost vv = values_view(vs@);
    let v_0 = take_first(&mut vs);
    let v_1 = take_first(&mut vs);
    let v_2 = take_first(&mut vs);
    proof {
        assert(v_0@ == vv[0]);
        assert(v_1@ == vv[1]);
        assert(v_2@ == vv[2]);
    }
    let character = match parse_string(v_0) {
        Ok(x) => x,
        Err(e) => return Err(e),
    };
    let shift = match parse_bool(v_1) {
        Ok(x) => x,
        Err(e) => return Err(e),
    };
    let level = match parse_u64(v_2) {
        Ok(x) => x,
        Err(e) => return Err(e),
    };
    Ok(RedrawEvent::CommandLineSpecialCharacter { character, shift, level })
}

pub open spec fn spec_parse_popupmenu_select(args: Seq<ValueView>) -> Result<RedrawEventView, ParseErrorView> {
    match sp_extract(args, 1) {
        Err(e) => Err(e),
        Ok(vs) => {
        match sp_i64(vs[0]) {
            Err(e) => Err(e),
            Ok(selected) => {
                Ok(RedrawEventView::PopupmenuSelect { selected: selected })
            },
        }
        },
    }
}

pub fn parse_popupmenu_select(args: Vec<Value>) -> (r: Result<RedrawEvent, ParseError>)
    ensures
        event_result_view(r) == spec_parse_popupmenu_select(values_view(args@)),
{
    let ghost av = values_view(args@);
    let mut vs = match extract_values(args, 1) {
        Ok(v) => v,
        Err(e) => return Err(e),
    };
    let ghost vv = values_view(vs@);
    let v_0 = take_first(&mut vs);
    proof {
        assert(v_0@ == vv[0]);
    }
    let selected = match parse_i64(v_0) {
        Ok(x) => x,
        Err(e) => return Err(e),
    };
    Ok(RedrawEvent::PopupmenuSelect { selected })
}


// ---- lists ----

/// Every item read with `f`, left to right; the first failure is the result.
pub open spec fn sp_all<T>(items: Seq<ValueView>, f: spec_fn(ValueView) -> Result<T, ParseErrorView>) -> Result<Seq<T>, ParseErrorView>
    decreases items.len(),
{
    if items.len() == 0 {
        Ok(Seq::empty())
    } else {
        match sp_all(items.drop_last(), f) {
            Err(e) => Err(e),
            Ok(pre) => match f(items.last()) {
                Err(e) => Err(e),
                Ok(x) => Ok(pre.push(x)),
            },
        }
    }
}

pub proof fn lemma_sp_all_step<T>(items: Seq<ValueView>, f: spec_fn(ValueView) -> Result<T, ParseErrorView>, i: int)
    requires
        0 <= i < items.len(),
    ensures
        sp_all(items.take(i + 1), f) == match sp_all(items.take(i), f) {
            Err(e) => Err(e),
            Ok(pre) => match f(items[i]) {
                Err(e) => Err(e),
                Ok(x) => Ok(pre.push(x)),
            },
        },
{
    assert(items.take(i + 1).drop_last() =~= items.take(i));
    assert(items.take(i + 1).last() == items[i]);
}

/// Once a prefix fails, the whole list fails the same way.
pub proof fn lemma_sp_all_err<T>(items: Seq<ValueView>, f: spec_fn(ValueView) -> Result<T, ParseErrorView>, i: int)
    requires
        0 <= i <= items.len(),
        sp_all(items.take(i), f) is Err,
    ensures
        sp_all(items, f) == sp_all(items.take(i), f),
    decreases items.len() - i,
{
    if i == items.len() {
        assert(items.take(i) =~= items);
    } else {
        lemma_sp_all_step(items, f, i);
        lemma_sp_all_err(items, f, i + 1);
    }
}

pub proof fn lemma_sp_all_whole<T>(items: Seq<ValueView>, f: spec_fn(ValueView) -> Result<T, ParseErrorView>)
    ensures
        sp_all(items.take(items.len() as int), f) == sp_all(items, f),
{
    assert(items.take(items.len() as int) =~= items);
}

// ---- styled text ----

/// One `[hl_id, text]` chunk; the text is read before the id.
pub open spec fn sp_chunk(t: ValueView) -> Result<(u64, Seq<char>), ParseErrorView> {
    match sp_array(t) {
        Err(e) => Err(e),
        Ok(parts) => if parts.len() < 2 {
            Err(ParseErrorView::Values(parts))
        } else {
            match sp_string(parts[1]) {
                Err(e) => Err(e),
                Ok(text) => match sp_u64(parts[0]) {
                    Err(e) => Err(e),
                    Ok(id) => Ok((id, text)),
                },
            }
        },
    }
}

pub open spec fn chunk_reader() -> spec_fn(ValueView) -> Result<(u64, Seq<char>), ParseErrorView> {
    |t: ValueView| sp_chunk(t)
}

pub open spec fn sp_styled(line: ValueView) -> Result<Seq<(u64, Seq<char>)>, ParseErrorView> {
    match sp_array(line) {
        Err(e) => Err(e),
        Ok(items) => sp_all(items, chunk_reader()),
    }
}

fn parse_chunk(t: Value) -> (r: Result<(u64, String), ParseError>)
    ensures
        match r {
            Ok(c) => sp_chunk(t@) == Ok::<(u64, Seq<char>), ParseErrorView>((c.0, c.1@)),
            Err(e) => sp_chunk(t@) == Err::<(u64, Seq<char>), ParseErrorView>(e@),
        },
{
    let mut parts = match parse_array(t) {
        Ok(p) => p,
        Err(e) => return Err(e),
    };
    if parts.len() < 2 {
        let ghost pv = values_view(parts@);
        let e = ParseError::Format(FormatError::Values(parts));
        proof {
            assert(e@ == ParseErrorView::Values(pv));
        }
        return Err(e);
    }
    let ghost pv = values_view(parts@);
    let text_v = parts.remove(1);
    let id_v = parts.remove(0);
    proof {
        assert(text_v@ == pv[1]);
        assert(id_v@ == pv[0]);
    }
    let text = match parse_string(text_v) {
        Ok(x) => x,
        Err(e) => return Err(e),
    };
    let id = match parse_u64(id_v) {
        Ok(x) => x,
        Err(e) => return Err(e),
    };
    Ok((id, text))
}

/// A `[[hl_id, text], ...]` list.
pub fn parse_styled_content(line: Value) -> (r: Result<StyledContent, ParseError>)
    ensures
        match r {
            Ok(c) => sp_styled(line@) == Ok::<Seq<(u64, Seq<char>)>, ParseErrorView>(styled_view(c@)),
            Err(e) => sp_styled(line@) == Err::<Seq<(u64, Seq<char>)>, ParseErrorView>(e@),
        },
{
    let items = match parse_array(line) {
        Ok(items) => items,
        Err(e) => return Err(e),
    };
    let ghost iv = values_view(items@);
    let ghost f = chunk_reader();
    let mut out: StyledContent = Vec::new();
    let ghost target = sp_styled(line@);
    proof {
        assert(target == sp_all(iv, f));
        assert(iv.take(0) =~= Seq::<ValueView>::empty());
        assert(styled_view(out@) =~= Seq::<(u64, Seq<char>)>::empty());
    }
    for item in it: items
        invariant
            values_view(it.seq()) == iv,
            f == chunk_reader(),
            target == sp_all(iv, f),
            target == sp_styled(line@),
            sp_all(iv.take(it.index() as int), f) == Ok::<Seq<(u64, Seq<char>)>, ParseErrorView>(styled_view(out@)),
    {
        let ghost i = it.index() as int;
        proof {
            assert(item@ == iv[i]);
            assert(f(iv[i]) == sp_chunk(iv[i]));
            lemma_sp_all_step(iv, f, i);
        }
        match parse_chunk(item) {
            Ok(c) => {
                let ghost before = out@;
                out.push(c);
                proof {
                    assert(styled_view(out@) =~= styled_view(before).push((c.0, c.1@)));
                }
            }
            Err(e) => {
                proof {
                    lemma_sp_all_err(iv, f, i + 1);
                }
                return Err(e);
            }
        }
    }
    proof {
        lemma_sp_all_whole(iv, f);
    }
    Ok(out)
}

// ---- grid_line ----

/// One `[text, hl_id?, repeat?]` cell. The id and the repeat are read before the text.
pub open spec fn sp_cell(c: ValueView) -> Result<GridLineCellView, ParseErrorView> {
    match sp_array(c) {
        Err(e) => Err(e),
        Ok(contents) => if contents.len() == 0 {
            Err(ParseErrorView::Values(contents))
        } else {
            match sp_opt_u64(if contents.len() > 1 { Some(contents[1]) } else { None }) {
                Err(e) => Err(e),
                Ok(highlight_id) => match sp_opt_u64(if contents.len() > 2 { Some(contents[2]) } else { None }) {
                    Err(e) => Err(e),
                    Ok(repeat) => match sp_string(contents[0]) {
                        Err(e) => Err(e),
                        Ok(text) => Ok(GridLineCellView { text, highlight_id, repeat }),
                    },
                },
            }
        },
    }
}

pub open spec fn cell_reader() -> spec_fn(ValueView) -> Result<GridLineCellView, ParseErrorView> {
    |c: ValueView| sp_cell(c)
}

pub fn parse_grid_line_cell(cell: Value) -> (r: Result<GridLineCell, ParseError>)
    ensures
        match r {
            Ok(c) => sp_cell(cell@) == Ok::<GridLineCellView, ParseErrorView>(c@),
            Err(e) => sp_cell(cell@) == Err::<GridLineCellView, ParseErrorView>(e@),
        },
{
    let mut contents = match parse_array(cell) {
        Ok(c) => c,
        Err(e) => return Err(e),
    };
    let ghost cv = values_view(contents@);
    if contents.len() == 0 {
        let e = ParseError::Format(FormatError::Values(contents));
        proof {
            assert(e@ == ParseErrorView::Values(cv));
        }
        return Err(e);
    }
    let n = contents.len();
    let text_v = take_first(&mut contents);
    let hl_v = if n > 1 { Some(take_first(&mut contents)) } else { None };
    let rep_v = if n > 2 { Some(take_first(&mut contents)) } else { None };
    proof {
        assert(text_v@ == cv[0]);
        assert(opt_view(hl_v) == if cv.len() > 1 { Some(cv[1]) } else { None::<ValueView> });
        assert(opt_view(rep_v) == if cv.len() > 2 { Some(cv[2]) } else { None::<ValueView> });
    }
    let highlight_id = match parse_opt_u64(hl_v) {
        Ok(x) => x,
        Err(e) => return Err(e),
    };
    let repeat = match parse_opt_u64(rep_v) {
        Ok(x) => x,
        Err(e) => return Err(e),
    };
    let text = match parse_string(text_v) {
        Ok(x) => x,
        Err(e) => return Err(e),
    };
    Ok(GridLineCell { text, highlight_id, repeat })
}

/// Every cell of a `grid_line`, in order.
fn parse_cells(items: Vec<Value>) -> (r: Result<Vec<GridLineCell>, ParseError>)
    ensures
        match r {
            Ok(v) => sp_all(values_view(items@), cell_reader()) == Ok::<Seq<GridLineCellView>, ParseErrorView>(cells_view(v@)),
            Err(e) => sp_all(values_view(items@), cell_reader()) == Err::<Seq<GridLineCellView>, ParseErrorView>(e@),
        },
{
    let ghost iv = values_view(items@);
    let ghost f = cell_reader();
    let mut out: Vec<GridLineCell> = Vec::new();
    proof {
        assert(iv.take(0) =~= Seq::<ValueView>::empty());
        assert(cells_view(out@) =~= Seq::<GridLineCellView>::empty());
    }
    for item in it: items
        invariant
            values_view(it.seq()) == iv,
            f == cell_reader(),
            sp_all(iv.take(it.index() as int), f) == Ok::<Seq<GridLineCellView>, ParseErrorView>(cells_view(out@)),
    {
        let ghost i = it.index() as int;
        proof {
            assert(item@ == iv[i]);
            lemma_sp_all_step(iv, f, i);
        }
        match parse_grid_line_cell(item) {
            Ok(x) => {
                let ghost before = out@;
                out.push(x);
                proof {
                    assert(cells_view(out@) =~= cells_view(before).push(x@));
                }
            }
            Err(e) => {
                proof {
                    lemma_sp_all_err(iv, f, i + 1);
                }
                return Err(e);
            }
        }
    }
    proof {
        lemma_sp_all_whole(iv, f);
    }
    Ok(out)
}


pub open spec fn spec_parse_grid_line(args: Seq<ValueView>) -> Result<RedrawEventView, ParseErrorView> {
    match sp_extract(args, 4) {
        Err(e) => Err(e),
        Ok(vs) => match sp_u64(vs[0]) {
            Err(e) => Err(e),
            Ok(grid) => match sp_u64(vs[1]) {
                Err(e) => Err(e),
                Ok(row) => match sp_u64(vs[2]) {
                    Err(e) => Err(e),
                    Ok(column_start) => match sp_array(vs[3]) {
                        Err(e) => Err(e),
                        Ok(items) => match sp_all(items, cell_reader()) {
                            Err(e) => Err(e),
                            Ok(cells) => Ok(RedrawEventView::GridLine { grid, row, column_start, cells }),
                        },
                    },
                },
            },
        },
    }
}

pub fn parse_grid_line(args: Vec<Value>) -> (r: Result<RedrawEvent, ParseError>)
    ensures
        event_result_view(r) == spec_parse_grid_line(values_view(args@)),
{
    let mut vs = match extract_values(args, 4) {
        Ok(v) => v,
        Err(e) => return Err(e),
    };
    let ghost vv = values_view(vs@);
    let v_0 = take_first(&mut vs);
    let v_1 = take_first(&mut vs);
    let v_2 = take_first(&mut vs);
    let v_3 = take_first(&mut vs);
    proof {
        assert(v_0@ == vv[0]);
        assert(v_1@ == vv[1]);
        assert(v_2@ == vv[2]);
        assert(v_3@ == vv[3]);
    }
    let grid = match parse_u64(v_0) {
        Ok(x) => x,
        Err(e) => return Err(e),
    };
    let row = match parse_u64(v_1) {
        Ok(x) => x,
        Err(e) => return Err(e),
    };
    let column_start = match parse_u64(v_2) {
        Ok(x) => x,
        Err(e) => return Err(e),
    };
    let items = match parse_array(v_3) {
        Ok(x) => x,
        Err(e) => return Err(e),
    };
    let cells = match parse_cells(items) {
        Ok(x) => x,
        Err(e) => return Err(e),
    };
    Ok(RedrawEvent::GridLine { grid, row, column_start, cells })
}

// ---- map fields ----

pub open spec fn key_is(e: (ValueView, ValueView), key: Seq<char>) -> bool {
    sp_as_str(e.0) == Some(key)
}

/// The value of the first entry whose key is the string `key`.
pub open spec fn sp_map_field(entries: Seq<(ValueView, ValueView)>, key: Seq<char>) -> Option<ValueView> {
    if exists|i: int| 0 <= i < entries.len() && key_is(entries[i], key) {
        let i = choose|i: int|
            0 <= i < entries.len() && key_is(entries[i], key) && forall|j: int| 0 <= j < i ==> !key_is(entries[j], key);
        Some(entries[i].1)
    } else {
        None
    }
}

/// Where the first entry with key `key` is.
fn find_key(entries: &Vec<(Value, Value)>, key: &str) -> (r: Option<usize>)
    ensures
        match r {
            Some(i) => i < entries@.len() && key_is(entries_view(entries@)[i as int], key@) && forall|j: int|
                0 <= j < i ==> !key_is(entries_view(entries@)[j], key@),
            None => forall|j: int| 0 <= j < entries@.len() ==> !key_is(entries_view(entries@)[j], key@),
        },
{
    let mut i: usize = 0;
    while i < entries.len()
        invariant
            i <= entries@.len(),
            forall|j: int| 0 <= j < i ==> !key_is(entries_view(entries@)[j], key@),
        decreases entries@.len() - i,
    {
        let is_key = match &entries[i].0 {
            Value::String(Utf8Str::Valid(t)) => str_eq(t.as_str(), key),
            _ => false,
        };
        proof {
            assert(entries_view(entries@)[i as int].0 == entries@[i as int].0@);
        }
        if is_key {
            return Some(i);
        }
        i += 1;
    }
    None
}

pub proof fn lemma_map_field_at(entries: Seq<(ValueView, ValueView)>, key: Seq<char>, i: int)
    requires
        0 <= i < entries.len(),
        key_is(entries[i], key),
        forall|j: int| 0 <= j < i ==> !key_is(entries[j], key),
    ensures
        sp_map_field(entries, key) == Some(entries[i].1),
{
    let k = choose|k: int|
        0 <= k < entries.len() && key_is(entries[k], key) && forall|j: int| 0 <= j < k ==> !key_is(entries[j], key);
    if k < i {
        assert(!key_is(entries[k], key));
    }
    if i < k {
        assert(!key_is(entries[i], key));
    }
}

/// A tab or buffer entry: the handle under `handle_key` (nil if none) and the name (empty if
/// none or not a string).
pub open spec fn sp_entry(v: ValueView, handle_key: Seq<char>) -> Result<(ValueView, Seq<char>), ParseErrorView> {
    match sp_map(v) {
        Err(e) => Err(e),
        Ok(m) => Ok((
            match sp_map_field(m, handle_key) {
                Some(h) => h,
                None => ValueView::Nil,
            },
            match sp_map_field(m, "name"@) {
                Some(n) => match sp_as_str(n) {
                    Some(t) => t,
                    None => Seq::empty(),
                },
                None => Seq::empty(),
            },
        )),
    }
}

pub open spec fn tab_reader() -> spec_fn(ValueView) -> Result<(ValueView, Seq<char>), ParseErrorView> {
    |v: ValueView| sp_entry(v, "tab"@)
}

pub open spec fn buffer_reader() -> spec_fn(ValueView) -> Result<(ValueView, Seq<char>), ParseErrorView> {
    |v: ValueView| sp_entry(v, "buffer"@)
}

/// The handle and name of one entry.
fn parse_entry(v: Value, handle_key: &str) -> (r: Result<(Value, String), ParseError>)
    ensures
        match r {
            Ok(e) => sp_entry(v@, handle_key@) == Ok::<(ValueView, Seq<char>), ParseErrorView>((e.0@, e.1@)),
            Err(e) => sp_entry(v@, handle_key@) == Err::<(ValueView, Seq<char>), ParseErrorView>(e@),
        },
{
    let mut map = match parse_map(v) {
        Ok(m) => m,
        Err(e) => return Err(e),
    };
    let ghost mv = entries_view(map@);
    let name_key = "name";
    proof {
        reveal_strlit("name");
    }
    let name = match find_key(&map, name_key) {
        Some(j) => {
            proof {
                lemma_map_field_at(mv, "name"@, j as int);
                assert(mv[j as int].1 == map@[j as int].1@);
            }
            match &map[j].1 {
                Value::String(Utf8Str::Valid(t)) => t.clone(),
                _ => String::new(),
            }
        },
        None => String::new(),
    };
    let handle = match find_key(&map, handle_key) {
        Some(i) => {
            proof {
                lemma_map_field_at(mv, handle_key@, i as int);
                assert(mv[i as int].1 == map@[i as int].1@);
            }
            let mut slot = (Value::Nil, Value::Nil);
            std::mem::swap(&mut slot, &mut map[i]);
            slot.1
        },
        None => Value::Nil,
    };
    Ok((handle, name))
}

fn parse_tab_entry(v: Value) -> (r: Result<TabEntry, ParseError>)
    ensures
        match r {
            Ok(e) => tab_reader()(v@) == Ok::<(ValueView, Seq<char>), ParseErrorView>((e.handle@, e.name@)),
            Err(e) => tab_reader()(v@) == Err::<(ValueView, Seq<char>), ParseErrorView>(e@),
        },
{
    proof {
        reveal_strlit("tab");
    }
    match parse_entry(v, "tab") {
        Ok((handle, name)) => Ok(TabEntry { handle, name }),
        Err(e) => Err(e),
    }
}

fn parse_buffer_entry(v: Value) -> (r: Result<BufferEntry, ParseError>)
    ensures
        match r {
            Ok(e) => buffer_reader()(v@) == Ok::<(ValueView, Seq<char>), ParseErrorView>((e.handle@, e.name@)),
            Err(e) => buffer_reader()(v@) == Err::<(ValueView, Seq<char>), ParseErrorView>(e@),
        },
{
    proof {
        reveal_strlit("buffer");
    }
    match parse_entry(v, "buffer") {
        Ok((handle, name)) => Ok(BufferEntry { handle, name }),
        Err(e) => Err(e),
    }
}

// ---- strings, menu items, styled lines, history ----

pub open spec fn string_reader() -> spec_fn(ValueView) -> Result<Seq<char>, ParseErrorView> {
    |v: ValueView| sp_string(v)
}

pub open spec fn strings_view(v: Seq<String>) -> Seq<Seq<char>> {
    Seq::new(v.len(), |i: int| v[i]@)
}

pub open spec fn sp_menu_item(v: ValueView) -> Result<Seq<Seq<char>>, ParseErrorView> {
    match sp_array(v) {
        Err(e) => Err(e),
        Ok(items) => sp_all(items, string_reader()),
    }
}

pub open spec fn menu_item_reader() -> spec_fn(ValueView) -> Result<Seq<Seq<char>>, ParseErrorView> {
    |v: ValueView| sp_menu_item(v)
}

pub open spec fn styled_reader() -> spec_fn(ValueView) -> Result<Seq<(u64, Seq<char>)>, ParseErrorView> {
    |v: ValueView| sp_styled(v)
}

/// One `[kind, content]` entry of the message history.
pub open spec fn sp_history_entry(v: ValueView) -> Result<(MessageKind, Seq<(u64, Seq<char>)>), ParseErrorView> {
    match sp_array(v) {
        Err(e) => Err(e),
        Ok(parts) => match sp_extract(parts, 2) {
            Err(e) => Err(e),
            Ok(vs) => match sp_string(vs[0]) {
                Err(e) => Err(e),
                Ok(kind) => match sp_styled(vs[1]) {
                    Err(e) => Err(e),
                    Ok(content) => Ok((spec_message_kind(kind), content)),
                },
            },
        },
    }
}

pub open spec fn history_reader() -> spec_fn(ValueView) -> Result<(MessageKind, Seq<(u64, Seq<char>)>), ParseErrorView> {
    |v: ValueView| sp_history_entry(v)
}

fn parse_history_entry(v: Value) -> (r: Result<(MessageKind, StyledContent), ParseError>)
    ensures
        match r {
            Ok(x) => history_reader()(v@) == Ok::<(MessageKind, Seq<(u64, Seq<char>)>), ParseErrorView>((x.0, styled_view(x.1@))),
            Err(e) => history_reader()(v@) == Err::<(MessageKind, Seq<(u64, Seq<char>)>), ParseErrorView>(e@),
        },
{
    let parts = match parse_array(v) {
        Ok(p) => p,
        Err(e) => return Err(e),
    };
    let mut vs = match extract_values(parts, 2) {
        Ok(x) => x,
        Err(e) => return Err(e),
    };
    let ghost vv = values_view(vs@);
    let kind_v = take_first(&mut vs);
    let content_v = take_first(&mut vs);
    proof {
        assert(kind_v@ == vv[0]);
        assert(content_v@ == vv[1]);
    }
    let kind = match parse_string(kind_v) {
        Ok(x) => x,
        Err(e) => return Err(e),
    };
    let content = match parse_styled_content(content_v) {
        Ok(x) => x,
        Err(e) => return Err(e),
    };
    Ok((MessageKind::parse(kind.as_str()), content))
}

fn parse_menu_item(v: Value) -> (r: Result<Vec<String>, ParseError>)
    ensures
        match r {
            Ok(x) => menu_item_reader()(v@) == Ok::<Seq<Seq<char>>, ParseErrorView>(strings_view(x@)),
            Err(e) => menu_item_reader()(v@) == Err::<Seq<Seq<char>>, ParseErrorView>(e@),
        },
{
    let items = match parse_array(v) {
        Ok(p) => p,
        Err(e) => return Err(e),
    };
    parse_strings(items)
}

/// Every tab page of `tabline_update`, in order.
fn parse_tab_entries(items: Vec<Value>) -> (r: Result<Vec<TabEntry>, ParseError>)
    ensures
        match r {
            Ok(v) => sp_all(values_view(items@), tab_reader()) == Ok::<Seq<(ValueView, Seq<char>)>, ParseErrorView>(tabs_view(v@)),
            Err(e) => sp_all(values_view(items@), tab_reader()) == Err::<Seq<(ValueView, Seq<char>)>, ParseErrorView>(e@),
        },
{
    let ghost iv = values_view(items@);
    let ghost f = tab_reader();
    let mut out: Vec<TabEntry> = Vec::new();
    proof {
        assert(iv.take(0) =~= Seq::<ValueView>::empty());
        assert(tabs_view(out@) =~= Seq::<(ValueView, Seq<char>)>::empty());
    }
    for item in it: items
        invariant
            values_view(it.seq()) == iv,
            f == tab_reader(),
            sp_all(iv.take(it.index() as int), f) == Ok::<Seq<(ValueView, Seq<char>)>, ParseErrorView>(tabs_view(out@)),
    {
        let ghost i = it.index() as int;
        proof {
            assert(item@ == iv[i]);
            lemma_sp_all_step(iv, f, i);
        }
        match parse_tab_entry(item) {
            Ok(x) => {
                let ghost before = out@;
                out.push(x);
                proof {
                    assert(tabs_view(out@) =~= tabs_view(before).push((x.handle@, x.name@)));
                }
            }
            Err(e) => {
                proof {
                    lemma_sp_all_err(iv, f, i + 1);
                }
                return Err(e);
            }
        }
    }
    proof {
        lemma_sp_all_whole(iv, f);
    }
    Ok(out)
}

/// Every buffer of `tabline_update`, in order.
fn parse_buffer_entries(items: Vec<Value>) -> (r: Result<Vec<BufferEntry>, ParseError>)
    ensures
        match r {
            Ok(v) => sp_all(values_view(items@), buffer_reader()) == Ok::<Seq<(ValueView, Seq<char>)>, ParseErrorView>(buffers_view(v@)),
            Err(e) => sp_all(values_view(items@), buffer_reader()) == Err::<Seq<(ValueView, Seq<char>)>, ParseErrorView>(e@),
        },
{
    let ghost iv = values_view(items@);
    let ghost f = buffer_reader();
    let mut out: Vec<BufferEntry> = Vec::new();
    proof {
        assert(iv.take(0) =~= Seq::<ValueView>::empty());
        assert(buffers_view(out@) =~= Seq::<(ValueView, Seq<char>)>::empty());
    }
    for item in it: items
        invariant
            values_view(it.seq()) == iv,
            f == buffer_reader(),
            sp_all(iv.take(it.index() as int), f) == Ok::<Seq<(ValueView, Seq<char>)>, ParseErrorView>(buffers_view(out@)),
    {
        let ghost i = it.index() as int;
        proof {
            assert(item@ == iv[i]);
            lemma_sp_all_step(iv, f, i);
        }
        match parse_buffer_entry(item) {
            Ok(x) => {
                let ghost before = out@;
                out.push(x);
                proof {
                    assert(buffers_view(out@) =~= buffers_view(before).push((x.handle@, x.name@)));
                }
            }
            Err(e) => {
                proof {
                    lemma_sp_all_err(iv, f, i + 1);
                }
                return Err(e);
            }
        }
    }
    proof {
        lemma_sp_all_whole(iv, f);
    }
    Ok(out)
}

/// Every string of a list, in order.
fn parse_strings(items: Vec<Value>) -> (r: Result<Vec<String>, ParseError>)
    ensures
        match r {
            Ok(v) => sp_all(values_view(items@), string_reader()) == Ok::<Seq<Seq<char>>, ParseErrorView>(strings_view(v@)),
            Err(e) => sp_all(values_view(items@), string_reader()) == Err::<Seq<Seq<char>>, ParseErrorView>(e@),
        },
{
    let ghost iv = values_view(items@);
    let ghost f = string_reader();
    let mut out: Vec<String> = Vec::new();
    proof {
        assert(iv.take(0) =~= Seq::<ValueView>::empty());
        assert(strings_view(out@) =~= Seq::<Seq<char>>::empty());
    }
    for item in it: items
        invariant
            values_view(it.seq()) == iv,
            f == string_reader(),
            sp_all(iv.take(it.index() as int), f) == Ok::<Seq<Seq<char>>, ParseErrorView>(strings_view(out@)),
    {
        let ghost i = it.index() as int;
        proof {
            assert(item@ == iv[i]);
            lemma_sp_all_step(iv, f, i);
        }
        match parse_string(item) {
            Ok(x) => {
                let ghost before = out@;
                out.push(x);
                proof {
                    assert(strings_view(out@) =~= strings_view(before).push(x@));
                }
            }
            Err(e) => {
                proof {
                    lemma_sp_all_err(iv, f, i + 1);
                }
                return Err(e);
            }
        }
    }
    proof {
        lemma_sp_all_whole(iv, f);
    }
    Ok(out)
}

/// Every popup menu item: each a list of strings.
fn parse_menu_items(items: Vec<Value>) -> (r: Result<Vec<Vec<String>>, ParseError>)
    ensures
        match r {
            Ok(v) => sp_all(values_view(items@), menu_item_reader()) == Ok::<Seq<Seq<Seq<char>>>, ParseErrorView>(items_view(v@)),
            Err(e) => sp_all(values_view(items@), menu_item_reader()) == Err::<Seq<Seq<Seq<char>>>, ParseErrorView>(e@),
        },
{
    let ghost iv = values_view(items@);
    let ghost f = menu_item_reader();
    let mut out: Vec<Vec<String>> = Vec::new();
    proof {
        assert(iv.take(0) =~= Seq::<ValueView>::empty());
        assert(items_view(out@) =~= Seq::<Seq<Seq<char>>>::empty());
    }
    for item in it: items
        invariant
            values_view(it.seq()) == iv,
            f == menu_item_reader(),
            sp_all(iv.take(it.index() as int), f) == Ok::<Seq<Seq<Seq<char>>>, ParseErrorView>(items_view(out@)),
    {
        let ghost i = it.index() as int;
        proof {
            assert(item@ == iv[i]);
            lemma_sp_all_step(iv, f, i);
        }
        match parse_menu_item(item) {
            Ok(x) => {
                let ghost before = out@;
                out.push(x);
                proof {
                    assert(items_view(out@) =~= items_view(before).push(strings_view(x@)));
                }
            }
            Err(e) => {
                proof {
                    lemma_sp_all_err(iv, f, i + 1);
                }
                return Err(e);
            }
        }
    }
    proof {
        lemma_sp_all_whole(iv, f);
    }
    Ok(out)
}

/// Every line of a `cmdline_block_show`, in order.
fn parse_styled_lines(items: Vec<Value>) -> (r: Result<Vec<StyledContent>, ParseError>)
    ensures
        match r {
            Ok(v) => sp_all(values_view(items@), styled_reader()) == Ok::<Seq<Seq<(u64, Seq<char>)>>, ParseErrorView>(styled_lines_view(v@)),
            Err(e) => sp_all(values_view(items@), styled_reader()) == Err::<Seq<Seq<(u64, Seq<char>)>>, ParseErrorView>(e@),
        },
{
    let ghost iv = values_view(items@);
    let ghost f = styled_reader();
    let mut out: Vec<StyledContent> = Vec::new();
    proof {
        assert(iv.take(0) =~= Seq::<ValueView>::empty());
        assert(styled_lines_view(out@) =~= Seq::<Seq<(u64, Seq<char>)>>::empty());
    }
    for item in it: items
        invariant
            values_view(it.seq()) == iv,
            f == styled_reader(),
            sp_all(iv.take(it.index() as int), f) == Ok::<Seq<Seq<(u64, Seq<char>)>>, ParseErrorView>(styled_lines_view(out@)),
    {
        let ghost i = it.index() as int;
        proof {
            assert(item@ == iv[i]);
            lemma_sp_all_step(iv, f, i);
        }
        match parse_styled_content(item) {
            Ok(x) => {
                let ghost before = out@;
                out.push(x);
                proof {
                    assert(styled_lines_view(out@) =~= styled_lines_view(before).push(styled_view(x@)));
                }
            }
            Err(e) => {
                proof {
                    lemma_sp_all_err(iv, f, i + 1);
                }
                return Err(e);
            }
        }
    }
    proof {
        lemma_sp_all_whole(iv, f);
    }
    Ok(out)
}

/// Every `[kind, content]` entry of `msg_history_show`, in order.
fn parse_history_entries(items: Vec<Value>) -> (r: Result<Vec<(MessageKind, StyledContent)>, ParseError>)
    ensures
        match r {
            Ok(v) => sp_all(values_view(items@), history_reader()) == Ok::<Seq<(MessageKind, Seq<(u64, Seq<char>)>)>, ParseErrorView>(history_view(v@)),
            Err(e) => sp_all(values_view(items@), history_reader()) == Err::<Seq<(MessageKind, Seq<(u64, Seq<char>)>)>, ParseErrorView>(e@),
        },
{
    let ghost iv = values_view(items@);
    let ghost f = history_reader();
    let mut out: Vec<(MessageKind, StyledContent)> = Vec::new();
    proof {
        assert(iv.take(0) =~= Seq::<ValueView>::empty());
        assert(history_view(out@) =~= Seq::<(MessageKind, Seq<(u64, Seq<char>)>)>::empty());
    }
    for item in it: items
        invariant
            values_view(it.seq()) == iv,
            f == history_reader(),
            sp_all(iv.take(it.index() as int), f) == Ok::<Seq<(MessageKind, Seq<(u64, Seq<char>)>)>, ParseErrorView>(history_view(out@)),
    {
        let ghost i = it.index() as int;
        proof {
            assert(item@ == iv[i]);
            lemma_sp_all_step(iv, f, i);
        }
        match parse_history_entry(item) {
            Ok(x) => {
                let ghost before = out@;
                out.push(x);
                proof {
                    assert(history_view(out@) =~= history_view(before).push((x.0, styled_view(x.1@))));
                }
            }
            Err(e) => {
                proof {
                    lemma_sp_all_err(iv, f, i + 1);
                }
                return Err(e);
            }
        }
    }
    proof {
        lemma_sp_all_whole(iv, f);
    }
    Ok(out)
}



// ---- mode_info_set ----

/// One `name: value` entry of a mode: the fields Neovim names set, others are skipped.
pub open spec fn sp_mode_step(mode: CursorMode, entry: (ValueView, ValueView)) -> Result<CursorMode, ParseErrorView> {
    match sp_string(entry.0) {
        Err(e) => Err(e),
        Ok(name) => if name == "cursor_shape"@ {
            match sp_string(entry.1) {
                Err(e) => Err(e),
                Ok(s) => Ok(CursorMode { shape: spec_shape_named(s), ..mode }),
            }
        } else if name == "cell_percentage"@ {
            match sp_u64(entry.1) {
                Err(e) => Err(e),
                Ok(n) => Ok(CursorMode { cell_percentage: Some(n), ..mode }),
            }
        } else if name == "blinkwait"@ {
            match sp_u64(entry.1) {
                Err(e) => Err(e),
                Ok(n) => Ok(CursorMode { blinkwait: Some(n), ..mode }),
            }
        } else if name == "blinkon"@ {
            match sp_u64(entry.1) {
                Err(e) => Err(e),
                Ok(n) => Ok(CursorMode { blinkon: Some(n), ..mode }),
            }
        } else if name == "blinkoff"@ {
            match sp_u64(entry.1) {
                Err(e) => Err(e),
                Ok(n) => Ok(CursorMode { blinkoff: Some(n), ..mode }),
            }
        } else if name == "attr_id"@ {
            match sp_u64(entry.1) {
                Err(e) => Err(e),
                Ok(n) => Ok(CursorMode { style_id: Some(n), ..mode }),
            }
        } else {
            Ok(mode)
        },
    }
}

/// The mode the entries describe, read left to right from an empty one.
pub open spec fn sp_mode_fold(entries: Seq<(ValueView, ValueView)>) -> Result<CursorMode, ParseErrorView>
    decreases entries.len(),
{
    if entries.len() == 0 {
        Ok(CursorMode::empty())
    } else {
        match sp_mode_fold(entries.drop_last()) {
            Err(e) => Err(e),
            Ok(m) => sp_mode_step(m, entries.last()),
        }
    }
}

pub open spec fn sp_mode_info(v: ValueView) -> Result<CursorMode, ParseErrorView> {
    match sp_map(v) {
        Err(e) => Err(e),
        Ok(entries) => sp_mode_fold(entries),
    }
}

pub open spec fn mode_reader() -> spec_fn(ValueView) -> Result<CursorMode, ParseErrorView> {
    |v: ValueView| sp_mode_info(v)
}

proof fn lemma_mode_fold_step(entries: Seq<(ValueView, ValueView)>, i: int)
    requires
        0 <= i < entries.len(),
    ensures
        sp_mode_fold(entries.take(i + 1)) == match sp_mode_fold(entries.take(i)) {
            Err(e) => Err(e),
            Ok(m) => sp_mode_step(m, entries[i]),
        },
{
    assert(entries.take(i + 1).drop_last() =~= entries.take(i));
}

proof fn lemma_mode_fold_err(entries: Seq<(ValueView, ValueView)>, i: int)
    requires
        0 <= i <= entries.len(),
        sp_mode_fold(entries.take(i)) is Err,
    ensures
        sp_mode_fold(entries) == sp_mode_fold(entries.take(i)),
    decreases entries.len() - i,
{
    if i == entries.len() {
        assert(entries.take(i) =~= entries);
    } else {
        lemma_mode_fold_step(entries, i);
        lemma_mode_fold_err(entries, i + 1);
    }
}

fn mode_step(mode: CursorMode, name: Value, value: Value) -> (r: Result<CursorMode, ParseError>)
    ensures
        match r {
            Ok(m) => sp_mode_step(mode, (name@, value@)) == Ok::<CursorMode, ParseErrorView>(m),
            Err(e) => sp_mode_step(mode, (name@, value@)) == Err::<CursorMode, ParseErrorView>(e@),
        },
{
    let name = match parse_string(name) {
        Ok(s) => s,
        Err(e) => return Err(e),
    };
    let mut m = mode;
    if str_eq(name.as_str(), "cursor_shape") {
        let s = match parse_string(value) {
            Ok(s) => s,
            Err(e) => return Err(e),
        };
        m.shape = CursorShape::from_type_name(s.as_str());
    } else if str_eq(name.as_str(), "cell_percentage") {
        m.cell_percentage = match parse_u64(value) {
            Ok(n) => Some(n),
            Err(e) => return Err(e),
        };
    } else if str_eq(name.as_str(), "blinkwait") {
        m.blinkwait = match parse_u64(value) {
            Ok(n) => Some(n),
            Err(e) => return Err(e),
        };
    } else if str_eq(name.as_str(), "blinkon") {
        m.blinkon = match parse_u64(value) {
            Ok(n) => Some(n),
            Err(e) => return Err(e),
        };
    } else if str_eq(name.as_str(), "blinkoff") {
        m.blinkoff = match parse_u64(value) {
            Ok(n) => Some(n),
            Err(e) => return Err(e),
        };
    } else if str_eq(name.as_str(), "attr_id") {
        m.style_id = match parse_u64(value) {
            Ok(n) => Some(n),
            Err(e) => return Err(e),
        };
    }
    Ok(m)
}

/// One mode of `mode_info_set`, from its map.
pub fn parse_cursor_mode(v: Value) -> (r: Result<CursorMode, ParseError>)
    ensures
        match r {
            Ok(m) => mode_reader()(v@) == Ok::<CursorMode, ParseErrorView>(m),
            Err(e) => mode_reader()(v@) == Err::<CursorMode, ParseErrorView>(e@),
        },
{
    let entries = match parse_map(v) {
        Ok(m) => m,
        Err(e) => return Err(e),
    };
    let ghost ev = entries_view(entries@);
    let mut mode = CursorMode::new();
    proof {
        assert(ev.take(0) =~= Seq::<(ValueView, ValueView)>::empty());
    }
    for entry in it: entries
        invariant
            entries_view(it.seq()) == ev,
            sp_map(v@) == Ok::<Seq<(ValueView, ValueView)>, ParseErrorView>(ev),
            sp_mode_fold(ev.take(it.index() as int)) == Ok::<CursorMode, ParseErrorView>(mode),
    {
        let ghost i = it.index() as int;
        proof {
            assert(ev[i] == (entry.0@, entry.1@));
            lemma_mode_fold_step(ev, i);
        }
        let (name, value) = entry;
        match mode_step(mode, name, value) {
            Ok(m) => {
                mode = m;
            },
            Err(e) => {
                proof {
                    lemma_mode_fold_err(ev, i + 1);
                }
                return Err(e);
            },
        }
    }
    proof {
        assert(ev.take(ev.len() as int) =~= ev);
    }
    Ok(mode)
}

/// Every mode of `mode_info_set`, in order.
fn parse_cursor_modes(items: Vec<Value>) -> (r: Result<Vec<CursorMode>, ParseError>)
    ensures
        match r {
            Ok(v) => sp_all(values_view(items@), mode_reader()) == Ok::<Seq<CursorMode>, ParseErrorView>((v@)),
            Err(e) => sp_all(values_view(items@), mode_reader()) == Err::<Seq<CursorMode>, ParseErrorView>(e@),
        },
{
    let ghost iv = values_view(items@);
    let ghost f = mode_reader();
    let mut out: Vec<CursorMode> = Vec::new();
    proof {
        assert(iv.take(0) =~= Seq::<ValueView>::empty());
        assert((out@) =~= Seq::<CursorMode>::empty());
    }
    for item in it: items
        invariant
            values_view(it.seq()) == iv,
            f == mode_reader(),
            sp_all(iv.take(it.index() as int), f) == Ok::<Seq<CursorMode>, ParseErrorView>((out@)),
    {
        let ghost i = it.index() as int;
        proof {
            assert(item@ == iv[i]);
            lemma_sp_all_step(iv, f, i);
        }
        match parse_cursor_mode(item) {
            Ok(x) => {
                let ghost before = out@;
                out.push(x);
                proof {
                    assert((out@) =~= (before).push(x));
                }
            }
            Err(e) => {
                proof {
                    lemma_sp_all_err(iv, f, i + 1);
                }
                return Err(e);
            }
        }
    }
    proof {
        lemma_sp_all_whole(iv, f);
    }
    Ok(out)
}


pub open spec fn spec_parse_mode_info_set(args: Seq<ValueView>) -> Result<RedrawEventView, ParseErrorView> {
    match sp_extract(args, 2) {
        Err(e) => Err(e),
        Ok(vs) => match sp_array(vs[1]) {
            Err(e) => Err(e),
            Ok(items) => match sp_all(items, mode_reader()) {
                Err(e) => Err(e),
                Ok(cursor_modes) => Ok(RedrawEventView::ModeInfoSet { cursor_modes }),
            },
        },
    }
}

pub fn parse_mode_info_set(args: Vec<Value>) -> (r: Result<RedrawEvent, ParseError>)
    ensures
        event_result_view(r) == spec_parse_mode_info_set(values_view(args@)),
{
    let mut vs = match extract_values(args, 2) {
        Ok(v) => v,
        Err(e) => return Err(e),
    };
    let ghost vv = values_view(vs@);
    let _cursor_style_enabled = take_first(&mut vs);
    let info = take_first(&mut vs);
    proof {
        assert(info@ == vv[1]);
    }
    let items = match parse_array(info) {
        Ok(x) => x,
        Err(e) => return Err(e),
    };
    let cursor_modes = match parse_cursor_modes(items) {
        Ok(x) => x,
        Err(e) => return Err(e),
    };
    Ok(RedrawEvent::ModeInfoSet { cursor_modes })
}

// ---- option_set, mode_change, default_colors_set ----

/// The option `name` with its value; names the shell does not know keep the raw value.
pub open spec fn sp_gui_option(name: Seq<char>, v: ValueView) -> Result<GuiOptionView, ParseErrorView> {
    if name == "arabicshape"@ {
        match sp_bool(v) { Err(e) => Err(e), Ok(b) => Ok(GuiOptionView::ArabicShape(b)) }
    } else if name == "ambiwidth"@ {
        match sp_string(v) { Err(e) => Err(e), Ok(s) => Ok(GuiOptionView::AmbiWidth(s)) }
    } else if name == "emoji"@ {
        match sp_bool(v) { Err(e) => Err(e), Ok(b) => Ok(GuiOptionView::Emoji(b)) }
    } else if name == "guifont"@ {
        match sp_string(v) { Err(e) => Err(e), Ok(s) => Ok(GuiOptionView::GuiFont(s)) }
    } else if name == "guifontset"@ {
        match sp_string(v) { Err(e) => Err(e), Ok(s) => Ok(GuiOptionView::GuiFontSet(s)) }
    } else if name == "guifontwide"@ {
        match sp_string(v) { Err(e) => Err(e), Ok(s) => Ok(GuiOptionView::GuiFontWide(s)) }
    } else if name == "linespace"@ {
        match sp_f64(v) { Err(e) => Err(e), Ok(f) => Ok(GuiOptionView::LineSpace(f)) }
    } else if name == "pumblend"@ {
        match sp_u64(v) { Err(e) => Err(e), Ok(n) => Ok(GuiOptionView::Pumblend(n)) }
    } else if name == "showtabline"@ {
        match sp_u64(v) { Err(e) => Err(e), Ok(n) => Ok(GuiOptionView::ShowTabLine(n)) }
    } else if name == "termguicolors"@ {
        match sp_bool(v) { Err(e) => Err(e), Ok(b) => Ok(GuiOptionView::TermGuiColors(b)) }
    } else {
        Ok(GuiOptionView::Unknown(name, v))
    }
}

pub open spec fn spec_parse_option_set(args: Seq<ValueView>) -> Result<RedrawEventView, ParseErrorView> {
    match sp_extract(args, 2) {
        Err(e) => Err(e),
        Ok(vs) => match sp_string(vs[0]) {
            Err(e) => Err(e),
            Ok(name) => match sp_gui_option(name, vs[1]) {
                Err(e) => Err(e),
                Ok(gui_option) => Ok(RedrawEventView::OptionSet { gui_option }),
            },
        },
    }
}

fn gui_option(name: String, v: Value) -> (r: Result<GuiOption, ParseError>)
    ensures
        match r {
            Ok(o) => sp_gui_option(name@, v@) == Ok::<GuiOptionView, ParseErrorView>(o@),
            Err(e) => sp_gui_option(name@, v@) == Err::<GuiOptionView, ParseErrorView>(e@),
        },
{
    let n = name.as_str();
    if str_eq(n, "arabicshape") {
        match parse_bool(v) { Err(e) => Err(e), Ok(b) => Ok(GuiOption::ArabicShape(b)) }
    } else if str_eq(n, "ambiwidth") {
        match parse_string(v) { Err(e) => Err(e), Ok(s) => Ok(GuiOption::AmbiWidth(s)) }
    } else if str_eq(n, "emoji") {
        match parse_bool(v) { Err(e) => Err(e), Ok(b) => Ok(GuiOption::Emoji(b)) }
    } else if str_eq(n, "guifont") {
        match parse_string(v) { Err(e) => Err(e), Ok(s) => Ok(GuiOption::GuiFont(s)) }
    } else if str_eq(n, "guifontset") {
        match parse_string(v) { Err(e) => Err(e), Ok(s) => Ok(GuiOption::GuiFontSet(s)) }
    } else if str_eq(n, "guifontwide") {
        match parse_string(v) { Err(e) => Err(e), Ok(s) => Ok(GuiOption::GuiFontWide(s)) }
    } else if str_eq(n, "linespace") {
        match parse_f64(v) { Err(e) => Err(e), Ok(f) => Ok(GuiOption::LineSpace(f)) }
    } else if str_eq(n, "pumblend") {
        match parse_u64(v) { Err(e) => Err(e), Ok(x) => Ok(GuiOption::Pumblend(x)) }
    } else if str_eq(n, "showtabline") {
        match parse_u64(v) { Err(e) => Err(e), Ok(x) => Ok(GuiOption::ShowTabLine(x)) }
    } else if str_eq(n, "termguicolors") {
        match parse_bool(v) { Err(e) => Err(e), Ok(b) => Ok(GuiOption::TermGuiColors(b)) }
    } else {
        Ok(GuiOption::Unknown(name, v))
    }
}

pub fn parse_option_set(args: Vec<Value>) -> (r: Result<RedrawEvent, ParseError>)
    ensures
        event_result_view(r) == spec_parse_option_set(values_view(args@)),
{
    let mut vs = match extract_values(args, 2) {
        Ok(v) => v,
        Err(e) => return Err(e),
    };
    let ghost vv = values_view(vs@);
    let name_v = take_first(&mut vs);
    let value = take_first(&mut vs);
    proof {
        assert(name_v@ == vv[0]);
        assert(value@ == vv[1]);
    }
    let name = match parse_string(name_v) {
        Ok(x) => x,
        Err(e) => return Err(e),
    };
    match gui_option(name, value) {
        Ok(gui_option) => Ok(RedrawEvent::OptionSet { gui_option }),
        Err(e) => Err(e),
    }
}

/// The mode Neovim names in `mode_change`; the three command-line modes are one.
pub open spec fn spec_editor_mode(name: Seq<char>) -> EditorModeView {
    if name == "normal"@ {
        EditorModeView::Normal
    } else if name == "insert"@ {
        EditorModeView::Insert
    } else if name == "visual"@ {
        EditorModeView::Visual
    } else if name == "replace"@ {
        EditorModeView::Replace
    } else if name == "cmdline_normal"@ || name == "cmdline_insert"@ || name == "cmdline_replace"@ {
        EditorModeView::CmdLine
    } else {
        EditorModeView::Unknown(name)
    }
}

fn editor_mode(name: String) -> (m: EditorMode)
    ensures
        m@ == spec_editor_mode(name@),
{
    let n = name.as_str();
    if str_eq(n, "normal") {
        EditorMode::Normal
    } else if str_eq(n, "insert") {
        EditorMode::Insert
    } else if str_eq(n, "visual") {
        EditorMode::Visual
    } else if str_eq(n, "replace") {
        EditorMode::Replace
    } else if str_eq(n, "cmdline_normal") || str_eq(n, "cmdline_insert") || str_eq(n, "cmdline_replace") {
        EditorMode::CmdLine
    } else {
        EditorMode::Unknown(name)
    }
}

pub open spec fn spec_parse_mode_change(args: Seq<ValueView>) -> Result<RedrawEventView, ParseErrorView> {
    match sp_extract(args, 2) {
        Err(e) => Err(e),
        Ok(vs) => match sp_string(vs[0]) {
            Err(e) => Err(e),
            Ok(name) => match sp_u64(vs[1]) {
                Err(e) => Err(e),
                Ok(mode_index) => Ok(RedrawEventView::ModeChange { mode: spec_editor_mode(name), mode_index }),
            },
        },
    }
}

pub fn parse_mode_change(args: Vec<Value>) -> (r: Result<RedrawEvent, ParseError>)
    ensures
        event_result_view(r) == spec_parse_mode_change(values_view(args@)),
{
    let mut vs = match extract_values(args, 2) {
        Ok(v) => v,
        Err(e) => return Err(e),
    };
    let ghost vv = values_view(vs@);
    let mode_v = take_first(&mut vs);
    let index_v = take_first(&mut vs);
    proof {
        assert(mode_v@ == vv[0]);
        assert(index_v@ == vv[1]);
    }
    let name = match parse_string(mode_v) {
        Ok(x) => x,
        Err(e) => return Err(e),
    };
    let mode = editor_mode(name);
    let mode_index = match parse_u64(index_v) {
        Ok(x) => x,
        Err(e) => return Err(e),
    };
    Ok(RedrawEvent::ModeChange { mode, mode_index })
}

pub open spec fn spec_parse_default_colors(args: Seq<ValueView>) -> Result<RedrawEventView, ParseErrorView> {
    match sp_extract(args, 5) {
        Err(e) => Err(e),
        Ok(vs) => match sp_u64(vs[0]) {
            Err(e) => Err(e),
            Ok(fg) => match sp_u64(vs[1]) {
                Err(e) => Err(e),
                Ok(bg) => match sp_u64(vs[2]) {
                    Err(e) => Err(e),
                    Ok(sp) => Ok(RedrawEventView::DefaultColorsSet {
                        colors: Colors {
                            foreground: Some(packed_color(fg)),
                            background: Some(packed_color(bg)),
                            special: Some(packed_color(sp)),
                        },
                    }),
                },
            },
        },
    }
}

pub fn parse_default_colors(args: Vec<Value>) -> (r: Result<RedrawEvent, ParseError>)
    ensures
        event_result_view(r) == spec_parse_default_colors(values_view(args@)),
{
    let mut vs = match extract_values(args, 5) {
        Ok(v) => v,
        Err(e) => return Err(e),
    };
    let ghost vv = values_view(vs@);
    let fg_v = take_first(&mut vs);
    let bg_v = take_first(&mut vs);
    let sp_v = take_first(&mut vs);
    proof {
        assert(fg_v@ == vv[0]);
        assert(bg_v@ == vv[1]);
        assert(sp_v@ == vv[2]);
    }
    let fg = match parse_u64(fg_v) {
        Ok(x) => x,
        Err(e) => return Err(e),
    };
    let bg = match parse_u64(bg_v) {
        Ok(x) => x,
        Err(e) => return Err(e),
    };
    let sp = match parse_u64(sp_v) {
        Ok(x) => x,
        Err(e) => return Err(e),
    };
    Ok(RedrawEvent::DefaultColorsSet {
        colors: Colors {
            foreground: Some(Color::from_packed(fg)),
            background: Some(Color::from_packed(bg)),
            special: Some(Color::from_packed(sp)),
        },
    })
}

// ---- hl_attr_define ----

/// The colour of an integer attribute: its low 24 bits, or none when it is negative.
pub open spec fn sp_attr_color(c: Integer) -> Option<Color> {
    match c.spec_as_u64() {
        Some(n) => Some(packed_color(n)),
        None => None,
    }
}

/// One attribute of a highlight map applied to `style`. Keys that are not valid strings,
/// unknown keys and values of the wrong kind leave it unchanged; the underline keys count
/// only when `true`.
pub open spec fn sp_style_step(style: Style, entry: (ValueView, ValueView)) -> Style {
    match entry.0 {
        ValueView::String(key) => {
            let name = match key {
                StrView::Valid(t) => t,
                StrView::Invalid(_) => Seq::empty(),
            };
            match entry.1 {
                ValueView::Integer(c) => if name == "foreground"@ {
                    Style { colors: Colors { foreground: sp_attr_color(c), ..style.colors }, ..style }
                } else if name == "background"@ {
                    Style { colors: Colors { background: sp_attr_color(c), ..style.colors }, ..style }
                } else if name == "special"@ {
                    Style { colors: Colors { special: sp_attr_color(c), ..style.colors }, ..style }
                } else if name == "blend"@ {
                    Style {
                        blend: (match c.spec_as_u64() {
                            Some(n) => n % 256,
                            None => 0,
                        }) as u8,
                        ..style
                    }
                } else {
                    style
                },
                ValueView::Boolean(b) => if name == "reverse"@ {
                    Style { reverse: b, ..style }
                } else if name == "italic"@ {
                    Style { italic: b, ..style }
                } else if name == "bold"@ {
                    Style { bold: b, ..style }
                } else if name == "strikethrough"@ {
                    Style { strikethrough: b, ..style }
                } else if !b {
                    style
                } else if name == "underline"@ {
                    Style { underline: Some(UnderlineStyle::Underline), ..style }
                } else if name == "undercurl"@ {
                    Style { underline: Some(UnderlineStyle::UnderCurl), ..style }
                } else if name == "underdotted"@ || name == "underdot"@ {
                    Style { underline: Some(UnderlineStyle::UnderDot), ..style }
                } else if name == "underdashed"@ || name == "underdash"@ {
                    Style { underline: Some(UnderlineStyle::UnderDash), ..style }
                } else if name == "underdouble"@ || name == "underlineline"@ {
                    Style { underline: Some(UnderlineStyle::UnderDouble), ..style }
                } else {
                    style
                },
                _ => style,
            }
        },
        _ => style,
    }
}

/// The style the attributes describe, applied left to right to a plain style.
pub open spec fn sp_style_fold(entries: Seq<(ValueView, ValueView)>) -> Style
    decreases entries.len(),
{
    if entries.len() == 0 {
        Style::plain(Colors { foreground: None, background: None, special: None })
    } else {
        sp_style_step(sp_style_fold(entries.drop_last()), entries.last())
    }
}

pub open spec fn sp_style(v: ValueView) -> Result<Style, ParseErrorView> {
    match sp_map(v) {
        Err(e) => Err(e),
        Ok(entries) => Ok(sp_style_fold(entries)),
    }
}

fn attr_color(c: Integer) -> (r: Option<Color>)
    ensures
        r == sp_attr_color(c),
{
    match c.as_u64() {
        Some(n) => Some(Color::from_packed(n)),
        None => None,
    }
}

fn style_step(style: Style, key: Value, value: Value) -> (s: Style)
    ensures
        s == sp_style_step(style, (key@, value@)),
{
    let name = match key {
        Value::String(Utf8Str::Valid(t)) => t,
        Value::String(Utf8Str::Invalid(_)) => String::new(),
        _ => return style,
    };
    let n = name.as_str();
    let mut s = style;
    match value {
        Value::Integer(c) => {
            if str_eq(n, "foreground") {
                s.colors.foreground = attr_color(c);
            } else if str_eq(n, "background") {
                s.colors.background = attr_color(c);
            } else if str_eq(n, "special") {
                s.colors.special = attr_color(c);
            } else if str_eq(n, "blend") {
                let level: u64 = match c.as_u64() {
                    Some(x) => x % 256,
                    None => 0,
                };
                s.blend = level as u8;
            }
        },
        Value::Boolean(b) => {
            if str_eq(n, "reverse") {
                s.reverse = b;
            } else if str_eq(n, "italic") {
                s.italic = b;
            } else if str_eq(n, "bold") {
                s.bold = b;
            } else if str_eq(n, "strikethrough") {
                s.strikethrough = b;
            } else if !b {
            } else if str_eq(n, "underline") {
                s.underline = Some(UnderlineStyle::Underline);
            } else if str_eq(n, "undercurl") {
                s.underline = Some(UnderlineStyle::UnderCurl);
            } else if str_eq(n, "underdotted") || str_eq(n, "underdot") {
                s.underline = Some(UnderlineStyle::UnderDot);
            } else if str_eq(n, "underdashed") || str_eq(n, "underdash") {
                s.underline = Some(UnderlineStyle::UnderDash);
            } else if str_eq(n, "underdouble") || str_eq(n, "underlineline") {
                s.underline = Some(UnderlineStyle::UnderDouble);
            }
        },
        _ => {},
    }
    s
}

/// The style of an `hl_attr_define` attribute map.
pub fn parse_style(style_map: Value) -> (r: Result<Style, ParseError>)
    ensures
        match r {
            Ok(s) => sp_style(style_map@) == Ok::<Style, ParseErrorView>(s),
            Err(e) => sp_style(style_map@) == Err::<Style, ParseErrorView>(e@),
        },
{
    let attributes = match parse_map(style_map) {
        Ok(m) => m,
        Err(e) => return Err(e),
    };
    let ghost ev = entries_view(attributes@);
    let mut style = Style::new(Colors::new(None, None, None));
    proof {
        assert(ev.take(0) =~= Seq::<(ValueView, ValueView)>::empty());
    }
    for entry in it: attributes
        invariant
            entries_view(it.seq()) == ev,
            sp_style_fold(ev.take(it.index() as int)) == style,
    {
        let ghost i = it.index() as int;
        proof {
            assert(ev[i] == (entry.0@, entry.1@));
            assert(ev.take(i + 1).drop_last() =~= ev.take(i));
        }
        let (key, value) = entry;
        style = style_step(style, key, value);
    }
    proof {
        assert(ev.take(ev.len() as int) =~= ev);
    }
    Ok(style)
}

/// Is this one of the keys that name a highlight group?
pub open spec fn is_name_key(k: Seq<char>) -> bool {
    k == "hi_name"@ || k == "ui_name"@ || k == "name"@ || k == "link"@
}

/// The group name an info entry gives, if its key is a name key and its value a string.
pub open spec fn sp_entry_name(e: (ValueView, ValueView)) -> Option<Seq<char>> {
    match sp_as_str(e.0) {
        Some(k) => if is_name_key(k) { sp_as_str(e.1) } else { None },
        None => None,
    }
}

/// The first name among the entries from `i` on.
pub open spec fn sp_name_from(es: Seq<(ValueView, ValueView)>, i: int) -> Option<Seq<char>>
    decreases es.len() - i,
{
    if i < 0 || i >= es.len() {
        None
    } else {
        match sp_entry_name(es[i]) {
            Some(n) => Some(n),
            None => sp_name_from(es, i + 1),
        }
    }
}

/// The first name among the maps of a list, from item `i` on.
pub open spec fn sp_names_from(vs: Seq<ValueView>, i: int) -> Option<Seq<char>>
    decreases vs.len() - i,
{
    if i < 0 || i >= vs.len() {
        None
    } else {
        match vs[i] {
            ValueView::Dict(es) => match sp_name_from(es, 0) {
                Some(n) => Some(n),
                None => sp_names_from(vs, i + 1),
            },
            _ => sp_names_from(vs, i + 1),
        }
    }
}

/// The first group name in the `info` of `hl_attr_define`: a map, or a list of maps.
pub open spec fn sp_hl_name(infos: ValueView) -> Option<Seq<char>> {
    match infos {
        ValueView::Dict(es) => sp_name_from(es, 0),
        ValueView::Array(vs) => sp_names_from(vs, 0),
        _ => None,
    }
}

fn first_name(es: &Vec<(Value, Value)>) -> (r: Option<String>)
    ensures
        opt_string_view(r) == sp_name_from(entries_view(es@), 0),
{
    let ghost ev = entries_view(es@);
    let mut i: usize = 0;
    while i < es.len()
        invariant
            i <= es@.len(),
            ev == entries_view(es@),
            sp_name_from(ev, 0) == sp_name_from(ev, i as int),
        decreases es@.len() - i,
    {
        proof {
            assert(ev[i as int] == (es@[i as int].0@, es@[i as int].1@));
        }
        let is_key = match &es[i].0 {
            Value::String(Utf8Str::Valid(k)) => {
                let kk = k.as_str();
                str_eq(kk, "hi_name") || str_eq(kk, "ui_name") || str_eq(kk, "name") || str_eq(kk, "link")
            },
            _ => false,
        };
        if is_key {
            match &es[i].1 {
                Value::String(Utf8Str::Valid(t)) => {
                    return Some(t.clone());
                },
                _ => {},
            }
        }
        i += 1;
    }
    None
}

/// The first group name among the maps of a list.
fn first_name_in(vs: &Vec<Value>) -> (r: Option<String>)
    ensures
        opt_string_view(r) == sp_names_from(values_view(vs@), 0),
{
    let ghost vv = values_view(vs@);
    let mut i: usize = 0;
    while i < vs.len()
        invariant
            i <= vs@.len(),
            vv == values_view(vs@),
            sp_names_from(vv, 0) == sp_names_from(vv, i as int),
        decreases vs@.len() - i,
    {
        proof {
            assert(vv[i as int] == vs@[i as int]@);
        }
        match &vs[i] {
            Value::Dict(es) => {
                let found = first_name(es);
                if found.is_some() {
                    return found;
                }
            },
            _ => {},
        }
        i += 1;
    }
    None
}

/// The first group name in an `hl_attr_define` info value.
pub fn parse_hl_name(infos: Value) -> (r: Option<String>)
    ensures
        opt_string_view(r) == sp_hl_name(infos@),
{
    match infos {
        Value::Dict(es) => first_name(&es),
        Value::Array(vs) => first_name_in(&vs),
        _ => None,
    }
}

pub open spec fn spec_parse_hl_attr_define(args: Seq<ValueView>) -> Result<RedrawEventView, ParseErrorView> {
    match sp_extract(args, 4) {
        Err(e) => Err(e),
        Ok(vs) => match sp_style(vs[1]) {
            Err(e) => Err(e),
            Ok(style) => match sp_u64(vs[0]) {
                Err(e) => Err(e),
                Ok(id) => Ok(RedrawEventView::HighlightAttributesDefine { id, style, name: sp_hl_name(vs[3]) }),
            },
        },
    }
}

pub fn parse_hl_attr_define(args: Vec<Value>) -> (r: Result<RedrawEvent, ParseError>)
    ensures
        event_result_view(r) == spec_parse_hl_attr_define(values_view(args@)),
{
    let mut vs = match extract_values(args, 4) {
        Ok(v) => v,
        Err(e) => return Err(e),
    };
    let ghost vv = values_view(vs@);
    let id_v = take_first(&mut vs);
    let attrs_v = take_first(&mut vs);
    let _terminal = take_first(&mut vs);
    let infos = take_first(&mut vs);
    proof {
        assert(id_v@ == vv[0]);
        assert(attrs_v@ == vv[1]);
        assert(infos@ == vv[3]);
    }
    let style = match parse_style(attrs_v) {
        Ok(s) => s,
        Err(e) => return Err(e),
    };
    let id = match parse_u64(id_v) {
        Ok(x) => x,
        Err(e) => return Err(e),
    };
    Ok(RedrawEvent::HighlightAttributesDefine { id, style, name: parse_hl_name(infos) })
}

// ---- list-valued fields ----

pub open spec fn sp_styled_lines(v: ValueView) -> Result<Seq<Seq<(u64, Seq<char>)>>, ParseErrorView> {
    match sp_array(v) {
        Err(e) => Err(e),
        Ok(items) => sp_all(items, styled_reader()),
    }
}

pub open spec fn sp_history_list(v: ValueView) -> Result<Seq<(MessageKind, Seq<(u64, Seq<char>)>)>, ParseErrorView> {
    match sp_array(v) {
        Err(e) => Err(e),
        Ok(items) => sp_all(items, history_reader()),
    }
}

pub open spec fn sp_menu_list(v: ValueView) -> Result<Seq<Seq<Seq<char>>>, ParseErrorView> {
    match sp_array(v) {
        Err(e) => Err(e),
        Ok(items) => sp_all(items, menu_item_reader()),
    }
}

pub open spec fn bool_or_false(b: Option<bool>) -> bool {
    match b {
        Some(x) => x,
        None => false,
    }
}

fn parse_styled_line_list(v: Value) -> (r: Result<Vec<StyledContent>, ParseError>)
    ensures
        match r {
            Ok(x) => sp_styled_lines(v@) == Ok::<Seq<Seq<(u64, Seq<char>)>>, ParseErrorView>(styled_lines_view(x@)),
            Err(e) => sp_styled_lines(v@) == Err::<Seq<Seq<(u64, Seq<char>)>>, ParseErrorView>(e@),
        },
{
    match parse_array(v) {
        Err(e) => Err(e),
        Ok(items) => parse_styled_lines(items),
    }
}

fn parse_history_list(v: Value) -> (r: Result<Vec<(MessageKind, StyledContent)>, ParseError>)
    ensures
        match r {
            Ok(x) => sp_history_list(v@) == Ok::<Seq<(MessageKind, Seq<(u64, Seq<char>)>)>, ParseErrorView>(history_view(x@)),
            Err(e) => sp_history_list(v@) == Err::<Seq<(MessageKind, Seq<(u64, Seq<char>)>)>, ParseErrorView>(e@),
        },
{
    match parse_array(v) {
        Err(e) => Err(e),
        Ok(items) => parse_history_entries(items),
    }
}

fn parse_menu_list(v: Value) -> (r: Result<Vec<Vec<String>>, ParseError>)
    ensures
        match r {
            Ok(x) => sp_menu_list(v@) == Ok::<Seq<Seq<Seq<char>>>, ParseErrorView>(items_view(x@)),
            Err(e) => sp_menu_list(v@) == Err::<Seq<Seq<Seq<char>>>, ParseErrorView>(e@),
        },
{
    match parse_array(v) {
        Err(e) => Err(e),
        Ok(items) => parse_menu_items(items),
    }
}

// ---- tabline_update ----

/// The buffer list of `tabline_update`: absent in older versions, empty then.
pub open spec fn sp_buffer_list(v: Option<ValueView>) -> Result<Seq<(ValueView, Seq<char>)>, ParseErrorView> {
    match v {
        None => Ok(Seq::empty()),
        Some(b) => match sp_array(b) {
            Err(e) => Err(e),
            Ok(items) => sp_all(items, buffer_reader()),
        },
    }
}

pub open spec fn spec_parse_tabline_update(args: Seq<ValueView>) -> Result<RedrawEventView, ParseErrorView> {
    match sp_extract(args, 2) {
        Err(e) => Err(e),
        Ok(vs) => {
            let os = sp_optional(args, 2, 2);
            match sp_array(vs[1]) {
                Err(e) => Err(e),
                Ok(items) => match sp_all(items, tab_reader()) {
                    Err(e) => Err(e),
                    Ok(tabs) => match sp_buffer_list(os[1]) {
                        Err(e) => Err(e),
                        Ok(buffers) => Ok(RedrawEventView::TablineUpdate {
                            current_tab: vs[0],
                            tabs,
                            current_buffer: match os[0] {
                                Some(c) => c,
                                None => ValueView::Nil,
                            },
                            buffers,
                        }),
                    },
                },
            }
        },
    }
}

pub fn parse_tabline_update(args: Vec<Value>) -> (r: Result<RedrawEvent, ParseError>)
    ensures
        event_result_view(r) == spec_parse_tabline_update(values_view(args@)),
{
    let (mut vs, mut os) = match extract_values_with_optional(args, 2, 2) {
        Ok(v) => v,
        Err(e) => return Err(e),
    };
    let ghost vv = values_view(vs@);
    let ghost ov = options_view(os@);
    let current_tab = take_first(&mut vs);
    let tabs_v = take_first(&mut vs);
    let current_buffer_v = take_first_opt(&mut os);
    let buffers_v = take_first_opt(&mut os);
    proof {
        assert(current_tab@ == vv[0]);
        assert(tabs_v@ == vv[1]);
        assert(opt_view(current_buffer_v) == ov[0]);
        assert(opt_view(buffers_v) == ov[1]);
    }
    let tab_items = match parse_array(tabs_v) {
        Ok(x) => x,
        Err(e) => return Err(e),
    };
    let tabs = match parse_tab_entries(tab_items) {
        Ok(x) => x,
        Err(e) => return Err(e),
    };
    let buffers = match buffers_v {
        None => Vec::new(),
        Some(b) => {
            let items = match parse_array(b) {
                Ok(x) => x,
                Err(e) => return Err(e),
            };
            match parse_buffer_entries(items) {
                Ok(x) => x,
                Err(e) => return Err(e),
            }
        },
    };
    proof {
        assert(buffers_view(Seq::<BufferEntry>::empty()) =~= Seq::<(ValueView, Seq<char>)>::empty());
    }
    let current_buffer = match current_buffer_v {
        Some(c) => c,
        None => Value::Nil,
    };
    Ok(RedrawEvent::TablineUpdate { current_tab, tabs, current_buffer, buffers })
}

pub open spec fn spec_parse_cmdline_show(args: Seq<ValueView>) -> Result<RedrawEventView, ParseErrorView> {
    match sp_extract(args, 6) {
        Err(e) => Err(e),
        Ok(vs) => {
        match sp_styled(vs[0]) {
            Err(e) => Err(e),
            Ok(content) => {
                match sp_u64(vs[1]) {
                    Err(e) => Err(e),
                    Ok(position) => {
                        match sp_string(vs[2]) {
                            Err(e) => Err(e),
                            Ok(first_character) => {
                                match sp_string(vs[3]) {
                                    Err(e) => Err(e),
                                    Ok(prompt) => {
                                        match sp_u64(vs[4]) {
                                            Err(e) => Err(e),
                                            Ok(indent) => {
                                                match sp_u64(vs[5]) {
                                                    Err(e) => Err(e),
                                                    Ok(level) => {
                                                        Ok(RedrawEventView::CommandLineShow { content: content, position: position, first_character: first_character, prompt: prompt, indent: indent, level: level })
                                                    },
                                                }
                                            },
                                        }
                                    },
                                }
                            },
                        }
                    },
                }
            },
        }
        },
    }
}

pub fn parse_cmdline_show(args: Vec<Value>) -> (r: Result<RedrawEvent, ParseError>)
    ensures
        event_result_view(r) == spec_parse_cmdline_show(values_view(args@)),
{
    let mut vs = match extract_values(args, 6) {
        Ok(v) => v,
        Err(e) => return Err(e),
    };
    let ghost vv = values_view(vs@);
    let v_0 = take_first(&mut vs);
    let v_1 = take_first(&mut vs);
    let v_2 = take_first(&mut vs);
    let v_3 = take_first(&mut vs);
    let v_4 = take_first(&mut vs);
    let v_5 = take_first(&mut vs);
    proof {
        assert(v_0@ == vv[0]);
        assert(v_1@ == vv[1]);
        assert(v_2@ == vv[2]);
        assert(v_3@ == vv[3]);
        assert(v_4@ == vv[4]);
        assert(v_5@ == vv[5]);
    }
    let content = match parse_styled_content(v_0) {
        Ok(x) => x,
        Err(e) => return Err(e),
    };
    let position = match parse_u64(v_1) {
        Ok(x) => x,
        Err(e) => return Err(e),
    };
    let first_character = match parse_string(v_2) {
        Ok(x) => x,
        Err(e) => return Err(e),
    };
    let prompt = match parse_string(v_3) {
        Ok(x) => x,
        Err(e) => return Err(e),
    };
    let indent = match parse_u64(v_4) {
        Ok(x) => x,
        Err(e) => return Err(e),
    };
    let level = match parse_u64(v_5) {
        Ok(x) => x,
        Err(e) => return Err(e),
    };
    Ok(RedrawEvent::CommandLineShow { content, position, first_character, prompt, indent, level })
}

pub open spec fn spec_parse_cmdline_block_show(args: Seq<ValueView>) -> Result<RedrawEventView, ParseErrorView> {
    match sp_extract(args, 1) {
        Err(e) => Err(e),
        Ok(vs) => {
        match sp_styled_lines(vs[0]) {
            Err(e) => Err(e),
            Ok(lines) => {
                Ok(RedrawEventView::CommandLineBlockShow { lines: lines })
            },
        }
        },
    }
}

pub fn parse_cmdline_block_show(args: Vec<Value>) -> (r: Result<RedrawEvent, ParseError>)
    ensures
        event_result_view(r) == spec_parse_cmdline_block_show(values_view(args@)),
{
    let mut vs = match extract_values(args, 1) {
        Ok(v) => v,
        Err(e) => return Err(e),
    };
    let ghost vv = values_view(vs@);
    let v_0 = take_first(&mut vs);
    proof {
        assert(v_0@ == vv[0]);
    }
    let lines = match parse_styled_line_list(v_0) {
        Ok(x) => x,
        Err(e) => return Err(e),
    };
    Ok(RedrawEvent::CommandLineBlockShow { lines })
}

pub open spec fn spec_parse_cmdline_block_append(args: Seq<ValueView>) -> Result<RedrawEventView, ParseErrorView> {
    match sp_extract(args, 1) {
        Err(e) => Err(e),
        Ok(vs) => {
        match sp_styled(vs[0]) {
            Err(e) => Err(e),
            Ok(line) => {
                Ok(RedrawEventView::CommandLineBlockAppend { line: line })
            },
        }
        },
    }
}

pub fn parse_cmdline_block_append(args: Vec<Value>) -> (r: Result<RedrawEvent, ParseError>)
    ensures
        event_result_view(r) == spec_parse_cmdline_block_append(values_view(args@)),
{
    let mut vs = match extract_values(args, 1) {
        Ok(v) => v,
        Err(e) => return Err(e),
    };
    let ghost vv = values_view(vs@);
    let v_0 = take_first(&mut vs);
    proof {
        assert(v_0@ == vv[0]);
    }
    let line = match parse_styled_content(v_0) {
        Ok(x) => x,
        Err(e) => return Err(e),
    };
    Ok(RedrawEvent::CommandLineBlockAppend { line })
}

pub open spec fn spec_parse_msg_show(args: Seq<ValueView>) -> Result<RedrawEventView, ParseErrorView> {
    match sp_extract(args, 3) {
        Err(e) => Err(e),
        Ok(vs) => {
        let os = sp_optional(args, 3, 4);
        match sp_string(vs[0]) {
            Err(e) => Err(e),
            Ok(kind_raw) => {
                match sp_styled(vs[1]) {
                    Err(e) => Err(e),
                    Ok(content) => {
                        match sp_bool(vs[2]) {
                            Err(e) => Err(e),
                            Ok(replace_last) => {
                                match sp_opt_bool(os[1]) {
                                    Err(e) => Err(e),
                                    Ok(append_raw) => {
                                        Ok(RedrawEventView::MessageShow { kind: spec_message_kind(kind_raw), content: content, replace_last: replace_last, append: bool_or_false(append_raw) })
                                    },
                                }
                            },
                        }
                    },
                }
            },
        }
        },
    }
}

pub fn parse_msg_show(args: Vec<Value>) -> (r: Result<RedrawEvent, ParseError>)
    ensures
        event_result_view(r) == spec_parse_msg_show(values_view(args@)),
{
    let (mut vs, mut os) = match extract_values_with_optional(args, 3, 4) {
        Ok(v) => v,
        Err(e) => return Err(e),
    };
    let ghost vv = values_view(vs@);
    let ghost ov = options_view(os@);
    let v_0 = take_first(&mut vs);
    let v_1 = take_first(&mut vs);
    let v_2 = take_first(&mut vs);
    let o_0 = take_first_opt(&mut os);
    let o_1 = take_first_opt(&mut os);
    let o_2 = take_first_opt(&mut os);
    let o_3 = take_first_opt(&mut os);
    proof {
        assert(v_0@ == vv[0]);
        assert(v_1@ == vv[1]);
        assert(v_2@ == vv[2]);
        assert(opt_view(o_0) == ov[0]);
        assert(opt_view(o_1) == ov[1]);
        assert(opt_view(o_2) == ov[2]);
        assert(opt_view(o_3) == ov[3]);
    }
    let kind_raw = match parse_string(v_0) {
        Ok(x) => x,
        Err(e) => return Err(e),
    };
    let kind = MessageKind::parse(kind_raw.as_str());
    let content = match parse_styled_content(v_1) {
        Ok(x) => x,
        Err(e) => return Err(e),
    };
    let replace_last = match parse_bool(v_2) {
        Ok(x) => x,
        Err(e) => return Err(e),
    };
    let append_raw = match parse_opt_bool(o_1) {
        Ok(x) => x,
        Err(e) => return Err(e),
    };
    let append = match append_raw { Some(b) => b, None => false };
    Ok(RedrawEvent::MessageShow { kind, content, replace_last, append })
}

pub open spec fn spec_parse_msg_showmode(args: Seq<ValueView>) -> Result<RedrawEventView, ParseErrorView> {
    match sp_extract(args, 1) {
        Err(e) => Err(e),
        Ok(vs) => {
        match sp_styled(vs[0]) {
            Err(e) => Err(e),
            Ok(content) => {
                Ok(RedrawEventView::MessageShowMode { content: content })
            },
        }
        },
    }
}

pub fn parse_msg_showmode(args: Vec<Value>) -> (r: Result<RedrawEvent, ParseError>)
    ensures
        event_result_view(r) == spec_parse_msg_showmode(values_view(args@)),
{
    let mut vs = match extract_values(args, 1) {
        Ok(v) => v,
        Err(e) => return Err(e),
    };
    let ghost vv = values_view(vs@);
    let v_0 = take_first(&mut vs);
    proof {
        assert(v_0@ == vv[0]);
    }
    let content = match parse_styled_content(v_0) {
        Ok(x) => x,
        Err(e) => return Err(e),
    };
    Ok(RedrawEvent::MessageShowMode { content })
}

pub open spec fn spec_parse_msg_showcmd(args: Seq<ValueView>) -> Result<RedrawEventView, ParseErrorView> {
    match sp_extract(args, 1) {
        Err(e) => Err(e),
        Ok(vs) => {
        match sp_styled(vs[0]) {
            Err(e) => Err(e),
            Ok(content) => {
                Ok(RedrawEventView::MessageShowCommand { content: content })
            },
        }
        },
    }
}

pub fn parse_msg_showcmd(args: Vec<Value>) -> (r: Result<RedrawEvent, ParseError>)
    ensures
        event_result_view(r) == spec_parse_msg_showcmd(values_view(args@)),
{
    let mut vs = match extract_values(args, 1) {
        Ok(v) => v,
        Err(e) => return Err(e),
    };
    let ghost vv = values_view(vs@);
    let v_0 = take_first(&mut vs);
    proof {
        assert(v_0@ == vv[0]);
    }
    let content = match parse_styled_content(v_0) {
        Ok(x) => x,
        Err(e) => return Err(e),
    };
    Ok(RedrawEvent::MessageShowCommand { content })
}

pub open spec fn spec_parse_msg_ruler(args: Seq<ValueView>) -> Result<RedrawEventView, ParseErrorView> {
    match sp_extract(args, 1) {
        Err(e) => Err(e),
        Ok(vs) => {
        match sp_styled(vs[0]) {
            Err(e) => Err(e),
            Ok(content) => {
                Ok(RedrawEventView::MessageRuler { content: content })
            },
        }
        },
    }
}

pub fn parse_msg_ruler(args: Vec<Value>) -> (r: Result<RedrawEvent, ParseError>)
    ensures
        event_result_view(r) == spec_parse_msg_ruler(values_view(args@)),
{
    let mut vs = match extract_values(args, 1) {
        Ok(v) => v,
        Err(e) => return Err(e),
    };
    let ghost vv = values_view(vs@);
    let v_0 = take_first(&mut vs);
    proof {
        assert(v_0@ == vv[0]);
    }
    let content = match parse_styled_content(v_0) {
        Ok(x) => x,
        Err(e) => return Err(e),
    };
    Ok(RedrawEvent::MessageRuler { content })
}

pub open spec fn spec_parse_msg_history_show(args: Seq<ValueView>) -> Result<RedrawEventView, ParseErrorView> {
    match sp_extract(args, 1) {
        Err(e) => Err(e),
        Ok(vs) => {
        match sp_history_list(vs[0]) {
            Err(e) => Err(e),
            Ok(entries) => {
                Ok(RedrawEventView::MessageHistoryShow { entries: entries })
            },
        }
        },
    }
}

pub fn parse_msg_history_show(args: Vec<Value>) -> (r: Result<RedrawEvent, ParseError>)
    ensures
        event_result_view(r) == spec_parse_msg_history_show(values_view(args@)),
{
    let mut vs = match extract_values(args, 1) {
        Ok(v) => v,
        Err(e) => return Err(e),
    };
    let ghost vv = values_view(vs@);
    let v_0 = take_first(&mut vs);
    proof {
        assert(v_0@ == vv[0]);
    }
    let entries = match parse_history_list(v_0) {
        Ok(x) => x,
        Err(e) => return Err(e),
    };
    Ok(RedrawEvent::MessageHistoryShow { entries })
}

pub open spec fn spec_parse_popupmenu_show(args: Seq<ValueView>) -> Result<RedrawEventView, ParseErrorView> {
    match sp_extract(args, 5) {
        Err(e) => Err(e),
        Ok(vs) => {
        match sp_menu_list(vs[0]) {
            Err(e) => Err(e),
            Ok(items) => {
                match sp_i64(vs[1]) {
                    Err(e) => Err(e),
                    Ok(selected) => {
                        match sp_u64(vs[2]) {
                            Err(e) => Err(e),
                            Ok(row) => {
                                match sp_u64(vs[3]) {
                                    Err(e) => Err(e),
                                    Ok(col) => {
                                        match sp_u64(vs[4]) {
                                            Err(e) => Err(e),
                                            Ok(grid) => {
                                                Ok(RedrawEventView::PopupmenuShow { items: items, selected: selected, row: row, col: col, grid: grid })
                                            },
                                        }
                                    },
                                }
                            },
                        }
                    },
                }
            },
        }
        },
    }
}

pub fn parse_popupmenu_show(args: Vec<Value>) -> (r: Result<RedrawEvent, ParseError>)
    ensures
        event_result_view(r) == spec_parse_popupmenu_show(values_view(args@)),
{
    let mut vs = match extract_values(args, 5) {
        Ok(v) => v,
        Err(e) => return Err(e),
    };
    let ghost vv = values_view(vs@);
    let v_0 = take_first(&mut vs);
    let v_1 = take_first(&mut vs);
    let v_2 = take_first(&mut vs);
    let v_3 = take_first(&mut vs);
    let v_4 = take_first(&mut vs);
    proof {
        assert(v_0@ == vv[0]);
        assert(v_1@ == vv[1]);
        assert(v_2@ == vv[2]);
        assert(v_3@ == vv[3]);
        assert(v_4@ == vv[4]);
    }
    let items = match parse_menu_list(v_0) {
        Ok(x) => x,
        Err(e) => return Err(e),
    };
    let selected = match parse_i64(v_1) {
        Ok(x) => x,
        Err(e) => return Err(e),
    };
    let row = match parse_u64(v_2) {
        Ok(x) => x,
        Err(e) => return Err(e),
    };
    let col = match parse_u64(v_3) {
        Ok(x) => x,
        Err(e) => return Err(e),
    };
    let grid = match parse_u64(v_4) {
        Ok(x) => x,
        Err(e) => return Err(e),
    };
    Ok(RedrawEvent::PopupmenuShow { items, selected, row, col, grid })
}

/// What the parser makes of one argument list of the event `name`: `None` for events the
/// shell does not know.
pub open spec fn spec_event(name: Seq<char>, params: Seq<ValueView>) -> Option<Result<RedrawEventView, ParseErrorView>> {
    if name == "set_title"@ {
        Some(spec_parse_set_title(params))
    } else if name == "restart"@ {
        Some(spec_parse_restart(params))
    } else if name == "mode_info_set"@ {
        Some(spec_parse_mode_info_set(params))
    } else if name == "option_set"@ {
        Some(spec_parse_option_set(params))
    } else if name == "mode_change"@ {
        Some(spec_parse_mode_change(params))
    } else if name == "mouse_on"@ {
        Some(Ok(RedrawEventView::MouseOn))
    } else if name == "mouse_off"@ {
        Some(Ok(RedrawEventView::MouseOff))
    } else if name == "busy_start"@ {
        Some(Ok(RedrawEventView::BusyStart))
    } else if name == "busy_stop"@ {
        Some(Ok(RedrawEventView::BusyStop))
    } else if name == "flush"@ {
        Some(Ok(RedrawEventView::Flush))
    } else if name == "grid_resize"@ {
        Some(spec_parse_grid_resize(params))
    } else if name == "default_colors_set"@ {
        Some(spec_parse_default_colors(params))
    } else if name == "hl_attr_define"@ {
        Some(spec_parse_hl_attr_define(params))
    } else if name == "hl_group_set"@ {
        Some(spec_parse_hl_group_set(params))
    } else if name == "grid_line"@ {
        Some(spec_parse_grid_line(params))
    } else if name == "grid_clear"@ {
        Some(spec_parse_grid_clear(params))
    } else if name == "grid_destroy"@ {
        Some(spec_parse_grid_destroy(params))
    } else if name == "grid_cursor_goto"@ {
        Some(spec_parse_grid_cursor_goto(params))
    } else if name == "grid_scroll"@ {
        Some(spec_parse_grid_scroll(params))
    } else if name == "win_pos"@ {
        Some(spec_parse_win_pos(params))
    } else if name == "win_float_pos"@ {
        Some(spec_parse_win_float_pos(params))
    } else if name == "win_external_pos"@ {
        Some(spec_parse_win_external_pos(params))
    } else if name == "win_hide"@ {
        Some(spec_parse_win_hide(params))
    } else if name == "win_close"@ {
        Some(spec_parse_win_close(params))
    } else if name == "msg_set_pos"@ {
        Some(spec_parse_msg_set_pos(params))
    } else if name == "win_viewport"@ {
        Some(spec_parse_win_viewport(params))
    } else if name == "win_viewport_margins"@ {
        Some(spec_parse_win_viewport_margins(params))
    } else if name == "tabline_update"@ {
        Some(spec_parse_tabline_update(params))
    } else if name == "cmdline_show"@ {
        Some(spec_parse_cmdline_show(params))
    } else if name == "cmdline_pos"@ {
        Some(spec_parse_cmdline_pos(params))
    } else if name == "cmdline_special_char"@ {
        Some(spec_parse_cmdline_special_char(params))
    } else if name == "cmdline_hide"@ {
        Some(Ok(RedrawEventView::CommandLineHide))
    } else if name == "cmdline_block_show"@ {
        Some(spec_parse_cmdline_block_show(params))
    } else if name == "cmdline_block_append"@ {
        Some(spec_parse_cmdline_block_append(params))
    } else if name == "cmdline_block_hide"@ {
        Some(Ok(RedrawEventView::CommandLineBlockHide))
    } else if name == "msg_show"@ {
        Some(spec_parse_msg_show(params))
    } else if name == "msg_clear"@ {
        Some(Ok(RedrawEventView::MessageClear))
    } else if name == "msg_showmode"@ {
        Some(spec_parse_msg_showmode(params))
    } else if name == "msg_showcmd"@ {
        Some(spec_parse_msg_showcmd(params))
    } else if name == "msg_ruler"@ {
        Some(spec_parse_msg_ruler(params))
    } else if name == "msg_history_show"@ {
        Some(spec_parse_msg_history_show(params))
    } else if name == "popupmenu_show"@ {
        Some(spec_parse_popupmenu_show(params))
    } else if name == "popupmenu_select"@ {
        Some(spec_parse_popupmenu_select(params))
    } else if name == "popupmenu_hide"@ {
        Some(Ok(RedrawEventView::PopupmenuHide))
    } else if name == "suspend"@ {
        Some(Ok(RedrawEventView::Suspend))
    } else {
        None
    }
}

pub open spec fn option_event_view(r: Option<Result<RedrawEvent, ParseError>>) -> Option<Result<RedrawEventView, ParseErrorView>> {
    match r {
        Some(x) => Some(event_result_view(x)),
        None => None,
    }
}

/// One argument list of the event `name`, parsed.
fn parse_event(name: &str, params: Vec<Value>) -> (r: Option<Result<RedrawEvent, ParseError>>)
    ensures
        option_event_view(r) == spec_event(name@, values_view(params@)),
{
    if str_eq(name, "set_title") {
        Some(parse_set_title(params))
    } else if str_eq(name, "restart") {
        Some(parse_restart(params))
    } else if str_eq(name, "mode_info_set") {
        Some(parse_mode_info_set(params))
    } else if str_eq(name, "option_set") {
        Some(parse_option_set(params))
    } else if str_eq(name, "mode_change") {
        Some(parse_mode_change(params))
    } else if str_eq(name, "mouse_on") {
        Some(Ok(RedrawEvent::MouseOn))
    } else if str_eq(name, "mouse_off") {
        Some(Ok(RedrawEvent::MouseOff))
    } else if str_eq(name, "busy_start") {
        Some(Ok(RedrawEvent::BusyStart))
    } else if str_eq(name, "busy_stop") {
        Some(Ok(RedrawEvent::BusyStop))
    } else if str_eq(name, "flush") {
        Some(Ok(RedrawEvent::Flush))
    } else if str_eq(name, "grid_resize") {
        Some(parse_grid_resize(params))
    } else if str_eq(name, "default_colors_set") {
        Some(parse_default_colors(params))
    } else if str_eq(name, "hl_attr_define") {
        Some(parse_hl_attr_define(params))
    } else if str_eq(name, "hl_group_set") {
        Some(parse_hl_group_set(params))
    } else if str_eq(name, "grid_line") {
        Some(parse_grid_line(params))
    } else if str_eq(name, "grid_clear") {
        Some(parse_grid_clear(params))
    } else if str_eq(name, "grid_destroy") {
        Some(parse_grid_destroy(params))
    } else if str_eq(name, "grid_cursor_goto") {
        Some(parse_grid_cursor_goto(params))
    } else if str_eq(name, "grid_scroll") {
        Some(parse_grid_scroll(params))
    } else if str_eq(name, "win_pos") {
        Some(parse_win_pos(params))
    } else if str_eq(name, "win_float_pos") {
        Some(parse_win_float_pos(params))
    } else if str_eq(name, "win_external_pos") {
        Some(parse_win_external_pos(params))
    } else if str_eq(name, "win_hide") {
        Some(parse_win_hide(params))
    } else if str_eq(name, "win_close") {
        Some(parse_win_close(params))
    } else if str_eq(name, "msg_set_pos") {
        Some(parse_msg_set_pos(params))
    } else if str_eq(name, "win_viewport") {
        Some(parse_win_viewport(params))
    } else if str_eq(name, "win_viewport_margins") {
        Some(parse_win_viewport_margins(params))
    } else if str_eq(name, "tabline_update") {
        Some(parse_tabline_update(params))
    } else if str_eq(name, "cmdline_show") {
        Some(parse_cmdline_show(params))
    } else if str_eq(name, "cmdline_pos") {
        Some(parse_cmdline_pos(params))
    } else if str_eq(name, "cmdline_special_char") {
        Some(parse_cmdline_special_char(params))
    } else if str_eq(name, "cmdline_hide") {
        Some(Ok(RedrawEvent::CommandLineHide))
    } else if str_eq(name, "cmdline_block_show") {
        Some(parse_cmdline_block_show(params))
    } else if str_eq(name, "cmdline_block_append") {
        Some(parse_cmdline_block_append(params))
    } else if str_eq(name, "cmdline_block_hide") {
        Some(Ok(RedrawEvent::CommandLineBlockHide))
    } else if str_eq(name, "msg_show") {
        Some(parse_msg_show(params))
    } else if str_eq(name, "msg_clear") {
        Some(Ok(RedrawEvent::MessageClear))
    } else if str_eq(name, "msg_showmode") {
        Some(parse_msg_showmode(params))
    } else if str_eq(name, "msg_showcmd") {
        Some(parse_msg_showcmd(params))
    } else if str_eq(name, "msg_ruler") {
        Some(parse_msg_ruler(params))
    } else if str_eq(name, "msg_history_show") {
        Some(parse_msg_history_show(params))
    } else if str_eq(name, "popupmenu_show") {
        Some(parse_popupmenu_show(params))
    } else if str_eq(name, "popupmenu_select") {
        Some(parse_popupmenu_select(params))
    } else if str_eq(name, "popupmenu_hide") {
        Some(Ok(RedrawEvent::PopupmenuHide))
    } else if str_eq(name, "suspend") {
        Some(Ok(RedrawEvent::Suspend))
    } else {
        None
    }
}

pub open spec fn events_view(v: Seq<RedrawEvent>) -> Seq<RedrawEventView> {
    Seq::new(v.len(), |i: int| v[i]@)
}

/// One argument list of a batch: it must be an array; known events are appended, unknown ones
/// skipped, and a failing one fails the batch with its name, arguments and error.
pub open spec fn sp_batch_step(name: Seq<char>, acc: Seq<RedrawEventView>, v: ValueView) -> Result<Seq<RedrawEventView>, ParseErrorView> {
    match sp_array(v) {
        Err(e) => Err(e),
        Ok(params) => match spec_event(name, params) {
            None => Ok(acc),
            Some(Ok(ev)) => Ok(acc.push(ev)),
            Some(Err(err)) => Err(ParseErrorView::Event { name, params, error: Box::new(err) }),
        },
    }
}

pub open spec fn sp_batch(name: Seq<char>, items: Seq<ValueView>) -> Result<Seq<RedrawEventView>, ParseErrorView>
    decreases items.len(),
{
    if items.len() == 0 {
        Ok(Seq::empty())
    } else {
        match sp_batch(name, items.drop_last()) {
            Err(e) => Err(e),
            Ok(acc) => sp_batch_step(name, acc, items.last()),
        }
    }
}

/// A `["name", [args...], [args...], ...]` batch of the `redraw` notification.
pub open spec fn spec_parse_redraw_event(v: ValueView) -> Result<Seq<RedrawEventView>, ParseErrorView> {
    match sp_array(v) {
        Err(e) => Err(e),
        Ok(items) => if items.len() == 0 {
            Err(ParseErrorView::EmptyEvent)
        } else {
            match sp_string(items[0]) {
                Err(e) => Err(e),
                Ok(name) => sp_batch(name, items.drop_first()),
            }
        },
    }
}

proof fn lemma_batch_step(name: Seq<char>, items: Seq<ValueView>, i: int)
    requires
        0 <= i < items.len(),
    ensures
        sp_batch(name, items.take(i + 1)) == match sp_batch(name, items.take(i)) {
            Err(e) => Err(e),
            Ok(acc) => sp_batch_step(name, acc, items[i]),
        },
{
    assert(items.take(i + 1).drop_last() =~= items.take(i));
}

proof fn lemma_batch_err(name: Seq<char>, items: Seq<ValueView>, i: int)
    requires
        0 <= i <= items.len(),
        sp_batch(name, items.take(i)) is Err,
    ensures
        sp_batch(name, items) == sp_batch(name, items.take(i)),
    decreases items.len() - i,
{
    if i == items.len() {
        assert(items.take(i) =~= items);
    } else {
        lemma_batch_step(name, items, i);
        lemma_batch_err(name, items, i + 1);
    }
}

/// Parse one `["event_name", [args...], [args...], ...]` entry of a `redraw` notification
/// into zero or more events. Unknown events are skipped, not errors.
pub fn parse_redraw_event(event_value: Value) -> (r: Result<Vec<RedrawEvent>, ParseError>)
    ensures
        match r {
            Ok(v) => spec_parse_redraw_event(event_value@) == Ok::<Seq<RedrawEventView>, ParseErrorView>(events_view(v@)),
            Err(e) => spec_parse_redraw_event(event_value@) == Err::<Seq<RedrawEventView>, ParseErrorView>(e@),
        },
{
    let mut contents = match parse_array(event_value) {
        Ok(c) => c,
        Err(e) => return Err(e),
    };
    if contents.len() == 0 {
        return Err(ParseError::Format(FormatError::EmptyEvent));
    }
    let ghost all = values_view(contents@);
    let name_v = take_first(&mut contents);
    let event_name = match parse_string(name_v) {
        Ok(s) => s,
        Err(e) => return Err(e),
    };
    let ghost iv = values_view(contents@);
    let ghost name = event_name@;
    let mut parsed: Vec<RedrawEvent> = Vec::new();
    proof {
        assert(iv.take(0) =~= Seq::<ValueView>::empty());
        assert(events_view(parsed@) =~= Seq::<RedrawEventView>::empty());
    }
    for event in it: contents
        invariant
            values_view(it.seq()) == iv,
            name == event_name@,
            spec_parse_redraw_event(event_value@) == sp_batch(name, iv),
            sp_batch(name, iv.take(it.index() as int)) == Ok::<Seq<RedrawEventView>, ParseErrorView>(events_view(parsed@)),
    {
        let ghost i = it.index() as int;
        proof {
            assert(event@ == iv[i]);
            lemma_batch_step(name, iv, i);
        }
        let params = match parse_array(event) {
            Ok(p) => p,
            Err(e) => {
                proof {
                    lemma_batch_err(name, iv, i + 1);
                }
                return Err(e);
            },
        };
        let params_copy = clone_values(&params);
        match parse_event(event_name.as_str(), params) {
            Some(Ok(ev)) => {
                let ghost before = parsed@;
                parsed.push(ev);
                proof {
                    assert(events_view(parsed@) =~= events_view(before).push(ev@));
                }
            },
            Some(Err(err)) => {
                let e = ParseError::Format(FormatError::Event {
                    name: event_name.clone(),
                    params: params_copy,
                    error: Box::new(err),
                });
                proof {
                    lemma_batch_err(name, iv, i + 1);
                }
                return Err(e);
            },
            None => {},
        }
    }
    proof {
        assert(iv.take(iv.len() as int) =~= iv);
    }
    Ok(parsed)
}


/// Does the shell know the event `name`? (Whether it does depends on the name alone.)
pub open spec fn known_event(name: Seq<char>) -> bool {
    spec_event(name, Seq::empty()) is Some
}

/// A batch of an event the shell does not know parses to no events, whatever its argument
/// lists hold, as long as each of them is an array.
pub proof fn law_unknown_events_are_skipped(name: Seq<char>, items: Seq<ValueView>)
    requires
        !known_event(name),
        forall|i: int| 0 <= i < items.len() ==> #[trigger] sp_array(items[i]) is Ok,
    ensures
        sp_batch(name, items) == Ok::<Seq<RedrawEventView>, ParseErrorView>(Seq::empty()),
    decreases items.len(),
{
    if items.len() > 0 {
        let d = items.drop_last();
        assert forall|i: int| 0 <= i < d.len() implies #[trigger] sp_array(d[i]) is Ok by {
            assert(d[i] == items[i]);
        }
        law_unknown_events_are_skipped(name, d);
        assert(sp_array(items[items.len() - 1]) is Ok);
        if let Ok(params) = sp_array(items.last()) {
            assert(spec_event(name, params) is None);
        }
    }
}

/// `grid_cursor_goto` takes the grid, then the row, then the column (Neovim's ui protocol):
/// for any non-negative row and column, the event moves the cursor to that row and column;
/// values after the third are ignored.
pub proof fn law_cursor_goto_row_then_column(grid: u64, row: u64, column: u64, rest: Seq<ValueView>)
    requires
        row <= i64::MAX,
        column <= i64::MAX,
    ensures
        spec_parse_grid_cursor_goto(
            seq![
                ValueView::Integer(Integer::PosInt(grid)),
                ValueView::Integer(Integer::PosInt(row)),
                ValueView::Integer(Integer::PosInt(column)),
            ] + rest,
        ) == Ok::<RedrawEventView, ParseErrorView>(RedrawEventView::CursorGoto { grid, row, column }),
{
    let args = seq![
        ValueView::Integer(Integer::PosInt(grid)),
        ValueView::Integer(Integer::PosInt(row)),
        ValueView::Integer(Integer::PosInt(column)),
    ] + rest;
    assert(args.take(3)[0] == ValueView::Integer(Integer::PosInt(grid)));
    assert(args.take(3)[1] == ValueView::Integer(Integer::PosInt(row)));
    assert(args.take(3)[2] == ValueView::Integer(Integer::PosInt(column)));
}

/// A `grid_cursor_goto` batch of one call becomes one cursor move to the row and column given,
/// in that order.
pub proof fn law_cursor_goto_batch(grid: u64, row: u64, column: u64)
    requires
        row <= i64::MAX,
        column <= i64::MAX,
    ensures
        spec_parse_redraw_event(
            ValueView::Array(
                seq![
                    ValueView::String(StrView::Valid("grid_cursor_goto"@)),
                    ValueView::Array(
                        seq![
                            ValueView::Integer(Integer::PosInt(grid)),
                            ValueView::Integer(Integer::PosInt(row)),
                            ValueView::Integer(Integer::PosInt(column)),
                        ],
                    ),
                ],
            ),
        ) == Ok::<Seq<RedrawEventView>, ParseErrorView>(seq![RedrawEventView::CursorGoto { grid, row, column }]),
{
    let name = "grid_cursor_goto"@;
    reveal_strlit("grid_cursor_goto");
    reveal_strlit("set_title");
    reveal_strlit("restart");
    reveal_strlit("mode_info_set");
    reveal_strlit("option_set");
    reveal_strlit("mode_change");
    reveal_strlit("mouse_on");
    reveal_strlit("mouse_off");
    reveal_strlit("busy_start");
    reveal_strlit("busy_stop");
    reveal_strlit("flush");
    reveal_strlit("grid_resize");
    reveal_strlit("default_colors_set");
    reveal_strlit("hl_attr_define");
    reveal_strlit("hl_group_set");
    reveal_strlit("grid_line");
    reveal_strlit("grid_clear");
    reveal_strlit("grid_destroy");
    let args = seq![
        ValueView::Integer(Integer::PosInt(grid)),
        ValueView::Integer(Integer::PosInt(row)),
        ValueView::Integer(Integer::PosInt(column)),
    ];
    law_cursor_goto_row_then_column(grid, row, column, Seq::empty());
    assert(args + Seq::<ValueView>::empty() =~= args);
    assert(name != "set_title"@) by {
        assert(name.len() != "set_title"@.len());
    }
    assert(name != "restart"@) by {
        assert(name.len() != "restart"@.len());
    }
    assert(name != "mode_info_set"@) by {
        assert(name.len() != "mode_info_set"@.len());
    }
    assert(name != "option_set"@) by {
        assert(name.len() != "option_set"@.len());
    }
    assert(name != "mode_change"@) by {
        assert(name.len() != "mode_change"@.len());
    }
    assert(name != "mouse_on"@) by {
        assert(name.len() != "mouse_on"@.len());
    }
    assert(name != "mouse_off"@) by {
        assert(name.len() != "mouse_off"@.len());
    }
    assert(name != "busy_start"@) by {
        assert(name.len() != "busy_start"@.len());
    }
    assert(name != "busy_stop"@) by {
        assert(name.len() != "busy_stop"@.len());
    }
    assert(name != "flush"@) by {
        assert(name.len() != "flush"@.len());
    }
    assert(name != "grid_resize"@) by {
        assert(name.len() != "grid_resize"@.len());
    }
    assert(name != "default_colors_set"@) by {
        assert(name.len() != "default_colors_set"@.len());
    }
    assert(name != "hl_attr_define"@) by {
        assert(name.len() != "hl_attr_define"@.len());
    }
    assert(name != "hl_group_set"@) by {
        assert(name.len() != "hl_group_set"@.len());
    }
    assert(name != "grid_line"@) by {
        assert(name.len() != "grid_line"@.len());
    }
    assert(name != "grid_clear"@) by {
        assert(name.len() != "grid_clear"@.len());
    }
    assert(name != "grid_destroy"@) by {
        assert(name.len() != "grid_destroy"@.len());
    }
    assert(spec_event(name, args) == Some(spec_parse_grid_cursor_goto(args)));
    let items = seq![ValueView::String(StrView::Valid(name)), ValueView::Array(args)];
    assert(items.drop_first() =~= seq![ValueView::Array(args)]);
    assert(seq![ValueView::Array(args)].drop_last() =~= Seq::<ValueView>::empty());
    let ev = RedrawEventView::CursorGoto { grid, row, column };
    assert(Seq::<RedrawEventView>::empty().push(ev) =~= seq![ev]);
    let one = seq![ValueView::Array(args)];
    assert(sp_batch(name, Seq::<ValueView>::empty()) == Ok::<Seq<RedrawEventView>, ParseErrorView>(Seq::empty()));
    assert(one.last() == ValueView::Array(args));
    assert(sp_batch_step(name, Seq::empty(), ValueView::Array(args)) == Ok::<Seq<RedrawEventView>, ParseErrorView>(seq![ev]));
    assert(sp_batch(name, one) == Ok::<Seq<RedrawEventView>, ParseErrorView>(seq![ev]));
    assert(sp_string(items[0]) == Ok::<Seq<char>, ParseErrorView>(name));
}

/// A negative row or column in `grid_cursor_goto` puts the cursor at row or column 0; the row
/// still comes from the second value and the column from the third.
pub proof fn law_cursor_goto_clamps_negative(grid: u64, row: i64, column: i64)
    ensures
        spec_parse_grid_cursor_goto(
            seq![
                ValueView::Integer(Integer::PosInt(grid)),
                ValueView::Integer(Integer::NegInt(row)),
                ValueView::Integer(Integer::NegInt(column)),
            ],
        ) == Ok::<RedrawEventView, ParseErrorView>(RedrawEventView::CursorGoto {
            grid,
            row: if row < 0 { 0 } else { row as u64 },
            column: if column < 0 { 0 } else { column as u64 },
        }),
{
    let args = seq![
        ValueView::Integer(Integer::PosInt(grid)),
        ValueView::Integer(Integer::NegInt(row)),
        ValueView::Integer(Integer::NegInt(column)),
    ];
    assert(args.take(3) =~= args);
}

} // verus!
