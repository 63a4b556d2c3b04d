//! Workbench state as the bridge Lua module sends it.

use vstd::prelude::*;

verus! {

#[derive(Clone, Debug)]
pub struct BufferInfo {
    pub bufnr: i64,
    pub path: String,
    pub name: String,
    pub modified: bool,
    pub filetype: String,
    pub buftype: String,
    pub current: bool,
}

#[derive(Clone, Copy, Debug, PartialEq, Eq, Structural)]
pub struct CursorPos {
    pub line: i64,
    pub col: i64,
}

#[derive(Clone, Copy, Debug, PartialEq, Eq, Structural)]
pub struct DiagnosticCounts {
    pub error: i64,
    pub warn: i64,
    pub info: i64,
    pub hint: i64,
}

#[derive(Clone, Debug)]
pub struct AiState {
    pub enabled: bool,
    pub model: String,
}

#[derive(Clone, Debug)]
pub struct NvimState {
    pub mode: String,
    pub cwd: String,
    pub buffers: Vec<BufferInfo>,
    pub current: i64,
    pub cursor: CursorPos,
    pub branch: String,
    pub diagnostics: DiagnosticCounts,
    pub buffer_diagnostics: DiagnosticCounts,
    pub lsp: Vec<String>,
    pub stage: u32,
    pub coach: String,
    /// The welcome screen was shown once (true after the first stage pick).
    pub welcomed: bool,
    pub ai: AiState,
}

#[derive(Clone, Debug)]
pub struct Diagnostic {
    pub bufnr: i64,
    pub path: String,
    pub file: String,
    pub lnum: i64,
    pub col: i64,
    pub severity: String,
    pub message: String,
    pub source: String,
}

/// The learning stage when the bridge names none.
pub fn default_stage() -> (s: u32)
    ensures
        s == 2,
{
    2
}

/// Whether the welcome screen was shown, when the bridge does not say.
pub fn welcomed_default() -> (b: bool)
    ensures
        b,
{
    true
}

impl NvimState {
    /// The state before the bridge has sent any: stage 2, welcomed, everything else empty.
    pub fn new() -> (s: NvimState)
        ensures
            s.mode@ == Seq::<char>::empty(),
            s.cwd@ == Seq::<char>::empty(),
            s.buffers@.len() == 0,
            s.stage == 2,
            s.welcomed,
            !s.ai.enabled,
    {
        NvimState {
            mode: String::new(),
            cwd: String::new(),
            buffers: Vec::new(),
            current: 0,
            cursor: CursorPos { line: 0, col: 0 },
            branch: String::new(),
            diagnostics: DiagnosticCounts { error: 0, warn: 0, info: 0, hint: 0 },
            buffer_diagnostics: DiagnosticCounts { error: 0, warn: 0, info: 0, hint: 0 },
            lsp: Vec::new(),
            stage: default_stage(),
            coach: String::new(),
            welcomed: welcomed_default(),
            ai: AiState { enabled: false, model: String::new() },
        }
    }
}

} // verus!
