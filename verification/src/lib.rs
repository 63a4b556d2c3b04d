//! nvs.ide shell library: the verified model behind the native window around `nvim --embed`.
//!
//! - `bridge`: Neovim's msgpack values, the redraw-event parser and the commands that go back.
//! - `editor`: the grid/window model that turns redraw events into frame snapshots.
//! - `input`: key events turned into what `nvim_input` takes.
//! - `ui`: the widgets' state (lists, text fields) and what keys do to it.
//! - `workbench`: the chrome's state, the palette, the file tree, the task output parsers.
//! - `renderer`: the cursor blink and the pixel icons.
//! - `font`: the 'guifont' option split into families and sizes.
//! - `text`: character-level string helpers.

pub mod editor;
pub mod text;
pub mod bridge;
pub mod ui;
pub mod workbench;
pub mod renderer;
pub mod font;
pub mod input;
