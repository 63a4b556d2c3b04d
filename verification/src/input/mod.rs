//! Input: key events turned into what `nvim_input` takes, and mouse events into what
//! `nvim_input_mouse` takes.

pub mod keyboard;
pub mod mouse;
