//! Piccolo: the colour logic of a small colour picker.
//!
//! The modules hold what the picker decides and computes on plain values:
//! hex colour codes, the list of colour formats, the history of saved colours,
//! the window actions and their shortcuts, and the decisions that the colour
//! wheel and the window make on user input.
#![allow(unused_imports)]

pub mod actions;
pub mod color_format;
pub mod config;
pub mod rgb;
pub mod history;
pub mod text;
pub mod wheel;
pub mod window;
