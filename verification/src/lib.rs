//! tico: a nano-compatible text editor's core logic.

pub mod buffer;
pub mod cli;
pub mod config;
pub mod editor;
pub mod fileio;
pub mod help;
pub mod history;
pub mod justify;
pub mod keymap;
pub mod lockfile;
pub mod options;
pub mod syntax;
pub mod pattern;
pub mod session;
pub mod text;
pub mod theme;
