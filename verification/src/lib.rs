//! The verified core of a terminal interface over many git repositories: the text buffer its
//! fields edit through, its keybinding table, the plans behind what it draws, and the decisions
//! behind what it runs.

pub mod text;
pub mod edit_buffer;
pub mod chord;
pub mod action;
pub mod default_map;
pub mod keys;
pub mod rebinding;
pub mod degrade;
pub mod paint;
pub mod footer;
pub mod elapsed;
pub mod header;
pub mod list_viewport;
pub mod scroll;
pub mod notice;
pub mod message;
pub mod glyphs;
pub mod help;
pub mod environment;
pub mod launcher;
pub mod launcher_palette;
pub mod filter_line;
pub mod management;
pub mod management_run;
pub mod config_report;
