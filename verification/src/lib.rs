//! Terminal-emulation and display logic of the lukan terminal UI.

pub mod banner;
pub mod cell;
pub mod chat;
pub mod commands;
pub mod daemon;
pub mod editing_laws;
pub mod event_agent;
pub mod format;
pub mod grid;
pub mod history;
pub mod input;
pub mod keys;
pub mod layout;
pub mod laws;
pub mod model;
pub mod models;
pub mod overlays;
pub mod parse;
pub mod picker;
pub mod prompt;
pub mod routing;
pub mod plan;
pub mod question;
pub mod screen;
pub mod session;
pub mod scroll;
pub mod submit;
pub mod system_prompt;
pub mod summary;
pub mod terminal;
pub mod text;
pub mod tool_groups;
pub mod transcript;
pub mod time;
pub mod utf8;
pub mod widgets;
pub mod width;
