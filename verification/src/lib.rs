//! Verified core of a local-first work-report manager: the rules that decide
//! what is stored, how stored settings are read back, how report searches are
//! phrased, and how the desktop shell reacts to window and tray events.
//! Storage itself (SQLite) and the desktop shell run outside this crate; they
//! execute the statements and follow the decisions computed here.

pub mod text;
pub mod models;
pub mod json;
pub mod records;
pub mod search;
pub mod actions;
pub mod preferences;
pub mod seed;
pub mod menus;
pub mod window;
pub mod schema;
