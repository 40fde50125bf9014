//! The state and the rules of a desktop editor for large delimited files.

pub mod actions;
pub mod browsing;
pub mod bytes;
pub mod change_laws;
pub mod changes;
pub mod clipboard;
pub mod columns;
pub mod commands;
pub mod dialogs;
pub mod document;
pub mod edit_laws;
pub mod editor_laws;
pub mod edits;
pub mod filter;
pub mod find_laws;
pub mod format;
pub mod grid;
pub mod history;
pub mod jobs;
pub mod literal;
pub mod menus;
pub mod message;
pub mod model;
pub mod names;
pub mod parse;
pub mod refusal_laws;
pub mod rows;
pub mod saving;
pub mod search;
pub mod selection_laws;
pub mod session_laws;
pub mod sets;
pub mod space;
pub mod structural;
pub mod table;
pub mod text;
pub mod view_laws;
pub mod viewport;
pub mod word_laws;
pub mod workspace;
