//! Clipboard history library: entries, paths, previews and clipboard payloads.
pub mod command;
pub mod error;
pub mod history;
pub mod listing;
pub mod paste;
pub mod pathname;
pub mod platform;
pub mod text;
