//! Application-launcher backend: discovers desktop-entry files, parses the
//! `[Desktop Entry]` section, filters entries by visibility rules, sanitizes
//! launch commands, resolves icons, and persists the resulting application
//! list through a flat-file cache codec.

pub mod cache;
pub mod chars;
pub mod entry;
pub mod filter;
pub mod icon;
pub mod parser;
pub mod sanitize;
pub mod scan;
