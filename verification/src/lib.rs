//! Parsing, filtering and colouring of log lines in several formats
//! (Symfony, custom SSH, syslog, HTTP request traces).

pub mod outside;
pub mod text;
pub mod entry;
pub mod parser;
pub mod colorize;
pub mod shown;

pub use colorize::{colorize_line, ColorMode, Style};
pub use entry::LogEntry;
