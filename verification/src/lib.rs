//! Decision logic of a terminal chat client.

pub mod text;
pub mod wrappers;
pub mod encoding;
pub mod ids;
pub mod json;
pub mod lines;
pub mod paths;
pub mod session_meta;
pub mod history;
pub mod app;
pub mod status_line;
