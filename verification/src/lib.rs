//! Verified core of a lightweight Markdown editor: byte-size formatting,
//! file-load decisions, workspace file discovery, Markdown preview blocks
//! and the editor's view state.

pub mod text;
pub mod format;
pub mod paths;
pub mod preview;
pub mod workspace;
pub mod file_loader;
pub mod app_state;
pub mod icons;
