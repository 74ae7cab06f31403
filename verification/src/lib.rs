//! Verified core of a terminal GitHub-issues picker: the application state
//! machine, `gh` argument building and output parsing, repository-spec
//! parsing, key mapping, and the text handling that backs them.

pub mod checks;
pub mod cli;
pub mod clock;
pub mod config;
pub mod copy;
pub mod diagnostics;
pub mod editor;
pub mod gh;
pub mod keys;
pub mod loading;
pub mod model;
pub mod search;
pub mod session;
pub mod text;
pub mod view;
