//! Conventional commit parsing, linting and formatting.
pub mod cc;
pub mod format;
pub mod git;
pub mod linter;
pub mod pattern;
pub mod resources;
pub mod text;
pub mod tpl;
pub mod workspace;
