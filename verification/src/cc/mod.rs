//! Conventional commit messages: header, body and footers.
pub mod body;
pub mod footer;
pub mod header;
pub mod message;
