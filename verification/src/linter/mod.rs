//! Lint rules over parsed commit messages.
pub mod case;
pub mod rule;
pub mod rule_set;
pub mod violation;
pub mod report;
pub mod rules;
pub mod check;
pub mod attribution;
