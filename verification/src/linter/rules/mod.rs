//! The lint rules, by group.
use vstd::prelude::*;

use crate::linter::case::{KeyCase, TextCase};
use crate::text::chars_of;

pub mod body;
pub mod footer;
pub mod header;

verus! {

/// Settings of all rules.
#[derive(Debug, PartialEq)]
pub struct Settings {
    pub body: body::Settings,
    pub header: header::Settings,
    pub footer: footer::Settings,
}

impl Default for Settings {
    fn default() -> (s: Settings)
        ensures
            s.body.max_line_length == 0,
            s.body.max_length == 0,
            s.body.min_length == 0,
            s.body.case == TextCase::Any,
            s.header.type_case == KeyCase::Any,
            s.header.type_max_length == 0,
            s.header.type_min_length == 0,
            s.header.type_enum@.len() == 0,
            s.header.scope_case == KeyCase::Any,
            s.header.scope_max_length == 0,
            s.header.scope_min_length == 0,
            s.header.scope_enum@.len() == 0,
            s.header.description_case == TextCase::Any,
            s.header.description_max_length == 0,
            s.header.description_min_length == 0,
            s.header.max_length == 0,
            s.header.min_length == 0,
            s.footer.max_line_length == 0,
            s.footer.max_length == 0,
            s.footer.min_length == 0,
            s.footer.key_case == KeyCase::Any,
            s.footer.required@.len() == 0,
    {
        Settings {
            body: body::Settings::default(),
            header: header::Settings::default(),
            footer: footer::Settings::default(),
        }
    }
}

/// `value` has more than `length` characters.
pub fn longer_than_chars(value: &str, length: usize) -> (r: bool)
    ensures
        r == (value@.len() > length),
{
    let v = chars_of(value);
    v.len() > length
}

/// `length` is not 0 and `value` has fewer than `length` characters.
pub fn shorter_than_chars(value: &str, length: usize) -> (r: bool)
    ensures
        r == (length > 0 && value@.len() < length),
{
    let v = chars_of(value);
    length > 0 && v.len() < length
}

} // verus!
