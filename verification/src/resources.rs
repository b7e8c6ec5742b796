//! Sample commit messages for measurements: their names and texts.
use vstd::prelude::*;

use crate::text::{chars_of, copy_range, find_char, find_char_from, lemma_find_char_from_bounds, string_of};

verus! {

/// A sample commit message and its name.
#[derive(Debug, Clone, PartialEq)]
pub struct TestCase {
    pub name: String,
    pub message: String,
}

/// The name of a sample from its file name: the text before the first `.`.
pub fn case_name(file_name: &str) -> (r: String)
    ensures
        r@ == file_name@.take(find_char_from(file_name@, '.', 0)),
{
    let v = chars_of(file_name);
    let end = find_char(&v, '.', 0);
    proof {
        lemma_find_char_from_bounds(v@, '.', 0);
    }
    let name = copy_range(&v, 0, end);
    assert(name@ =~= v@.take(end as int));
    string_of(&name)
}

} // verus!
