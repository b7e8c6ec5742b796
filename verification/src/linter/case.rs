//! Letter cases of identifiers (types, scopes, footer keys) and of texts.
use vstd::prelude::*;

use crate::text::{chars_of, find_char, find_char_from, lemma_find_char_from_bounds, str_eq};

verus! {

/// What `char::is_lowercase` returns for a character (the Unicode `Lowercase` property).
pub uninterp spec fn is_lower(c: char) -> bool;

/// What `char::is_uppercase` returns for a character (the Unicode `Uppercase` property).
pub uninterp spec fn is_upper(c: char) -> bool;

/// What `char::is_alphanumeric` returns for a character (`Alphabetic` or `Numeric`).
pub uninterp spec fn is_alnum(c: char) -> bool;

/// `char::is_lowercase`. Its result is named `is_lower`; for an ASCII character it is
/// exactly `a`..=`z`, as the documentation of the Unicode property shows.
#[verifier::external_body]
fn char_is_lowercase(c: char) -> (r: bool)
    ensures
        r == is_lower(c),
        c <= '\u{7f}' ==> (r <==> ('a' <= c && c <= 'z')),
{
    c.is_lowercase()
}

/// `char::is_uppercase`. Its result is named `is_upper`; for an ASCII character it is
/// exactly `A`..=`Z`.
#[verifier::external_body]
fn char_is_uppercase(c: char) -> (r: bool)
    ensures
        r == is_upper(c),
        c <= '\u{7f}' ==> (r <==> ('A' <= c && c <= 'Z')),
{
    c.is_uppercase()
}

/// `char::is_alphanumeric`. Its result is named `is_alnum`; for an ASCII character it is
/// exactly the letters and the digits.
#[verifier::external_body]
fn char_is_alphanumeric(c: char) -> (r: bool)
    ensures
        r == is_alnum(c),
        c <= '\u{7f}' ==> (r <==> (('a' <= c && c <= 'z') || ('A' <= c && c <= 'Z') || ('0' <= c
            && c <= '9'))),
{
    c.is_alphanumeric()
}

/// Letter case of an identifier.
#[derive(Debug, Copy, Clone, PartialEq, Eq, Structural)]
pub enum KeyCase {
    Any,
    Camel,
    Kebab,
    Pascal,
    CapitalizedKebab,
    Lower,
    Upper,
}

/// Letter case of the first character of a text.
#[derive(Debug, Copy, Clone, PartialEq, Eq, Structural)]
pub enum TextCase {
    Any,
    LowerFirst,
    UpperFirst,
}

impl Default for KeyCase {
    fn default() -> (r: Self)
        ensures
            r == KeyCase::Any,
    {
        KeyCase::Any
    }
}

impl Default for TextCase {
    fn default() -> (r: Self)
        ensures
            r == TextCase::Any,
    {
        TextCase::Any
    }
}

/// Whether `c` is lowercase: `a`..=`z` for an ASCII character, the Unicode property
/// (`is_lower`) beyond.
pub open spec fn lower_char(c: char) -> bool {
    if c <= '\u{7f}' {
        'a' <= c && c <= 'z'
    } else {
        is_lower(c)
    }
}

/// Whether `c` is uppercase: `A`..=`Z` for an ASCII character, the Unicode property
/// (`is_upper`) beyond.
pub open spec fn upper_char(c: char) -> bool {
    if c <= '\u{7f}' {
        'A' <= c && c <= 'Z'
    } else {
        is_upper(c)
    }
}

/// Whether `c` is alphanumeric: an ASCII letter or digit, the Unicode property
/// (`is_alnum`) beyond.
pub open spec fn alnum_char(c: char) -> bool {
    if c <= '\u{7f}' {
        ('a' <= c && c <= 'z') || ('A' <= c && c <= 'Z') || ('0' <= c && c <= '9')
    } else {
        is_alnum(c)
    }
}

/// Which class a run is made of.
pub open spec fn in_class(class: int, c: char) -> bool {
    if class == 0 {
        lower_char(c)
    } else if class == 1 {
        upper_char(c)
    } else {
        alnum_char(c)
    }
}

/// End of the run of characters of `class` that starts at `i`.
pub open spec fn run_end(s: Seq<char>, class: int, i: int) -> int
    decreases s.len() - i,
{
    if i >= s.len() {
        s.len() as int
    } else if in_class(class, s[i]) {
        run_end(s, class, i + 1)
    } else {
        i
    }
}

/// Every character from `i` on is of `class`.
pub open spec fn all_from(s: Seq<char>, class: int, i: int) -> bool {
    forall|k: int| i <= k < s.len() ==> in_class(class, #[trigger] s[k])
}

/// A run of `first` characters, then a non-empty rest of `rest` characters
/// (the first run taken as long as it goes).
pub open spec fn run_then_rest(s: Seq<char>, first: int, rest: int) -> bool {
    let i = run_end(s, first, 0);
    i >= 1 && i < s.len() && all_from(s, rest, i)
}

/// `fooBar`: lowercase letters, then alphanumerics.
pub open spec fn is_camel(s: Seq<char>) -> bool {
    run_then_rest(s, 0, 2)
}

/// `FooBar`: uppercase letters, then alphanumerics.
pub open spec fn is_pascal(s: Seq<char>) -> bool {
    run_then_rest(s, 1, 2)
}

/// A kebab segment: one or more lowercase letters.
pub open spec fn is_lower_segment(t: Seq<char>) -> bool {
    t.len() >= 1 && all_from(t, 0, 0)
}

/// A capitalized kebab segment: uppercase letters, then lowercase letters.
pub open spec fn is_cap_segment(t: Seq<char>) -> bool {
    run_then_rest(t, 1, 0)
}

/// Segments separated by `-`, each of which satisfies `capitalized` ? `is_cap_segment`
/// : `is_lower_segment`.
pub open spec fn is_dashed(s: Seq<char>, capitalized: bool) -> bool
    decreases s.len(),
{
    let c = find_char_from(s, '-', 0);
    let seg = s.take(c);
    &&& (if capitalized {
        is_cap_segment(seg)
    } else {
        is_lower_segment(seg)
    })
    &&& (c >= s.len() || {
        proof {
            lemma_find_char_from_bounds(s, '-', 0);
        }
        is_dashed(s.skip(c + 1), capitalized)
    })
}

/// Whether `word` is written in `case`.
pub open spec fn key_case_matches(case: KeyCase, word: Seq<char>) -> bool {
    match case {
        KeyCase::Any => true,
        KeyCase::Camel => is_camel(word),
        KeyCase::Kebab => is_dashed(word, false),
        KeyCase::Pascal => is_pascal(word),
        KeyCase::CapitalizedKebab => is_dashed(word, true),
        KeyCase::Lower => all_from(word, 0, 0),
        KeyCase::Upper => all_from(word, 1, 0),
    }
}

/// Whether `text` is written in `case`.
pub open spec fn text_case_matches(case: TextCase, text: Seq<char>) -> bool {
    match case {
        TextCase::Any => true,
        TextCase::LowerFirst => text.len() > 0 && lower_char(text[0]),
        TextCase::UpperFirst => text.len() > 0 && upper_char(text[0]),
    }
}

pub open spec fn key_case_name(case: KeyCase) -> Seq<char> {
    match case {
        KeyCase::Any => "any"@,
        KeyCase::Camel => "camel"@,
        KeyCase::Kebab => "kebab"@,
        KeyCase::Pascal => "pascal"@,
        KeyCase::CapitalizedKebab => "capitalized-kebab"@,
        KeyCase::Lower => "lower"@,
        KeyCase::Upper => "upper"@,
    }
}

pub open spec fn text_case_name(case: TextCase) -> Seq<char> {
    match case {
        TextCase::Any => "any"@,
        TextCase::LowerFirst => "lower-first"@,
        TextCase::UpperFirst => "upper-first"@,
    }
}

fn in_class_exec(class: u8, c: char) -> (r: bool)
    requires
        class <= 2,
    ensures
        r == in_class(class as int, c),
{
    if class == 0 {
        char_is_lowercase(c)
    } else if class == 1 {
        char_is_uppercase(c)
    } else {
        char_is_alphanumeric(c)
    }
}

fn run_end_exec(v: &Vec<char>, class: u8, i: usize) -> (r: usize)
    requires
        class <= 2,
        i <= v.len(),
    ensures
        r == run_end(v@, class as int, i as int),
        i <= r <= v.len(),
{
    let mut k = i;
    while k < v.len() && in_class_exec(class, v[k])
        invariant
            class <= 2,
            i <= k <= v.len(),
            run_end(v@, class as int, i as int) == run_end(v@, class as int, k as int),
        decreases v.len() - k,
    {
        k = k + 1;
    }
    proof {
        lemma_run_end_bounds(v@, class as int, k as int);
    }
    k
}

pub proof fn lemma_run_end_bounds(s: Seq<char>, class: int, i: int)
    requires
        0 <= i <= s.len(),
    ensures
        i <= run_end(s, class, i) <= s.len(),
    decreases s.len() - i,
{
    if i < s.len() && in_class(class, s[i]) {
        lemma_run_end_bounds(s, class, i + 1);
    }
}

fn all_from_exec(v: &Vec<char>, class: u8, i: usize) -> (r: bool)
    requires
        class <= 2,
    ensures
        r == all_from(v@, class as int, i as int),
{
    let mut k = i;
    while k < v.len()
        invariant
            class <= 2,
            i <= k || k >= v.len(),
            forall|j: int| i <= j < k ==> in_class(class as int, #[trigger] v@[j]),
        decreases v.len() - k,
    {
        if !in_class_exec(class, v[k]) {
            return false;
        }
        k = k + 1;
    }
    true
}

fn run_then_rest_exec(v: &Vec<char>, first: u8, rest: u8) -> (r: bool)
    requires
        first <= 2,
        rest <= 2,
    ensures
        r == run_then_rest(v@, first as int, rest as int),
{
    let i = run_end_exec(v, first, 0);
    i >= 1 && i < v.len() && all_from_exec(v, rest, i)
}

fn is_dashed_exec(v: &Vec<char>, capitalized: bool) -> (r: bool)
    ensures
        r == is_dashed(v@, capitalized),
{
    let n = v.len();
    let mut start: usize = 0;
    assert(v@.skip(0) =~= v@);
    loop
        invariant
            n == v.len(),
            start <= n,
            is_dashed(v@, capitalized) == is_dashed(v@.skip(start as int), capitalized),
        decreases n - start,
    {
        let ghost t = v@.skip(start as int);
        let c = find_char(v, '-', start);
        proof {
            lemma_find_char_from_bounds(v@, '-', start as int);
            crate::cc::header::lemma_find_shift(v@, '-', start as int);
        }
        let seg = crate::text::copy_range(v, start, c);
        assert(seg@ =~= t.take(c - start));
        let ok = if capitalized {
            run_then_rest_exec(&seg, 1, 0)
        } else {
            seg.len() >= 1 && all_from_exec(&seg, 0, 0)
        };
        if !ok {
            return false;
        }
        if c >= n {
            return true;
        }
        assert(t.skip(c - start + 1) =~= v@.skip(c + 1));
        start = c + 1;
    }
}

impl KeyCase {
    /// Whether `word` is written in this case.
    pub fn is_match(&self, word: &str) -> (r: bool)
        ensures
            r == key_case_matches(*self, word@),
    {
        let v = chars_of(word);
        match self {
            KeyCase::Any => true,
            KeyCase::Camel => run_then_rest_exec(&v, 0, 2),
            KeyCase::Kebab => is_dashed_exec(&v, false),
            KeyCase::Pascal => run_then_rest_exec(&v, 1, 2),
            KeyCase::CapitalizedKebab => is_dashed_exec(&v, true),
            KeyCase::Lower => all_from_exec(&v, 0, 0),
            KeyCase::Upper => all_from_exec(&v, 1, 0),
        }
    }

    /// The case named `name`, if any.
    pub fn from_name(name: &str) -> (r: Option<KeyCase>)
        ensures
            match r {
                Some(c) => key_case_name(c) == name@,
                None => forall|c: KeyCase| key_case_name(c) != name@,
            },
    {
        if str_eq(name, "any") {
            Some(KeyCase::Any)
        } else if str_eq(name, "camel") {
            Some(KeyCase::Camel)
        } else if str_eq(name, "kebab") {
            Some(KeyCase::Kebab)
        } else if str_eq(name, "pascal") {
            Some(KeyCase::Pascal)
        } else if str_eq(name, "capitalized-kebab") {
            Some(KeyCase::CapitalizedKebab)
        } else if str_eq(name, "lower") {
            Some(KeyCase::Lower)
        } else if str_eq(name, "upper") {
            Some(KeyCase::Upper)
        } else {
            proof {
                assert forall|c: KeyCase| key_case_name(c) != name@ by {
                    match c {
                        KeyCase::Any => {},
                        KeyCase::Camel => {},
                        KeyCase::Kebab => {},
                        KeyCase::Pascal => {},
                        KeyCase::CapitalizedKebab => {},
                        KeyCase::Lower => {},
                        KeyCase::Upper => {},
                    }
                }
            }
            None
        }
    }

    /// The name of the case.
    pub fn name(&self) -> (r: &'static str)
        ensures
            r@ == key_case_name(*self),
    {
        match self {
            KeyCase::Any => "any",
            KeyCase::Camel => "camel",
            KeyCase::Kebab => "kebab",
            KeyCase::Pascal => "pascal",
            KeyCase::CapitalizedKebab => "capitalized-kebab",
            KeyCase::Lower => "lower",
            KeyCase::Upper => "upper",
        }
    }

    /// The name of the case (what `Display` writes).
    pub fn to_string(&self) -> (r: String)
        ensures
            r@ == key_case_name(*self),
    {
        String::from_str(self.name())
    }
}

impl TextCase {
    /// Whether `text` is written in this case.
    pub fn is_match(&self, text: &str) -> (r: bool)
        ensures
            r == text_case_matches(*self, text@),
    {
        let v = chars_of(text);
        match self {
            TextCase::Any => true,
            TextCase::LowerFirst => v.len() > 0 && char_is_lowercase(v[0]),
            TextCase::UpperFirst => v.len() > 0 && char_is_uppercase(v[0]),
        }
    }

    /// The case named `name`, if any.
    pub fn from_name(name: &str) -> (r: Option<TextCase>)
        ensures
            match r {
                Some(c) => text_case_name(c) == name@,
                None => forall|c: TextCase| text_case_name(c) != name@,
            },
    {
        if str_eq(name, "any") {
            Some(TextCase::Any)
        } else if str_eq(name, "lower-first") {
            Some(TextCase::LowerFirst)
        } else if str_eq(name, "upper-first") {
            Some(TextCase::UpperFirst)
        } else {
            proof {
                assert forall|c: TextCase| text_case_name(c) != name@ by {
                    match c {
                        TextCase::Any => {},
                        TextCase::LowerFirst => {},
                        TextCase::UpperFirst => {},
                    }
                }
            }
            None
        }
    }

    /// The name of the case.
    pub fn name(&self) -> (r: &'static str)
        ensures
            r@ == text_case_name(*self),
    {
        match self {
            TextCase::Any => "any",
            TextCase::LowerFirst => "lower-first",
            TextCase::UpperFirst => "upper-first",
        }
    }

    /// The name of the case (what `Display` writes).
    pub fn to_string(&self) -> (r: String)
        ensures
            r@ == text_case_name(*self),
    {
        String::from_str(self.name())
    }
}

/// The characters before the end of a run are of its class; the one at the
/// end, if any, is not.
proof fn lemma_run_end_props(s: Seq<char>, class: int, i: int)
    requires
        0 <= i <= s.len(),
    ensures
        forall|k: int| i <= k < run_end(s, class, i) ==> in_class(class, #[trigger] s[k]),
        run_end(s, class, i) < s.len() ==> !in_class(class, s[run_end(s, class, i)]),
    decreases s.len() - i,
{
    if i < s.len() && in_class(class, s[i]) {
        lemma_run_end_props(s, class, i + 1);
    }
}

/// A capitalized segment is made of letters, and after a lowercase letter
/// (one that is not also uppercase) comes only a lowercase letter.
proof fn lemma_cap_segment_shape(t: Seq<char>)
    requires
        is_cap_segment(t),
    ensures
        forall|k: int| 0 <= k < t.len() ==> upper_char(#[trigger] t[k]) || lower_char(t[k]),
        forall|k: int|
            0 <= k < t.len() - 1 && lower_char(#[trigger] t[k]) && !upper_char(t[k]) ==> lower_char(t[k + 1]),
        t.len() > 0 && upper_char(t[0]),
        t.len() > 0 && lower_char(t[t.len() - 1]),
{
    lemma_run_end_props(t, 1, 0);
    let i = run_end(t, 1, 0);
    assert(upper_char(t[0]));
    assert(in_class(0, t[t.len() - 1]));
}

/// Whether `w` is written in capitalized kebab case as its letters show it:
/// it is made of letters and dashes, it starts with an uppercase letter and
/// ends with a lowercase one, a dash stands between two letters (a lowercase
/// one before, an uppercase one after), and after a lowercase letter (one that
/// is not also uppercase) comes a lowercase letter or a dash, never an
/// uppercase one.
pub open spec fn capitalized_kebab_shape(w: Seq<char>) -> bool {
    &&& w.len() > 0
    &&& upper_char(w[0])
    &&& lower_char(w[w.len() - 1])
    &&& forall|k: int| 0 <= k < w.len() ==> #[trigger] w[k] == '-' || upper_char(w[k]) || lower_char(w[k])
    &&& forall|k: int|
        0 <= k < w.len() && #[trigger] w[k] == '-' ==> 0 < k < w.len() - 1 && lower_char(w[k - 1])
            && upper_char(w[k + 1])
    &&& forall|k: int|
        0 <= k < w.len() - 1 && lower_char(#[trigger] w[k]) && !upper_char(w[k]) ==> (lower_char(w[k + 1])
            || w[k + 1] == '-')
}

proof fn lemma_dashed_shape(w: Seq<char>)
    requires
        is_dashed(w, true),
    ensures
        capitalized_kebab_shape(w),
    decreases w.len(),
{
    lemma_find_char_from_bounds(w, '-', 0);
    let c = find_char_from(w, '-', 0);
    let seg = w.take(c);
    lemma_cap_segment_shape(seg);
    assert(forall|k: int| 0 <= k < c ==> seg[k] == w[k]);
    if c >= w.len() {
        assert(seg =~= w);
    } else {
        let rest = w.skip(c + 1);
        lemma_dashed_shape(rest);
        assert(forall|k: int| 0 <= k < rest.len() ==> rest[k] == w[c + 1 + k]);
        assert(w[c] == '-');
        assert(!lower_char('-') && !upper_char('-'));
        assert(lower_char(w[c - 1])) by {
            assert(seg[c - 1] == w[c - 1]);
        }
        assert(upper_char(w[c + 1])) by {
            assert(rest[0] == w[c + 1]);
        }
        assert(w[w.len() - 1] == rest[rest.len() - 1]);
        assert forall|k: int| 0 <= k < w.len() implies #[trigger] w[k] == '-' || upper_char(w[k]) || lower_char(
            w[k],
        ) by {
            if k < c {
                assert(seg[k] == w[k]);
            } else if k > c {
                assert(rest[k - c - 1] == w[k]);
            }
        }
        assert forall|k: int| 0 <= k < w.len() && #[trigger] w[k] == '-' implies 0 < k < w.len() - 1
            && lower_char(w[k - 1]) && upper_char(w[k + 1]) by {
            if k < c {
                assert(w[k] != '-');
            } else if k > c {
                assert(rest[k - c - 1] == w[k]);
                assert(rest[k - c - 1] == '-');
                if k - c - 1 > 0 {
                    assert(rest[k - c - 2] == w[k - 1]);
                } else {
                    assert(rest[0] == w[k]);
                }
                assert(rest[k - c] == w[k + 1]);
            }
        }
        assert forall|k: int|
            0 <= k < w.len() - 1 && lower_char(#[trigger] w[k]) && !upper_char(w[k]) implies (lower_char(
            w[k + 1],
        ) || w[k + 1] == '-') by {
            if k < c - 1 {
                assert(seg[k] == w[k]);
                assert(seg[k + 1] == w[k + 1]);
            } else if k > c {
                assert(rest[k - c - 1] == w[k]);
                assert(rest[k - c] == w[k + 1]);
            }
        }
    }
}

/// A word in capitalized kebab case is made of letters and dashes, starts
/// with an uppercase letter and ends with a lowercase one, has a dash only
/// between a lowercase letter and an uppercase one, and never has an
/// uppercase letter right after a lowercase one: `FooBar` and `Foo1` are not
/// in this case.
pub proof fn law_capitalized_kebab_shape(w: Seq<char>)
    requires
        key_case_matches(KeyCase::CapitalizedKebab, w),
    ensures
        capitalized_kebab_shape(w),
{
    lemma_dashed_shape(w);
}

/// Whether `w` is written in kebab case as its letters show it: lowercase
/// letters and dashes, starting and ending with a letter, a dash never next to
/// another.
pub open spec fn kebab_shape(w: Seq<char>) -> bool {
    &&& w.len() > 0
    &&& forall|k: int| 0 <= k < w.len() ==> #[trigger] w[k] == '-' || lower_char(w[k])
    &&& forall|k: int|
        0 <= k < w.len() && #[trigger] w[k] == '-' ==> 0 < k < w.len() - 1 && lower_char(w[k - 1])
            && lower_char(w[k + 1])
}

proof fn lemma_dashed_lower_shape(w: Seq<char>)
    requires
        is_dashed(w, false),
    ensures
        kebab_shape(w),
    decreases w.len(),
{
    lemma_find_char_from_bounds(w, '-', 0);
    let c = find_char_from(w, '-', 0);
    let seg = w.take(c);
    assert(forall|k: int| 0 <= k < c ==> seg[k] == w[k]);
    assert(!lower_char('-'));
    assert(lower_char(seg[0]));
    if c >= w.len() {
        assert(seg =~= w);
    } else {
        let rest = w.skip(c + 1);
        lemma_dashed_lower_shape(rest);
        assert(forall|k: int| 0 <= k < rest.len() ==> rest[k] == w[c + 1 + k]);
        assert(lower_char(seg[c - 1]));
        assert(lower_char(rest[0]));
        assert forall|k: int| 0 <= k < w.len() implies #[trigger] w[k] == '-' || lower_char(w[k]) by {
            if k < c {
                assert(seg[k] == w[k]);
            } else if k > c {
                assert(rest[k - c - 1] == w[k]);
            }
        }
        assert forall|k: int| 0 <= k < w.len() && #[trigger] w[k] == '-' implies 0 < k < w.len() - 1
            && lower_char(w[k - 1]) && lower_char(w[k + 1]) by {
            if k < c {
                assert(seg[k] == w[k]);
            } else if k > c {
                assert(rest[k - c - 1] == w[k]);
                assert(rest[k - c - 1] == '-');
                if k - c - 1 > 0 {
                    assert(rest[k - c - 2] == w[k - 1]);
                } else {
                    assert(rest[0] == w[k]);
                }
                assert(rest[k - c] == w[k + 1]);
            }
        }
    }
}

/// What each case asks of a word, by its letters: camel case starts with a
/// lowercase letter and pascal case with an uppercase one, both going on with
/// letters and digits after a first run of that case; kebab case is lowercase
/// letters between single dashes; lower and upper case are all lowercase or
/// all uppercase letters.
pub proof fn law_key_case_shapes(w: Seq<char>)
    ensures
        key_case_matches(KeyCase::Camel, w) ==> w.len() >= 2 && lower_char(w[0]) && forall|k: int|
            0 <= k < w.len() ==> lower_char(#[trigger] w[k]) || alnum_char(w[k]),
        key_case_matches(KeyCase::Pascal, w) ==> w.len() >= 2 && upper_char(w[0]) && forall|k: int|
            0 <= k < w.len() ==> upper_char(#[trigger] w[k]) || alnum_char(w[k]),
        key_case_matches(KeyCase::Kebab, w) ==> kebab_shape(w),
        key_case_matches(KeyCase::Lower, w) <==> forall|k: int| 0 <= k < w.len() ==> lower_char(#[trigger] w[k]),
        key_case_matches(KeyCase::Upper, w) <==> forall|k: int| 0 <= k < w.len() ==> upper_char(#[trigger] w[k]),
        key_case_matches(KeyCase::Any, w),
{
    lemma_run_end_props(w, 0, 0);
    lemma_run_end_props(w, 1, 0);
    if key_case_matches(KeyCase::Kebab, w) {
        lemma_dashed_lower_shape(w);
    }
}

/// A text is in lower-first (upper-first) case exactly when it starts with a
/// lowercase (uppercase) letter; any text is in the case `Any`.
pub proof fn law_text_case_first_letter(t: Seq<char>)
    ensures
        text_case_matches(TextCase::LowerFirst, t) <==> t.len() > 0 && lower_char(t[0]),
        text_case_matches(TextCase::UpperFirst, t) <==> t.len() > 0 && upper_char(t[0]),
        text_case_matches(TextCase::Any, t),
{
}

} // verus!
