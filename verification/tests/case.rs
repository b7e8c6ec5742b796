use commitfmt::linter::case::{KeyCase, TextCase};

#[test]
fn test_key_match_any() {
    assert!(KeyCase::Any.is_match("f_o-bAr"));
}

#[test]
fn test_key_match_camel() {
    assert!(KeyCase::Camel.is_match("fooBar"));
    assert!(!KeyCase::Camel.is_match("FooBar"));
    assert!(!KeyCase::Camel.is_match("foo-Bar"));
}

#[test]
fn test_key_match_capitalized_kebab() {
    assert!(KeyCase::CapitalizedKebab.is_match("Foo-Bar"));
    assert!(!KeyCase::CapitalizedKebab.is_match("foo-bar"));
    assert!(!KeyCase::CapitalizedKebab.is_match("fooBar"));
}

#[test]
fn test_key_match_kebab() {
    assert!(KeyCase::Kebab.is_match("foo-bar"));
    assert!(KeyCase::Kebab.is_match("foobar"));
    assert!(!KeyCase::Kebab.is_match("FooBar"));
    assert!(!KeyCase::Kebab.is_match("foo_bar"));
}

#[test]
fn test_key_match_pascal() {
    assert!(KeyCase::Pascal.is_match("FooBar"));
    assert!(KeyCase::Pascal.is_match("Foobar"));
    assert!(!KeyCase::Pascal.is_match("foo-bar"));
    assert!(!KeyCase::Pascal.is_match("fooBar"));
}

#[test]
fn test_key_match_lower() {
    assert!(KeyCase::Lower.is_match("foobar"));
    assert!(!KeyCase::Lower.is_match("FOOBAR"));
    assert!(!KeyCase::Lower.is_match("FooBar"));
}

#[test]
fn test_key_match_upper() {
    assert!(KeyCase::Upper.is_match("FOOBAR"));
    assert!(!KeyCase::Upper.is_match("foobar"));
    assert!(!KeyCase::Upper.is_match("FooBar"));
}

#[test]
fn test_key_from_name() {
    assert_eq!(KeyCase::from_name("any"), Some(KeyCase::Any));
    assert_eq!(KeyCase::from_name("camel"), Some(KeyCase::Camel));
    assert_eq!(KeyCase::from_name("kebab"), Some(KeyCase::Kebab));
    assert_eq!(KeyCase::from_name("pascal"), Some(KeyCase::Pascal));
    assert_eq!(KeyCase::from_name("capitalized-kebab"), Some(KeyCase::CapitalizedKebab));
    assert_eq!(KeyCase::from_name("lower"), Some(KeyCase::Lower));
    assert_eq!(KeyCase::from_name("upper"), Some(KeyCase::Upper));
    assert_eq!(KeyCase::from_name("foo"), None);
}

#[test]
fn test_key_name() {
    assert_eq!(KeyCase::Any.name(), "any");
    assert_eq!(KeyCase::Camel.name(), "camel");
    assert_eq!(KeyCase::Kebab.name(), "kebab");
    assert_eq!(KeyCase::Pascal.name(), "pascal");
    assert_eq!(KeyCase::CapitalizedKebab.name(), "capitalized-kebab");
    assert_eq!(KeyCase::Lower.name(), "lower");
    assert_eq!(KeyCase::Upper.name(), "upper");
}

#[test]
fn test_key_case_display() {
    assert_eq!(KeyCase::Any.to_string(), "any");
    assert_eq!(KeyCase::Kebab.to_string(), "kebab");
}

#[test]
fn test_text_match_lower_first() {
    assert!(TextCase::LowerFirst.is_match("foo bar"));
    assert!(!TextCase::LowerFirst.is_match("FOO BAR"));
    assert!(!TextCase::LowerFirst.is_match("Foo bar"));
}

#[test]
fn test_text_match_upper_first() {
    assert!(TextCase::UpperFirst.is_match("Foo bar"));
    assert!(!TextCase::UpperFirst.is_match("foo bar"));
    assert!(!TextCase::UpperFirst.is_match("fOOBAR"));
}

#[test]
fn test_text_match_any() {
    assert!(TextCase::Any.is_match("foo bar"));
    assert!(TextCase::Any.is_match("FOO BAR"));
    assert!(TextCase::Any.is_match("Foo bar"));
}

#[test]
fn test_text_from_name() {
    assert_eq!(TextCase::from_name("any"), Some(TextCase::Any));
    assert_eq!(TextCase::from_name("lower-first"), Some(TextCase::LowerFirst));
    assert_eq!(TextCase::from_name("upper-first"), Some(TextCase::UpperFirst));
    assert_eq!(TextCase::from_name("foo"), None);
}

#[test]
fn test_text_name() {
    assert_eq!(TextCase::Any.name(), "any");
    assert_eq!(TextCase::LowerFirst.name(), "lower-first");
    assert_eq!(TextCase::UpperFirst.name(), "upper-first");
}

#[test]
fn test_text_case_display() {
    assert_eq!(TextCase::Any.to_string(), "any");
    assert_eq!(TextCase::LowerFirst.to_string(), "lower-first");
}

#[test]
fn kebab_rejects_leading_trailing_and_double_dashes() {
    assert!(!KeyCase::Kebab.is_match("-foo"));
    assert!(!KeyCase::Kebab.is_match("foo-"));
    assert!(!KeyCase::Kebab.is_match("foo--bar"));
    assert!(!KeyCase::Kebab.is_match(""));
}

#[test]
fn camel_needs_more_than_lowercase() {
    assert!(!KeyCase::Camel.is_match("foobar"));
    assert!(KeyCase::Camel.is_match("foo2"));
    assert!(!KeyCase::Pascal.is_match("FOO"));
    assert!(KeyCase::Lower.is_match(""));
    assert!(!TextCase::LowerFirst.is_match(""));
}
