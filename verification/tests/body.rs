use commitfmt::cc::body::{parse_body, trim_meaningless_end, trim_meaningless_start};
use commitfmt::cc::footer::{Footer, Footers, SeparatorAlignment};

fn one_footer(key: &str, value: &str) -> Footers {
    Footers::from_vec(vec![Footer {
        key: key.to_string(),
        value: value.to_string(),
        separator: ':',
        alignment: SeparatorAlignment::Left,
    }])
}

#[test]
fn test_trim_meaningless_end() {
    let input = "my body\n\nmyfooter: my value";
    assert_eq!(trim_meaningless_end(input, "#"), "my body\n\nmyfooter: my value");

    let input = "my body\nConflicts:\n\tfile1\n\tfile2";
    assert_eq!(trim_meaningless_end(input, "#"), "my body");

    let input = "my body\n# some comment\n# another comment";
    assert_eq!(trim_meaningless_end(input, "#"), "my body");

    let input = "my body\n# some comment\n# another comment\nAnd body again\n";
    assert_eq!(
        trim_meaningless_end(input, "#"),
        "my body\n# some comment\n# another comment\nAnd body again"
    );

    let input = "my body\nConflicts:\n\tfile1\n\tfile2\n# some comment";
    assert_eq!(trim_meaningless_end(input, "#"), "my body");
}

#[test]
fn test_trim_meaningless_start() {
    let input = "my body";
    assert_eq!(trim_meaningless_start(input, "#"), "my body");

    let input = "\nmy body";
    assert_eq!(trim_meaningless_start(input, "#"), "my body");

    let input = "\n\nmy body";
    assert_eq!(trim_meaningless_start(input, "#"), "my body");

    let input = "# some comment\nmy body";
    assert_eq!(trim_meaningless_start(input, "#"), "my body");

    let input = "# some comment\n# some comment\n\nmy body";
    assert_eq!(trim_meaningless_start(input, "#"), "my body");

    let input = "// some comment\n// some comment\n\nmy body";
    assert_eq!(trim_meaningless_start(input, "//"), "my body");
}

#[test]
fn test_parse_body() {
    let input = "my body";
    let expected = (Some("my body".to_string()), None);
    assert_eq!(parse_body(input, ":", "#"), expected);

    let input = "\nmy body";
    let expected = (Some("my body".to_string()), None);
    assert_eq!(parse_body(input, ":", "#"), expected);

    let input = "\n\nmy body";
    let expected = (Some("my body".to_string()), None);
    assert_eq!(parse_body(input, ":", "#"), expected);

    let input = "\n\n\nmy body";
    let expected = (Some("my body".to_string()), None);
    assert_eq!(parse_body(input, ":", "#"), expected);

    let input = "my body\n\nmyfooter: my value";
    let expected = (Some("my body".to_string()), Some(one_footer("myfooter", "my value")));
    assert_eq!(parse_body(input, ":", "#"), expected);
}

#[test]
fn test_parse_body_with_comments() {
    let input = "my cool feature

Authored-By: Co Mitter <comitter@example.com>

# This is a comment
# This is another comment";
    let expected = (
        Some("my cool feature".to_string()),
        Some(one_footer("Authored-By", "Co Mitter <comitter@example.com>")),
    );
    assert_eq!(parse_body(input, ":", "#"), expected);
}

#[test]
fn test_parse_body_drops_trailing_comments_without_footers() {
    let input = "para1\n\npara2\n\n# Please enter the commit message...";
    let expected = (Some("para1\n\npara2".to_string()), None);
    assert_eq!(parse_body(input, ":", "#"), expected);
}

#[test]
fn test_parse_footers() {
    let input = "\nmyfooter: my value\n# some comment\n# another comment\n";
    let expected = (None, Some(one_footer("myfooter", "my value")));
    assert_eq!(parse_body(input, ":", "#"), expected);
}
