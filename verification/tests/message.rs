use commitfmt::cc::footer::{Footer, Footers, SeparatorAlignment};
use commitfmt::cc::header::{Header, Scope};
use commitfmt::cc::message::Message;

fn footers(items: Vec<(&str, &str, char, SeparatorAlignment)>) -> Footers {
    Footers::from_vec(
        items
            .into_iter()
            .map(|(k, v, s, a)| Footer { key: k.to_string(), value: v.to_string(), separator: s, alignment: a })
            .collect(),
    )
}

#[test]
fn test_parse() {
    let commit_msg = "feat: my feature

Description body

Authored-By: John Doe";

    let parsed = Message::parse(commit_msg, Some(":"), Some("#"));
    let expected = Message {
        header: Header {
            kind: Some("feat".to_string()),
            scope: Scope::default(),
            description: "my feature".to_string(),
            breaking: false,
        },
        body: Some("Description body".to_string()),
        footers: footers(vec![("Authored-By", "John Doe", ':', SeparatorAlignment::Left)]),
    };

    match parsed {
        Ok(parsed) => assert_eq!(parsed, expected),
        Err(e) => panic!("Unable to parse commit message: {e:?}"),
    }
}

#[test]
fn test_parse_without_body() {
    let commit_msg = "feat: my feature\n\nAuthored-By: John Doe";

    let parsed = Message::parse(commit_msg, Some(":"), Some("#")).unwrap();
    let expected = Message {
        header: Header {
            kind: Some("feat".to_string()),
            scope: Scope::default(),
            description: "my feature".to_string(),
            breaking: false,
        },
        body: None,
        footers: footers(vec![("Authored-By", "John Doe", ':', SeparatorAlignment::Left)]),
    };

    assert_eq!(parsed, expected);
}

#[test]
fn test_parse_ignores_extra_newlines() {
    let commit_msg_with_newlines = "feat: my feature\n\nbody";
    let commit_msg_without_newlines = "feat: my feature\nbody";

    let parsed_with_newlines = Message::parse(commit_msg_with_newlines, None, None).unwrap();
    let parsed_without_newlines = Message::parse(commit_msg_without_newlines, None, None).unwrap();

    assert_eq!(parsed_with_newlines, parsed_without_newlines);
}

#[test]
fn test_parse_with_comments() {
    let msg = "feat: rework footers config to be unified

# Please enter the commit message for your changes. Lines starting
# with '#' will be ignored, and an empty message aborts the commit.
#
# Date:      Sun Jun 8 21:57:34 2025 +0300
#
# On branch feature/unified-footers
# Your branch is up to date with 'origin/feature/unified-footers'.
#
# Changes to be committed:
#       modified:   Cargo.lock";

    let parsed = Message::parse(msg, None, None).unwrap();
    let expected = Message {
        header: Header {
            kind: Some("feat".to_string()),
            scope: Scope::default(),
            description: "rework footers config to be unified".to_string(),
            breaking: false,
        },
        body: None,
        footers: footers(vec![]),
    };

    assert_eq!(parsed, expected);
}

#[test]
fn message_test_display() {
    let commit_msg = Message {
        header: Header {
            kind: Some("feat".to_string()),
            scope: Scope::default(),
            description: "my feature".to_string(),
            breaking: false,
        },
        body: Some("Description body".to_string()),
        footers: footers(vec![("Authored-By", "John Doe", ':', SeparatorAlignment::Left)]),
    };

    assert_eq!(commit_msg.to_string(), "feat: my feature\n\nDescription body\n\nAuthored-By: John Doe");
}

#[test]
fn test_display_without_body() {
    let commit_msg = Message {
        header: Header {
            kind: Some("feat".to_string()),
            scope: Scope::default(),
            description: "my feature".to_string(),
            breaking: false,
        },
        body: None,
        footers: footers(vec![("Authored-By", "John Doe", ':', SeparatorAlignment::Left)]),
    };

    assert_eq!(commit_msg.to_string(), "feat: my feature\n\nAuthored-By: John Doe");
}

#[test]
fn test_display_without_footers() {
    let commit_msg = Message {
        header: Header {
            kind: Some("feat".to_string()),
            scope: Scope::default(),
            description: "my feature".to_string(),
            breaking: false,
        },
        body: None,
        footers: footers(vec![]),
    };

    assert_eq!(commit_msg.to_string(), "feat: my feature");
}

#[test]
fn test_display_without_body_and_footers() {
    let commit_msg = Message {
        header: Header {
            kind: Some("feat".to_string()),
            scope: Scope::default(),
            description: "my feature".to_string(),
            breaking: false,
        },
        body: None,
        footers: footers(vec![]),
    };

    assert_eq!(commit_msg.to_string(), "feat: my feature");
}

#[test]
fn test_format() {
    let tests: Vec<(&str, &str)> = vec![
        ("feat: test", "feat: test"),
        ("feat(test): test", "feat(test): test"),
        ("feat(test): test\n\nbody", "feat(test): test\n\nbody"),
        (
            "feat(test): test\n\nbody\n\nAuthored-By: John Doe",
            "feat(test): test\n\nbody\n\nAuthored-By: John Doe",
        ),
    ];

    for (input, expected) in tests {
        let message = Message::parse(input, None, None).unwrap();
        assert_eq!(message.to_string(), expected);
    }
}
