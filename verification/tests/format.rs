use commitfmt::cc::footer::{Footer, Footers, SeparatorAlignment};
use commitfmt::cc::header::{Header, Scope};
use commitfmt::cc::message::Message;
use commitfmt::format::{
    append_footer, append_footers, append_footers_each, branch_group_step, needs_rendering,
    try_append_footers, AdditionalFooter, FooterError, StepResult,
};
use commitfmt::tpl::{Rendering, Template};
use commitfmt::workspace::settings::OnConflictAction;

fn create_test_message() -> Message {
    Message {
        header: Header {
            kind: Some("feat".to_string()),
            scope: Scope::default(),
            description: "test feature".to_string(),
            breaking: false,
        },
        body: None,
        footers: Footers::default(),
    }
}

/// Renders the footers' templates, which here hold no tags.
fn rendered(footers: &Vec<AdditionalFooter>) -> Vec<Result<String, String>> {
    footers
        .iter()
        .map(|f| match &f.value_template {
            Some(t) => {
                let template = Template::parse(t).map_err(|e| format!("{e:?}"))?;
                let mut r = Rendering::new();
                assert!(template.render_literals(&mut r).is_none());
                Ok(r.output())
            }
            None => Ok(String::new()),
        })
        .collect()
}

fn append(message: &mut Message, footers: &Vec<AdditionalFooter>, branch: &str) -> Result<(), FooterError> {
    let values = rendered(footers);
    try_append_footers(message, footers, branch, &values).expect("group 1 takes part in every match")
}

fn template_footer(key: &str, value: &str, on_conflict: OnConflictAction) -> AdditionalFooter {
    AdditionalFooter {
        key: key.to_string(),
        value_template: Some(value.to_string()),
        branch_value_pattern: None,
        on_conflict,
        separator: None,
        alignment: None,
    }
}

fn existing_footer() -> Footer {
    Footer {
        key: "Signed-off-by".to_string(),
        separator: ':',
        alignment: SeparatorAlignment::Left,
        value: "Existing User <existing@example.com>".to_string(),
    }
}

#[test]
fn test_append_footers_with_value_template() {
    let mut message = create_test_message();
    let footers = vec![template_footer(
        "Signed-off-by",
        "Test User <test@example.com>",
        OnConflictAction::Append,
    )];

    let result = append(&mut message, &footers, "main");
    assert!(result.is_ok());
    assert_eq!(message.footers.len(), 1);
    let footer = message.footers.get(0).unwrap();
    assert_eq!(footer.key, "Signed-off-by");
    assert_eq!(footer.value, "Test User <test@example.com>");
}

#[test]
fn test_append_footers_with_value_pattern() {
    let mut message = create_test_message();
    let footers = vec![AdditionalFooter {
        key: "Task-ID".to_string(),
        value_template: None,
        branch_value_pattern: Some("feature/([A-Z]+-[0-9]+)".to_string()),
        on_conflict: OnConflictAction::Append,
        separator: None,
        alignment: None,
    }];

    let result = append(&mut message, &footers, "feature/ABC-123");
    if let Err(err) = &result {
        println!("Error: {err:?}");
    }
    assert!(result.is_ok());
    assert_eq!(message.footers.len(), 1);
    let footer = message.footers.get(0).unwrap();
    assert_eq!(footer.key, "Task-ID");
    assert_eq!(footer.value, "ABC-123");
}

#[test]
fn test_append_footers_on_conflict_skip() {
    let mut message = create_test_message();
    message.footers.push(existing_footer());

    let footers =
        vec![template_footer("Signed-off-by", "New User <new@example.com>", OnConflictAction::Skip)];

    let result = append(&mut message, &footers, "main");
    assert!(result.is_ok());
    assert_eq!(message.footers.len(), 1);
    let footer = message.footers.get(0).unwrap();
    assert_eq!(footer.value, "Existing User <existing@example.com>");
}

#[test]
fn test_append_footers_on_conflict_append() {
    let mut message = create_test_message();
    message.footers.push(existing_footer());

    let footers = vec![template_footer(
        "Signed-off-by",
        "New User <new@example.com>",
        OnConflictAction::Append,
    )];

    let result = append(&mut message, &footers, "main");
    assert!(result.is_ok());
    assert_eq!(message.footers.len(), 2);
    let footer = message.footers.get(1).unwrap();
    assert_eq!(footer.value, "New User <new@example.com>");
}

#[test]
fn test_append_footers_on_conflict_error() {
    let mut message = create_test_message();
    message.footers.push(existing_footer());

    let footers =
        vec![template_footer("Signed-off-by", "New User <new@example.com>", OnConflictAction::Error)];

    let result = append(&mut message, &footers, "main");
    assert!(result.is_err());
    match result {
        Err(FooterError::AlreadyExists(key)) => {
            assert_eq!(key, "Signed-off-by");
        }
        _ => panic!("Expected AlreadyExists error"),
    }
    assert_eq!(message.footers.len(), 1);
}

#[test]
fn test_append_footers_missing_value() {
    let mut message = create_test_message();
    let footers = vec![AdditionalFooter {
        key: "Missing-Value".to_string(),
        value_template: None,
        branch_value_pattern: None,
        on_conflict: OnConflictAction::Append,
        separator: None,
        alignment: None,
    }];

    let result = append(&mut message, &footers, "main");
    assert!(result.is_err());
    match result {
        Err(FooterError::MissingValue(key)) => {
            assert_eq!(key, "Missing-Value");
        }
        _ => panic!("Expected MissingValue error"),
    }
}

#[test]
fn test_append_footers_bad_pattern() {
    let mut message = create_test_message();
    let footers = vec![AdditionalFooter {
        key: "Bad-Pattern".to_string(),
        value_template: None,
        branch_value_pattern: Some("(unclosed pattern".to_string()),
        on_conflict: OnConflictAction::Append,
        separator: None,
        alignment: None,
    }];

    let result = append(&mut message, &footers, "main");
    assert!(result.is_err());
    match result {
        Err(FooterError::BadPattern(_)) => {}
        _ => panic!("Expected BadPattern error"),
    }
}

#[test]
fn test_append_footers_value_not_found_in_branch() {
    let mut message = create_test_message();
    let footers = vec![AdditionalFooter {
        key: "Task-ID".to_string(),
        value_template: None,
        branch_value_pattern: Some("feature/([A-Z]+-[0-9]+)".to_string()),
        on_conflict: OnConflictAction::Append,
        separator: None,
        alignment: None,
    }];

    let result = append(&mut message, &footers, "hotfix/ABC-123");
    assert!(result.is_ok());
    assert_eq!(message.footers.len(), 0);
}

#[test]
fn test_append_multiple_footers() {
    let mut message = create_test_message();
    let footers = vec![
        template_footer("Signed-off-by", "Test User <test@example.com>", OnConflictAction::Append),
        template_footer("Acked-by", "Maintainer <maintainer@example.com>", OnConflictAction::Append),
    ];

    let result = append(&mut message, &footers, "main");
    assert!(result.is_ok());
    assert_eq!(message.footers.len(), 2);

    let footer1 = message.footers.get(0).unwrap();
    assert_eq!(footer1.key, "Signed-off-by");
    assert_eq!(footer1.value, "Test User <test@example.com>");

    let footer2 = message.footers.get(1).unwrap();
    assert_eq!(footer2.key, "Acked-by");
    assert_eq!(footer2.value, "Maintainer <maintainer@example.com>");
}

#[test]
fn test_footer_with_custom_separator() {
    let mut message = create_test_message();
    let mut footer = template_footer("Custom-Sep", "value", OnConflictAction::Append);
    footer.separator = Some('=');
    let footers = vec![footer];

    let result = append(&mut message, &footers, "main");
    assert!(result.is_ok());
    assert_eq!(message.footers.len(), 1);

    let footer = message.footers.get(0).unwrap();
    assert_eq!(footer.key, "Custom-Sep");
    assert_eq!(footer.value, "value");
    assert_eq!(footer.separator, '=');
}

#[test]
fn test_footer_with_custom_alignment() {
    let mut message = create_test_message();
    let mut left = template_footer("Align-Left", "left", OnConflictAction::Append);
    left.separator = Some(':');
    left.alignment = Some(SeparatorAlignment::Left);
    let mut right = template_footer("Align-Right", "right", OnConflictAction::Append);
    right.separator = Some(':');
    right.alignment = Some(SeparatorAlignment::Right);
    let footers = vec![left, right];

    let result = append(&mut message, &footers, "main");
    assert!(result.is_ok());
    assert_eq!(message.footers.len(), 2);

    let footer_left = message.footers.items.iter().find(|f| f.key == "Align-Left").unwrap();
    assert_eq!(footer_left.alignment, SeparatorAlignment::Left);

    let footer_right = message.footers.items.iter().find(|f| f.key == "Align-Right").unwrap();
    assert_eq!(footer_right.alignment, SeparatorAlignment::Right);
}

#[test]
fn test_branch_exclusion_pattern() {
    let mut message = create_test_message();

    let mut footers = vec![AdditionalFooter {
        key: "Test-Branch".to_string(),
        value_template: None,
        branch_value_pattern: Some("^[a-z]+/([A-Z]+-[0-9]+)/?(?:.*)?".to_string()),
        on_conflict: OnConflictAction::Append,
        separator: None,
        alignment: None,
    }];

    let result = append(&mut message, &footers, "main");
    assert!(result.is_ok());
    assert_eq!(message.footers.len(), 0, "Footer should not be added for branch main");

    message = create_test_message();
    let result = append(&mut message, &footers, "dev");
    assert!(result.is_ok());
    assert_eq!(message.footers.len(), 0, "Footer should not be added for branch dev");

    message = create_test_message();
    let result = append(&mut message, &footers, "release/1.0.0");
    assert!(result.is_ok());
    assert_eq!(message.footers.len(), 0, "Footer should not be added for branches release/*");

    message = create_test_message();

    let result = append(&mut message, &footers, "feature/ABC-123");
    assert!(result.is_ok());
    assert_eq!(message.footers.len(), 1, "Footer should be added for branch feature/ABC-123");

    let footer = message.footers.get(0).unwrap();
    assert_eq!(footer.key, "Test-Branch");
    assert_eq!(footer.value, "ABC-123");

    footers.clear();

    let result = append(&mut message, &footers, "feature/ABC-123/test");
    assert!(result.is_ok());
    assert_eq!(message.footers.len(), 1, "Footer should be added for branch feature/ABC-123/test");

    let footer = message.footers.get(0).unwrap();
    assert_eq!(footer.key, "Test-Branch");
    assert_eq!(footer.value, "ABC-123");
}

#[test]
fn template_error_is_reported() {
    let mut message = create_test_message();
    let footers = vec![template_footer("Task", "${{ X", OnConflictAction::Append)];
    let values = vec![Err("unclosed".to_string())];
    match append_footers(&mut message, &footers, "main", &values) {
        Err(FooterError::TemplateError(m)) => assert_eq!(m, "unclosed"),
        other => panic!("unexpected {other:?}"),
    }
}

#[test]
fn group_that_takes_no_part_is_refused() {
    let mut message = create_test_message();
    let footers = vec![AdditionalFooter {
        key: "Task".to_string(),
        value_template: None,
        branch_value_pattern: Some("(a)?b".to_string()),
        on_conflict: OnConflictAction::Append,
        separator: None,
        alignment: None,
    }];
    let values = vec![Ok(String::new())];
    assert!(try_append_footers(&mut message, &footers, "b", &values).is_none());
    assert_eq!(message.footers.len(), 0);
    assert!(try_append_footers(&mut message, &footers, "ab", &values).is_some());
    assert_eq!(message.footers.get(0).unwrap().value, "a");
}

#[test]
fn rendering_needed_only_where_value_is_used() {
    let mut message = create_test_message();
    message.footers.push(existing_footer());
    let skip = template_footer("Signed-off-by", "{{ echo hi }}", OnConflictAction::Skip);
    let refuse = template_footer("Signed-off-by", "{{ echo hi }}", OnConflictAction::Error);
    let append = template_footer("Signed-off-by", "{{ echo hi }}", OnConflictAction::Append);
    let fresh = template_footer("Reviewed-by", "{{ echo hi }}", OnConflictAction::Skip);
    let branch_only = AdditionalFooter {
        key: "Ticket".to_string(),
        value_template: None,
        branch_value_pattern: Some("(.*)".to_string()),
        on_conflict: OnConflictAction::Append,
        separator: None,
        alignment: None,
    };
    assert!(!needs_rendering(&message.footers, &skip));
    assert!(!needs_rendering(&message.footers, &refuse));
    assert!(needs_rendering(&message.footers, &append));
    assert!(needs_rendering(&message.footers, &fresh));
    assert!(!needs_rendering(&message.footers, &branch_only));
}

#[test]
fn skipped_footer_ignores_its_rendering() {
    let mut message = create_test_message();
    message.footers.push(existing_footer());
    let skip = template_footer("Signed-off-by", "{{ exit 1 }}", OnConflictAction::Skip);
    let unrendered: Result<String, String> = Err("not rendered".to_string());
    let result = append_footer(&mut message, &skip, "main", &unrendered);
    assert!(matches!(result, Some(Ok(()))));
    assert_eq!(message.footers.len(), 1);
}

#[test]
fn append_footer_adds_one_footer() {
    let mut message = create_test_message();
    let f = template_footer("Signed-off-by", "Test User <test@example.com>", OnConflictAction::Append);
    let value: Result<String, String> = Ok("Test User <test@example.com>".to_string());
    let result = append_footer(&mut message, &f, "main", &value);
    assert!(matches!(result, Some(Ok(()))));
    assert_eq!(message.footers.len(), 1);
    let footer = message.footers.get(0).unwrap();
    assert_eq!(footer.key, "Signed-off-by");
    assert_eq!(footer.value, "Test User <test@example.com>");
    assert_eq!(footer.separator, ':');
}

#[test]
fn append_footer_reports_template_error() {
    let mut message = create_test_message();
    let f = template_footer("Signed-off-by", "{{ exit 1 }}", OnConflictAction::Append);
    let failed: Result<String, String> = Err("boom".to_string());
    match append_footer(&mut message, &f, "main", &failed) {
        Some(Err(FooterError::TemplateError(m))) => assert_eq!(m, "boom"),
        other => panic!("unexpected {:?}", other),
    }
    assert_eq!(message.footers.len(), 0);
}

fn branch_footer(key: &str, pattern: &str) -> AdditionalFooter {
    AdditionalFooter {
        key: key.to_string(),
        value_template: None,
        branch_value_pattern: Some(pattern.to_string()),
        on_conflict: OnConflictAction::Append,
        separator: None,
        alignment: None,
    }
}

#[test]
fn branch_group_steps() {
    let f = branch_footer("Ticket", "(\\d+)");
    assert!(matches!(branch_group_step(&f, None), StepResult::Skip));
    assert!(matches!(branch_group_step(&f, Some((1, None))), StepResult::Skip));
    assert!(matches!(branch_group_step(&f, Some((2, None))), StepResult::Panic));
    match branch_group_step(&f, Some((2, Some("42".to_string())))) {
        StepResult::Add(footer) => {
            assert_eq!(footer.key, "Ticket");
            assert_eq!(footer.value, "42");
            assert_eq!(footer.separator, ':');
        }
        _ => panic!("footer expected"),
    }
}

#[test]
fn append_footers_each_stops_at_group_without_match() {
    let mut message = create_test_message();
    let footers = vec![
        template_footer("Signed-off-by", "Test User", OnConflictAction::Append),
        branch_footer("Ticket", "^(x)?main$"),
        template_footer("Reviewed-by", "Other", OnConflictAction::Append),
    ];
    let values = rendered(&footers);
    let result = append_footers_each(&mut message, &footers, "main", &values);
    assert!(result.is_none());
    assert_eq!(message.footers.len(), 1);

    let mut message = create_test_message();
    let footers = vec![
        template_footer("Signed-off-by", "Test User", OnConflictAction::Append),
        branch_footer("Ticket", "feature/(\\d+)"),
    ];
    let values = rendered(&footers);
    let result = append_footers_each(&mut message, &footers, "feature/12", &values);
    assert!(matches!(result, Some(Ok(()))));
    assert_eq!(message.footers.len(), 2);
    assert_eq!(message.footers.get(1).unwrap().value, "12");
}
