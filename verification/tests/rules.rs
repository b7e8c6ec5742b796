use commitfmt::cc::footer::{Footer, Footers, SeparatorAlignment};
use commitfmt::cc::header::Header;
use commitfmt::cc::message::Message;
use commitfmt::linter::case::{KeyCase, TextCase};
use commitfmt::linter::report::Report;
use commitfmt::linter::rules::{body, footer, header, longer_than_chars, shorter_than_chars};
use commitfmt::linter::violation::{FixMode, RuleViolation, Violation, ViolationMetadata};

fn message(header_line: &str) -> Message {
    Message { header: Header::parse(header_line), body: None, footers: Footers::new() }
}

fn left(key: &str, value: &str) -> Footer {
    Footer {
        key: key.to_string(),
        value: value.to_string(),
        separator: ':',
        alignment: SeparatorAlignment::Left,
    }
}

#[test]
fn test_report_add_violation() {
    let mut report = Report::default();
    assert_eq!(report.len(), 0);
    report.add_violation(RuleViolation::TypeRequired);
    assert_eq!(report.len(), 1);
}

#[test]
fn test_report_is_empty() {
    let mut report = Report::default();
    assert!(report.is_empty());
    report.add_violation(RuleViolation::TypeRequired);
    assert!(!report.is_empty());
}

#[test]
fn test_report_clear() {
    let mut report = Report::default();
    report.add_violation(RuleViolation::TypeRequired);
    assert!(!report.is_empty());
    report.clear();
    assert!(report.is_empty());
}

#[test]
fn test_default_fix_mode() {
    let violation = RuleViolation::TypeRequired;
    assert_eq!(violation.fix_mode(), FixMode::Unfixable);
    assert!(violation.fix(&mut Message::default()).is_err());
}

#[test]
fn violation_text_names_group_rule_and_message() {
    let violation = RuleViolation::Exists { key: "Issue".to_string() };
    assert_eq!(violation.to_string(), "footer::Exists: Footer Issue is required but not found");
    assert_eq!(violation.group().as_display(), "footer");
}

#[test]
fn test_unicode_length_comparison() {
    assert!(!longer_than_chars("café", 4));
    assert!(longer_than_chars("café", 3));
    assert!(!shorter_than_chars("café", 4));
    assert!(shorter_than_chars("café", 5));

    assert!(!longer_than_chars("café\n界", 6));
    assert!(longer_than_chars("café\n界", 5));
    assert!(!shorter_than_chars("café\n界", 6));
    assert!(shorter_than_chars("café\n界", 7));
}

#[test]
fn test_case() {
    let mut report = Report::default();

    let mut message = message("feat: my feature");
    message.body = Some("feature description".to_string());

    body::case(&mut report, &message, TextCase::LowerFirst);
    assert_eq!(report.len(), 0);

    message.body = Some("Feature description".to_string());
    body::case(&mut report, &message, TextCase::LowerFirst);
    assert_eq!(report.len(), 1);
    assert_eq!(report.violations[0].rule_name(), "Case");
}

#[test]
fn test_max_length() {
    let mut report = Report::default();

    let footers = Footers::from_vec(vec![left("BREAKING CHANGES", "some breaking changes")]);

    let mut breaking = message("feat!: my feature");
    breaking.footers = footers.clone();

    footer::breaking_exclamation(&mut report, &breaking);
    assert_eq!(report.len(), 0);

    let mut plain = message("feat: my feature");
    plain.footers = footers;

    footer::breaking_exclamation(&mut report, &plain);
    assert_eq!(report.len(), 1);
    assert_eq!(report.violations[0].rule_name(), "BreakingExclamation");
}

#[test]
fn test_fix() {
    let mut message = message("feat: my feature");
    message.footers = Footers::from_vec(vec![left("BREAKING CHANGES", "some breaking changes")]);

    let mut report = Report::default();
    footer::breaking_exclamation(&mut report, &message);
    assert_eq!(report.len(), 1);

    let violation = &report.violations[0];
    assert_eq!(violation.fix_mode(), FixMode::Safe);
    violation.fix(&mut message).unwrap();
    assert!(message.header.breaking);
}

#[test]
fn test_exists() {
    let mut report = Report::default();

    let mut message = message("feat: my feature");
    message.footers = Footers::from_vec(vec![left("Authored-by", "John Doe")]);

    footer::footer_exists(&mut report, &message, &vec!["Authored-by".to_string()]);
    assert_eq!(report.len(), 0);

    footer::footer_exists(&mut report, &message, &vec!["Commited-by".to_string()]);
    assert_eq!(report.len(), 1);
    assert_eq!(report.violations[0].rule_name(), "Exists");
}

#[test]
fn test_key_case() {
    let mut report = Report::default();

    let mut message = message("feat: my feature");
    message.footers = Footers::from_vec(vec![
        left("fixes", "#123"),
        left("breaking-change", "removed API"),
        left("signed-off-by", "John Doe"),
    ]);

    footer::key_case(&mut report, &message, KeyCase::Kebab);
    assert_eq!(report.len(), 0);

    message.footers = Footers::from_vec(vec![
        left("Fixes", "#123"),
        left("BreakingChange", "removed API"),
        left("signed_off_by", "John Doe"),
    ]);

    footer::key_case(&mut report, &message, KeyCase::Kebab);
    assert_eq!(report.len(), 1);
    assert_eq!(report.violations[0].rule_name(), "KeyCase");
}

#[test]
fn test_type_case() {
    let mut report = Report::default();

    header::type_case(&mut report, &message("feat: my feature"), KeyCase::Lower);
    assert_eq!(report.len(), 0);

    header::type_case(&mut report, &message("Feat: my feature"), KeyCase::Lower);
    assert_eq!(report.len(), 1);
    assert_eq!(report.violations[0].rule_name(), "TypeCase");
}

#[test]
fn test_type_enum() {
    let mut report = Report::default();
    let allowed: Vec<String> = vec!["fix".to_string(), "feat".to_string()];

    header::type_enum(&mut report, &message("feat: my feature"), &allowed);
    assert_eq!(report.len(), 0);

    header::type_enum(&mut report, &message("feature: my feature"), &allowed);
    assert_eq!(report.len(), 1);
    assert_eq!(report.violations[0].rule_name(), "TypeEnum");
}

#[test]
fn test_type_required() {
    let mut report = Report::default();

    header::type_required(&mut report, &message("feat: my feature"));
    assert_eq!(report.len(), 0);

    header::type_required(&mut report, &message("my feature"));
    assert_eq!(report.len(), 1);
    assert_eq!(report.violations[0].rule_name(), "TypeRequired");
}

#[test]
fn test_scope_enum() {
    let mut report = Report::default();
    let allowed: Vec<String> = vec!["db".to_string(), "ui".to_string()];

    header::scope_enum(&mut report, &message("feat(db, ui): my feature"), &allowed);
    assert_eq!(report.len(), 0);

    header::scope_enum(&mut report, &message("feat(DB_Core, UICore): my feature"), &allowed);
    assert_eq!(report.len(), 1);
    assert_eq!(report.violations[0].rule_name(), "ScopeEnum");
}

#[test]
fn test_scope_max_length() {
    let mut report = Report::default();

    header::scope_max_length(&mut report, &message("feat(db, ui): my feature"), 10);
    assert_eq!(report.len(), 0);

    header::scope_max_length(
        &mut report,
        &message("feat(db-core, ui-core, req-internal): my feature"),
        10,
    );
    assert_eq!(report.len(), 1);
    assert_eq!(report.violations[0].rule_name(), "ScopeMaxLength");
}

#[test]
fn test_scope_min_length() {
    let mut report = Report::default();

    let m = message("feat(db-core, ui-core): my feature");
    header::scope_min_length(&mut report, &m, 5);
    assert_eq!(report.len(), 0);

    header::scope_min_length(&mut report, &m, 0);
    assert_eq!(report.len(), 0);

    header::scope_min_length(&mut report, &message("feat: my feature"), 5);
    assert_eq!(report.len(), 0);

    header::scope_min_length(&mut report, &message("feat(db, ui): my feature"), 5);
    assert_eq!(report.len(), 1);
    assert_eq!(report.violations[0].rule_name(), "ScopeMinLength");
}

#[test]
fn test_scope_min_length_counts_unicode_characters() {
    let m = message("feat(é, 界): my feature");
    let mut report = Report::default();

    header::scope_min_length(&mut report, &m, 2);
    assert_eq!(report.len(), 0);

    header::scope_min_length(&mut report, &m, 3);
    assert_eq!(report.len(), 1);
}

#[test]
fn body_max_line_length_looks_at_each_line() {
    let mut report = Report::default();
    let mut m = message("feat: x");
    m.body = Some("12345\n123".to_string());
    body::max_line_length(&mut report, &m, 5);
    assert_eq!(report.len(), 0);
    body::max_line_length(&mut report, &m, 4);
    assert_eq!(report.len(), 1);
    assert_eq!(report.violations[0].rule_name(), "MaxLineLength");
}

#[test]
fn header_description_full_stop() {
    let mut report = Report::default();
    header::description_full_stop(&mut report, &message("feat: done"));
    assert_eq!(report.len(), 0);
    header::description_full_stop(&mut report, &message("feat: done."));
    assert_eq!(report.len(), 1);
    assert_eq!(report.violations[0].rule_name(), "DescriptionFullStop");
}

#[test]
fn test_check() {
    let mut settings = commitfmt::linter::rules::Settings::default();
    settings.header.scope_min_length = 1;
    let rules = commitfmt::linter::rule_set::RuleSet::from_rules(&[commitfmt::linter::rule::Rule::HeaderScopeMinLength]);

    let mut check = commitfmt::linter::check::Check::new(&settings, rules);
    let message = Message::parse("feat: my feature\nbody", None, None)
        .expect("Unable to parse commit message");
    check.lint(&message);
    assert_eq!(check.report.violations.len(), 1);
}

#[test]
fn violation_test_display() {
    let violation = RuleViolation::TypeRequired;
    assert_eq!(violation.to_string(), format!("header::TypeRequired: {}", violation.message()));
}

#[test]
fn lint_reports_only_enabled_rules() {
    let settings = commitfmt::linter::rules::Settings::default();
    let rules = commitfmt::linter::rule_set::RuleSet::from_rules(&[commitfmt::linter::rule::Rule::HeaderTypeRequired]);
    let mut check = commitfmt::linter::check::Check::new(&settings, rules);
    let message = Message::parse("my feature.\nBody.", None, None).expect("parses");
    check.lint(&message);
    assert_eq!(check.report.violations.len(), 1);
    assert_eq!(check.report.violations[0], RuleViolation::TypeRequired);
}

#[test]
fn lint_type_required_passes_with_type() {
    let settings = commitfmt::linter::rules::Settings::default();
    let rules = commitfmt::linter::rule_set::RuleSet::from_rules(&[commitfmt::linter::rule::Rule::HeaderTypeRequired]);
    let mut check = commitfmt::linter::check::Check::new(&settings, rules);
    let message = Message::parse("feat: my feature", None, None).expect("parses");
    check.lint(&message);
    assert_eq!(check.report.violations.len(), 0);
}

#[test]
fn lint_body_case() {
    let mut settings = commitfmt::linter::rules::Settings::default();
    settings.body.case = TextCase::LowerFirst;
    let rules = commitfmt::linter::rule_set::RuleSet::from_rules(&[commitfmt::linter::rule::Rule::BodyCase]);

    let mut check = commitfmt::linter::check::Check::new(&settings, rules);
    let lower = Message::parse("feat: x\n\nfeature description", None, None).expect("parses");
    check.lint(&lower);
    assert_eq!(check.report.violations.len(), 0);

    let rules = commitfmt::linter::rule_set::RuleSet::from_rules(&[commitfmt::linter::rule::Rule::BodyCase]);
    let mut check = commitfmt::linter::check::Check::new(&settings, rules);
    let upper = Message::parse("feat: x\n\nFeature description", None, None).expect("parses");
    check.lint(&upper);
    assert_eq!(check.report.violations.len(), 1);
    assert_eq!(check.report.violations[0], RuleViolation::BodyCase { case: TextCase::LowerFirst });
}

#[test]
fn lint_scope_with_items_checked_by_rule() {
    let mut settings = commitfmt::linter::rules::Settings::default();
    settings.header.scope_min_length = 3;
    let rules = commitfmt::linter::rule_set::RuleSet::from_rules(&[commitfmt::linter::rule::Rule::HeaderScopeMinLength]);
    let mut check = commitfmt::linter::check::Check::new(&settings, rules);
    let message = Message::parse("feat(ui): x", None, None).expect("parses");
    check.lint(&message);
    assert_eq!(check.report.violations.len(), 1);
    assert_eq!(check.report.violations[0], RuleViolation::ScopeMinLength { length: 3 });
}
