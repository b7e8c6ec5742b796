use commitfmt::cc::footer::{Footer, Footers, SeparatorAlignment};
use commitfmt::cc::header::Header;
use commitfmt::cc::message::Message;
use commitfmt::format::{try_append_footers, AdditionalFooter};
use commitfmt::linter::report::Report;
use commitfmt::linter::rule::{name_to_rule, LinterGroup, Rule};
use commitfmt::linter::rules::footer::breaking_exclamation;
use commitfmt::linter::violation::Violation;
use commitfmt::tpl::{Rendering, Segment, Template};
use commitfmt::workspace::configuration::{CommitConfiguration, CommitParams};
use commitfmt::workspace::settings::OnConflictAction;
use commitfmt::workspace::value::{ConfigTable, ConfigValue};

#[test]
fn header_round_trip_on_examples() {
    for line in ["feat: x", "feat(db, ui)!: add things", "fix!: y", "chore(a): z z"] {
        let header = Header::parse(line);
        assert_eq!(header.to_string(), line);
        assert_eq!(Header::parse(&header.to_string()), header);
    }
}

#[test]
fn parsed_typed_header_is_stable() {
    let header = Header::parse("feat( db ,, ui )!:   spaced  ");
    assert_eq!(header.to_string(), "feat(db, ui)!: spaced");
    assert_eq!(Header::parse(&header.to_string()), header);
}

#[test]
fn untyped_header_may_change_on_reparse() {
    let header = Header::parse(" feat: x");
    assert_eq!(header.kind, None);
    let again = Header::parse(&header.to_string());
    assert_eq!(again.kind, Some("feat".to_string()));
}

#[test]
fn footer_round_trip_on_examples() {
    let footers = Footers::from_vec(vec![
        Footer {
            key: "Authored-By".to_string(),
            value: "John Doe".to_string(),
            separator: ':',
            alignment: SeparatorAlignment::Left,
        },
        Footer {
            key: "Fixes".to_string(),
            value: "123".to_string(),
            separator: '#',
            alignment: SeparatorAlignment::Right,
        },
        Footer {
            key: "BREAKING CHANGE".to_string(),
            value: "gone".to_string(),
            separator: ':',
            alignment: SeparatorAlignment::Left,
        },
    ]);
    let text = footers.to_string();
    assert_eq!(text, "Authored-By: John Doe\nFixes #123\nBREAKING CHANGE: gone");
    assert_eq!(Footers::parse(&text, ":#"), Some(footers));
}

#[test]
fn message_round_trip_on_examples() {
    for text in [
        "feat: x",
        "feat(a): x\n\nbody line\n\nsecond paragraph",
        "feat(a): x\n\nAuthored-By: John Doe",
        "fix: y\n\nbody\n\nRefs: 1\nAuthored-By: J",
    ] {
        let message = Message::parse(text, None, None).unwrap();
        assert_eq!(message.to_string(), text);
        assert_eq!(Message::parse(&message.to_string(), None, None).unwrap(), message);
    }
}

#[test]
fn rule_found_again_by_group_and_code() {
    for rule in [Rule::HeaderMaxLength, Rule::BodyMaxLength, Rule::FooterMaxLength, Rule::FooterKeyCase] {
        assert_eq!(name_to_rule(rule.group(), rule.as_display()), Some(rule));
    }
    assert_eq!(LinterGroup::from_name(LinterGroup::Body.as_display()), Some(LinterGroup::Body));
}

#[test]
fn fixed_message_passes_breaking_exclamation() {
    let mut message = Message::parse("feat: x\n\nBREAKING CHANGE: gone", None, None).unwrap();
    let mut report = Report::default();
    breaking_exclamation(&mut report, &message);
    assert_eq!(report.len(), 1);
    report.violations[0].fix(&mut message).unwrap();
    let mut again = Report::default();
    breaking_exclamation(&mut again, &message);
    assert!(again.is_empty());
}

#[test]
fn appending_keeps_existing_footers() {
    let mut message = Message::parse("feat: x\n\nRefs: 1", None, None).unwrap();
    let footers = vec![AdditionalFooter {
        key: "Refs".to_string(),
        value_template: Some("2".to_string()),
        branch_value_pattern: None,
        on_conflict: OnConflictAction::Append,
        separator: None,
        alignment: None,
    }];
    let rendered = vec![Ok("2".to_string())];
    try_append_footers(&mut message, &footers, "main", &rendered).unwrap().unwrap();
    assert_eq!(message.footers.len(), 2);
    assert_eq!(message.footers.get(0).unwrap().value, "1");
    assert_eq!(message.footers.get(1).unwrap().value, "2");
}

#[test]
fn plain_text_is_one_literal_and_renders_to_itself() {
    let text = "no tags { here } $ {x}";
    let template = Template::parse(text).unwrap();
    let segments: Vec<&Segment> = template.segments_iter().collect();
    assert_eq!(segments, vec![&Segment::Literal(text.to_string())]);
    let mut r = Rendering::new();
    assert!(template.render_literals(&mut r).is_none());
    assert_eq!(r.output(), text);
}

#[test]
fn extending_prefers_the_extension() {
    let mut base = CommitParams {
        config: CommitConfiguration::default(),
        lint_values: ConfigTable::from_entries(vec![
            ("a".to_string(), ConfigValue::Integer(1)),
            ("b".to_string(), ConfigValue::Integer(2)),
        ]),
    };
    let other = CommitParams {
        config: CommitConfiguration::default(),
        lint_values: ConfigTable::from_entries(vec![
            ("b".to_string(), ConfigValue::Integer(3)),
            ("c".to_string(), ConfigValue::Integer(4)),
        ]),
    };
    base.extend(other);
    let mut entries: Vec<(String, i64)> = base
        .lint_values
        .entries()
        .into_iter()
        .map(|(k, v)| match v {
            ConfigValue::Integer(i) => (k.clone(), *i),
            _ => panic!("integer expected"),
        })
        .collect();
    entries.sort();
    assert_eq!(entries, vec![("a".to_string(), 1), ("b".to_string(), 3), ("c".to_string(), 4)]);
}

#[test]
fn no_rules_no_violations() {
    let settings = commitfmt::linter::rules::Settings::default();
    let mut check = commitfmt::linter::check::Check::new(&settings, commitfmt::linter::rule_set::RuleSet::empty());
    let message = Message::parse("feat: x.\n\nBREAKING CHANGE: y", None, None).unwrap();
    check.lint(&message);
    assert!(check.report.is_empty());
}

#[test]
fn check_lists_violations_one_per_line() {
    let settings = commitfmt::linter::rules::Settings::default();
    let mut check = commitfmt::linter::check::Check::new(&settings, commitfmt::linter::rule_set::RuleSet::default());
    let message = Message::parse("feat: x.\n\nBREAKING CHANGE: y", None, None).unwrap();
    check.lint(&message);
    assert_eq!(check.report.len(), 2);
    let text = check.to_string();
    assert_eq!(text.lines().count(), 2);
    assert!(text.lines().all(|l| l.starts_with("- ")));
    assert!(text.contains("footer::BreakingExclamation: "));
}
