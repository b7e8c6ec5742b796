use commitfmt::cc::footer::SeparatorAlignment;
use commitfmt::linter::case::{KeyCase, TextCase};
use commitfmt::linter::rule::{LinterGroup, Rule};
use commitfmt::linter::rule_set::RuleSet;
use commitfmt::linter::rules::Settings;
use commitfmt::tpl::Segment;
use commitfmt::workspace::configuration::{
    lint_table_of, lint_values_of_text, AdditionalFooterConfig, CommitConfiguration, CommitParams, LintConfiguration,
};
use commitfmt::workspace::rules::parse_rule_setting;
use commitfmt::workspace::settings::{
    AdditionalFooter, CommitSettings, LintSettings, OnConflictAction, RulesSettings,
};
use commitfmt::workspace::value::{ConfigTable, ConfigValue};
use commitfmt::workspace::SettingsError;

fn footer_config(key: &str, on_conflict: Option<&str>, value: &str) -> AdditionalFooterConfig {
    AdditionalFooterConfig {
        key: key.to_string(),
        on_conflict: on_conflict.map(|s| s.to_string()),
        value: value.to_string(),
        branch_pattern: None,
        separator: None,
        alignment: None,
    }
}

fn params(config: CommitConfiguration, lint_values: Vec<(String, ConfigValue)>) -> CommitParams {
    CommitParams { config, lint_values: ConfigTable::from_entries(lint_values) }
}

fn table(entries: Vec<(&str, ConfigValue)>) -> ConfigValue {
    ConfigValue::Table(ConfigTable::from_entries(entries.into_iter().map(|(k, v)| (k.to_string(), v)).collect()))
}

fn value_of(p: &CommitParams, key: &str) -> Option<ConfigValue> {
    p.lint_values.get(key).map(|v| match v {
        ConfigValue::String(s) => ConfigValue::String(s.clone()),
        ConfigValue::Boolean(b) => ConfigValue::Boolean(*b),
        ConfigValue::Integer(i) => ConfigValue::Integer(*i),
        _ => panic!("not a plain value"),
    })
}

#[test]
fn test_on_conflict_from_config() {
    assert_eq!(OnConflictAction::from_config("skip").unwrap(), OnConflictAction::Skip);
    assert_eq!(OnConflictAction::from_config("append").unwrap(), OnConflictAction::Append);
    assert_eq!(OnConflictAction::from_config("error").unwrap(), OnConflictAction::Error);
    assert!(OnConflictAction::from_config("unknown").is_err());
}

#[test]
fn test_additional_footer_from_config() {
    let config = footer_config("Footer", Some("error"), "{{ echo $USER }}");

    let footer = AdditionalFooter::from_config(config).unwrap();
    assert_eq!(footer.on_conflict, OnConflictAction::Error);
    assert_eq!(footer.key, "Footer");
    assert_eq!(footer.value.segments_len(), 1);
    assert_eq!(
        footer.value.segments_iter().next().unwrap(),
        &Segment::Command("echo $USER".to_string())
    );
}

#[test]
fn additional_footer_errors() {
    let bad_action = footer_config("Footer", Some("sometimes"), "x");
    match AdditionalFooter::from_config(bad_action) {
        Err(SettingsError::UnknownOnConflictAction(s)) => assert_eq!(s, "sometimes"),
        other => panic!("unexpected {other:?}"),
    }
    let bad_template = footer_config("Footer", None, "{{ x");
    assert!(matches!(
        AdditionalFooter::from_config(bad_template),
        Err(SettingsError::TemplateParseError(_))
    ));
    let mut bad_pattern = footer_config("Footer", None, "x");
    bad_pattern.branch_pattern = Some("(unclosed".to_string());
    assert!(matches!(AdditionalFooter::from_config(bad_pattern), Err(SettingsError::InvalidPattern(_))));
    let mut good = footer_config("Footer", None, "x");
    good.branch_pattern = Some("(?:.*)/#(?<TASK_ID>[0-9-]+)/?(?:.*)".to_string());
    good.alignment = Some(SeparatorAlignment::Right);
    let footer = AdditionalFooter::from_config(good).unwrap();
    assert_eq!(footer.on_conflict, OnConflictAction::Skip);
    assert_eq!(footer.branch_pattern.unwrap().as_str(), "(?:.*)/#(?<TASK_ID>[0-9-]+)/?(?:.*)");
    assert_eq!(footer.alignment, Some(SeparatorAlignment::Right));
}

#[test]
fn test_rules_settings_from_params() {
    let params = params(
        CommitConfiguration {
            extends: None,
            lint: Some(LintConfiguration { unsafe_fixes: Some(true) }),
            footer_separators: None,
            comment_symbol: None,
            additional_footers: Some(vec![footer_config("Footer", Some("error"), "{{ echo $USER }}")]),
        },
        Vec::new(),
    );

    let settings = RulesSettings::from_params(&params).unwrap();
    assert_eq!(settings.set, RuleSet::default());
    assert_eq!(settings.settings, Settings::default());
}

#[test]
fn rule_tables_switch_rules_and_set_their_settings() {
    let params = params(
        CommitConfiguration::default(),
        vec![
            (
                "header".to_string(),
                table(vec![
                    ("description-full-stop", ConfigValue::Boolean(false)),
                    ("type-case", ConfigValue::String("lower".to_string())),
                    (
                        "type-enum",
                        ConfigValue::Array(vec![
                            ConfigValue::String("feat".to_string()),
                            ConfigValue::String("fix".to_string()),
                        ]),
                    ),
                    ("max-length", ConfigValue::Integer(72)),
                    ("min-length", ConfigValue::Integer(0)),
                ]),
            ),
            ("body".to_string(), table(vec![("case", ConfigValue::String("upper-first".to_string()))])),
        ],
    );

    let settings = RulesSettings::from_params(&params).unwrap();
    assert!(!settings.set.contains(Rule::HeaderDescriptionFullStop));
    assert!(settings.set.contains(Rule::HeaderTypeCase));
    assert!(settings.set.contains(Rule::HeaderTypeEnum));
    assert!(settings.set.contains(Rule::HeaderMaxLength));
    assert!(!settings.set.contains(Rule::HeaderMinLength));
    assert!(settings.set.contains(Rule::BodyCase));
    assert!(settings.set.contains(Rule::FooterBreakingExclamation));
    assert_eq!(settings.settings.header.type_case, KeyCase::Lower);
    assert_eq!(settings.settings.header.type_enum, vec!["feat".to_string(), "fix".to_string()]);
    assert_eq!(settings.settings.header.max_length, 72);
    assert_eq!(settings.settings.header.min_length, 0);
    assert_eq!(settings.settings.body.case, TextCase::UpperFirst);
}

#[test]
fn rule_table_errors() {
    let unknown = params(
        CommitConfiguration::default(),
        vec![("footer".to_string(), table(vec![("no-such-rule", ConfigValue::Boolean(true))]))],
    );
    match RulesSettings::from_params(&unknown) {
        Err(SettingsError::UnknownRule(group, name)) => {
            assert_eq!(group, LinterGroup::Footer);
            assert_eq!(name, "no-such-rule");
        }
        other => panic!("unexpected {other:?}"),
    }

    let not_a_table = params(CommitConfiguration::default(), vec![("body".to_string(), ConfigValue::Integer(1))]);
    match RulesSettings::from_params(&not_a_table) {
        Err(SettingsError::UnexpectedFieldType(field, expected)) => {
            assert_eq!(field, "body");
            assert_eq!(expected, "table");
        }
        other => panic!("unexpected {other:?}"),
    }
}

#[test]
fn rule_setting_values() {
    let mut settings = Settings::default();

    assert!(parse_rule_setting(Rule::BodyMaxLength, &mut settings, &ConfigValue::Integer(100)).unwrap());
    assert_eq!(settings.body.max_length, 100);
    assert!(!parse_rule_setting(Rule::BodyMaxLength, &mut settings, &ConfigValue::Integer(0)).unwrap());
    assert_eq!(settings.body.max_length, 100);
    match parse_rule_setting(Rule::BodyMaxLength, &mut settings, &ConfigValue::Integer(-1)) {
        Err(SettingsError::ParseError(m)) => assert_eq!(m, "out of range integral type conversion attempted"),
        other => panic!("unexpected {other:?}"),
    }
    match parse_rule_setting(Rule::BodyMaxLength, &mut settings, &ConfigValue::Boolean(true)) {
        Err(SettingsError::UnexpectedFieldType(field, expected)) => {
            assert_eq!(field, "max-length");
            assert_eq!(expected, "integer");
        }
        other => panic!("unexpected {other:?}"),
    }

    assert!(matches!(
        parse_rule_setting(Rule::FooterKeyCase, &mut settings, &ConfigValue::String("snake".to_string())),
        Err(SettingsError::InvalidWordCase(_))
    ));
    assert!(matches!(
        parse_rule_setting(Rule::BodyCase, &mut settings, &ConfigValue::String("title".to_string())),
        Err(SettingsError::InvalidTextCase(_))
    ));
    assert!(matches!(
        parse_rule_setting(
            Rule::FooterExists,
            &mut settings,
            &ConfigValue::Array(vec![ConfigValue::String("Issue".to_string()), ConfigValue::Integer(1)])
        ),
        Err(SettingsError::UnexpectedValueType(_))
    ));
    assert!(parse_rule_setting(
        Rule::FooterExists,
        &mut settings,
        &ConfigValue::Array(vec![ConfigValue::String("Issue".to_string())])
    )
    .unwrap());
    assert_eq!(settings.footer.required, vec!["Issue".to_string()]);
    assert!(parse_rule_setting(Rule::BodyFullStop, &mut settings, &ConfigValue::Boolean(true)).unwrap());
    assert!(matches!(
        parse_rule_setting(Rule::BodyFullStop, &mut settings, &ConfigValue::Float),
        Err(SettingsError::UnexpectedFieldType(_, _))
    ));
}

#[test]
fn test_extend_with_lint_config() {
    let mut base = params(
        CommitConfiguration {
            extends: Some("base".to_string()),
            lint: Some(LintConfiguration { unsafe_fixes: Some(false) }),
            additional_footers: None,
            footer_separators: None,
            comment_symbol: None,
        },
        Vec::new(),
    );

    let other = params(
        CommitConfiguration {
            extends: Some("ignored".to_string()),
            lint: Some(LintConfiguration { unsafe_fixes: Some(true) }),
            additional_footers: None,
            footer_separators: None,
            comment_symbol: None,
        },
        Vec::new(),
    );

    base.extend(other);

    assert_eq!(base.config.lint.as_ref().unwrap().unsafe_fixes, Some(true));
    assert_eq!(base.config.extends, Some("base".to_string()));
}

#[test]
fn test_extend_with_footers() {
    let mut base = params(
        CommitConfiguration {
            extends: None,
            lint: None,
            additional_footers: Some(vec![footer_config("existing", Some("error"), "existing template")]),
            footer_separators: None,
            comment_symbol: None,
        },
        Vec::new(),
    );

    let other = params(
        CommitConfiguration {
            extends: None,
            lint: None,
            additional_footers: Some(vec![footer_config("new", Some("skip"), "new template")]),
            footer_separators: None,
            comment_symbol: None,
        },
        Vec::new(),
    );

    base.extend(other);

    let footers = base.config.additional_footers.as_ref().unwrap();
    assert_eq!(footers.len(), 2);
    let footer = &footers[0];
    assert_eq!(footer.key, "existing");
    assert_eq!(footer.on_conflict, Some("error".to_string()));
    assert_eq!(footer.value, "existing template".to_string());
    assert_eq!(footer.branch_pattern, None);
    assert_eq!(footer.separator, None);
    assert_eq!(footer.alignment, None);
}

#[test]
fn test_extend_with_empty_footers() {
    let mut base = params(CommitConfiguration::default(), Vec::new());

    let other = params(
        CommitConfiguration {
            additional_footers: Some(vec![footer_config("first", None, "template")]),
            ..CommitConfiguration::default()
        },
        Vec::new(),
    );

    base.extend(other);

    let footers = base.config.additional_footers.as_ref().unwrap();
    assert_eq!(footers.len(), 1);
    let footer = &footers[0];
    assert_eq!(footer.key, "first");
    assert_eq!(footer.on_conflict, None);
    assert_eq!(footer.value, "template".to_string());
    assert_eq!(footer.branch_pattern, None);
    assert_eq!(footer.separator, None);
    assert_eq!(footer.alignment, None);
}

#[test]
fn test_extend_with_params() {
    let mut base = params(
        CommitConfiguration::default(),
        vec![("existing_key".to_string(), ConfigValue::String("existing_value".to_string()))],
    );

    let other = params(
        CommitConfiguration::default(),
        vec![
            ("new_key".to_string(), ConfigValue::String("new_value".to_string())),
            ("existing_key".to_string(), ConfigValue::String("overridden_value".to_string())),
        ],
    );

    base.extend(other);

    assert_eq!(value_of(&base, "new_key").unwrap(), ConfigValue::String("new_value".to_string()));
    assert_eq!(
        value_of(&base, "existing_key").unwrap(),
        ConfigValue::String("overridden_value".to_string())
    );
    assert_eq!(base.lint_values.len(), 2);
}

#[test]
fn test_extend_with_none_values() {
    let mut base = params(
        CommitConfiguration {
            extends: Some("test".to_string()),
            lint: Some(LintConfiguration { unsafe_fixes: Some(true) }),
            additional_footers: Some(vec![]),
            footer_separators: None,
            comment_symbol: None,
        },
        Vec::new(),
    );

    let other = params(CommitConfiguration::default(), Vec::new());

    base.extend(other);

    assert_eq!(base.config.extends, Some("test".to_string()));
    assert_eq!(base.config.lint.as_ref().unwrap().unsafe_fixes, Some(true));
    assert_eq!(base.config.additional_footers.as_ref().unwrap().len(), 0);
}

#[test]
fn test_extend_complete_scenario() {
    let mut base = params(
        CommitConfiguration {
            extends: Some("base".to_string()),
            lint: Some(LintConfiguration { unsafe_fixes: Some(false) }),
            additional_footers: Some(vec![footer_config("base_footer", Some("error"), "base template")]),
            footer_separators: None,
            comment_symbol: None,
        },
        vec![("base_param".to_string(), ConfigValue::String("base_value".to_string()))],
    );

    let other = params(
        CommitConfiguration {
            extends: Some("should_be_ignored".to_string()),
            lint: Some(LintConfiguration { unsafe_fixes: Some(true) }),
            additional_footers: Some(vec![footer_config("other_footer", Some("skip"), "base template")]),
            footer_separators: None,
            comment_symbol: None,
        },
        vec![
            ("other_param".to_string(), ConfigValue::String("other_value".to_string())),
            ("base_param".to_string(), ConfigValue::String("overridden_value".to_string())),
        ],
    );

    base.extend(other);

    assert_eq!(base.config.lint.as_ref().unwrap().unsafe_fixes, Some(true));

    let footers = base.config.additional_footers.as_ref().unwrap();
    assert_eq!(footers.len(), 2);
    let footer = &footers[0];
    assert_eq!(footer.key, "base_footer");
    assert_eq!(footer.on_conflict, Some("error".to_string()));
    assert_eq!(footer.value, "base template".to_string());
    assert_eq!(footer.branch_pattern, None);
    assert_eq!(footer.separator, None);
    assert_eq!(footer.alignment, None);

    assert_eq!(
        value_of(&base, "base_param").unwrap(),
        ConfigValue::String("overridden_value".to_string())
    );
    assert_eq!(value_of(&base, "other_param").unwrap(), ConfigValue::String("other_value".to_string()));

    assert_eq!(base.config.extends, Some("base".to_string()));
}

#[test]
fn commit_settings_from_params() {
    let p = params(
        CommitConfiguration {
            extends: None,
            lint: Some(LintConfiguration { unsafe_fixes: Some(true) }),
            footer_separators: Some(":#".to_string()),
            comment_symbol: Some(";".to_string()),
            additional_footers: Some(vec![footer_config("Footer", Some("append"), "${{ TASK }}")]),
        },
        Vec::new(),
    );
    let lint = LintSettings::from_params(&p);
    assert!(lint.unsafe_fixes);
    let settings = CommitSettings::from_params(p).unwrap();
    assert!(settings.lint.unsafe_fixes);
    assert_eq!(settings.footers.len(), 1);
    assert_eq!(settings.footers[0].on_conflict, OnConflictAction::Append);
    assert_eq!(settings.footer_separators, Some(":#".to_string()));
    assert_eq!(settings.comment_symbol, Some(";".to_string()));
    assert_eq!(settings.rules.set, RuleSet::default());

    let bad = params(
        CommitConfiguration {
            additional_footers: Some(vec![
                footer_config("A", None, "a"),
                footer_config("B", Some("never"), "b"),
            ]),
            ..CommitConfiguration::default()
        },
        Vec::new(),
    );
    assert!(matches!(CommitSettings::from_params(bad), Err(SettingsError::UnknownOnConflictAction(_))));
}

#[test]
fn footers_compare_without_branch_patterns() {
    let a = AdditionalFooter::from_config(footer_config("Footer", Some("error"), "x ${{ Y }}")).unwrap();
    let mut with_pattern = footer_config("Footer", Some("error"), "x ${{ Y }}");
    with_pattern.branch_pattern = Some("feature/(.*)".to_string());
    let b = AdditionalFooter::from_config(with_pattern).unwrap();
    assert!(a == b);
    let c = AdditionalFooter::from_config(footer_config("Footer", Some("skip"), "x ${{ Y }}")).unwrap();
    assert!(a != c);
    let d = AdditionalFooter::from_config(footer_config("Footer", Some("error"), "x ${{ Z }}")).unwrap();
    assert!(a != d);
}

#[test]
fn table_holds_each_key_once() {
    let t = ConfigTable::from_entries(vec![
        ("header".to_string(), ConfigValue::Boolean(true)),
        ("body".to_string(), ConfigValue::Integer(1)),
        ("header".to_string(), ConfigValue::Integer(2)),
    ]);
    assert_eq!(t.len(), 2);
    assert_eq!(t.get("header"), Some(&ConfigValue::Integer(2)));
    assert_eq!(t.get("body"), Some(&ConfigValue::Integer(1)));
    assert_eq!(t.get("footer"), None);
    assert_eq!(t.entries().len(), 2);
    assert_eq!(ConfigTable::new().len(), 0);
}

#[test]
fn lint_table_is_selected() {
    let doc = ConfigTable::from_entries(vec![
        ("extends".to_string(), ConfigValue::String("base.toml".to_string())),
        ("lint".to_string(), table(vec![("header", ConfigValue::Boolean(true))])),
    ]);
    let lint = lint_table_of(doc).unwrap();
    assert_eq!(lint.len(), 1);
    assert!(lint.get("header").is_some());

    let none = ConfigTable::from_entries(vec![("extends".to_string(), ConfigValue::String("x".to_string()))]);
    assert_eq!(lint_table_of(none).unwrap().len(), 0);

    let wrong = ConfigTable::from_entries(vec![("lint".to_string(), ConfigValue::Integer(1))]);
    match lint_table_of(wrong) {
        Err(SettingsError::UnexpectedFieldType(a, b)) => {
            assert_eq!(a, "lint");
            assert_eq!(b, "table");
        }
        _ => panic!("error expected"),
    }
}

#[test]
fn lint_values_from_text() {
    let text = "extends = \"base.toml\"\n\n[lint.header]\ntype-case = \"lower\"\n\n[lint.body]\nfull-stop = true\n";
    let lint = lint_values_of_text(text).unwrap();
    assert_eq!(lint.len(), 2);
    assert!(matches!(lint.get("header"), Some(ConfigValue::Table(_))));
    match lint.get("body") {
        Some(ConfigValue::Table(t)) => assert_eq!(t.get("full-stop"), Some(&ConfigValue::Boolean(true))),
        _ => panic!("table expected"),
    }
    assert_eq!(lint_values_of_text("extends = \"x\"").unwrap().len(), 0);
    assert!(matches!(lint_values_of_text("lint = 1"), Err(SettingsError::UnexpectedFieldType(_, _))));
    assert!(matches!(lint_values_of_text("invalid toml [[["), Err(SettingsError::TomlParseError(_))));
}

#[test]
fn parsed_table_converts_values() {
    let t = ConfigTable::parse("a = 1\nb = 2.5\nc = [\"x\", true]\nd = 1979-05-27\n").unwrap();
    assert_eq!(t.get("a"), Some(&ConfigValue::Integer(1)));
    assert_eq!(t.get("b"), Some(&ConfigValue::Float));
    assert_eq!(
        t.get("c"),
        Some(&ConfigValue::Array(vec![ConfigValue::String("x".to_string()), ConfigValue::Boolean(true)]))
    );
    assert_eq!(t.get("d"), Some(&ConfigValue::Datetime("1979-05-27".to_string())));
}

