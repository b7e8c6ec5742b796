//! Reading the setting of one rule from the configuration.
use vstd::prelude::*;

use crate::cc::header::strings_view;
use crate::linter::case::{key_case_name, text_case_name, KeyCase, TextCase};
use crate::linter::rule::{rule_code, Rule};
use crate::cc::message::Message;
use crate::linter::attribution::rule_report;
use crate::linter::rules::Settings;
use crate::linter::violation::RuleViolation;
use crate::workspace::value::ConfigValue;
use crate::workspace::{ErrorModel, SettingsError};

verus! {

/// Mathematical model of the header settings.
pub struct HeaderSettingsModel {
    pub type_case: KeyCase,
    pub type_max_length: usize,
    pub type_min_length: usize,
    pub type_enum: Seq<Seq<char>>,
    pub scope_case: KeyCase,
    pub scope_max_length: usize,
    pub scope_min_length: usize,
    pub scope_enum: Seq<Seq<char>>,
    pub description_case: TextCase,
    pub description_max_length: usize,
    pub description_min_length: usize,
    pub max_length: usize,
    pub min_length: usize,
}

/// Mathematical model of the body settings.
pub struct BodySettingsModel {
    pub max_line_length: usize,
    pub max_length: usize,
    pub min_length: usize,
    pub case: TextCase,
}

/// Mathematical model of the footer settings.
pub struct FooterSettingsModel {
    pub max_line_length: usize,
    pub max_length: usize,
    pub min_length: usize,
    pub key_case: KeyCase,
    pub required: Seq<Seq<char>>,
}

/// Mathematical model of the settings of all rules.
pub struct SettingsModel {
    pub header: HeaderSettingsModel,
    pub body: BodySettingsModel,
    pub footer: FooterSettingsModel,
}

/// The model of `s`.
pub open spec fn settings_model(s: Settings) -> SettingsModel {
    SettingsModel {
        header: HeaderSettingsModel {
            type_case: s.header.type_case,
            type_max_length: s.header.type_max_length,
            type_min_length: s.header.type_min_length,
            type_enum: strings_view(s.header.type_enum@),
            scope_case: s.header.scope_case,
            scope_max_length: s.header.scope_max_length,
            scope_min_length: s.header.scope_min_length,
            scope_enum: strings_view(s.header.scope_enum@),
            description_case: s.header.description_case,
            description_max_length: s.header.description_max_length,
            description_min_length: s.header.description_min_length,
            max_length: s.header.max_length,
            min_length: s.header.min_length,
        },
        body: BodySettingsModel {
            max_line_length: s.body.max_line_length,
            max_length: s.body.max_length,
            min_length: s.body.min_length,
            case: s.body.case,
        },
        footer: FooterSettingsModel {
            max_line_length: s.footer.max_line_length,
            max_length: s.footer.max_length,
            min_length: s.footer.min_length,
            key_case: s.footer.key_case,
            required: strings_view(s.footer.required@),
        },
    }
}

/// The kinds of rule settings.
pub enum SettingKind {
    /// A number of characters; 0 switches the rule off.
    Length,
    /// A case of text, by name.
    TextCase,
    /// A case of words, by name.
    KeyCase,
    /// A list of strings.
    List,
    /// Whether the rule is on.
    Toggle,
}

pub open spec fn setting_kind(rule: Rule) -> SettingKind {
    match rule {
        Rule::HeaderDescriptionMaxLength | Rule::HeaderDescriptionMinLength | Rule::HeaderMaxLength
        | Rule::HeaderMinLength | Rule::HeaderScopeMaxLength | Rule::HeaderScopeMinLength
        | Rule::HeaderTypeMaxLength | Rule::HeaderTypeMinLength | Rule::BodyMaxLineLength
        | Rule::BodyMaxLength | Rule::BodyMinLength | Rule::FooterMaxLength
        | Rule::FooterMinLength | Rule::FooterMaxLineLength => SettingKind::Length,
        Rule::HeaderDescriptionCase | Rule::BodyCase => SettingKind::TextCase,
        Rule::HeaderScopeCase | Rule::HeaderTypeCase | Rule::FooterKeyCase => SettingKind::KeyCase,
        Rule::HeaderScopeEnum | Rule::HeaderTypeEnum | Rule::FooterExists => SettingKind::List,
        _ => SettingKind::Toggle,
    }
}

/// The settings with the length of `rule` set to `n`.
pub open spec fn with_length(m: SettingsModel, rule: Rule, n: usize) -> SettingsModel {
    let h = m.header;
    let b = m.body;
    let f = m.footer;
    match rule {
        Rule::HeaderDescriptionMaxLength => SettingsModel {
            header: HeaderSettingsModel { description_max_length: n, ..h },
            ..m
        },
        Rule::HeaderDescriptionMinLength => SettingsModel {
            header: HeaderSettingsModel { description_min_length: n, ..h },
            ..m
        },
        Rule::HeaderMaxLength => SettingsModel { header: HeaderSettingsModel { max_length: n, ..h }, ..m },
        Rule::HeaderMinLength => SettingsModel { header: HeaderSettingsModel { min_length: n, ..h }, ..m },
        Rule::HeaderScopeMaxLength => SettingsModel {
            header: HeaderSettingsModel { scope_max_length: n, ..h },
            ..m
        },
        Rule::HeaderScopeMinLength => SettingsModel {
            header: HeaderSettingsModel { scope_min_length: n, ..h },
            ..m
        },
        Rule::HeaderTypeMaxLength => SettingsModel {
            header: HeaderSettingsModel { type_max_length: n, ..h },
            ..m
        },
        Rule::HeaderTypeMinLength => SettingsModel {
            header: HeaderSettingsModel { type_min_length: n, ..h },
            ..m
        },
        Rule::BodyMaxLineLength => SettingsModel { body: BodySettingsModel { max_line_length: n, ..b }, ..m },
        Rule::BodyMaxLength => SettingsModel { body: BodySettingsModel { max_length: n, ..b }, ..m },
        Rule::BodyMinLength => SettingsModel { body: BodySettingsModel { min_length: n, ..b }, ..m },
        Rule::FooterMaxLength => SettingsModel { footer: FooterSettingsModel { max_length: n, ..f }, ..m },
        Rule::FooterMinLength => SettingsModel { footer: FooterSettingsModel { min_length: n, ..f }, ..m },
        Rule::FooterMaxLineLength => SettingsModel {
            footer: FooterSettingsModel { max_line_length: n, ..f },
            ..m
        },
        _ => m,
    }
}

/// The settings with the text case of `rule` set to `c`.
pub open spec fn with_text_case(m: SettingsModel, rule: Rule, c: TextCase) -> SettingsModel {
    match rule {
        Rule::HeaderDescriptionCase => SettingsModel {
            header: HeaderSettingsModel { description_case: c, ..m.header },
            ..m
        },
        Rule::BodyCase => SettingsModel { body: BodySettingsModel { case: c, ..m.body }, ..m },
        _ => m,
    }
}

/// The settings with the word case of `rule` set to `c`.
pub open spec fn with_key_case(m: SettingsModel, rule: Rule, c: KeyCase) -> SettingsModel {
    match rule {
        Rule::HeaderScopeCase => SettingsModel {
            header: HeaderSettingsModel { scope_case: c, ..m.header },
            ..m
        },
        Rule::HeaderTypeCase => SettingsModel {
            header: HeaderSettingsModel { type_case: c, ..m.header },
            ..m
        },
        Rule::FooterKeyCase => SettingsModel {
            footer: FooterSettingsModel { key_case: c, ..m.footer },
            ..m
        },
        _ => m,
    }
}

/// The settings with the list of `rule` set to `l`.
pub open spec fn with_list(m: SettingsModel, rule: Rule, l: Seq<Seq<char>>) -> SettingsModel {
    match rule {
        Rule::HeaderScopeEnum => SettingsModel {
            header: HeaderSettingsModel { scope_enum: l, ..m.header },
            ..m
        },
        Rule::HeaderTypeEnum => SettingsModel {
            header: HeaderSettingsModel { type_enum: l, ..m.header },
            ..m
        },
        Rule::FooterExists => SettingsModel {
            footer: FooterSettingsModel { required: l, ..m.footer },
            ..m
        },
        _ => m,
    }
}

/// The text case named `name`.
pub open spec fn text_case_named(name: Seq<char>) -> Option<TextCase> {
    if exists|c: TextCase| text_case_name(c) == name {
        Some(choose|c: TextCase| text_case_name(c) == name)
    } else {
        None
    }
}

/// The word case named `name`.
pub open spec fn key_case_named(name: Seq<char>) -> Option<KeyCase> {
    if exists|c: KeyCase| key_case_name(c) == name {
        Some(choose|c: KeyCase| key_case_name(c) == name)
    } else {
        None
    }
}

/// The strings of an array, when every item is a string.
pub open spec fn array_strings(items: Seq<ConfigValue>) -> Option<Seq<Seq<char>>>
    decreases items.len(),
{
    if items.len() == 0 {
        Some(Seq::empty())
    } else {
        match (array_strings(items.drop_last()), items.last()) {
            (Some(l), ConfigValue::String(s)) => Some(l.push(s@)),
            _ => None,
        }
    }
}

/// The message of a failed conversion of a negative or too large integer.
pub open spec fn out_of_range_text() -> Seq<char> {
    "out of range integral type conversion attempted"@
}

/// The error for a value of the wrong type for `rule`.
pub open spec fn wrong_type(rule: Rule, expected: Seq<char>) -> ErrorModel {
    ErrorModel::UnexpectedFieldType(rule_code(rule), expected)
}

/// What the setting `v` of `rule` does to the settings `m`: the new settings,
/// and whether the rule is on, or the error.
pub open spec fn rule_setting(m: SettingsModel, rule: Rule, v: ConfigValue) -> (
    SettingsModel,
    Result<bool, ErrorModel>,
) {
    match setting_kind(rule) {
        SettingKind::Length => match v {
            ConfigValue::Integer(i) => if i < 0 || i > usize::MAX {
                (m, Err(ErrorModel::ParseError(out_of_range_text())))
            } else if i == 0 {
                (m, Ok(false))
            } else {
                (with_length(m, rule, i as usize), Ok(true))
            },
            _ => (m, Err(wrong_type(rule, "integer"@))),
        },
        SettingKind::TextCase => match v {
            ConfigValue::String(s) => match text_case_named(s@) {
                Some(c) => (with_text_case(m, rule, c), Ok(true)),
                None => (m, Err(ErrorModel::InvalidTextCase(s@))),
            },
            _ => (m, Err(wrong_type(rule, "string"@))),
        },
        SettingKind::KeyCase => match v {
            ConfigValue::String(s) => match key_case_named(s@) {
                Some(c) => (with_key_case(m, rule, c), Ok(true)),
                None => (m, Err(ErrorModel::InvalidWordCase(s@))),
            },
            _ => (m, Err(wrong_type(rule, "string"@))),
        },
        SettingKind::List => match v {
            ConfigValue::Array(items) => match array_strings(items@) {
                Some(l) => (with_list(m, rule, l), Ok(true)),
                None => (m, Err(ErrorModel::UnexpectedValueType("string"@))),
            },
            _ => (m, Err(wrong_type(rule, "array"@))),
        },
        SettingKind::Toggle => match v {
            ConfigValue::Boolean(b) => (m, Ok(b)),
            _ => (m, Err(wrong_type(rule, "bool"@))),
        },
    }
}

/// Every text case is found again by its name: `TextCase::from_name` undoes
/// `TextCase::name`.
pub proof fn law_text_case_name_round_trip(name: Seq<char>, c: TextCase)
    requires
        text_case_name(c) == name,
    ensures
        text_case_named(name) == Some(c),
{
    let d = choose|d: TextCase| text_case_name(d) == name;
    assert(text_case_name(d) == name);
    reveal_strlit("any");
    reveal_strlit("lower-first");
    reveal_strlit("upper-first");
    assert(d == c) by {
        match (c, d) {
            (TextCase::Any, TextCase::LowerFirst) => assert("any"@.len() != "lower-first"@.len()),
            (TextCase::Any, TextCase::UpperFirst) => assert("any"@.len() != "upper-first"@.len()),
            (TextCase::LowerFirst, TextCase::Any) => assert("any"@.len() != "lower-first"@.len()),
            (TextCase::UpperFirst, TextCase::Any) => assert("any"@.len() != "upper-first"@.len()),
            (TextCase::LowerFirst, TextCase::UpperFirst) => assert("lower-first"@[0] != "upper-first"@[0]),
            (TextCase::UpperFirst, TextCase::LowerFirst) => assert("lower-first"@[0] != "upper-first"@[0]),
            _ => {},
        }
    }
}

/// Every word case is found again by its name: `KeyCase::from_name` undoes
/// `KeyCase::name`.
pub proof fn law_key_case_name_round_trip(name: Seq<char>, c: KeyCase)
    requires
        key_case_name(c) == name,
    ensures
        key_case_named(name) == Some(c),
{
    let d = choose|d: KeyCase| key_case_name(d) == name;
    assert(key_case_name(d) == name);
    reveal_strlit("any");
    reveal_strlit("camel");
    reveal_strlit("kebab");
    reveal_strlit("pascal");
    reveal_strlit("capitalized-kebab");
    reveal_strlit("lower");
    reveal_strlit("upper");
    assert(d == c) by {
        if d != c {
            let x = key_case_name(c);
            let y = key_case_name(d);
            assert(x == y);
            assert(x.len() == y.len());
            assert(x[0] == y[0]);
            assert(x.len() > 1 ==> x[1] == y[1]);
        }
    }
}

/// The number of characters that a violation of a length rule names.
pub open spec fn violation_limit(v: RuleViolation) -> Option<usize> {
    match v {
        RuleViolation::DescriptionMaxLength { length } => Some(length),
        RuleViolation::DescriptionMinLength { length } => Some(length),
        RuleViolation::TypeMaxLength { length } => Some(length),
        RuleViolation::TypeMinLength { length } => Some(length),
        RuleViolation::ScopeMaxLength { length } => Some(length),
        RuleViolation::ScopeMinLength { length } => Some(length),
        RuleViolation::HeaderMaxLength { length } => Some(length),
        RuleViolation::HeaderMinLength { length } => Some(length),
        RuleViolation::BodyMaxLineLength { length } => Some(length),
        RuleViolation::BodyMaxLength { length } => Some(length),
        RuleViolation::BodyMinLength { length } => Some(length),
        RuleViolation::FooterMaxLength { length } => Some(length),
        RuleViolation::FooterMaxLineLength { length } => Some(length),
        RuleViolation::FooterMinLength { length } => Some(length),
        _ => None,
    }
}

/// Reading a number `n` above 0 for a length rule `r` gives `r` the limit `n`
/// and touches no other rule: afterwards, what `r` reports in a lint run names
/// the limit `n` and does not depend on the settings before; and every other
/// rule (but one that holds a list) reports what it reported before.
pub proof fn law_length_setting_is_the_rules_limit(
    s1: Settings,
    s2: Settings,
    t1: Settings,
    t2: Settings,
    r: Rule,
    n: i64,
    m: Message,
)
    requires
        setting_kind(r) is Length,
        0 < n <= usize::MAX,
        settings_model(s2) == rule_setting(settings_model(s1), r, ConfigValue::Integer(n)).0,
        settings_model(t2) == rule_setting(settings_model(t1), r, ConfigValue::Integer(n)).0,
    ensures
        forall|v: RuleViolation| #[trigger] rule_report(s2, m, r).contains(v) ==> violation_limit(v) == Some(
            n as usize,
        ),
        rule_report(s2, m, r) == rule_report(t2, m, r),
        forall|r2: Rule|
            r2 != r && !(setting_kind(r2) is List) ==> #[trigger] rule_report(s2, m, r2) == rule_report(
                s1,
                m,
                r2,
            ),
{
    reveal(rule_report);
    assert forall|v: RuleViolation| #[trigger] rule_report(s2, m, r).contains(v) implies violation_limit(v)
        == Some(n as usize) by {
        let k = choose|k: int| 0 <= k < rule_report(s2, m, r).len() && rule_report(s2, m, r)[k] == v;
    }
}

/// The text case that a violation of a text-case rule names.
pub open spec fn violation_text_case(v: RuleViolation) -> Option<TextCase> {
    match v {
        RuleViolation::DescriptionCase { case } => Some(case),
        RuleViolation::BodyCase { case } => Some(case),
        _ => None,
    }
}

/// The word case that a violation of a word-case rule names.
pub open spec fn violation_key_case(v: RuleViolation) -> Option<KeyCase> {
    match v {
        RuleViolation::TypeCase { case } => Some(case),
        RuleViolation::ScopeCase { case } => Some(case),
        RuleViolation::KeyCase { case } => Some(case),
        _ => None,
    }
}

/// Reading the name of a case for a case rule `r` gives `r` that case and
/// touches no other rule: afterwards what `r` reports names that case and does
/// not depend on the settings before, and every other rule (but one that
/// holds a list) reports what it reported before.
pub proof fn law_case_setting_is_the_rules_case(
    s1: Settings,
    s2: Settings,
    t1: Settings,
    t2: Settings,
    r: Rule,
    name: String,
    m: Message,
)
    requires
        setting_kind(r) is TextCase || setting_kind(r) is KeyCase,
        text_case_named(name@) is Some || key_case_named(name@) is Some,
        setting_kind(r) is TextCase ==> text_case_named(name@) is Some,
        setting_kind(r) is KeyCase ==> key_case_named(name@) is Some,
        settings_model(s2) == rule_setting(settings_model(s1), r, ConfigValue::String(name)).0,
        settings_model(t2) == rule_setting(settings_model(t1), r, ConfigValue::String(name)).0,
    ensures
        setting_kind(r) is TextCase ==> forall|v: RuleViolation| #[trigger] rule_report(s2, m, r).contains(v)
            ==> violation_text_case(v) == text_case_named(name@),
        setting_kind(r) is KeyCase ==> forall|v: RuleViolation| #[trigger] rule_report(s2, m, r).contains(v)
            ==> violation_key_case(v) == key_case_named(name@),
        rule_report(s2, m, r) == rule_report(t2, m, r),
        forall|r2: Rule|
            r2 != r && !(setting_kind(r2) is List) ==> #[trigger] rule_report(s2, m, r2) == rule_report(
                s1,
                m,
                r2,
            ),
{
    reveal(rule_report);
    assert forall|v: RuleViolation| #[trigger] rule_report(s2, m, r).contains(v) implies (setting_kind(r) is TextCase
        ==> violation_text_case(v) == text_case_named(name@)) && (setting_kind(r) is KeyCase
        ==> violation_key_case(v) == key_case_named(name@)) by {
        let k = choose|k: int| 0 <= k < rule_report(s2, m, r).len() && rule_report(s2, m, r)[k] == v;
    }
}

/// A number of characters for `rule`: 0 switches it off.
fn read_length(rule: Rule, v: &ConfigValue) -> (r: Result<usize, SettingsError>)
    ensures
        match *v {
            ConfigValue::Integer(i) => if i < 0 || i > usize::MAX {
                r matches Err(e) && e@ == ErrorModel::ParseError(out_of_range_text())
            } else {
                r == Ok::<usize, SettingsError>(i as usize)
            },
            _ => r matches Err(e) && e@ == wrong_type(rule, "integer"@),
        },
{
    match v {
        ConfigValue::Integer(i) => {
            let i = *i;
            if i < 0 || (i as u64) > (usize::MAX as u64) {
                proof {
                    reveal_strlit("out of range integral type conversion attempted");
                }
                Err(SettingsError::ParseError("out of range integral type conversion attempted".to_owned()))
            } else {
                Ok(i as usize)
            }
        },
        _ => {
            proof {
                reveal_strlit("integer");
            }
            Err(SettingsError::UnexpectedFieldType(rule.as_display().to_owned(), "integer".to_owned()))
        },
    }
}

/// A case of text for `rule`, by name.
fn read_text_case(rule: Rule, v: &ConfigValue) -> (r: Result<TextCase, SettingsError>)
    ensures
        match *v {
            ConfigValue::String(s) => match text_case_named(s@) {
                Some(c) => r == Ok::<TextCase, SettingsError>(c),
                None => r matches Err(e) && e@ == ErrorModel::InvalidTextCase(s@),
            },
            _ => r matches Err(e) && e@ == wrong_type(rule, "string"@),
        },
{
    match v {
        ConfigValue::String(s) => match TextCase::from_name(s.as_str()) {
            Some(c) => {
                proof {
                    law_text_case_name_round_trip(s@, c);
                }
                Ok(c)
            },
            None => Err(SettingsError::InvalidTextCase(s.clone())),
        },
        _ => {
            proof {
                reveal_strlit("string");
            }
            Err(SettingsError::UnexpectedFieldType(rule.as_display().to_owned(), "string".to_owned()))
        },
    }
}

/// A case of words for `rule`, by name.
fn read_key_case(rule: Rule, v: &ConfigValue) -> (r: Result<KeyCase, SettingsError>)
    ensures
        match *v {
            ConfigValue::String(s) => match key_case_named(s@) {
                Some(c) => r == Ok::<KeyCase, SettingsError>(c),
                None => r matches Err(e) && e@ == ErrorModel::InvalidWordCase(s@),
            },
            _ => r matches Err(e) && e@ == wrong_type(rule, "string"@),
        },
{
    match v {
        ConfigValue::String(s) => match KeyCase::from_name(s.as_str()) {
            Some(c) => {
                proof {
                    law_key_case_name_round_trip(s@, c);
                }
                Ok(c)
            },
            None => Err(SettingsError::InvalidWordCase(s.clone())),
        },
        _ => {
            proof {
                reveal_strlit("string");
            }
            Err(SettingsError::UnexpectedFieldType(rule.as_display().to_owned(), "string".to_owned()))
        },
    }
}

/// A list of strings for `rule`.
fn read_strings(rule: Rule, v: &ConfigValue) -> (r: Result<Vec<String>, SettingsError>)
    ensures
        match *v {
            ConfigValue::Array(items) => match array_strings(items@) {
                Some(l) => r matches Ok(list) && strings_view(list@) == l,
                None => r matches Err(e) && e@ == ErrorModel::UnexpectedValueType("string"@),
            },
            _ => r matches Err(e) && e@ == wrong_type(rule, "array"@),
        },
{
    match v {
        ConfigValue::Array(items) => {
            let mut list: Vec<String> = Vec::new();
            let mut i: usize = 0;
            assert(strings_view(list@) =~= Seq::<Seq<char>>::empty());
            while i < items.len()
                invariant
                    *v == ConfigValue::Array(*items),
                    i <= items@.len(),
                    array_strings(items@.take(i as int)) == Some(strings_view(list@)),
                decreases items.len() - i,
            {
                assert(items@.take(i + 1).drop_last() =~= items@.take(i as int));
                match &items[i] {
                    ConfigValue::String(s) => {
                        let ghost before = list@;
                        list.push(s.clone());
                        assert(strings_view(list@) =~= strings_view(before).push(s@));
                    },
                    _ => {
                        proof {
                            assert(items@.take(i + 1).last() == items@[i as int]);
                            assert(array_strings(items@.take(i + 1)) is None);
                            lemma_array_strings_prefix(items@, i as int + 1);
                        }
                        return Err(SettingsError::UnexpectedValueType("string".to_owned()));
                    },
                }
                i = i + 1;
            }
            assert(items@.take(items@.len() as int) =~= items@);
            Ok(list)
        },
        _ => {
            proof {
                reveal_strlit("array");
            }
            Err(SettingsError::UnexpectedFieldType(rule.as_display().to_owned(), "array".to_owned()))
        },
    }
}

/// An array whose prefix of `n` items has an item that is no string has none
/// of all strings either.
proof fn lemma_array_strings_prefix(items: Seq<ConfigValue>, n: int)
    requires
        0 <= n <= items.len(),
        array_strings(items.take(n)) is None,
    ensures
        array_strings(items) is None,
    decreases items.len() - n,
{
    if n < items.len() {
        assert(items.take(n + 1).drop_last() =~= items.take(n));
        lemma_array_strings_prefix(items, n + 1);
    } else {
        assert(items.take(n) =~= items);
    }
}

/// Whether `rule` is on.
fn read_toggle(rule: Rule, v: &ConfigValue) -> (r: Result<bool, SettingsError>)
    ensures
        match *v {
            ConfigValue::Boolean(b) => r == Ok::<bool, SettingsError>(b),
            _ => r matches Err(e) && e@ == wrong_type(rule, "bool"@),
        },
{
    match v {
        ConfigValue::Boolean(b) => Ok(*b),
        _ => {
            proof {
                reveal_strlit("bool");
            }
            Err(SettingsError::UnexpectedFieldType(rule.as_display().to_owned(), "bool".to_owned()))
        },
    }
}

/// Reads the setting `value` of `rule` into `settings`. Returns whether the
/// rule is on: a number switches it off when it is 0; a case or a list
/// switches it on; a rule without setting takes `true` or `false`.
pub fn parse_rule_setting(rule: Rule, settings: &mut Settings, value: &ConfigValue) -> (r: Result<
    bool,
    SettingsError,
>)
    ensures
        (settings_model(*final(settings)), crate::workspace::result_view(r)) == rule_setting(
            settings_model(*old(settings)),
            rule,
            *value,
        ),
{
    match setting_kind_exec(rule) {
        0 => {
            let n = match read_length(rule, value) {
                Ok(n) => n,
                Err(e) => return Err(e),
            };
            if n == 0 {
                return Ok(false);
            }
            match rule {
                Rule::HeaderDescriptionMaxLength => settings.header.description_max_length = n,
                Rule::HeaderDescriptionMinLength => settings.header.description_min_length = n,
                Rule::HeaderMaxLength => settings.header.max_length = n,
                Rule::HeaderMinLength => settings.header.min_length = n,
                Rule::HeaderScopeMaxLength => settings.header.scope_max_length = n,
                Rule::HeaderScopeMinLength => settings.header.scope_min_length = n,
                Rule::HeaderTypeMaxLength => settings.header.type_max_length = n,
                Rule::HeaderTypeMinLength => settings.header.type_min_length = n,
                Rule::BodyMaxLineLength => settings.body.max_line_length = n,
                Rule::BodyMaxLength => settings.body.max_length = n,
                Rule::BodyMinLength => settings.body.min_length = n,
                Rule::FooterMaxLength => settings.footer.max_length = n,
                Rule::FooterMinLength => settings.footer.min_length = n,
                Rule::FooterMaxLineLength => settings.footer.max_line_length = n,
                _ => {},
            }
            Ok(true)
        },
        1 => {
            let c = match read_text_case(rule, value) {
                Ok(c) => c,
                Err(e) => return Err(e),
            };
            match rule {
                Rule::HeaderDescriptionCase => settings.header.description_case = c,
                Rule::BodyCase => settings.body.case = c,
                _ => {},
            }
            Ok(true)
        },
        2 => {
            let c = match read_key_case(rule, value) {
                Ok(c) => c,
                Err(e) => return Err(e),
            };
            match rule {
                Rule::HeaderScopeCase => settings.header.scope_case = c,
                Rule::HeaderTypeCase => settings.header.type_case = c,
                Rule::FooterKeyCase => settings.footer.key_case = c,
                _ => {},
            }
            Ok(true)
        },
        3 => {
            let l = match read_strings(rule, value) {
                Ok(l) => l,
                Err(e) => return Err(e),
            };
            match rule {
                Rule::HeaderScopeEnum => settings.header.scope_enum = l,
                Rule::HeaderTypeEnum => settings.header.type_enum = l,
                Rule::FooterExists => settings.footer.required = l,
                _ => {},
            }
            Ok(true)
        },
        _ => read_toggle(rule, value),
    }
}

/// The kind of setting of `rule`: 0 length, 1 text case, 2 word case, 3 list,
/// 4 toggle.
fn setting_kind_exec(rule: Rule) -> (k: u8)
    ensures
        k == match setting_kind(rule) {
            SettingKind::Length => 0u8,
            SettingKind::TextCase => 1u8,
            SettingKind::KeyCase => 2u8,
            SettingKind::List => 3u8,
            SettingKind::Toggle => 4u8,
        },
{
    match rule {
        Rule::HeaderDescriptionMaxLength | Rule::HeaderDescriptionMinLength | Rule::HeaderMaxLength
        | Rule::HeaderMinLength | Rule::HeaderScopeMaxLength | Rule::HeaderScopeMinLength
        | Rule::HeaderTypeMaxLength | Rule::HeaderTypeMinLength | Rule::BodyMaxLineLength
        | Rule::BodyMaxLength | Rule::BodyMinLength | Rule::FooterMaxLength
        | Rule::FooterMinLength | Rule::FooterMaxLineLength => 0,
        Rule::HeaderDescriptionCase | Rule::BodyCase => 1,
        Rule::HeaderScopeCase | Rule::HeaderTypeCase | Rule::FooterKeyCase => 2,
        Rule::HeaderScopeEnum | Rule::HeaderTypeEnum | Rule::FooterExists => 3,
        _ => 4,
    }
}

} // verus!
