//! The settings that the configuration makes: the rules and their settings,
//! the lint options and the footers that the formatter adds.
use vstd::prelude::*;

use crate::cc::footer::SeparatorAlignment;
use crate::cc::header::strings_view;
use crate::linter::rule::{group_name, rule_named, LinterGroup, Rule};
use crate::linter::rule_set::{default_rules, RuleSet};
use crate::linter::rules::{body, footer, header, Settings};
use crate::pattern::{regex_accepts, Pattern};
use crate::text::str_eq;
use crate::tpl::{parse_error_text, parse_template, Template};
use crate::workspace::configuration::{AdditionalFooterConfig, CommitParams, LintConfiguration};
use crate::workspace::rules::{
    parse_rule_setting, rule_setting, settings_model, BodySettingsModel, FooterSettingsModel,
    HeaderSettingsModel, SettingsModel,
};
use crate::workspace::value::{lookup, ConfigTable, ConfigValue};
use crate::workspace::{ErrorModel, SettingsError};

verus! {

/// What to do when a message has a footer of the key to add already.
#[derive(Debug, PartialEq, Eq, Copy, Clone, Structural)]
pub enum OnConflictAction {
    /// Keep the message's footer, add none.
    Skip,
    /// Add the footer all the same.
    Append,
    /// Fail.
    Error,
}

impl Default for OnConflictAction {
    fn default() -> (a: Self)
        ensures
            a == OnConflictAction::Skip,
    {
        OnConflictAction::Skip
    }
}

/// The action named `s` in the configuration.
pub open spec fn on_conflict_named(s: Seq<char>) -> Option<OnConflictAction> {
    if s == "skip"@ {
        Some(OnConflictAction::Skip)
    } else if s == "append"@ {
        Some(OnConflictAction::Append)
    } else if s == "error"@ {
        Some(OnConflictAction::Error)
    } else {
        None
    }
}

impl OnConflictAction {
    /// The action named `s`: `skip`, `append` or `error`.
    pub fn from_config(s: &str) -> (r: Result<Self, SettingsError>)
        ensures
            match on_conflict_named(s@) {
                Some(a) => r == Ok::<OnConflictAction, SettingsError>(a),
                None => r matches Err(e) && e@ == ErrorModel::UnknownOnConflictAction(s@),
            },
    {
        if str_eq(s, "skip") {
            Ok(OnConflictAction::Skip)
        } else if str_eq(s, "append") {
            Ok(OnConflictAction::Append)
        } else if str_eq(s, "error") {
            Ok(OnConflictAction::Error)
        } else {
            Err(SettingsError::UnknownOnConflictAction(s.to_owned()))
        }
    }
}

/// A footer that the formatter adds.
#[derive(Debug)]
pub struct AdditionalFooter {
    pub key: String,
    pub value: Template,
    pub branch_pattern: Option<Pattern>,
    pub on_conflict: OnConflictAction,
    pub separator: Option<char>,
    pub alignment: Option<SeparatorAlignment>,
}

impl PartialEq for AdditionalFooter {
    /// Footers are equal when all but their branch patterns are.
    fn eq(&self, other: &Self) -> (r: bool) {
        additional_footers_equal(self, other)
    }
}

impl vstd::std_specs::cmp::PartialEqSpecImpl for AdditionalFooter {
    open spec fn obeys_eq_spec() -> bool {
        true
    }

    open spec fn eq_spec(&self, other: &Self) -> bool {
        same_footer_settings(*self, *other)
    }
}

/// The two footers agree in all but their branch patterns.
pub open spec fn same_footer_settings(a: AdditionalFooter, b: AdditionalFooter) -> bool {
    &&& a.key@ == b.key@
    &&& a.value@ == b.value@
    &&& a.on_conflict == b.on_conflict
    &&& a.separator == b.separator
    &&& a.alignment == b.alignment
}

/// Whether the two footers agree in all but their branch patterns.
fn additional_footers_equal(a: &AdditionalFooter, b: &AdditionalFooter) -> (r: bool)
    ensures
        r == same_footer_settings(*a, *b),
{
    let separators = match (a.separator, b.separator) {
        (Some(x), Some(y)) => x == y,
        (None, None) => true,
        _ => false,
    };
    let alignments = match (a.alignment, b.alignment) {
        (Some(x), Some(y)) => x == y,
        (None, None) => true,
        _ => false,
    };
    str_eq(a.key.as_str(), b.key.as_str()) && a.value.same_segments(&b.value) && a.on_conflict
        == b.on_conflict && separators && alignments
}

/// Why `config` makes no footer, if it does not: its template does not parse,
/// its branch pattern does not compile, or its action is unknown.
pub open spec fn footer_config_error(config: AdditionalFooterConfig) -> Option<ErrorModel> {
    match parse_template(config.value@) {
        Err(rest) => Some(ErrorModel::TemplateParseError(Some(parse_error_text(rest)))),
        Ok(_) => {
            if config.branch_pattern matches Some(p) && !regex_accepts(p@) {
                Some(ErrorModel::InvalidPattern)
            } else {
                match config.on_conflict {
                    Some(s) => match on_conflict_named(s@) {
                        Some(_) => None,
                        None => Some(ErrorModel::UnknownOnConflictAction(s@)),
                    },
                    None => None,
                }
            }
        },
    }
}

/// `f` is the footer that `config` makes.
pub open spec fn footer_from_config(f: AdditionalFooter, config: AdditionalFooterConfig) -> bool {
    &&& f.key == config.key
    &&& parse_template(config.value@) == Ok::<Seq<crate::tpl::SegmentModel>, Seq<char>>(f.value@)
    &&& (match (f.branch_pattern, config.branch_pattern) {
        (Some(p), Some(q)) => p@ == q@,
        (None, None) => true,
        _ => false,
    })
    &&& f.on_conflict == match config.on_conflict {
        Some(s) => on_conflict_named(s@)->0,
        None => OnConflictAction::Skip,
    }
    &&& f.separator == config.separator
    &&& f.alignment == config.alignment
}

impl AdditionalFooter {
    /// The footer that `config` describes: its template parsed, its branch
    /// pattern compiled and its action read (`skip` when none is given).
    pub fn from_config(config: AdditionalFooterConfig) -> (r: Result<Self, SettingsError>)
        ensures
            match footer_config_error(config) {
                Some(e) => r matches Err(x) && x@ == e,
                None => r matches Ok(f) && footer_from_config(f, config),
            },
    {
        let ghost cfg = config;
        let AdditionalFooterConfig { key, value, branch_pattern, on_conflict, separator, alignment } =
            config;
        let template = match Template::parse(value.as_str()) {
            Ok(t) => t,
            Err(e) => return Err(SettingsError::TemplateParseError(e)),
        };
        let pattern = match branch_pattern {
            Some(p) => match Pattern::new(p.as_str()) {
                Ok(compiled) => Some(compiled),
                Err(e) => return Err(SettingsError::InvalidPattern(e)),
            },
            None => None,
        };
        let action = match on_conflict {
            Some(s) => match OnConflictAction::from_config(s.as_str()) {
                Ok(a) => a,
                Err(e) => return Err(e),
            },
            None => OnConflictAction::Skip,
        };
        Ok(AdditionalFooter {
            key,
            value: template,
            branch_pattern: pattern,
            on_conflict: action,
            separator,
            alignment,
        })
    }
}

/// The settings of all rules before the configuration changes them.
pub open spec fn default_settings_model() -> SettingsModel {
    SettingsModel {
        header: HeaderSettingsModel {
            type_case: crate::linter::case::KeyCase::Any,
            type_max_length: 0,
            type_min_length: 0,
            type_enum: Seq::empty(),
            scope_case: crate::linter::case::KeyCase::Any,
            scope_max_length: 0,
            scope_min_length: 0,
            scope_enum: Seq::empty(),
            description_case: crate::linter::case::TextCase::Any,
            description_max_length: 0,
            description_min_length: 0,
            max_length: 0,
            min_length: 0,
        },
        body: BodySettingsModel {
            max_line_length: 0,
            max_length: 0,
            min_length: 0,
            case: crate::linter::case::TextCase::Any,
        },
        footer: FooterSettingsModel {
            max_line_length: 0,
            max_length: 0,
            min_length: 0,
            key_case: crate::linter::case::KeyCase::Any,
            required: Seq::empty(),
        },
    }
}

/// The rules that are on and their settings.
#[derive(Debug, PartialEq)]
pub struct RulesSettings {
    pub set: RuleSet,
    pub settings: Settings,
}

impl Default for RulesSettings {
    fn default() -> (r: Self)
        ensures
            r.set@ == default_rules(),
            settings_model(r.settings) == default_settings_model(),
    {
        let settings = Settings {
            body: body::Settings::default(),
            header: header::Settings::default(),
            footer: footer::Settings::default(),
        };
        assert(strings_view(settings.header.type_enum@) =~= Seq::<Seq<char>>::empty());
        assert(strings_view(settings.header.scope_enum@) =~= Seq::<Seq<char>>::empty());
        assert(strings_view(settings.footer.required@) =~= Seq::<Seq<char>>::empty());
        assert(settings_model(settings) == default_settings_model());
        RulesSettings { set: RuleSet::default(), settings }
    }
}

/// Reads the entries of a group's table in order, from the settings `m`: the
/// new settings, the rules switched on and those switched off, or the first
/// error (an unknown rule, or a setting it cannot read).
pub open spec fn parse_entries(m: SettingsModel, linter: LinterGroup, entries: Seq<(String, ConfigValue)>) -> Result<
    (SettingsModel, Set<Rule>, Set<Rule>),
    ErrorModel,
>
    decreases entries.len(),
{
    if entries.len() == 0 {
        Ok((m, Set::empty(), Set::empty()))
    } else {
        match parse_entries(m, linter, entries.drop_last()) {
            Err(e) => Err(e),
            Ok((m1, on, off)) => {
                let key = entries.last().0;
                match rule_named(linter, key@) {
                    None => Err(ErrorModel::UnknownRule(linter, key@)),
                    Some(rule) => {
                        let (m2, r) = rule_setting(m1, rule, entries.last().1);
                        match r {
                            Err(e) => Err(e),
                            Ok(true) => Ok((m2, on.insert(rule), off)),
                            Ok(false) => Ok((m2, on, off.insert(rule))),
                        }
                    },
                }
            },
        }
    }
}

/// The rules and settings after the table of `linter`, if the lint tables
/// have one, is read from the rules `set` and the settings `m`.
pub open spec fn apply_group(
    acc: Result<(SettingsModel, Set<Rule>), ErrorModel>,
    tables: Seq<(String, ConfigValue)>,
    linter: LinterGroup,
) -> Result<(SettingsModel, Set<Rule>), ErrorModel> {
    match acc {
        Err(e) => Err(e),
        Ok((m, set)) => match lookup(tables, group_name(linter)) {
            None => Ok((m, set)),
            Some(ConfigValue::Table(t)) => match parse_entries(m, linter, t@) {
                Err(e) => Err(e),
                Ok((m2, on, off)) => Ok((m2, set.difference(off).union(on))),
            },
            Some(_) => Err(ErrorModel::UnexpectedFieldType(group_name(linter), "table"@)),
        },
    }
}

/// The rules and settings that the lint tables make: the default ones, with
/// the tables of the header, body and footer read in that order.
pub open spec fn rules_from_tables(tables: Seq<(String, ConfigValue)>) -> Result<
    (SettingsModel, Set<Rule>),
    ErrorModel,
> {
    let start = Ok((default_settings_model(), default_rules()));
    if tables.len() == 0 {
        start
    } else {
        apply_group(
            apply_group(apply_group(start, tables, LinterGroup::Header), tables, LinterGroup::Body),
            tables,
            LinterGroup::Footer,
        )
    }
}

impl RulesSettings {
    /// Reads the table of `linter` into the settings; returns the rules it
    /// switches on and those it switches off.
    fn parse_group(&mut self, linter: LinterGroup, table: &ConfigTable) -> (r: Result<
        (RuleSet, RuleSet),
        SettingsError,
    >)
        ensures
            match parse_entries(settings_model(old(self).settings), linter, table@) {
                Ok((m, on, off)) => r matches Ok((a, b)) && a@ == on && b@ == off
                    && settings_model(final(self).settings) == m && final(self).set == old(self).set,
                Err(e) => r matches Err(x) && x@ == e,
            },
    {
        let ghost m0 = settings_model(self.settings);
        let mut enabled = RuleSet::empty();
        let mut disabled = RuleSet::empty();
        let entries = table.entries();
        let mut i: usize = 0;
        assert(table@.take(0) =~= Seq::<(String, ConfigValue)>::empty());
        while i < entries.len()
            invariant
                entries@.len() == table@.len(),
                forall|k: int|
                    0 <= k < entries@.len() ==> *(#[trigger] entries@[k]).0 == table@[k].0 && *entries@[k].1
                        == table@[k].1,
                i <= table@.len(),
                m0 == settings_model(old(self).settings),
                self.set == old(self).set,
                parse_entries(m0, linter, table@.take(i as int)) == Ok::<
                    (SettingsModel, Set<Rule>, Set<Rule>),
                    ErrorModel,
                >((settings_model(self.settings), enabled@, disabled@)),
            decreases entries.len() - i,
        {
            assert(table@.take(i + 1).drop_last() =~= table@.take(i as int));
            assert(table@.take(i + 1).last() == table@[i as int]);
            let entry = entries[i];
            assert(*entry.0 == table@[i as int].0 && *entry.1 == table@[i as int].1);
            let rule = match Rule::from_name(linter, entry.0.as_str()) {
                Some(rule) => rule,
                None => {
                    proof {
                        lemma_parse_entries_error(m0, linter, table@, i as int + 1);
                    }
                    return Err(SettingsError::UnknownRule(linter, entry.0.clone()));
                },
            };
            match parse_rule_setting(rule, &mut self.settings, entry.1) {
                Ok(true) => {
                    enabled.insert(rule);
                },
                Ok(false) => {
                    disabled.insert(rule);
                },
                Err(e) => {
                    proof {
                        lemma_parse_entries_error(m0, linter, table@, i as int + 1);
                    }
                    return Err(e);
                },
            }
            i = i + 1;
        }
        assert(table@.take(table@.len() as int) =~= table@);
        Ok((enabled, disabled))
    }

    /// Reads the table of `linter`, if the lint tables have one, into the
    /// settings and the rule set.
    fn read_group(&mut self, tables: &ConfigTable, linter: LinterGroup) -> (r: Result<
        (),
        SettingsError,
    >)
        ensures
            match apply_group(
                Ok((settings_model(old(self).settings), old(self).set@)),
                tables@,
                linter,
            ) {
                Ok((m, set)) => r is Ok && settings_model(final(self).settings) == m && final(self).set@
                    == set,
                Err(e) => r matches Err(x) && x@ == e,
            },
    {
        let name = linter.as_display();
        match tables.get(name) {
            None => Ok(()),
            Some(value) => match value {
                ConfigValue::Table(t) => {
                    let (enabled, disabled) = match self.parse_group(linter, t) {
                        Ok(p) => p,
                        Err(e) => return Err(e),
                    };
                    self.set.subtract(disabled);
                    self.set.union(enabled);
                    Ok(())
                },
                _ => {
                    proof {
                        reveal_strlit("table");
                    }
                    Err(SettingsError::UnexpectedFieldType(name.to_owned(), "table".to_owned()))
                },
            },
        }
    }

    /// The rules and their settings that the lint tables of `params` make.
    pub fn from_params(params: &CommitParams) -> (r: Result<Self, SettingsError>)
        ensures
            match rules_from_tables(params.lint_values@) {
                Ok((m, set)) => r matches Ok(s) && settings_model(s.settings) == m && s.set@ == set,
                Err(e) => r matches Err(x) && x@ == e,
            },
    {
        let mut settings = RulesSettings::default();
        if params.lint_values.len() == 0 {
            return Ok(settings);
        }
        match settings.read_group(&params.lint_values, LinterGroup::Header) {
            Ok(()) => {},
            Err(e) => return Err(e),
        }
        match settings.read_group(&params.lint_values, LinterGroup::Body) {
            Ok(()) => {},
            Err(e) => return Err(e),
        }
        match settings.read_group(&params.lint_values, LinterGroup::Footer) {
            Ok(()) => {},
            Err(e) => return Err(e),
        }
        Ok(settings)
    }
}

/// An entry that fails makes every longer prefix fail with the same error.
proof fn lemma_parse_entries_error(
    m: SettingsModel,
    linter: LinterGroup,
    entries: Seq<(String, ConfigValue)>,
    n: int,
)
    requires
        0 <= n <= entries.len(),
        parse_entries(m, linter, entries.take(n)) is Err,
    ensures
        parse_entries(m, linter, entries) == parse_entries(m, linter, entries.take(n)),
    decreases entries.len() - n,
{
    if n < entries.len() {
        assert(entries.take(n + 1).drop_last() =~= entries.take(n));
        lemma_parse_entries_error(m, linter, entries, n + 1);
    } else {
        assert(entries.take(n) =~= entries);
    }
}

/// Options of the linter.
#[derive(Debug, PartialEq, Eq, Structural)]
pub struct LintSettings {
    pub unsafe_fixes: bool,
}

impl Default for LintSettings {
    fn default() -> (s: Self)
        ensures
            !s.unsafe_fixes,
    {
        LintSettings { unsafe_fixes: false }
    }
}

impl LintSettings {
    /// The lint options: unsafe fixes only where the configuration asks for them.
    pub fn from_params(params: &CommitParams) -> (s: Self)
        ensures
            s.unsafe_fixes == (params.config.lint == Some(LintConfiguration { unsafe_fixes: Some(true) })),
    {
        let unsafe_fixes = match params.config.lint {
            Some(LintConfiguration { unsafe_fixes: Some(b) }) => b,
            _ => false,
        };
        LintSettings { unsafe_fixes }
    }
}

/// The first footer of `configs` that makes no footer, and why.
pub open spec fn first_footer_error(configs: Seq<AdditionalFooterConfig>) -> Option<ErrorModel>
    decreases configs.len(),
{
    if configs.len() == 0 {
        None
    } else {
        match first_footer_error(configs.drop_last()) {
            Some(e) => Some(e),
            None => footer_config_error(configs.last()),
        }
    }
}

/// The configured footers, none when there are none.
pub open spec fn footer_configs(f: Option<Vec<AdditionalFooterConfig>>) -> Seq<AdditionalFooterConfig> {
    match f {
        Some(v) => v@,
        None => Seq::empty(),
    }
}

/// All settings of a commit.
#[derive(Debug)]
pub struct CommitSettings {
    pub rules: RulesSettings,
    pub lint: LintSettings,
    pub footers: Vec<AdditionalFooter>,
    pub footer_separators: Option<String>,
    pub comment_symbol: Option<String>,
}

impl Default for CommitSettings {
    fn default() -> (s: Self)
        ensures
            s.rules.set@ == default_rules(),
            settings_model(s.rules.settings) == default_settings_model(),
            !s.lint.unsafe_fixes,
            s.footers@.len() == 0,
            s.footer_separators is None,
            s.comment_symbol is None,
    {
        CommitSettings {
            rules: RulesSettings::default(),
            lint: LintSettings::default(),
            footers: Vec::new(),
            footer_separators: None,
            comment_symbol: None,
        }
    }
}

impl CommitSettings {
    /// The settings that `params` make: the rules, the lint options and the
    /// footers to add; the first error of the rules, else of the footers.
    #[verifier::loop_isolation(false)]
    pub fn from_params(params: CommitParams) -> (r: Result<Self, SettingsError>)
        ensures
            match rules_from_tables(params.lint_values@) {
                Err(e) => r matches Err(x) && x@ == e,
                Ok((m, set)) => {
                    let configs = footer_configs(params.config.additional_footers);
                    match first_footer_error(configs) {
                        Some(e) => r matches Err(x) && x@ == e,
                        None => r matches Ok(s) && settings_model(s.rules.settings) == m
                            && s.rules.set@ == set && s.lint == LintSettings::from_params_spec(params)
                            && s.footers@.len() == configs.len() && (forall|i: int|
                            0 <= i < configs.len() ==> footer_from_config(
                                #[trigger] s.footers@[i],
                                configs[i],
                            )) && s.footer_separators == params.config.footer_separators
                            && s.comment_symbol == params.config.comment_symbol,
                    }
                },
            },
    {
        let lint = LintSettings::from_params(&params);
        let rules = match RulesSettings::from_params(&params) {
            Ok(r) => r,
            Err(e) => return Err(e),
        };
        let ghost configs = footer_configs(params.config.additional_footers);
        let CommitParams { config, lint_values: _ } = params;
        let configs_vec = match config.additional_footers {
            Some(v) => v,
            None => Vec::new(),
        };
        assert(configs_vec@ == configs);
        let mut footers: Vec<AdditionalFooter> = Vec::new();
        let mut rest = configs_vec;
        let total = rest.len();
        let mut n: usize = 0;
        while rest.len() > 0
            invariant
                n + rest@.len() == configs.len() == total,
                rest@ == configs.skip(n as int),
                first_footer_error(configs.take(n as int)) is None,
                footers@.len() == n,
                forall|i: int| 0 <= i < n ==> footer_from_config(#[trigger] footers@[i], configs[i]),
            decreases rest.len(),
        {
            let c = rest.remove(0);
            assert(c == configs[n as int]);
            assert(configs.take(n + 1).drop_last() =~= configs.take(n as int));
            assert(configs.take(n + 1).last() == configs[n as int]);
            match AdditionalFooter::from_config(c) {
                Ok(f) => {
                    footers.push(f);
                },
                Err(e) => {
                    proof {
                        lemma_first_footer_error(configs, n as int + 1);
                    }
                    return Err(e);
                },
            }
            n = n + 1;
        }
        assert(configs.take(n as int) =~= configs);
        Ok(CommitSettings {
            rules,
            lint,
            footers,
            footer_separators: config.footer_separators,
            comment_symbol: config.comment_symbol,
        })
    }
}

impl LintSettings {
    pub open spec fn from_params_spec(params: CommitParams) -> LintSettings {
        LintSettings {
            unsafe_fixes: params.config.lint == Some(LintConfiguration { unsafe_fixes: Some(true) }),
        }
    }
}

/// A footer that fails makes every longer list fail with the same error.
proof fn lemma_first_footer_error(configs: Seq<AdditionalFooterConfig>, n: int)
    requires
        0 <= n <= configs.len(),
        first_footer_error(configs.take(n)) is Some,
    ensures
        first_footer_error(configs) == first_footer_error(configs.take(n)),
    decreases configs.len() - n,
{
    if n < configs.len() {
        assert(configs.take(n + 1).drop_last() =~= configs.take(n));
        lemma_first_footer_error(configs, n + 1);
    } else {
        assert(configs.take(n) =~= configs);
    }
}

} // verus!
