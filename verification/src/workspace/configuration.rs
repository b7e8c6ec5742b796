//! The configuration file as it is read: what the settings are made from.
use vstd::prelude::*;

use crate::cc::footer::SeparatorAlignment;
use crate::workspace::value::{entries_map, lookup, toml_table, ConfigTable, ConfigValue};
use crate::workspace::{ErrorModel, SettingsError};

verus! {

/// A footer that the formatter adds, as configured.
#[derive(Debug, Clone, PartialEq)]
pub struct AdditionalFooterConfig {
    pub key: String,
    pub value: String,
    pub branch_pattern: Option<String>,
    pub on_conflict: Option<String>,
    pub separator: Option<char>,
    pub alignment: Option<SeparatorAlignment>,
}

/// Lint configuration.
#[derive(Debug, Clone, Copy, PartialEq, Eq, Structural)]
pub struct LintConfiguration {
    pub unsafe_fixes: Option<bool>,
}

/// Commit configuration.
#[derive(Debug, Clone, PartialEq)]
pub struct CommitConfiguration {
    pub extends: Option<String>,
    pub footer_separators: Option<String>,
    pub comment_symbol: Option<String>,
    pub lint: Option<LintConfiguration>,
    pub additional_footers: Option<Vec<AdditionalFooterConfig>>,
}

impl Default for CommitConfiguration {
    fn default() -> (c: CommitConfiguration)
        ensures
            c.extends is None,
            c.footer_separators is None,
            c.comment_symbol is None,
            c.lint is None,
            c.additional_footers is None,
    {
        CommitConfiguration {
            extends: None,
            footer_separators: None,
            comment_symbol: None,
            lint: None,
            additional_footers: None,
        }
    }
}

/// The configuration and the tables of the lint rules (the `lint` table).
#[derive(Debug, PartialEq)]
pub struct CommitParams {
    pub config: CommitConfiguration,
    pub lint_values: ConfigTable,
}

/// `other` where it is given, else `base`.
pub open spec fn prefer<T>(base: Option<T>, other: Option<T>) -> Option<T> {
    match other {
        Some(v) => Some(v),
        None => base,
    }
}

/// The footers of `base` followed by those of `other`.
pub open spec fn joined_footers(
    base: Option<Vec<AdditionalFooterConfig>>,
    other: Option<Vec<AdditionalFooterConfig>>,
) -> Option<Seq<AdditionalFooterConfig>> {
    match (base, other) {
        (Some(a), Some(b)) => Some(a@ + b@),
        (None, Some(b)) => Some(b@),
        (Some(a), None) => Some(a@),
        (None, None) => None,
    }
}

pub open spec fn footers_seq(f: Option<Vec<AdditionalFooterConfig>>) -> Option<Seq<AdditionalFooterConfig>> {
    match f {
        Some(v) => Some(v@),
        None => None,
    }
}

impl CommitParams {
    /// Merges `other` into these parameters, `other` taking precedence: its
    /// lint configuration, footer separators and comment symbol replace these
    /// where it has them; its additional footers follow these; its rule tables
    /// replace those of the same name. `extends` stays as it is.
    pub fn extend(&mut self, other: CommitParams)
        ensures
            final(self).config.extends == old(self).config.extends,
            final(self).config.lint == prefer(old(self).config.lint, other.config.lint),
            final(self).config.footer_separators == prefer(
                old(self).config.footer_separators,
                other.config.footer_separators,
            ),
            final(self).config.comment_symbol == prefer(
                old(self).config.comment_symbol,
                other.config.comment_symbol,
            ),
            footers_seq(final(self).config.additional_footers) == joined_footers(
                old(self).config.additional_footers,
                other.config.additional_footers,
            ),
            entries_map(final(self).lint_values@) == entries_map(old(self).lint_values@).union_prefer_right(
                entries_map(other.lint_values@),
            ),
    {
        let CommitParams { config: other_config, lint_values: other_values } = other;
        if other_config.lint.is_some() {
            self.config.lint = other_config.lint;
        }
        match other_config.additional_footers {
            Some(mut other_footers) => {
                match &mut self.config.additional_footers {
                    Some(self_footers) => {
                        self_footers.append(&mut other_footers);
                    },
                    None => {
                        self.config.additional_footers = Some(other_footers);
                    },
                }
            },
            None => {},
        }
        if other_config.footer_separators.is_some() {
            self.config.footer_separators = other_config.footer_separators;
        }
        if other_config.comment_symbol.is_some() {
            self.config.comment_symbol = other_config.comment_symbol;
        }
        merge_entries(&mut self.lint_values, other_values);
    }
}

/// The `lint` table of a configuration document: an empty table where the
/// document has none, and an error where its `lint` value is not a table.
pub fn lint_table_of(doc: ConfigTable) -> (r: Result<ConfigTable, SettingsError>)
    ensures
        match lookup(doc@, "lint"@) {
            None => r matches Ok(t) && t@ == Seq::<(String, ConfigValue)>::empty(),
            Some(ConfigValue::Table(t)) => r matches Ok(x) && x == t,
            Some(_) => r matches Err(e) && e@ == ErrorModel::UnexpectedFieldType("lint"@, "table"@),
        },
{
    let mut doc = doc;
    match doc.remove("lint") {
        None => Ok(ConfigTable::new()),
        Some(ConfigValue::Table(t)) => Ok(t),
        Some(_) => {
            proof {
                reveal_strlit("lint");
                reveal_strlit("table");
            }
            Err(SettingsError::UnexpectedFieldType(String::from_str("lint"), String::from_str("table")))
        },
    }
}

/// The `lint` table of a TOML text: the error of the `toml` library where it
/// refuses the text, else the `lint` table of the document as `lint_table_of`
/// selects it.
pub fn lint_values_of_text(text: &str) -> (r: Result<ConfigTable, SettingsError>)
    ensures
        toml_table(text@) is None ==> (r matches Err(e) && e@ == ErrorModel::TomlParseError),
        toml_table(text@) matches Some(entries) ==> match lookup(entries, "lint"@) {
            None => r matches Ok(t) && t@ == Seq::<(String, ConfigValue)>::empty(),
            Some(ConfigValue::Table(t)) => r matches Ok(x) && x == t,
            Some(_) => r matches Err(e) && e@ == ErrorModel::UnexpectedFieldType("lint"@, "table"@),
        },
{
    match ConfigTable::parse(text) {
        Ok(doc) => lint_table_of(doc),
        Err(e) => Err(SettingsError::TomlParseError(e)),
    }
}

/// Puts the entries of `other` into `entries`, replacing the value of a key
/// that is there already.
pub fn merge_entries(entries: &mut ConfigTable, other: ConfigTable)
    ensures
        entries_map(final(entries)@) == entries_map(old(entries)@).union_prefer_right(
            entries_map(other@),
        ),
{
    let ghost base = entries@;
    let ghost all = other@;
    let mut rest = other.into_entries();
    let total = rest.len();
    assert(entries_map(all.take(0)) =~= Map::empty());
    assert(entries_map(base).union_prefer_right(entries_map(all.take(0))) =~= entries_map(base));
    let mut n: usize = 0;
    while rest.len() > 0
        invariant
            n + rest@.len() == all.len() == total,
            rest@ == all.skip(n as int),
            entries_map(entries@) == entries_map(base).union_prefer_right(
                entries_map(all.take(n as int)),
            ),
        decreases rest.len(),
    {
        let (k, v) = rest.remove(0);
        assert(all[n as int] == (k, v));
        assert(all.take(n + 1).drop_last() =~= all.take(n as int));
        assert(all.take(n + 1).last() == all[n as int]);
        entries.insert(k, v);
        proof {
            assert(entries_map(all.take(n + 1)) =~= entries_map(all.take(n as int)).insert(
                all[n as int].0@,
                all[n as int].1,
            ));
            assert(entries_map(entries@) =~= entries_map(base).union_prefer_right(
                entries_map(all.take(n + 1)),
            ));
        }
        n = n + 1;
    }
    assert(all.take(n as int) =~= all);
}

} // verus!
