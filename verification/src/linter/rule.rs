//! Lint rules: names, groups and their positions in a rule set.
use vstd::prelude::*;

use crate::text::str_eq;

verus! {

/// Group of lint rules: the part of a message that a rule looks at.
#[derive(Copy, Clone, Debug, PartialEq, Eq, Structural)]
pub enum LinterGroup {
    Header,
    Body,
    Footer,
}

/// Error value for an unknown linter group name.
#[derive(Debug, PartialEq, Eq, Structural)]
pub struct LinterParseError;

pub open spec fn group_name(g: LinterGroup) -> Seq<char> {
    match g {
        LinterGroup::Header => "header"@,
        LinterGroup::Body => "body"@,
        LinterGroup::Footer => "footer"@,
    }
}

impl LinterGroup {
    /// The group named `name`, if any.
    pub fn from_name(name: &str) -> (r: Option<LinterGroup>)
        ensures
            match r {
                Some(g) => group_name(g) == name@,
                None => forall|g: LinterGroup| group_name(g) != name@,
            },
    {
        if str_eq(name, "header") {
            Some(LinterGroup::Header)
        } else if str_eq(name, "body") {
            Some(LinterGroup::Body)
        } else if str_eq(name, "footer") {
            Some(LinterGroup::Footer)
        } else {
            proof {
                assert forall|g: LinterGroup| group_name(g) != name@ by {
                    match g {
                        LinterGroup::Header => {},
                        LinterGroup::Body => {},
                        LinterGroup::Footer => {},
                    }
                }
            }
            None
        }
    }

    /// The name of the group.
    pub fn as_display(&self) -> (r: &'static str)
        ensures
            r@ == group_name(*self),
    {
        match self {
            LinterGroup::Header => "header",
            LinterGroup::Body => "body",
            LinterGroup::Footer => "footer",
        }
    }

    /// All groups, in the order header, body, footer.
    pub fn all() -> (r: Vec<LinterGroup>)
        ensures
            r@ == seq![LinterGroup::Header, LinterGroup::Body, LinterGroup::Footer],
    {
        let r = vec![LinterGroup::Header, LinterGroup::Body, LinterGroup::Footer];
        assert(r@ =~= seq![LinterGroup::Header, LinterGroup::Body, LinterGroup::Footer]);
        r
    }

    /// All groups, in order (the items that `iter` yields).
    pub fn iter() -> (r: Vec<LinterGroup>)
        ensures
            r@ == seq![LinterGroup::Header, LinterGroup::Body, LinterGroup::Footer],
    {
        Self::all()
    }
}

/// Number of rules.
pub const RULE_COUNT: u8 = 28;

/// A lint rule.
#[derive(Copy, Clone, Debug, PartialEq, Eq, PartialOrd, Ord, Hash, Structural)]
pub enum Rule {
    HeaderDescriptionCase,
    HeaderDescriptionFullStop,
    HeaderDescriptionMaxLength,
    HeaderDescriptionMinLength,
    HeaderTypeCase,
    HeaderTypeEnum,
    HeaderTypeMaxLength,
    HeaderTypeMinLength,
    HeaderTypeRequired,
    HeaderScopeCase,
    HeaderScopeEnum,
    HeaderScopeMaxLength,
    HeaderScopeMinLength,
    HeaderScopeRequired,
    HeaderMaxLength,
    HeaderMinLength,
    BodyCase,
    BodyFullStop,
    BodyLeadingNewLine,
    BodyMaxLineLength,
    BodyMaxLength,
    BodyMinLength,
    FooterBreakingExclamation,
    FooterExists,
    FooterKeyCase,
    FooterMaxLength,
    FooterMaxLineLength,
    FooterMinLength,
}

/// Position of a rule in a rule set.
pub open spec fn rule_index(r: Rule) -> int {
    match r {
        Rule::HeaderDescriptionCase => 0,
        Rule::HeaderDescriptionFullStop => 1,
        Rule::HeaderDescriptionMaxLength => 2,
        Rule::HeaderDescriptionMinLength => 3,
        Rule::HeaderTypeCase => 4,
        Rule::HeaderTypeEnum => 5,
        Rule::HeaderTypeMaxLength => 6,
        Rule::HeaderTypeMinLength => 7,
        Rule::HeaderTypeRequired => 8,
        Rule::HeaderScopeCase => 9,
        Rule::HeaderScopeEnum => 10,
        Rule::HeaderScopeMaxLength => 11,
        Rule::HeaderScopeMinLength => 12,
        Rule::HeaderScopeRequired => 13,
        Rule::HeaderMaxLength => 14,
        Rule::HeaderMinLength => 15,
        Rule::BodyCase => 16,
        Rule::BodyFullStop => 17,
        Rule::BodyLeadingNewLine => 18,
        Rule::BodyMaxLineLength => 19,
        Rule::BodyMaxLength => 20,
        Rule::BodyMinLength => 21,
        Rule::FooterBreakingExclamation => 22,
        Rule::FooterExists => 23,
        Rule::FooterKeyCase => 24,
        Rule::FooterMaxLength => 25,
        Rule::FooterMaxLineLength => 26,
        Rule::FooterMinLength => 27,
    }
}

/// Group of a rule.
pub open spec fn rule_group(r: Rule) -> LinterGroup {
    match r {
        Rule::HeaderDescriptionCase => LinterGroup::Header,
        Rule::HeaderDescriptionFullStop => LinterGroup::Header,
        Rule::HeaderDescriptionMaxLength => LinterGroup::Header,
        Rule::HeaderDescriptionMinLength => LinterGroup::Header,
        Rule::HeaderTypeCase => LinterGroup::Header,
        Rule::HeaderTypeEnum => LinterGroup::Header,
        Rule::HeaderTypeMaxLength => LinterGroup::Header,
        Rule::HeaderTypeMinLength => LinterGroup::Header,
        Rule::HeaderTypeRequired => LinterGroup::Header,
        Rule::HeaderScopeCase => LinterGroup::Header,
        Rule::HeaderScopeEnum => LinterGroup::Header,
        Rule::HeaderScopeMaxLength => LinterGroup::Header,
        Rule::HeaderScopeMinLength => LinterGroup::Header,
        Rule::HeaderScopeRequired => LinterGroup::Header,
        Rule::HeaderMaxLength => LinterGroup::Header,
        Rule::HeaderMinLength => LinterGroup::Header,
        Rule::BodyCase => LinterGroup::Body,
        Rule::BodyFullStop => LinterGroup::Body,
        Rule::BodyLeadingNewLine => LinterGroup::Body,
        Rule::BodyMaxLineLength => LinterGroup::Body,
        Rule::BodyMaxLength => LinterGroup::Body,
        Rule::BodyMinLength => LinterGroup::Body,
        Rule::FooterBreakingExclamation => LinterGroup::Footer,
        Rule::FooterExists => LinterGroup::Footer,
        Rule::FooterKeyCase => LinterGroup::Footer,
        Rule::FooterMaxLength => LinterGroup::Footer,
        Rule::FooterMaxLineLength => LinterGroup::Footer,
        Rule::FooterMinLength => LinterGroup::Footer,
    }
}

/// Code of a rule within its group.
pub open spec fn rule_code(r: Rule) -> Seq<char> {
    match r {
        Rule::HeaderDescriptionCase => "description-case"@,
        Rule::HeaderDescriptionFullStop => "description-full-stop"@,
        Rule::HeaderDescriptionMaxLength => "description-max-length"@,
        Rule::HeaderDescriptionMinLength => "description-min-length"@,
        Rule::HeaderTypeCase => "type-case"@,
        Rule::HeaderTypeEnum => "type-enum"@,
        Rule::HeaderTypeMaxLength => "type-max-length"@,
        Rule::HeaderTypeMinLength => "type-min-length"@,
        Rule::HeaderTypeRequired => "type-required"@,
        Rule::HeaderScopeCase => "scope-case"@,
        Rule::HeaderScopeEnum => "scope-enum"@,
        Rule::HeaderScopeMaxLength => "scope-max-length"@,
        Rule::HeaderScopeMinLength => "scope-min-length"@,
        Rule::HeaderScopeRequired => "scope-required"@,
        Rule::HeaderMaxLength => "max-length"@,
        Rule::HeaderMinLength => "min-length"@,
        Rule::BodyCase => "case"@,
        Rule::BodyFullStop => "full-stop"@,
        Rule::BodyLeadingNewLine => "leading-newline"@,
        Rule::BodyMaxLineLength => "max-line-length"@,
        Rule::BodyMaxLength => "max-length"@,
        Rule::BodyMinLength => "min-length"@,
        Rule::FooterBreakingExclamation => "breaking-exclamation"@,
        Rule::FooterExists => "exists"@,
        Rule::FooterKeyCase => "key-case"@,
        Rule::FooterMaxLength => "max-length"@,
        Rule::FooterMaxLineLength => "max-line-length"@,
        Rule::FooterMinLength => "min-length"@,
    }
}

/// The rule at a position.
pub open spec fn rule_at(i: int) -> Option<Rule> {
    if i == 0 {
        Some(Rule::HeaderDescriptionCase)
    } else if i == 1 {
        Some(Rule::HeaderDescriptionFullStop)
    } else if i == 2 {
        Some(Rule::HeaderDescriptionMaxLength)
    } else if i == 3 {
        Some(Rule::HeaderDescriptionMinLength)
    } else if i == 4 {
        Some(Rule::HeaderTypeCase)
    } else if i == 5 {
        Some(Rule::HeaderTypeEnum)
    } else if i == 6 {
        Some(Rule::HeaderTypeMaxLength)
    } else if i == 7 {
        Some(Rule::HeaderTypeMinLength)
    } else if i == 8 {
        Some(Rule::HeaderTypeRequired)
    } else if i == 9 {
        Some(Rule::HeaderScopeCase)
    } else if i == 10 {
        Some(Rule::HeaderScopeEnum)
    } else if i == 11 {
        Some(Rule::HeaderScopeMaxLength)
    } else if i == 12 {
        Some(Rule::HeaderScopeMinLength)
    } else if i == 13 {
        Some(Rule::HeaderScopeRequired)
    } else if i == 14 {
        Some(Rule::HeaderMaxLength)
    } else if i == 15 {
        Some(Rule::HeaderMinLength)
    } else if i == 16 {
        Some(Rule::BodyCase)
    } else if i == 17 {
        Some(Rule::BodyFullStop)
    } else if i == 18 {
        Some(Rule::BodyLeadingNewLine)
    } else if i == 19 {
        Some(Rule::BodyMaxLineLength)
    } else if i == 20 {
        Some(Rule::BodyMaxLength)
    } else if i == 21 {
        Some(Rule::BodyMinLength)
    } else if i == 22 {
        Some(Rule::FooterBreakingExclamation)
    } else if i == 23 {
        Some(Rule::FooterExists)
    } else if i == 24 {
        Some(Rule::FooterKeyCase)
    } else if i == 25 {
        Some(Rule::FooterMaxLength)
    } else if i == 26 {
        Some(Rule::FooterMaxLineLength)
    } else if i == 27 {
        Some(Rule::FooterMinLength)
    } else {
        None
    }
}

pub proof fn lemma_rule_index(r: Rule)
    ensures
        0 <= rule_index(r) < RULE_COUNT,
        rule_at(rule_index(r)) == Some(r),
{
}

pub proof fn lemma_rule_at(i: int)
    ensures
        match rule_at(i) {
            Some(r) => rule_index(r) == i && 0 <= i < RULE_COUNT,
            None => i < 0 || i >= RULE_COUNT,
        },
{
}

impl Rule {
    /// Position of the rule in a rule set.
    pub fn index(&self) -> (r: u8)
        ensures
            r == rule_index(*self),
            r < RULE_COUNT,
    {
        match self {
            Rule::HeaderDescriptionCase => 0,
            Rule::HeaderDescriptionFullStop => 1,
            Rule::HeaderDescriptionMaxLength => 2,
            Rule::HeaderDescriptionMinLength => 3,
            Rule::HeaderTypeCase => 4,
            Rule::HeaderTypeEnum => 5,
            Rule::HeaderTypeMaxLength => 6,
            Rule::HeaderTypeMinLength => 7,
            Rule::HeaderTypeRequired => 8,
            Rule::HeaderScopeCase => 9,
            Rule::HeaderScopeEnum => 10,
            Rule::HeaderScopeMaxLength => 11,
            Rule::HeaderScopeMinLength => 12,
            Rule::HeaderScopeRequired => 13,
            Rule::HeaderMaxLength => 14,
            Rule::HeaderMinLength => 15,
            Rule::BodyCase => 16,
            Rule::BodyFullStop => 17,
            Rule::BodyLeadingNewLine => 18,
            Rule::BodyMaxLineLength => 19,
            Rule::BodyMaxLength => 20,
            Rule::BodyMinLength => 21,
            Rule::FooterBreakingExclamation => 22,
            Rule::FooterExists => 23,
            Rule::FooterKeyCase => 24,
            Rule::FooterMaxLength => 25,
            Rule::FooterMaxLineLength => 26,
            Rule::FooterMinLength => 27,
        }
    }

    /// The rule at position `i`, if any.
    pub fn from_index(i: u8) -> (r: Option<Rule>)
        ensures
            r == rule_at(i as int),
    {
        match i {
            0 => Some(Rule::HeaderDescriptionCase),
            1 => Some(Rule::HeaderDescriptionFullStop),
            2 => Some(Rule::HeaderDescriptionMaxLength),
            3 => Some(Rule::HeaderDescriptionMinLength),
            4 => Some(Rule::HeaderTypeCase),
            5 => Some(Rule::HeaderTypeEnum),
            6 => Some(Rule::HeaderTypeMaxLength),
            7 => Some(Rule::HeaderTypeMinLength),
            8 => Some(Rule::HeaderTypeRequired),
            9 => Some(Rule::HeaderScopeCase),
            10 => Some(Rule::HeaderScopeEnum),
            11 => Some(Rule::HeaderScopeMaxLength),
            12 => Some(Rule::HeaderScopeMinLength),
            13 => Some(Rule::HeaderScopeRequired),
            14 => Some(Rule::HeaderMaxLength),
            15 => Some(Rule::HeaderMinLength),
            16 => Some(Rule::BodyCase),
            17 => Some(Rule::BodyFullStop),
            18 => Some(Rule::BodyLeadingNewLine),
            19 => Some(Rule::BodyMaxLineLength),
            20 => Some(Rule::BodyMaxLength),
            21 => Some(Rule::BodyMinLength),
            22 => Some(Rule::FooterBreakingExclamation),
            23 => Some(Rule::FooterExists),
            24 => Some(Rule::FooterKeyCase),
            25 => Some(Rule::FooterMaxLength),
            26 => Some(Rule::FooterMaxLineLength),
            27 => Some(Rule::FooterMinLength),
            _ => None,
        }
    }

    /// Group of the rule.
    pub fn group(&self) -> (g: LinterGroup)
        ensures
            g == rule_group(*self),
    {
        match self {
            Rule::HeaderDescriptionCase => LinterGroup::Header,
            Rule::HeaderDescriptionFullStop => LinterGroup::Header,
            Rule::HeaderDescriptionMaxLength => LinterGroup::Header,
            Rule::HeaderDescriptionMinLength => LinterGroup::Header,
            Rule::HeaderTypeCase => LinterGroup::Header,
            Rule::HeaderTypeEnum => LinterGroup::Header,
            Rule::HeaderTypeMaxLength => LinterGroup::Header,
            Rule::HeaderTypeMinLength => LinterGroup::Header,
            Rule::HeaderTypeRequired => LinterGroup::Header,
            Rule::HeaderScopeCase => LinterGroup::Header,
            Rule::HeaderScopeEnum => LinterGroup::Header,
            Rule::HeaderScopeMaxLength => LinterGroup::Header,
            Rule::HeaderScopeMinLength => LinterGroup::Header,
            Rule::HeaderScopeRequired => LinterGroup::Header,
            Rule::HeaderMaxLength => LinterGroup::Header,
            Rule::HeaderMinLength => LinterGroup::Header,
            Rule::BodyCase => LinterGroup::Body,
            Rule::BodyFullStop => LinterGroup::Body,
            Rule::BodyLeadingNewLine => LinterGroup::Body,
            Rule::BodyMaxLineLength => LinterGroup::Body,
            Rule::BodyMaxLength => LinterGroup::Body,
            Rule::BodyMinLength => LinterGroup::Body,
            Rule::FooterBreakingExclamation => LinterGroup::Footer,
            Rule::FooterExists => LinterGroup::Footer,
            Rule::FooterKeyCase => LinterGroup::Footer,
            Rule::FooterMaxLength => LinterGroup::Footer,
            Rule::FooterMaxLineLength => LinterGroup::Footer,
            Rule::FooterMinLength => LinterGroup::Footer,
        }
    }

    /// Code of the rule within its group, e.g. `scope-min-length`.
    pub fn as_display(&self) -> (r: &'static str)
        ensures
            r@ == rule_code(*self),
    {
        match self {
            Rule::HeaderDescriptionCase => "description-case",
            Rule::HeaderDescriptionFullStop => "description-full-stop",
            Rule::HeaderDescriptionMaxLength => "description-max-length",
            Rule::HeaderDescriptionMinLength => "description-min-length",
            Rule::HeaderTypeCase => "type-case",
            Rule::HeaderTypeEnum => "type-enum",
            Rule::HeaderTypeMaxLength => "type-max-length",
            Rule::HeaderTypeMinLength => "type-min-length",
            Rule::HeaderTypeRequired => "type-required",
            Rule::HeaderScopeCase => "scope-case",
            Rule::HeaderScopeEnum => "scope-enum",
            Rule::HeaderScopeMaxLength => "scope-max-length",
            Rule::HeaderScopeMinLength => "scope-min-length",
            Rule::HeaderScopeRequired => "scope-required",
            Rule::HeaderMaxLength => "max-length",
            Rule::HeaderMinLength => "min-length",
            Rule::BodyCase => "case",
            Rule::BodyFullStop => "full-stop",
            Rule::BodyLeadingNewLine => "leading-newline",
            Rule::BodyMaxLineLength => "max-line-length",
            Rule::BodyMaxLength => "max-length",
            Rule::BodyMinLength => "min-length",
            Rule::FooterBreakingExclamation => "breaking-exclamation",
            Rule::FooterExists => "exists",
            Rule::FooterKeyCase => "key-case",
            Rule::FooterMaxLength => "max-length",
            Rule::FooterMaxLineLength => "max-line-length",
            Rule::FooterMinLength => "min-length",
        }
    }

    /// The rule of `linter` with code `code`, if any.
    pub fn from_name(linter: LinterGroup, code: &str) -> (r: Option<Rule>)
        ensures
            r == rule_named(linter, code@),
            match r {
                Some(x) => rule_group(x) == linter && rule_code(x) == code@,
                None => forall|x: Rule| !(rule_group(x) == linter && rule_code(x) == code@),
            },
    {
        name_to_rule(linter, code)
    }
}

/// The rule of `linter` with code `code`, if any.
pub open spec fn rule_named(linter: LinterGroup, code: Seq<char>) -> Option<Rule> {
    match linter {
        LinterGroup::Header => {
            if code == "description-case"@ {
                Some(Rule::HeaderDescriptionCase)
            } else if code == "description-full-stop"@ {
                Some(Rule::HeaderDescriptionFullStop)
            } else if code == "description-max-length"@ {
                Some(Rule::HeaderDescriptionMaxLength)
            } else if code == "description-min-length"@ {
                Some(Rule::HeaderDescriptionMinLength)
            } else if code == "type-case"@ {
                Some(Rule::HeaderTypeCase)
            } else if code == "type-enum"@ {
                Some(Rule::HeaderTypeEnum)
            } else if code == "type-max-length"@ {
                Some(Rule::HeaderTypeMaxLength)
            } else if code == "type-min-length"@ {
                Some(Rule::HeaderTypeMinLength)
            } else if code == "type-required"@ {
                Some(Rule::HeaderTypeRequired)
            } else if code == "scope-case"@ {
                Some(Rule::HeaderScopeCase)
            } else if code == "scope-enum"@ {
                Some(Rule::HeaderScopeEnum)
            } else if code == "scope-max-length"@ {
                Some(Rule::HeaderScopeMaxLength)
            } else if code == "scope-min-length"@ {
                Some(Rule::HeaderScopeMinLength)
            } else if code == "scope-required"@ {
                Some(Rule::HeaderScopeRequired)
            } else if code == "max-length"@ {
                Some(Rule::HeaderMaxLength)
            } else if code == "min-length"@ {
                Some(Rule::HeaderMinLength)
            } else {
                None
            }
        },
        LinterGroup::Body => {
            if code == "case"@ {
                Some(Rule::BodyCase)
            } else if code == "full-stop"@ {
                Some(Rule::BodyFullStop)
            } else if code == "leading-newline"@ {
                Some(Rule::BodyLeadingNewLine)
            } else if code == "max-line-length"@ {
                Some(Rule::BodyMaxLineLength)
            } else if code == "max-length"@ {
                Some(Rule::BodyMaxLength)
            } else if code == "min-length"@ {
                Some(Rule::BodyMinLength)
            } else {
                None
            }
        },
        LinterGroup::Footer => {
            if code == "breaking-exclamation"@ {
                Some(Rule::FooterBreakingExclamation)
            } else if code == "exists"@ {
                Some(Rule::FooterExists)
            } else if code == "key-case"@ {
                Some(Rule::FooterKeyCase)
            } else if code == "max-length"@ {
                Some(Rule::FooterMaxLength)
            } else if code == "max-line-length"@ {
                Some(Rule::FooterMaxLineLength)
            } else if code == "min-length"@ {
                Some(Rule::FooterMinLength)
            } else {
                None
            }
        },
    }
}

/// The rule of `linter` with code `code`, if any.
pub fn name_to_rule(linter: LinterGroup, code: &str) -> (r: Option<Rule>)
    ensures
        r == rule_named(linter, code@),
        match r {
            Some(x) => rule_group(x) == linter && rule_code(x) == code@,
            None => forall|x: Rule| !(rule_group(x) == linter && rule_code(x) == code@),
        },
{
    let r = match linter {
        LinterGroup::Header => {
            if str_eq(code, "description-case") {
                Some(Rule::HeaderDescriptionCase)
            } else if str_eq(code, "description-full-stop") {
                Some(Rule::HeaderDescriptionFullStop)
            } else if str_eq(code, "description-max-length") {
                Some(Rule::HeaderDescriptionMaxLength)
            } else if str_eq(code, "description-min-length") {
                Some(Rule::HeaderDescriptionMinLength)
            } else if str_eq(code, "type-case") {
                Some(Rule::HeaderTypeCase)
            } else if str_eq(code, "type-enum") {
                Some(Rule::HeaderTypeEnum)
            } else if str_eq(code, "type-max-length") {
                Some(Rule::HeaderTypeMaxLength)
            } else if str_eq(code, "type-min-length") {
                Some(Rule::HeaderTypeMinLength)
            } else if str_eq(code, "type-required") {
                Some(Rule::HeaderTypeRequired)
            } else if str_eq(code, "scope-case") {
                Some(Rule::HeaderScopeCase)
            } else if str_eq(code, "scope-enum") {
                Some(Rule::HeaderScopeEnum)
            } else if str_eq(code, "scope-max-length") {
                Some(Rule::HeaderScopeMaxLength)
            } else if str_eq(code, "scope-min-length") {
                Some(Rule::HeaderScopeMinLength)
            } else if str_eq(code, "scope-required") {
                Some(Rule::HeaderScopeRequired)
            } else if str_eq(code, "max-length") {
                Some(Rule::HeaderMaxLength)
            } else if str_eq(code, "min-length") {
                Some(Rule::HeaderMinLength)
            } else {
                None
            }
        },
        LinterGroup::Body => {
            if str_eq(code, "case") {
                Some(Rule::BodyCase)
            } else if str_eq(code, "full-stop") {
                Some(Rule::BodyFullStop)
            } else if str_eq(code, "leading-newline") {
                Some(Rule::BodyLeadingNewLine)
            } else if str_eq(code, "max-line-length") {
                Some(Rule::BodyMaxLineLength)
            } else if str_eq(code, "max-length") {
                Some(Rule::BodyMaxLength)
            } else if str_eq(code, "min-length") {
                Some(Rule::BodyMinLength)
            } else {
                None
            }
        },
        LinterGroup::Footer => {
            if str_eq(code, "breaking-exclamation") {
                Some(Rule::FooterBreakingExclamation)
            } else if str_eq(code, "exists") {
                Some(Rule::FooterExists)
            } else if str_eq(code, "key-case") {
                Some(Rule::FooterKeyCase)
            } else if str_eq(code, "max-length") {
                Some(Rule::FooterMaxLength)
            } else if str_eq(code, "max-line-length") {
                Some(Rule::FooterMaxLineLength)
            } else if str_eq(code, "min-length") {
                Some(Rule::FooterMinLength)
            } else {
                None
            }
        },
    };
    proof {
        if r is None {
            assert forall|x: Rule| !(rule_group(x) == linter && rule_code(x) == code@) by {
                lemma_rule_index(x);
            }
        }
    }
    r
}

/// Every rule is found again by its group and its code: `from_name` undoes
/// `group` and `as_display`.
pub proof fn law_rule_name_round_trip(r: Rule)
    ensures
        rule_named(rule_group(r), rule_code(r)) == Some(r),
{
    reveal_strlit("breaking-exclamation");
    reveal_strlit("case");
    reveal_strlit("description-case");
    reveal_strlit("description-full-stop");
    reveal_strlit("description-max-length");
    reveal_strlit("description-min-length");
    reveal_strlit("exists");
    reveal_strlit("full-stop");
    reveal_strlit("key-case");
    reveal_strlit("leading-newline");
    reveal_strlit("max-length");
    reveal_strlit("max-line-length");
    reveal_strlit("min-length");
    reveal_strlit("scope-case");
    reveal_strlit("scope-enum");
    reveal_strlit("scope-max-length");
    reveal_strlit("scope-min-length");
    reveal_strlit("scope-required");
    reveal_strlit("type-case");
    reveal_strlit("type-enum");
    reveal_strlit("type-max-length");
    reveal_strlit("type-min-length");
    reveal_strlit("type-required");
    match r {
        Rule::HeaderDescriptionCase => {
        },
        Rule::HeaderDescriptionFullStop => {
            assert("description-full-stop"@.len() != "description-case"@.len());
        },
        Rule::HeaderDescriptionMaxLength => {
            assert("description-max-length"@.len() != "description-case"@.len());
            assert("description-max-length"@.len() != "description-full-stop"@.len());
        },
        Rule::HeaderDescriptionMinLength => {
            assert("description-min-length"@.len() != "description-case"@.len());
            assert("description-min-length"@.len() != "description-full-stop"@.len());
            assert("description-min-length"@[13] != "description-max-length"@[13]);
        },
        Rule::HeaderTypeCase => {
            assert("type-case"@.len() != "description-case"@.len());
            assert("type-case"@.len() != "description-full-stop"@.len());
            assert("type-case"@.len() != "description-max-length"@.len());
            assert("type-case"@.len() != "description-min-length"@.len());
        },
        Rule::HeaderTypeEnum => {
            assert("type-enum"@.len() != "description-case"@.len());
            assert("type-enum"@.len() != "description-full-stop"@.len());
            assert("type-enum"@.len() != "description-max-length"@.len());
            assert("type-enum"@.len() != "description-min-length"@.len());
            assert("type-enum"@[5] != "type-case"@[5]);
        },
        Rule::HeaderTypeMaxLength => {
            assert("type-max-length"@.len() != "description-case"@.len());
            assert("type-max-length"@.len() != "description-full-stop"@.len());
            assert("type-max-length"@.len() != "description-max-length"@.len());
            assert("type-max-length"@.len() != "description-min-length"@.len());
            assert("type-max-length"@.len() != "type-case"@.len());
            assert("type-max-length"@.len() != "type-enum"@.len());
        },
        Rule::HeaderTypeMinLength => {
            assert("type-min-length"@.len() != "description-case"@.len());
            assert("type-min-length"@.len() != "description-full-stop"@.len());
            assert("type-min-length"@.len() != "description-max-length"@.len());
            assert("type-min-length"@.len() != "description-min-length"@.len());
            assert("type-min-length"@.len() != "type-case"@.len());
            assert("type-min-length"@.len() != "type-enum"@.len());
            assert("type-min-length"@[6] != "type-max-length"@[6]);
        },
        Rule::HeaderTypeRequired => {
            assert("type-required"@.len() != "description-case"@.len());
            assert("type-required"@.len() != "description-full-stop"@.len());
            assert("type-required"@.len() != "description-max-length"@.len());
            assert("type-required"@.len() != "description-min-length"@.len());
            assert("type-required"@.len() != "type-case"@.len());
            assert("type-required"@.len() != "type-enum"@.len());
            assert("type-required"@.len() != "type-max-length"@.len());
            assert("type-required"@.len() != "type-min-length"@.len());
        },
        Rule::HeaderScopeCase => {
            assert("scope-case"@.len() != "description-case"@.len());
            assert("scope-case"@.len() != "description-full-stop"@.len());
            assert("scope-case"@.len() != "description-max-length"@.len());
            assert("scope-case"@.len() != "description-min-length"@.len());
            assert("scope-case"@.len() != "type-case"@.len());
            assert("scope-case"@.len() != "type-enum"@.len());
            assert("scope-case"@.len() != "type-max-length"@.len());
            assert("scope-case"@.len() != "type-min-length"@.len());
            assert("scope-case"@.len() != "type-required"@.len());
        },
        Rule::HeaderScopeEnum => {
            assert("scope-enum"@.len() != "description-case"@.len());
            assert("scope-enum"@.len() != "description-full-stop"@.len());
            assert("scope-enum"@.len() != "description-max-length"@.len());
            assert("scope-enum"@.len() != "description-min-length"@.len());
            assert("scope-enum"@.len() != "type-case"@.len());
            assert("scope-enum"@.len() != "type-enum"@.len());
            assert("scope-enum"@.len() != "type-max-length"@.len());
            assert("scope-enum"@.len() != "type-min-length"@.len());
            assert("scope-enum"@.len() != "type-required"@.len());
            assert("scope-enum"@[6] != "scope-case"@[6]);
        },
        Rule::HeaderScopeMaxLength => {
            assert("scope-max-length"@[0] != "description-case"@[0]);
            assert("scope-max-length"@.len() != "description-full-stop"@.len());
            assert("scope-max-length"@.len() != "description-max-length"@.len());
            assert("scope-max-length"@.len() != "description-min-length"@.len());
            assert("scope-max-length"@.len() != "type-case"@.len());
            assert("scope-max-length"@.len() != "type-enum"@.len());
            assert("scope-max-length"@.len() != "type-max-length"@.len());
            assert("scope-max-length"@.len() != "type-min-length"@.len());
            assert("scope-max-length"@.len() != "type-required"@.len());
            assert("scope-max-length"@.len() != "scope-case"@.len());
            assert("scope-max-length"@.len() != "scope-enum"@.len());
        },
        Rule::HeaderScopeMinLength => {
            assert("scope-min-length"@[0] != "description-case"@[0]);
            assert("scope-min-length"@.len() != "description-full-stop"@.len());
            assert("scope-min-length"@.len() != "description-max-length"@.len());
            assert("scope-min-length"@.len() != "description-min-length"@.len());
            assert("scope-min-length"@.len() != "type-case"@.len());
            assert("scope-min-length"@.len() != "type-enum"@.len());
            assert("scope-min-length"@.len() != "type-max-length"@.len());
            assert("scope-min-length"@.len() != "type-min-length"@.len());
            assert("scope-min-length"@.len() != "type-required"@.len());
            assert("scope-min-length"@.len() != "scope-case"@.len());
            assert("scope-min-length"@.len() != "scope-enum"@.len());
            assert("scope-min-length"@[7] != "scope-max-length"@[7]);
        },
        Rule::HeaderScopeRequired => {
            assert("scope-required"@.len() != "description-case"@.len());
            assert("scope-required"@.len() != "description-full-stop"@.len());
            assert("scope-required"@.len() != "description-max-length"@.len());
            assert("scope-required"@.len() != "description-min-length"@.len());
            assert("scope-required"@.len() != "type-case"@.len());
            assert("scope-required"@.len() != "type-enum"@.len());
            assert("scope-required"@.len() != "type-max-length"@.len());
            assert("scope-required"@.len() != "type-min-length"@.len());
            assert("scope-required"@.len() != "type-required"@.len());
            assert("scope-required"@.len() != "scope-case"@.len());
            assert("scope-required"@.len() != "scope-enum"@.len());
            assert("scope-required"@.len() != "scope-max-length"@.len());
            assert("scope-required"@.len() != "scope-min-length"@.len());
        },
        Rule::HeaderMaxLength => {
            assert("max-length"@.len() != "description-case"@.len());
            assert("max-length"@.len() != "description-full-stop"@.len());
            assert("max-length"@.len() != "description-max-length"@.len());
            assert("max-length"@.len() != "description-min-length"@.len());
            assert("max-length"@.len() != "type-case"@.len());
            assert("max-length"@.len() != "type-enum"@.len());
            assert("max-length"@.len() != "type-max-length"@.len());
            assert("max-length"@.len() != "type-min-length"@.len());
            assert("max-length"@.len() != "type-required"@.len());
            assert("max-length"@[0] != "scope-case"@[0]);
            assert("max-length"@[0] != "scope-enum"@[0]);
            assert("max-length"@.len() != "scope-max-length"@.len());
            assert("max-length"@.len() != "scope-min-length"@.len());
            assert("max-length"@.len() != "scope-required"@.len());
        },
        Rule::HeaderMinLength => {
            assert("min-length"@.len() != "description-case"@.len());
            assert("min-length"@.len() != "description-full-stop"@.len());
            assert("min-length"@.len() != "description-max-length"@.len());
            assert("min-length"@.len() != "description-min-length"@.len());
            assert("min-length"@.len() != "type-case"@.len());
            assert("min-length"@.len() != "type-enum"@.len());
            assert("min-length"@.len() != "type-max-length"@.len());
            assert("min-length"@.len() != "type-min-length"@.len());
            assert("min-length"@.len() != "type-required"@.len());
            assert("min-length"@[0] != "scope-case"@[0]);
            assert("min-length"@[0] != "scope-enum"@[0]);
            assert("min-length"@.len() != "scope-max-length"@.len());
            assert("min-length"@.len() != "scope-min-length"@.len());
            assert("min-length"@.len() != "scope-required"@.len());
            assert("min-length"@[1] != "max-length"@[1]);
        },
        Rule::BodyCase => {
        },
        Rule::BodyFullStop => {
            assert("full-stop"@.len() != "case"@.len());
        },
        Rule::BodyLeadingNewLine => {
            assert("leading-newline"@.len() != "case"@.len());
            assert("leading-newline"@.len() != "full-stop"@.len());
        },
        Rule::BodyMaxLineLength => {
            assert("max-line-length"@.len() != "case"@.len());
            assert("max-line-length"@.len() != "full-stop"@.len());
            assert("max-line-length"@[0] != "leading-newline"@[0]);
        },
        Rule::BodyMaxLength => {
            assert("max-length"@.len() != "case"@.len());
            assert("max-length"@.len() != "full-stop"@.len());
            assert("max-length"@.len() != "leading-newline"@.len());
            assert("max-length"@.len() != "max-line-length"@.len());
        },
        Rule::BodyMinLength => {
            assert("min-length"@.len() != "case"@.len());
            assert("min-length"@.len() != "full-stop"@.len());
            assert("min-length"@.len() != "leading-newline"@.len());
            assert("min-length"@.len() != "max-line-length"@.len());
            assert("min-length"@[1] != "max-length"@[1]);
        },
        Rule::FooterBreakingExclamation => {
        },
        Rule::FooterExists => {
            assert("exists"@.len() != "breaking-exclamation"@.len());
        },
        Rule::FooterKeyCase => {
            assert("key-case"@.len() != "breaking-exclamation"@.len());
            assert("key-case"@.len() != "exists"@.len());
        },
        Rule::FooterMaxLength => {
            assert("max-length"@.len() != "breaking-exclamation"@.len());
            assert("max-length"@.len() != "exists"@.len());
            assert("max-length"@.len() != "key-case"@.len());
        },
        Rule::FooterMaxLineLength => {
            assert("max-line-length"@.len() != "breaking-exclamation"@.len());
            assert("max-line-length"@.len() != "exists"@.len());
            assert("max-line-length"@.len() != "key-case"@.len());
            assert("max-line-length"@.len() != "max-length"@.len());
        },
        Rule::FooterMinLength => {
            assert("min-length"@.len() != "breaking-exclamation"@.len());
            assert("min-length"@.len() != "exists"@.len());
            assert("min-length"@.len() != "key-case"@.len());
            assert("min-length"@[1] != "max-length"@[1]);
            assert("min-length"@.len() != "max-line-length"@.len());
        },
    }
}

/// Every group is found again by its name: `LinterGroup::from_name` undoes
/// `LinterGroup::as_display`.
pub proof fn law_group_name_round_trip(g: LinterGroup)
    ensures
        forall|h: LinterGroup| group_name(h) == group_name(g) ==> h == g,
{
    reveal_strlit("header");
    reveal_strlit("body");
    reveal_strlit("footer");
    assert forall|h: LinterGroup| group_name(h) == group_name(g) implies h == g by {
        if h != g {
            assert(group_name(h).len() != group_name(g).len() || group_name(h)[0] != group_name(g)[0]);
        }
    }
}

} // verus!
