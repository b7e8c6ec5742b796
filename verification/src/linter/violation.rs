//! Violations of lint rules: what they say and how they are fixed.
use vstd::prelude::*;

use crate::cc::message::Message;
use crate::linter::case::{key_case_name, text_case_name, KeyCase, TextCase};
use crate::linter::rule::{group_name, LinterGroup};
use crate::text::{push_all, push_str, string_of};

verus! {

/// Why a violation could not be fixed.
#[derive(Debug)]
pub enum ViolationError {
    Unfixable(),
    EmptyBody(),
    Empty(String),
}

/// The fix mode of a violation.
#[derive(Debug, PartialEq, Eq, Structural)]
pub enum FixMode {
    Safe,
    Unsafe,
    Unfixable,
}

/// Name and explanation of the rule a violation comes from.
pub trait ViolationMetadata {
    /// The rule name of this violation.
    fn rule_name(&self) -> &'static str;

    /// What the rule catches, why it matters and what to do instead.
    fn explain(&self) -> Option<&'static str>;
}

/// A violation of a lint rule.
pub trait Violation: ViolationMetadata {
    /// The message describing the violation.
    fn message(&self) -> String;

    /// The linter group of the violation.
    fn group(&self) -> LinterGroup;

    /// Whether the violation can be fixed.
    fn fix_mode(&self) -> FixMode;

    /// Fixes the violation in `message`.
    fn fix(&self, message: &mut Message) -> Result<(), ViolationError>;
}

/// A violation found by one of the lint rules.
#[derive(Debug, Clone, PartialEq)]
pub enum RuleViolation {
    DescriptionCase { case: TextCase },
    DescriptionFullStop,
    DescriptionMaxLength { length: usize },
    DescriptionMinLength { length: usize },
    TypeCase { case: KeyCase },
    TypeEnum { miss: String },
    TypeMaxLength { length: usize },
    TypeMinLength { length: usize },
    TypeRequired,
    ScopeCase { case: KeyCase },
    ScopeEnum { miss: String },
    ScopeMaxLength { length: usize },
    ScopeMinLength { length: usize },
    ScopeRequired,
    HeaderMaxLength { length: usize },
    HeaderMinLength { length: usize },
    BodyCase { case: TextCase },
    BodyFullStop,
    BodyMaxLineLength { length: usize },
    BodyMaxLength { length: usize },
    BodyMinLength { length: usize },
    BreakingExclamation,
    Exists { key: String },
    KeyCase { case: KeyCase },
    FooterMaxLength { length: usize },
    FooterMaxLineLength { length: usize },
    FooterMinLength { length: usize },
}

/// A decimal digit.
pub open spec fn digit_char(d: nat) -> char {
    if d == 0 {
        '0'
    } else if d == 1 {
        '1'
    } else if d == 2 {
        '2'
    } else if d == 3 {
        '3'
    } else if d == 4 {
        '4'
    } else if d == 5 {
        '5'
    } else if d == 6 {
        '6'
    } else if d == 7 {
        '7'
    } else if d == 8 {
        '8'
    } else {
        '9'
    }
}

/// `n` written in decimal.
pub open spec fn decimal(n: nat) -> Seq<char>
    decreases n,
{
    if n < 10 {
        seq![digit_char(n)]
    } else {
        decimal(n / 10).push(digit_char(n % 10))
    }
}

fn digit(d: usize) -> (c: char)
    requires
        d < 10,
    ensures
        c == digit_char(d as nat),
{
    if d == 0 {
        '0'
    } else if d == 1 {
        '1'
    } else if d == 2 {
        '2'
    } else if d == 3 {
        '3'
    } else if d == 4 {
        '4'
    } else if d == 5 {
        '5'
    } else if d == 6 {
        '6'
    } else if d == 7 {
        '7'
    } else if d == 8 {
        '8'
    } else {
        '9'
    }
}

/// `n` written in decimal.
pub fn decimal_chars(n: usize) -> (r: Vec<char>)
    ensures
        r@ == decimal(n as nat),
    decreases n,
{
    if n < 10 {
        let r = vec![digit(n)];
        assert(r@ =~= seq![digit_char(n as nat)]);
        r
    } else {
        let mut r = decimal_chars(n / 10);
        r.push(digit(n % 10));
        r
    }
}

/// Rule name (the name of the rule's violation).
pub open spec fn violation_rule_name(v: RuleViolation) -> Seq<char> {
    match v {
        RuleViolation::DescriptionCase { .. } => "DescriptionCase"@,
        RuleViolation::DescriptionFullStop => "DescriptionFullStop"@,
        RuleViolation::DescriptionMaxLength { .. } => "DescriptionMaxLength"@,
        RuleViolation::DescriptionMinLength { .. } => "DescriptionMinLength"@,
        RuleViolation::TypeCase { .. } => "TypeCase"@,
        RuleViolation::TypeEnum { .. } => "TypeEnum"@,
        RuleViolation::TypeMaxLength { .. } => "TypeMaxLength"@,
        RuleViolation::TypeMinLength { .. } => "TypeMinLength"@,
        RuleViolation::TypeRequired => "TypeRequired"@,
        RuleViolation::ScopeCase { .. } => "ScopeCase"@,
        RuleViolation::ScopeEnum { .. } => "ScopeEnum"@,
        RuleViolation::ScopeMaxLength { .. } => "ScopeMaxLength"@,
        RuleViolation::ScopeMinLength { .. } => "ScopeMinLength"@,
        RuleViolation::ScopeRequired => "ScopeRequired"@,
        RuleViolation::HeaderMaxLength { .. } => "MaxLength"@,
        RuleViolation::HeaderMinLength { .. } => "MinLength"@,
        RuleViolation::BodyCase { .. } => "Case"@,
        RuleViolation::BodyFullStop => "FullStop"@,
        RuleViolation::BodyMaxLineLength { .. } => "MaxLineLength"@,
        RuleViolation::BodyMaxLength { .. } => "MaxLength"@,
        RuleViolation::BodyMinLength { .. } => "MinLength"@,
        RuleViolation::BreakingExclamation => "BreakingExclamation"@,
        RuleViolation::Exists { .. } => "Exists"@,
        RuleViolation::KeyCase { .. } => "KeyCase"@,
        RuleViolation::FooterMaxLength { .. } => "MaxLength"@,
        RuleViolation::FooterMaxLineLength { .. } => "MaxLineLength"@,
        RuleViolation::FooterMinLength { .. } => "MinLength"@,
    }
}

/// Group of the rule a violation comes from.
pub open spec fn violation_group(v: RuleViolation) -> LinterGroup {
    match v {
        RuleViolation::BodyCase { .. } | RuleViolation::BodyFullStop
        | RuleViolation::BodyMaxLineLength { .. } | RuleViolation::BodyMaxLength { .. }
        | RuleViolation::BodyMinLength { .. } => LinterGroup::Body,
        RuleViolation::BreakingExclamation | RuleViolation::Exists { .. }
        | RuleViolation::KeyCase { .. } | RuleViolation::FooterMaxLength { .. }
        | RuleViolation::FooterMaxLineLength { .. } | RuleViolation::FooterMinLength { .. } =>
            LinterGroup::Footer,
        _ => LinterGroup::Header,
    }
}

/// `<prefix><length><suffix>`.
pub open spec fn with_length(prefix: Seq<char>, length: usize, suffix: Seq<char>) -> Seq<char> {
    prefix + decimal(length as nat) + suffix
}

/// The message of a violation.
pub open spec fn violation_message(v: RuleViolation) -> Seq<char> {
    match v {
        RuleViolation::DescriptionCase { case } => "Description case is inconsistent. Expected: "@
            + text_case_name(case),
        RuleViolation::DescriptionFullStop => "Description ends with a full stop"@,
        RuleViolation::DescriptionMaxLength { length } => with_length(
            "Description is longer than "@,
            length,
            " characters"@,
        ),
        RuleViolation::DescriptionMinLength { length } => with_length(
            "Description is shorter than "@,
            length,
            " characters"@,
        ),
        RuleViolation::TypeCase { case } => "Type case is inconsistent. Expected: "@ + key_case_name(
            case,
        ),
        RuleViolation::TypeEnum { miss } => "Type is not allowed: "@ + miss@,
        RuleViolation::TypeMaxLength { length } => with_length(
            "Type is longer than "@,
            length,
            " characters"@,
        ),
        RuleViolation::TypeMinLength { length } => with_length(
            "Type is shorter than "@,
            length,
            " characters"@,
        ),
        RuleViolation::TypeRequired => "Commit type is required"@,
        RuleViolation::ScopeCase { case } => "Scope case is inconsistent. Expected: "@
            + key_case_name(case),
        RuleViolation::ScopeEnum { miss } => "Scope is not allowed: "@ + miss@,
        RuleViolation::ScopeMaxLength { length } => with_length(
            "Scope is longer than "@,
            length,
            " characters"@,
        ),
        RuleViolation::ScopeMinLength { length } => with_length(
            "Scope is shorter than "@,
            length,
            " characters"@,
        ),
        RuleViolation::ScopeRequired => "Commit scope is required"@,
        RuleViolation::HeaderMaxLength { length } => with_length(
            "Header is longer than "@,
            length,
            " characters"@,
        ),
        RuleViolation::HeaderMinLength { length } => with_length(
            "Header is shorter than "@,
            length,
            " characters"@,
        ),
        RuleViolation::BodyCase { case } => "Body case is inconsistent. Expected: "@
            + text_case_name(case),
        RuleViolation::BodyFullStop => "Body ends with a full stop"@,
        RuleViolation::BodyMaxLineLength { length } => with_length(
            "Body line is longer than "@,
            length,
            " characters"@,
        ),
        RuleViolation::BodyMaxLength { length } => with_length(
            "Body is longer than "@,
            length,
            " characters"@,
        ),
        RuleViolation::BodyMinLength { length } => with_length(
            "Body is shorter than "@,
            length,
            " characters"@,
        ),
        RuleViolation::BreakingExclamation =>
            "Message contains breaking changes footer but no exclamation mark"@,
        RuleViolation::Exists { key } => "Footer "@ + key@ + " is required but not found"@,
        RuleViolation::KeyCase { case } => "Footer key case is inconsistent. Expected: "@
            + key_case_name(case),
        RuleViolation::FooterMaxLength { length } => with_length(
            "Footers are longer than "@,
            length,
            " characters"@,
        ),
        RuleViolation::FooterMaxLineLength { length } => with_length(
            "Footer line is longer than "@,
            length,
            " characters"@,
        ),
        RuleViolation::FooterMinLength { length } => with_length(
            "Footers are shorter than "@,
            length,
            " characters"@,
        ),
    }
}

/// `group::rule: message`, the line a violation is reported as.
pub open spec fn violation_text(v: RuleViolation) -> Seq<char> {
    group_name(violation_group(v)) + "::"@ + violation_rule_name(v) + ": "@ + violation_message(v)
}

/// What a violation's rule catches, why it matters and what to do instead.
pub open spec fn violation_explanation(v: RuleViolation) -> Seq<char> {
    match v {
        RuleViolation::DescriptionCase { .. } => "Checks that the character case of the header description is consistent."@,
        RuleViolation::DescriptionFullStop => "Checks that the header description does not end with a full stop."@,
        RuleViolation::DescriptionMaxLength { .. } => "Checks that the header description is not longer than the limit."@,
        RuleViolation::DescriptionMinLength { .. } => "Checks that the header description is not shorter than the limit."@,
        RuleViolation::TypeCase { .. } => "Checks that the character case of the commit type is consistent. Type is a completely technical field; different spellings of the same type can confuse changelog generators."@,
        RuleViolation::TypeEnum { .. } => "Checks that the commit type is one of the allowed types."@,
        RuleViolation::TypeMaxLength { .. } => "Checks that the commit type is not longer than the limit."@,
        RuleViolation::TypeMinLength { .. } => "Checks that the commit type is not shorter than the limit."@,
        RuleViolation::TypeRequired => "Checks that the commit type exists. Tools analyzing git logs need it to group commits."@,
        RuleViolation::ScopeCase { .. } => "Checks that the character case of the commit scopes is consistent."@,
        RuleViolation::ScopeEnum { .. } => "Checks that every scope is one of the allowed scopes."@,
        RuleViolation::ScopeMaxLength { .. } => "Checks the maximum length of the scope. Scopes take space in the header away from the description."@,
        RuleViolation::ScopeMinLength { .. } => "Checks the minimum length of the scope. An insufficient scope makes the domain of a change hard to understand."@,
        RuleViolation::ScopeRequired => "Checks that the commit scope exists."@,
        RuleViolation::HeaderMaxLength { .. } => "Checks that the header is not longer than the limit."@,
        RuleViolation::HeaderMinLength { .. } => "Checks that the header is not shorter than the limit."@,
        RuleViolation::BodyCase { .. } => "Checks that the character case of the commit body is consistent."@,
        RuleViolation::BodyFullStop => "Checks that the body does not end with a full stop."@,
        RuleViolation::BodyMaxLineLength { .. } => "Checks that no line of the body is longer than the limit."@,
        RuleViolation::BodyMaxLength { .. } => "Checks that the body is not longer than the limit."@,
        RuleViolation::BodyMinLength { .. } => "Checks that the body is not shorter than the limit."@,
        RuleViolation::BreakingExclamation => "Checks for the exclamation mark in a message containing a breaking change footer."@,
        RuleViolation::Exists { .. } => "Checks that a required footer exists. Automated tools may require certain footers."@,
        RuleViolation::KeyCase { .. } => "Checks that the character case of the footer keys is consistent."@,
        RuleViolation::FooterMaxLength { .. } => "Checks that the footers are not longer than the limit."@,
        RuleViolation::FooterMaxLineLength { .. } => "Checks that no footer line is longer than the limit."@,
        RuleViolation::FooterMinLength { .. } => "Checks that the footers are not shorter than the limit."@,
    }
}

fn push_with_length(out: &mut Vec<char>, prefix: &str, length: usize, suffix: &str)
    ensures
        final(out)@ == old(out)@ + with_length(prefix@, length, suffix@),
{
    push_str(out, prefix);
    let d = decimal_chars(length);
    push_all(out, &d);
    push_str(out, suffix);
    assert(out@ =~= old(out)@ + with_length(prefix@, length, suffix@));
}

impl RuleViolation {
    /// The message as characters.
    pub fn message_chars(&self) -> (r: Vec<char>)
        ensures
            r@ == violation_message(*self),
    {
        let mut out: Vec<char> = Vec::new();
        match self {
            RuleViolation::DescriptionCase { case } => {
                push_str(&mut out, "Description case is inconsistent. Expected: ");
                push_str(&mut out, case.name());
            },
            RuleViolation::DescriptionFullStop => {
                push_str(&mut out, "Description ends with a full stop");
            },
            RuleViolation::DescriptionMaxLength { length } => {
                push_with_length(&mut out, "Description is longer than ", *length, " characters");
            },
            RuleViolation::DescriptionMinLength { length } => {
                push_with_length(&mut out, "Description is shorter than ", *length, " characters");
            },
            RuleViolation::TypeCase { case } => {
                push_str(&mut out, "Type case is inconsistent. Expected: ");
                push_str(&mut out, case.name());
            },
            RuleViolation::TypeEnum { miss } => {
                push_str(&mut out, "Type is not allowed: ");
                push_str(&mut out, miss.as_str());
            },
            RuleViolation::TypeMaxLength { length } => {
                push_with_length(&mut out, "Type is longer than ", *length, " characters");
            },
            RuleViolation::TypeMinLength { length } => {
                push_with_length(&mut out, "Type is shorter than ", *length, " characters");
            },
            RuleViolation::TypeRequired => {
                push_str(&mut out, "Commit type is required");
            },
            RuleViolation::ScopeCase { case } => {
                push_str(&mut out, "Scope case is inconsistent. Expected: ");
                push_str(&mut out, case.name());
            },
            RuleViolation::ScopeEnum { miss } => {
                push_str(&mut out, "Scope is not allowed: ");
                push_str(&mut out, miss.as_str());
            },
            RuleViolation::ScopeMaxLength { length } => {
                push_with_length(&mut out, "Scope is longer than ", *length, " characters");
            },
            RuleViolation::ScopeMinLength { length } => {
                push_with_length(&mut out, "Scope is shorter than ", *length, " characters");
            },
            RuleViolation::ScopeRequired => {
                push_str(&mut out, "Commit scope is required");
            },
            RuleViolation::HeaderMaxLength { length } => {
                push_with_length(&mut out, "Header is longer than ", *length, " characters");
            },
            RuleViolation::HeaderMinLength { length } => {
                push_with_length(&mut out, "Header is shorter than ", *length, " characters");
            },
            RuleViolation::BodyCase { case } => {
                push_str(&mut out, "Body case is inconsistent. Expected: ");
                push_str(&mut out, case.name());
            },
            RuleViolation::BodyFullStop => {
                push_str(&mut out, "Body ends with a full stop");
            },
            RuleViolation::BodyMaxLineLength { length } => {
                push_with_length(&mut out, "Body line is longer than ", *length, " characters");
            },
            RuleViolation::BodyMaxLength { length } => {
                push_with_length(&mut out, "Body is longer than ", *length, " characters");
            },
            RuleViolation::BodyMinLength { length } => {
                push_with_length(&mut out, "Body is shorter than ", *length, " characters");
            },
            RuleViolation::BreakingExclamation => {
                push_str(&mut out, "Message contains breaking changes footer but no exclamation mark");
            },
            RuleViolation::Exists { key } => {
                push_str(&mut out, "Footer ");
                push_str(&mut out, key.as_str());
                push_str(&mut out, " is required but not found");
            },
            RuleViolation::KeyCase { case } => {
                push_str(&mut out, "Footer key case is inconsistent. Expected: ");
                push_str(&mut out, case.name());
            },
            RuleViolation::FooterMaxLength { length } => {
                push_with_length(&mut out, "Footers are longer than ", *length, " characters");
            },
            RuleViolation::FooterMaxLineLength { length } => {
                push_with_length(&mut out, "Footer line is longer than ", *length, " characters");
            },
            RuleViolation::FooterMinLength { length } => {
                push_with_length(&mut out, "Footers are shorter than ", *length, " characters");
            },
        }
        out
    }

    /// The violation as reported: `group::rule: message` (what `Display` writes).
    pub fn to_string(&self) -> (s: String)
        ensures
            s@ == violation_text(*self),
    {
        let mut out: Vec<char> = Vec::new();
        push_str(&mut out, self.group().as_display());
        push_str(&mut out, "::");
        push_str(&mut out, self.rule_name());
        push_str(&mut out, ": ");
        let m = self.message_chars();
        push_all(&mut out, &m);
        string_of(&out)
    }
}

impl ViolationMetadata for RuleViolation {
    fn rule_name(&self) -> (r: &'static str)
        ensures
            r@ == violation_rule_name(*self),
    {
        match self {
            RuleViolation::DescriptionCase { .. } => "DescriptionCase",
            RuleViolation::DescriptionFullStop => "DescriptionFullStop",
            RuleViolation::DescriptionMaxLength { .. } => "DescriptionMaxLength",
            RuleViolation::DescriptionMinLength { .. } => "DescriptionMinLength",
            RuleViolation::TypeCase { .. } => "TypeCase",
            RuleViolation::TypeEnum { .. } => "TypeEnum",
            RuleViolation::TypeMaxLength { .. } => "TypeMaxLength",
            RuleViolation::TypeMinLength { .. } => "TypeMinLength",
            RuleViolation::TypeRequired => "TypeRequired",
            RuleViolation::ScopeCase { .. } => "ScopeCase",
            RuleViolation::ScopeEnum { .. } => "ScopeEnum",
            RuleViolation::ScopeMaxLength { .. } => "ScopeMaxLength",
            RuleViolation::ScopeMinLength { .. } => "ScopeMinLength",
            RuleViolation::ScopeRequired => "ScopeRequired",
            RuleViolation::HeaderMaxLength { .. } => "MaxLength",
            RuleViolation::HeaderMinLength { .. } => "MinLength",
            RuleViolation::BodyCase { .. } => "Case",
            RuleViolation::BodyFullStop => "FullStop",
            RuleViolation::BodyMaxLineLength { .. } => "MaxLineLength",
            RuleViolation::BodyMaxLength { .. } => "MaxLength",
            RuleViolation::BodyMinLength { .. } => "MinLength",
            RuleViolation::BreakingExclamation => "BreakingExclamation",
            RuleViolation::Exists { .. } => "Exists",
            RuleViolation::KeyCase { .. } => "KeyCase",
            RuleViolation::FooterMaxLength { .. } => "MaxLength",
            RuleViolation::FooterMaxLineLength { .. } => "MaxLineLength",
            RuleViolation::FooterMinLength { .. } => "MinLength",
        }
    }

    fn explain(&self) -> (r: Option<&'static str>)
        ensures
            r matches Some(t) && t@ == violation_explanation(*self),
    {
        Some(
            match self {
                RuleViolation::DescriptionCase { .. } =>
                    "Checks that the character case of the header description is consistent.",
                RuleViolation::DescriptionFullStop =>
                    "Checks that the header description does not end with a full stop.",
                RuleViolation::DescriptionMaxLength { .. } =>
                    "Checks that the header description is not longer than the limit.",
                RuleViolation::DescriptionMinLength { .. } =>
                    "Checks that the header description is not shorter than the limit.",
                RuleViolation::TypeCase { .. } =>
                    "Checks that the character case of the commit type is consistent. Type is a completely technical field; different spellings of the same type can confuse changelog generators.",
                RuleViolation::TypeEnum { .. } =>
                    "Checks that the commit type is one of the allowed types.",
                RuleViolation::TypeMaxLength { .. } =>
                    "Checks that the commit type is not longer than the limit.",
                RuleViolation::TypeMinLength { .. } =>
                    "Checks that the commit type is not shorter than the limit.",
                RuleViolation::TypeRequired =>
                    "Checks that the commit type exists. Tools analyzing git logs need it to group commits.",
                RuleViolation::ScopeCase { .. } =>
                    "Checks that the character case of the commit scopes is consistent.",
                RuleViolation::ScopeEnum { .. } =>
                    "Checks that every scope is one of the allowed scopes.",
                RuleViolation::ScopeMaxLength { .. } =>
                    "Checks the maximum length of the scope. Scopes take space in the header away from the description.",
                RuleViolation::ScopeMinLength { .. } =>
                    "Checks the minimum length of the scope. An insufficient scope makes the domain of a change hard to understand.",
                RuleViolation::ScopeRequired => "Checks that the commit scope exists.",
                RuleViolation::HeaderMaxLength { .. } =>
                    "Checks that the header is not longer than the limit.",
                RuleViolation::HeaderMinLength { .. } =>
                    "Checks that the header is not shorter than the limit.",
                RuleViolation::BodyCase { .. } =>
                    "Checks that the character case of the commit body is consistent.",
                RuleViolation::BodyFullStop =>
                    "Checks that the body does not end with a full stop.",
                RuleViolation::BodyMaxLineLength { .. } =>
                    "Checks that no line of the body is longer than the limit.",
                RuleViolation::BodyMaxLength { .. } =>
                    "Checks that the body is not longer than the limit.",
                RuleViolation::BodyMinLength { .. } =>
                    "Checks that the body is not shorter than the limit.",
                RuleViolation::BreakingExclamation =>
                    "Checks for the exclamation mark in a message containing a breaking change footer.",
                RuleViolation::Exists { .. } =>
                    "Checks that a required footer exists. Automated tools may require certain footers.",
                RuleViolation::KeyCase { .. } =>
                    "Checks that the character case of the footer keys is consistent.",
                RuleViolation::FooterMaxLength { .. } =>
                    "Checks that the footers are not longer than the limit.",
                RuleViolation::FooterMaxLineLength { .. } =>
                    "Checks that no footer line is longer than the limit.",
                RuleViolation::FooterMinLength { .. } =>
                    "Checks that the footers are not shorter than the limit.",
            },
        )
    }
}

impl Violation for RuleViolation {
    fn message(&self) -> (r: String)
        ensures
            r@ == violation_message(*self),
    {
        let m = self.message_chars();
        string_of(&m)
    }

    fn group(&self) -> (g: LinterGroup)
        ensures
            g == violation_group(*self),
    {
        match self {
            RuleViolation::BodyCase { .. } | RuleViolation::BodyFullStop
            | RuleViolation::BodyMaxLineLength { .. } | RuleViolation::BodyMaxLength { .. }
            | RuleViolation::BodyMinLength { .. } => LinterGroup::Body,
            RuleViolation::BreakingExclamation | RuleViolation::Exists { .. }
            | RuleViolation::KeyCase { .. } | RuleViolation::FooterMaxLength { .. }
            | RuleViolation::FooterMaxLineLength { .. } | RuleViolation::FooterMinLength { .. } =>
                LinterGroup::Footer,
            _ => LinterGroup::Header,
        }
    }

    fn fix_mode(&self) -> (m: FixMode)
        ensures
            m == (if *self is BreakingExclamation {
                FixMode::Safe
            } else {
                FixMode::Unfixable
            }),
    {
        match self {
            RuleViolation::BreakingExclamation => FixMode::Safe,
            _ => FixMode::Unfixable,
        }
    }

    fn fix(&self, message: &mut Message) -> (r: Result<(), ViolationError>)
        ensures
            *self is BreakingExclamation ==> {
                &&& r is Ok
                &&& final(message).header.breaking
                &&& final(message).header.kind == old(message).header.kind
                &&& final(message).header.scope == old(message).header.scope
                &&& final(message).header.description == old(message).header.description
                &&& final(message).body == old(message).body
                &&& final(message).footers == old(message).footers
            },
            !(*self is BreakingExclamation) ==> r matches Err(ViolationError::Unfixable()),
            !(*self is BreakingExclamation) ==> *final(message) == *old(message),
    {
        match self {
            RuleViolation::BreakingExclamation => {
                message.header.breaking = true;
                Ok(())
            },
            _ => Err(ViolationError::Unfixable()),
        }
    }
}

} // verus!
