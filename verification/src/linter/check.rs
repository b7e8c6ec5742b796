//! Running the enabled rules over a message.
use vstd::prelude::*;

use crate::cc::message::Message;
use crate::linter::report::Report;
use crate::linter::rule::Rule;
use crate::linter::rule_set::RuleSet;
use crate::linter::rules::{body, footer, header, Settings};
use crate::linter::violation::{violation_text, RuleViolation};
use crate::text::{push_str, string_of};

verus! {

/// A lint run: the settings and enabled rules, and the violations found so far.
pub struct Check<'a> {
    pub report: Report,
    pub settings: &'a Settings,
    pub rules: RuleSet,
}

/// `s` when `r` is enabled, nothing otherwise.
pub open spec fn gate(rules: RuleSet, r: Rule, s: Seq<RuleViolation>) -> Seq<RuleViolation> {
    if rules@.contains(r) {
        s
    } else {
        Seq::empty()
    }
}

/// One step of a lint run: the report grew by `s` when `r` is enabled.
proof fn lemma_gate_step(
    before: Seq<RuleViolation>,
    after: Seq<RuleViolation>,
    rules: RuleSet,
    r: Rule,
    s: Seq<RuleViolation>,
)
    requires
        rules@.contains(r) ==> after == before + s,
        !rules@.contains(r) ==> after == before,
    ensures
        after == before + gate(rules, r, s),
{
    if !rules@.contains(r) {
        assert(before + Seq::<RuleViolation>::empty() =~= before);
    }
}

/// Growing a report step by step by `g0`, ..., `g4` grows it by their concatenation.
proof fn lemma_chain(
    r0: Seq<RuleViolation>,
    r1: Seq<RuleViolation>,
    r2: Seq<RuleViolation>,
    r3: Seq<RuleViolation>,
    r4: Seq<RuleViolation>,
    r5: Seq<RuleViolation>,
    g0: Seq<RuleViolation>,
    g1: Seq<RuleViolation>,
    g2: Seq<RuleViolation>,
    g3: Seq<RuleViolation>,
    g4: Seq<RuleViolation>,
)
    requires
        r1 == r0 + g0,
        r2 == r1 + g1,
        r3 == r2 + g2,
        r4 == r3 + g3,
        r5 == r4 + g4,
    ensures
        r5 == r0 + (g0 + g1 + g2 + g3 + g4),
{
    assert(r5 =~= r0 + (g0 + g1 + g2 + g3 + g4));
}

/// Four steps.
proof fn lemma_chain4(
    r0: Seq<RuleViolation>,
    r1: Seq<RuleViolation>,
    r2: Seq<RuleViolation>,
    r3: Seq<RuleViolation>,
    r4: Seq<RuleViolation>,
    g0: Seq<RuleViolation>,
    g1: Seq<RuleViolation>,
    g2: Seq<RuleViolation>,
    g3: Seq<RuleViolation>,
)
    requires
        r1 == r0 + g0,
        r2 == r1 + g1,
        r3 == r2 + g2,
        r4 == r3 + g3,
    ensures
        r4 == r0 + (g0 + g1 + g2 + g3),
{
    assert(r4 =~= r0 + (g0 + g1 + g2 + g3));
}

pub open spec fn header_type_spec(s: Settings, rules: RuleSet, m: Message) -> Seq<RuleViolation> {
    gate(rules, Rule::HeaderTypeCase, header::type_case_spec(m, s.header.type_case))
        + gate(rules, Rule::HeaderTypeMaxLength, header::type_max_length_spec(m, s.header.type_max_length))
        + gate(rules, Rule::HeaderTypeMinLength, header::type_min_length_spec(m, s.header.type_min_length))
        + gate(rules, Rule::HeaderTypeEnum, header::type_enum_spec(m, s.header.type_enum@))
        + gate(rules, Rule::HeaderTypeRequired, header::type_required_spec(m))
}

/// The scope-min-length check of a lint run: a message without a scope has a
/// scope shorter than any minimum above 0; a message with one is checked by
/// the rule itself (which passes over an empty scope).
pub open spec fn lint_scope_min_length_spec(m: Message, length: usize) -> Seq<RuleViolation> {
    if m.header.scope@.len() == 0 {
        header::one_if(length != 0, RuleViolation::ScopeMinLength { length })
    } else {
        header::scope_min_length_spec(m, length)
    }
}

pub open spec fn header_scope_spec(s: Settings, rules: RuleSet, m: Message) -> Seq<RuleViolation> {
    gate(rules, Rule::HeaderScopeCase, header::scope_case_spec(m, s.header.scope_case))
        + gate(rules, Rule::HeaderScopeMaxLength, header::scope_max_length_spec(m, s.header.scope_max_length))
        + gate(rules, Rule::HeaderScopeMinLength, lint_scope_min_length_spec(m, s.header.scope_min_length))
        + gate(rules, Rule::HeaderScopeEnum, header::scope_enum_spec(m, s.header.scope_enum@))
        + gate(rules, Rule::HeaderScopeRequired, header::scope_required_spec(m))
}

pub open spec fn header_description_spec(s: Settings, rules: RuleSet, m: Message) -> Seq<RuleViolation> {
    gate(rules, Rule::HeaderDescriptionFullStop, header::description_full_stop_spec(m))
        + gate(rules, Rule::HeaderDescriptionCase, header::description_case_spec(m, s.header.description_case))
        + gate(rules, Rule::HeaderDescriptionMaxLength, header::description_max_length_spec(m, s.header.description_max_length))
        + gate(rules, Rule::HeaderDescriptionMinLength, header::description_min_length_spec(m, s.header.description_min_length))
}

pub open spec fn header_spec(s: Settings, rules: RuleSet, m: Message) -> Seq<RuleViolation> {
    header_type_spec(s, rules, m) + header_scope_spec(s, rules, m) + header_description_spec(s, rules, m)
        + gate(rules, Rule::HeaderMaxLength, header::max_length_spec(m, s.header.max_length))
        + gate(rules, Rule::HeaderMinLength, header::min_length_spec(m, s.header.min_length))
}

pub open spec fn body_spec(s: Settings, rules: RuleSet, m: Message) -> Seq<RuleViolation> {
    gate(rules, Rule::BodyMaxLineLength, body::max_line_length_spec(m, s.body.max_line_length))
        + gate(rules, Rule::BodyMaxLength, body::max_length_spec(m, s.body.max_length))
        + gate(rules, Rule::BodyMinLength, body::min_length_spec(m, s.body.min_length))
        + gate(rules, Rule::BodyFullStop, body::full_stop_spec(m))
        + gate(rules, Rule::BodyCase, body::case_spec(m, s.body.case))
}

pub open spec fn footers_spec(s: Settings, rules: RuleSet, m: Message) -> Seq<RuleViolation> {
    gate(rules, Rule::FooterMaxLength, footer::max_length_spec(m, s.footer.max_length))
        + gate(rules, Rule::FooterBreakingExclamation, footer::breaking_exclamation_spec(m))
        + gate(rules, Rule::FooterMaxLineLength, footer::max_line_length_spec(m, s.footer.max_line_length))
        + gate(rules, Rule::FooterMinLength, footer::min_length_spec(m, s.footer.min_length))
}

/// Violations that linting `m` reports, in order: header rules, body rules when there
/// is a body, the required footers, then footer rules when there are footers.
pub open spec fn lint_spec(s: Settings, rules: RuleSet, m: Message) -> Seq<RuleViolation> {
    header_spec(s, rules, m) + (if m.body is Some {
        body_spec(s, rules, m)
    } else {
        Seq::empty()
    }) + gate(rules, Rule::FooterExists, footer::exists_spec(m, s.footer.required@)) + (if m.footers@.len() > 0 {
        footers_spec(s, rules, m)
    } else {
        Seq::empty()
    })
}

impl<'a> Check<'a> {
    /// A lint run with an empty report.
    pub fn new(settings: &'a Settings, rules: RuleSet) -> (c: Self)
        ensures
            c.report@ == Seq::<RuleViolation>::empty(),
            c.settings == settings,
            c.rules == rules,
    {
        Self { report: Report::default(), settings, rules }
    }

    fn lint_header_type(&mut self, message: &Message)
        ensures
            final(self).settings == old(self).settings,
            final(self).rules == old(self).rules,
            final(self).report@ == old(self).report@ + header_type_spec(*old(self).settings, old(self).rules, *message),
    {
        let ghost s = *self.settings;
        let ghost rules = self.rules;
        let ghost m = *message;
        let ghost r0 = self.report@;
        if self.rules.contains(Rule::HeaderTypeCase) {
            header::type_case(&mut self.report, message, self.settings.header.type_case);
        }
        proof {
            lemma_gate_step(r0, self.report@, rules, Rule::HeaderTypeCase, header::type_case_spec(m, s.header.type_case));
        }
        let ghost r1 = self.report@;
        if self.rules.contains(Rule::HeaderTypeMaxLength) {
            header::type_max_length(&mut self.report, message, self.settings.header.type_max_length);
        }
        proof {
            lemma_gate_step(r1, self.report@, rules, Rule::HeaderTypeMaxLength, header::type_max_length_spec(m, s.header.type_max_length));
        }
        let ghost r2 = self.report@;
        if self.rules.contains(Rule::HeaderTypeMinLength) {
            header::type_min_length(&mut self.report, message, self.settings.header.type_min_length);
        }
        proof {
            lemma_gate_step(r2, self.report@, rules, Rule::HeaderTypeMinLength, header::type_min_length_spec(m, s.header.type_min_length));
        }
        let ghost r3 = self.report@;
        if self.rules.contains(Rule::HeaderTypeEnum) {
            header::type_enum(&mut self.report, message, &self.settings.header.type_enum);
        }
        proof {
            lemma_gate_step(r3, self.report@, rules, Rule::HeaderTypeEnum, header::type_enum_spec(m, s.header.type_enum@));
        }
        let ghost r4 = self.report@;
        if self.rules.contains(Rule::HeaderTypeRequired) {
            header::type_required(&mut self.report, message);
        }
        proof {
            lemma_gate_step(r4, self.report@, rules, Rule::HeaderTypeRequired, header::type_required_spec(m));
        }
        let ghost r5 = self.report@;
        proof {
            lemma_chain(r0, r1, r2, r3, r4, self.report@, gate(rules, Rule::HeaderTypeCase, header::type_case_spec(m, s.header.type_case)), gate(rules, Rule::HeaderTypeMaxLength, header::type_max_length_spec(m, s.header.type_max_length)), gate(rules, Rule::HeaderTypeMinLength, header::type_min_length_spec(m, s.header.type_min_length)), gate(rules, Rule::HeaderTypeEnum, header::type_enum_spec(m, s.header.type_enum@)), gate(rules, Rule::HeaderTypeRequired, header::type_required_spec(m)));
        }
    }

    fn lint_header_scope(&mut self, message: &Message)
        ensures
            final(self).settings == old(self).settings,
            final(self).rules == old(self).rules,
            final(self).report@ == old(self).report@ + header_scope_spec(*old(self).settings, old(self).rules, *message),
    {
        let ghost s = *self.settings;
        let ghost rules = self.rules;
        let ghost m = *message;
        let ghost r0 = self.report@;
        if self.rules.contains(Rule::HeaderScopeCase) {
            header::scope_case(&mut self.report, message, self.settings.header.scope_case);
        }
        proof {
            lemma_gate_step(r0, self.report@, rules, Rule::HeaderScopeCase, header::scope_case_spec(m, s.header.scope_case));
        }
        let ghost r1 = self.report@;
        if self.rules.contains(Rule::HeaderScopeMaxLength) {
            header::scope_max_length(&mut self.report, message, self.settings.header.scope_max_length);
        }
        proof {
            lemma_gate_step(r1, self.report@, rules, Rule::HeaderScopeMaxLength, header::scope_max_length_spec(m, s.header.scope_max_length));
        }
        let ghost r2 = self.report@;
        if self.rules.contains(Rule::HeaderScopeMinLength) {
            let length = self.settings.header.scope_min_length;
            if message.header.scope.is_empty() {
                if length != 0 {
                    self.report.add_violation(RuleViolation::ScopeMinLength { length });
                }
            } else {
                header::scope_min_length(&mut self.report, message, length);
            }
        }
        proof {
            lemma_gate_step(r2, self.report@, rules, Rule::HeaderScopeMinLength, lint_scope_min_length_spec(m, s.header.scope_min_length));
        }
        let ghost r3 = self.report@;
        if self.rules.contains(Rule::HeaderScopeEnum) {
            header::scope_enum(&mut self.report, message, &self.settings.header.scope_enum);
        }
        proof {
            lemma_gate_step(r3, self.report@, rules, Rule::HeaderScopeEnum, header::scope_enum_spec(m, s.header.scope_enum@));
        }
        let ghost r4 = self.report@;
        if self.rules.contains(Rule::HeaderScopeRequired) {
            header::scope_required(&mut self.report, message);
        }
        proof {
            lemma_gate_step(r4, self.report@, rules, Rule::HeaderScopeRequired, header::scope_required_spec(m));
        }
        let ghost r5 = self.report@;
        proof {
            lemma_chain(r0, r1, r2, r3, r4, self.report@, gate(rules, Rule::HeaderScopeCase, header::scope_case_spec(m, s.header.scope_case)), gate(rules, Rule::HeaderScopeMaxLength, header::scope_max_length_spec(m, s.header.scope_max_length)), gate(rules, Rule::HeaderScopeMinLength, lint_scope_min_length_spec(m, s.header.scope_min_length)), gate(rules, Rule::HeaderScopeEnum, header::scope_enum_spec(m, s.header.scope_enum@)), gate(rules, Rule::HeaderScopeRequired, header::scope_required_spec(m)));
        }
    }

    fn lint_header_description(&mut self, message: &Message)
        ensures
            final(self).settings == old(self).settings,
            final(self).rules == old(self).rules,
            final(self).report@ == old(self).report@ + header_description_spec(*old(self).settings, old(self).rules, *message),
    {
        let ghost s = *self.settings;
        let ghost rules = self.rules;
        let ghost m = *message;
        let ghost r0 = self.report@;
        if self.rules.contains(Rule::HeaderDescriptionFullStop) {
            header::description_full_stop(&mut self.report, message);
        }
        proof {
            lemma_gate_step(r0, self.report@, rules, Rule::HeaderDescriptionFullStop, header::description_full_stop_spec(m));
        }
        let ghost r1 = self.report@;
        if self.rules.contains(Rule::HeaderDescriptionCase) {
            header::description_case(&mut self.report, message, self.settings.header.description_case);
        }
        proof {
            lemma_gate_step(r1, self.report@, rules, Rule::HeaderDescriptionCase, header::description_case_spec(m, s.header.description_case));
        }
        let ghost r2 = self.report@;
        if self.rules.contains(Rule::HeaderDescriptionMaxLength) {
            header::description_max_length(&mut self.report, message, self.settings.header.description_max_length);
        }
        proof {
            lemma_gate_step(r2, self.report@, rules, Rule::HeaderDescriptionMaxLength, header::description_max_length_spec(m, s.header.description_max_length));
        }
        let ghost r3 = self.report@;
        if self.rules.contains(Rule::HeaderDescriptionMinLength) {
            header::description_min_length(&mut self.report, message, self.settings.header.description_min_length);
        }
        proof {
            lemma_gate_step(r3, self.report@, rules, Rule::HeaderDescriptionMinLength, header::description_min_length_spec(m, s.header.description_min_length));
        }
        let ghost r4 = self.report@;
        proof {
            lemma_chain4(r0, r1, r2, r3, self.report@, gate(rules, Rule::HeaderDescriptionFullStop, header::description_full_stop_spec(m)), gate(rules, Rule::HeaderDescriptionCase, header::description_case_spec(m, s.header.description_case)), gate(rules, Rule::HeaderDescriptionMaxLength, header::description_max_length_spec(m, s.header.description_max_length)), gate(rules, Rule::HeaderDescriptionMinLength, header::description_min_length_spec(m, s.header.description_min_length)));
        }
    }

    fn lint_header(&mut self, message: &Message)
        ensures
            final(self).settings == old(self).settings,
            final(self).rules == old(self).rules,
            final(self).report@ == old(self).report@ + header_spec(*old(self).settings, old(self).rules, *message),
    {
        let ghost s = *self.settings;
        let ghost rules = self.rules;
        let ghost m = *message;
        let ghost r0 = self.report@;
        self.lint_header_type(message);
        let ghost r1 = self.report@;
        self.lint_header_scope(message);
        let ghost r2 = self.report@;
        self.lint_header_description(message);
        let ghost r3 = self.report@;
        if self.rules.contains(Rule::HeaderMaxLength) {
            header::max_length(&mut self.report, message, self.settings.header.max_length);
        }
        proof {
            lemma_gate_step(r3, self.report@, rules, Rule::HeaderMaxLength, header::max_length_spec(m, s.header.max_length));
        }
        let ghost r4 = self.report@;
        if self.rules.contains(Rule::HeaderMinLength) {
            header::min_length(&mut self.report, message, self.settings.header.min_length);
        }
        proof {
            lemma_gate_step(r4, self.report@, rules, Rule::HeaderMinLength, header::min_length_spec(m, s.header.min_length));
        }
        proof {
            lemma_chain(
                r0,
                r1,
                r2,
                r3,
                r4,
                self.report@,
                header_type_spec(s, rules, m),
                header_scope_spec(s, rules, m),
                header_description_spec(s, rules, m),
                gate(rules, Rule::HeaderMaxLength, header::max_length_spec(m, s.header.max_length)),
                gate(rules, Rule::HeaderMinLength, header::min_length_spec(m, s.header.min_length)),
            );
        }
    }

    fn lint_body(&mut self, message: &Message)
        ensures
            final(self).settings == old(self).settings,
            final(self).rules == old(self).rules,
            final(self).report@ == old(self).report@ + body_spec(*old(self).settings, old(self).rules, *message),
    {
        let ghost s = *self.settings;
        let ghost rules = self.rules;
        let ghost m = *message;
        let ghost r0 = self.report@;
        if self.rules.contains(Rule::BodyMaxLineLength) {
            body::max_line_length(&mut self.report, message, self.settings.body.max_line_length);
        }
        proof {
            lemma_gate_step(r0, self.report@, rules, Rule::BodyMaxLineLength, body::max_line_length_spec(m, s.body.max_line_length));
        }
        let ghost r1 = self.report@;
        if self.rules.contains(Rule::BodyMaxLength) {
            body::max_length(&mut self.report, message, self.settings.body.max_length);
        }
        proof {
            lemma_gate_step(r1, self.report@, rules, Rule::BodyMaxLength, body::max_length_spec(m, s.body.max_length));
        }
        let ghost r2 = self.report@;
        if self.rules.contains(Rule::BodyMinLength) {
            body::min_length(&mut self.report, message, self.settings.body.min_length);
        }
        proof {
            lemma_gate_step(r2, self.report@, rules, Rule::BodyMinLength, body::min_length_spec(m, s.body.min_length));
        }
        let ghost r3 = self.report@;
        if self.rules.contains(Rule::BodyFullStop) {
            body::full_stop(&mut self.report, message);
        }
        proof {
            lemma_gate_step(r3, self.report@, rules, Rule::BodyFullStop, body::full_stop_spec(m));
        }
        let ghost r4 = self.report@;
        if self.rules.contains(Rule::BodyCase) {
            body::case(&mut self.report, message, self.settings.body.case);
        }
        proof {
            lemma_gate_step(r4, self.report@, rules, Rule::BodyCase, body::case_spec(m, s.body.case));
        }
        let ghost r5 = self.report@;
        proof {
            lemma_chain(r0, r1, r2, r3, r4, self.report@, gate(rules, Rule::BodyMaxLineLength, body::max_line_length_spec(m, s.body.max_line_length)), gate(rules, Rule::BodyMaxLength, body::max_length_spec(m, s.body.max_length)), gate(rules, Rule::BodyMinLength, body::min_length_spec(m, s.body.min_length)), gate(rules, Rule::BodyFullStop, body::full_stop_spec(m)), gate(rules, Rule::BodyCase, body::case_spec(m, s.body.case)));
        }
    }

    fn lint_footers(&mut self, message: &Message)
        ensures
            final(self).settings == old(self).settings,
            final(self).rules == old(self).rules,
            final(self).report@ == old(self).report@ + footers_spec(*old(self).settings, old(self).rules, *message),
    {
        let ghost s = *self.settings;
        let ghost rules = self.rules;
        let ghost m = *message;
        let ghost r0 = self.report@;
        if self.rules.contains(Rule::FooterMaxLength) {
            footer::max_length(&mut self.report, message, self.settings.footer.max_length);
        }
        proof {
            lemma_gate_step(r0, self.report@, rules, Rule::FooterMaxLength, footer::max_length_spec(m, s.footer.max_length));
        }
        let ghost r1 = self.report@;
        if self.rules.contains(Rule::FooterBreakingExclamation) {
            footer::breaking_exclamation(&mut self.report, message);
        }
        proof {
            lemma_gate_step(r1, self.report@, rules, Rule::FooterBreakingExclamation, footer::breaking_exclamation_spec(m));
        }
        let ghost r2 = self.report@;
        if self.rules.contains(Rule::FooterMaxLineLength) {
            footer::max_line_length(&mut self.report, message, self.settings.footer.max_line_length);
        }
        proof {
            lemma_gate_step(r2, self.report@, rules, Rule::FooterMaxLineLength, footer::max_line_length_spec(m, s.footer.max_line_length));
        }
        let ghost r3 = self.report@;
        if self.rules.contains(Rule::FooterMinLength) {
            footer::min_length(&mut self.report, message, self.settings.footer.min_length);
        }
        proof {
            lemma_gate_step(r3, self.report@, rules, Rule::FooterMinLength, footer::min_length_spec(m, s.footer.min_length));
        }
        let ghost r4 = self.report@;
        proof {
            lemma_chain4(r0, r1, r2, r3, self.report@, gate(rules, Rule::FooterMaxLength, footer::max_length_spec(m, s.footer.max_length)), gate(rules, Rule::FooterBreakingExclamation, footer::breaking_exclamation_spec(m)), gate(rules, Rule::FooterMaxLineLength, footer::max_line_length_spec(m, s.footer.max_line_length)), gate(rules, Rule::FooterMinLength, footer::min_length_spec(m, s.footer.min_length)));
        }
    }

    /// Runs every enabled rule over `message`, adding what it finds to the report.
    ///
    /// A message without a scope counts as having a scope shorter than any
    /// minimum scope length above 0: the scope-min-length rule on its own
    /// passes over an empty scope, the lint run reports it.
    pub fn lint(&mut self, message: &Message)
        ensures
            final(self).settings == old(self).settings,
            final(self).rules == old(self).rules,
            final(self).report@ == old(self).report@ + lint_spec(*old(self).settings, old(self).rules, *message),
    {
        let ghost s = *self.settings;
        let ghost rules = self.rules;
        let ghost m = *message;
        let ghost r0 = self.report@;
        self.lint_header(message);
        let ghost r1 = self.report@;
        if message.body.is_some() {
            self.lint_body(message);
        } else {
            assert(r1 + Seq::<RuleViolation>::empty() =~= r1);
        }
        let ghost r2 = self.report@;
        if self.rules.contains(Rule::FooterExists) {
            footer::footer_exists(&mut self.report, message, &self.settings.footer.required);
        }
        proof {
            lemma_gate_step(r2, self.report@, rules, Rule::FooterExists, footer::exists_spec(m, s.footer.required@));
        }
        let ghost r3 = self.report@;
        if !message.footers.is_empty() {
            self.lint_footers(message);
        } else {
            assert(r3 + Seq::<RuleViolation>::empty() =~= r3);
        }
        proof {
            lemma_chain4(
                r0,
                r1,
                r2,
                r3,
                self.report@,
                header_spec(s, rules, m),
                if m.body is Some {
                    body_spec(s, rules, m)
                } else {
                    Seq::empty()
                },
                gate(rules, Rule::FooterExists, footer::exists_spec(m, s.footer.required@)),
                if m.footers@.len() > 0 {
                    footers_spec(s, rules, m)
                } else {
                    Seq::empty()
                },
            );
        }
    }
}

/// The violations listed one per line, each as `- group::rule: message`.
pub open spec fn report_text(vs: Seq<RuleViolation>) -> Seq<char>
    decreases vs.len(),
{
    if vs.len() == 0 {
        Seq::empty()
    } else {
        report_text(vs.drop_last()) + "- "@ + violation_text(vs.last()) + "\n"@
    }
}

impl<'a> Check<'a> {
    /// The violations found, one per line (what `Display` writes).
    pub fn to_string(&self) -> (s: String)
        ensures
            s@ == report_text(self.report@),
    {
        let mut out: Vec<char> = Vec::new();
        let mut i: usize = 0;
        let vs = &self.report.violations;
        while i < vs.len()
            invariant
                i <= vs@.len(),
                vs@ == self.report@,
                out@ == report_text(vs@.take(i as int)),
            decreases vs.len() - i,
        {
            assert(vs@.take(i + 1).drop_last() =~= vs@.take(i as int));
            assert(vs@.take(i + 1).last() == vs@[i as int]);
            push_str(&mut out, "- ");
            let line = vs[i].to_string();
            push_str(&mut out, line.as_str());
            push_str(&mut out, "\n");
            i = i + 1;
        }
        assert(vs@.take(vs@.len() as int) =~= vs@);
        string_of(&out)
    }
}

/// With no rule enabled, linting reports nothing, whatever the message and
/// the settings.
pub proof fn law_no_rules_no_violations(s: Settings, rules: RuleSet, m: Message)
    requires
        rules@ == Set::<Rule>::empty(),
    ensures
        lint_spec(s, rules, m) == Seq::<RuleViolation>::empty(),
{
    let e = Seq::<RuleViolation>::empty();
    assert(header_type_spec(s, rules, m) =~= e);
    assert(header_scope_spec(s, rules, m) =~= e);
    assert(header_description_spec(s, rules, m) =~= e);
    assert(header_spec(s, rules, m) =~= e);
    assert(body_spec(s, rules, m) =~= e);
    assert(footers_spec(s, rules, m) =~= e);
    assert(lint_spec(s, rules, m) =~= e);
}

} // verus!
