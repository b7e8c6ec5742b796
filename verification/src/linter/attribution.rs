//! Which rule reports which violation in a lint run.
use vstd::prelude::*;

use crate::cc::message::Message;
use crate::linter::check::{
    body_spec, footers_spec, gate, header_description_spec, header_scope_spec, header_spec,
    header_type_spec, lint_scope_min_length_spec, lint_spec,
};
use crate::linter::case::text_case_matches;
use crate::linter::rule::Rule;
use crate::linter::rule_set::RuleSet;
use crate::linter::rules::{body, footer, header, Settings};
use crate::linter::rule::LinterGroup;
use crate::linter::violation::{violation_group, RuleViolation};

verus! {

/// The rule that reports a violation.
pub open spec fn violation_rule(v: RuleViolation) -> Rule {
    match v {
        RuleViolation::DescriptionCase { .. } => Rule::HeaderDescriptionCase,
        RuleViolation::DescriptionFullStop => Rule::HeaderDescriptionFullStop,
        RuleViolation::DescriptionMaxLength { .. } => Rule::HeaderDescriptionMaxLength,
        RuleViolation::DescriptionMinLength { .. } => Rule::HeaderDescriptionMinLength,
        RuleViolation::TypeCase { .. } => Rule::HeaderTypeCase,
        RuleViolation::TypeEnum { .. } => Rule::HeaderTypeEnum,
        RuleViolation::TypeMaxLength { .. } => Rule::HeaderTypeMaxLength,
        RuleViolation::TypeMinLength { .. } => Rule::HeaderTypeMinLength,
        RuleViolation::TypeRequired => Rule::HeaderTypeRequired,
        RuleViolation::ScopeCase { .. } => Rule::HeaderScopeCase,
        RuleViolation::ScopeEnum { .. } => Rule::HeaderScopeEnum,
        RuleViolation::ScopeMaxLength { .. } => Rule::HeaderScopeMaxLength,
        RuleViolation::ScopeMinLength { .. } => Rule::HeaderScopeMinLength,
        RuleViolation::ScopeRequired => Rule::HeaderScopeRequired,
        RuleViolation::HeaderMaxLength { .. } => Rule::HeaderMaxLength,
        RuleViolation::HeaderMinLength { .. } => Rule::HeaderMinLength,
        RuleViolation::BodyCase { .. } => Rule::BodyCase,
        RuleViolation::BodyFullStop => Rule::BodyFullStop,
        RuleViolation::BodyMaxLineLength { .. } => Rule::BodyMaxLineLength,
        RuleViolation::BodyMaxLength { .. } => Rule::BodyMaxLength,
        RuleViolation::BodyMinLength { .. } => Rule::BodyMinLength,
        RuleViolation::BreakingExclamation => Rule::FooterBreakingExclamation,
        RuleViolation::Exists { .. } => Rule::FooterExists,
        RuleViolation::KeyCase { .. } => Rule::FooterKeyCase,
        RuleViolation::FooterMaxLength { .. } => Rule::FooterMaxLength,
        RuleViolation::FooterMaxLineLength { .. } => Rule::FooterMaxLineLength,
        RuleViolation::FooterMinLength { .. } => Rule::FooterMinLength,
    }
}

/// What rule `r` reports on `m` in a lint run with the settings `s`, when it
/// is enabled: the body rules look at a body only, the footer rules (but the
/// required footers) at footers only; the leading-newline and footer key-case
/// rules report nothing in a lint run.
#[verifier::opaque]
pub open spec fn rule_report(s: Settings, m: Message, r: Rule) -> Seq<RuleViolation> {
    match r {
        Rule::HeaderTypeCase => header::type_case_spec(m, s.header.type_case),
        Rule::HeaderTypeMaxLength => header::type_max_length_spec(m, s.header.type_max_length),
        Rule::HeaderTypeMinLength => header::type_min_length_spec(m, s.header.type_min_length),
        Rule::HeaderTypeEnum => header::type_enum_spec(m, s.header.type_enum@),
        Rule::HeaderTypeRequired => header::type_required_spec(m),
        Rule::HeaderScopeCase => header::scope_case_spec(m, s.header.scope_case),
        Rule::HeaderScopeMaxLength => header::scope_max_length_spec(m, s.header.scope_max_length),
        Rule::HeaderScopeMinLength => lint_scope_min_length_spec(m, s.header.scope_min_length),
        Rule::HeaderScopeEnum => header::scope_enum_spec(m, s.header.scope_enum@),
        Rule::HeaderScopeRequired => header::scope_required_spec(m),
        Rule::HeaderDescriptionFullStop => header::description_full_stop_spec(m),
        Rule::HeaderDescriptionCase => header::description_case_spec(m, s.header.description_case),
        Rule::HeaderDescriptionMaxLength => header::description_max_length_spec(
            m,
            s.header.description_max_length,
        ),
        Rule::HeaderDescriptionMinLength => header::description_min_length_spec(
            m,
            s.header.description_min_length,
        ),
        Rule::HeaderMaxLength => header::max_length_spec(m, s.header.max_length),
        Rule::HeaderMinLength => header::min_length_spec(m, s.header.min_length),
        Rule::BodyMaxLineLength => body::max_line_length_spec(m, s.body.max_line_length),
        Rule::BodyMaxLength => body::max_length_spec(m, s.body.max_length),
        Rule::BodyMinLength => body::min_length_spec(m, s.body.min_length),
        Rule::BodyFullStop => body::full_stop_spec(m),
        Rule::BodyCase => body::case_spec(m, s.body.case),
        Rule::BodyLeadingNewLine => Seq::empty(),
        Rule::FooterExists => footer::exists_spec(m, s.footer.required@),
        Rule::FooterKeyCase => Seq::empty(),
        Rule::FooterMaxLength => if m.footers@.len() > 0 {
            footer::max_length_spec(m, s.footer.max_length)
        } else {
            Seq::empty()
        },
        Rule::FooterBreakingExclamation => if m.footers@.len() > 0 {
            footer::breaking_exclamation_spec(m)
        } else {
            Seq::empty()
        },
        Rule::FooterMaxLineLength => if m.footers@.len() > 0 {
            footer::max_line_length_spec(m, s.footer.max_line_length)
        } else {
            Seq::empty()
        },
        Rule::FooterMinLength => if m.footers@.len() > 0 {
            footer::min_length_spec(m, s.footer.min_length)
        } else {
            Seq::empty()
        },
    }
}

/// The reports of the rules of `order`, each where it is enabled, one after the other.
pub open spec fn reports_in_order(s: Settings, rules: RuleSet, m: Message, order: Seq<Rule>) -> Seq<
    RuleViolation,
>
    decreases order.len(),
{
    if order.len() == 0 {
        Seq::empty()
    } else {
        gate(rules, order[0], rule_report(s, m, order[0])) + reports_in_order(
            s,
            rules,
            m,
            order.drop_first(),
        )
    }
}

pub open spec fn type_order() -> Seq<Rule> {
    seq![
        Rule::HeaderTypeCase,
        Rule::HeaderTypeMaxLength,
        Rule::HeaderTypeMinLength,
        Rule::HeaderTypeEnum,
        Rule::HeaderTypeRequired,
    ]
}

pub open spec fn scope_order() -> Seq<Rule> {
    seq![
        Rule::HeaderScopeCase,
        Rule::HeaderScopeMaxLength,
        Rule::HeaderScopeMinLength,
        Rule::HeaderScopeEnum,
        Rule::HeaderScopeRequired,
    ]
}

pub open spec fn description_order() -> Seq<Rule> {
    seq![
        Rule::HeaderDescriptionFullStop,
        Rule::HeaderDescriptionCase,
        Rule::HeaderDescriptionMaxLength,
        Rule::HeaderDescriptionMinLength,
    ]
}

pub open spec fn header_order() -> Seq<Rule> {
    type_order() + scope_order() + description_order() + seq![Rule::HeaderMaxLength, Rule::HeaderMinLength]
}

pub open spec fn body_order() -> Seq<Rule> {
    seq![
        Rule::BodyMaxLineLength,
        Rule::BodyMaxLength,
        Rule::BodyMinLength,
        Rule::BodyFullStop,
        Rule::BodyCase,
    ]
}

pub open spec fn footer_order() -> Seq<Rule> {
    seq![
        Rule::FooterMaxLength,
        Rule::FooterBreakingExclamation,
        Rule::FooterMaxLineLength,
        Rule::FooterMinLength,
    ]
}

/// The order in which a lint run applies the rules.
pub open spec fn lint_order() -> Seq<Rule> {
    header_order() + body_order() + seq![Rule::FooterExists] + footer_order()
}

proof fn lemma_reports_split(s: Settings, rules: RuleSet, m: Message, a: Seq<Rule>, b: Seq<Rule>)
    ensures
        reports_in_order(s, rules, m, a + b) == reports_in_order(s, rules, m, a) + reports_in_order(
            s,
            rules,
            m,
            b,
        ),
    decreases a.len(),
{
    if a.len() == 0 {
        assert(a + b =~= b);
        assert(Seq::<RuleViolation>::empty() + reports_in_order(s, rules, m, b) =~= reports_in_order(
            s,
            rules,
            m,
            b,
        ));
    } else {
        assert((a + b).drop_first() =~= a.drop_first() + b);
        lemma_reports_split(s, rules, m, a.drop_first(), b);
        let g = gate(rules, a[0], rule_report(s, m, a[0]));
        assert(g + (reports_in_order(s, rules, m, a.drop_first()) + reports_in_order(s, rules, m, b))
            =~= (g + reports_in_order(s, rules, m, a.drop_first())) + reports_in_order(
            s,
            rules,
            m,
            b,
        ));
    }
}

/// Reporting the rules of `o` reports the first rule, then the rest.
proof fn lemma_reports_cons(s: Settings, rules: RuleSet, m: Message, o: Seq<Rule>)
    requires
        o.len() > 0,
    ensures
        reports_in_order(s, rules, m, o) == gate(rules, o[0], rule_report(s, m, o[0]))
            + reports_in_order(s, rules, m, o.drop_first()),
{
}

proof fn lemma_assoc5(
    g0: Seq<RuleViolation>,
    g1: Seq<RuleViolation>,
    g2: Seq<RuleViolation>,
    g3: Seq<RuleViolation>,
    g4: Seq<RuleViolation>,
)
    ensures
        g0 + (g1 + (g2 + (g3 + g4))) == g0 + g1 + g2 + g3 + g4,
{
    assert(g0 + (g1 + (g2 + (g3 + g4))) =~= g0 + g1 + g2 + g3 + g4);
}

proof fn lemma_assoc4(g0: Seq<RuleViolation>, g1: Seq<RuleViolation>, g2: Seq<RuleViolation>, g3: Seq<RuleViolation>)
    ensures
        g0 + (g1 + (g2 + g3)) == g0 + g1 + g2 + g3,
{
    assert(g0 + (g1 + (g2 + g3)) =~= g0 + g1 + g2 + g3);
}

proof fn lemma_reports_five(s: Settings, rules: RuleSet, m: Message, o: Seq<Rule>)
    requires
        o.len() == 5,
    ensures
        reports_in_order(s, rules, m, o) == gate(rules, o[0], rule_report(s, m, o[0])) + gate(
            rules,
            o[1],
            rule_report(s, m, o[1]),
        ) + gate(rules, o[2], rule_report(s, m, o[2])) + gate(rules, o[3], rule_report(s, m, o[3]))
            + gate(rules, o[4], rule_report(s, m, o[4])),
{
    let o1 = o.drop_first();
    let o2 = o1.drop_first();
    let o3 = o2.drop_first();
    let o4 = o3.drop_first();
    lemma_reports_cons(s, rules, m, o);
    lemma_reports_cons(s, rules, m, o1);
    lemma_reports_cons(s, rules, m, o2);
    lemma_reports_cons(s, rules, m, o3);
    lemma_reports_one(s, rules, m, o4);
    let g0 = gate(rules, o[0], rule_report(s, m, o[0]));
    let g1 = gate(rules, o[1], rule_report(s, m, o[1]));
    let g2 = gate(rules, o[2], rule_report(s, m, o[2]));
    let g3 = gate(rules, o[3], rule_report(s, m, o[3]));
    let g4 = gate(rules, o[4], rule_report(s, m, o[4]));
    assert(o1[0] == o[1] && o2[0] == o[2] && o3[0] == o[3] && o4[0] == o[4]);
    lemma_assoc5(g0, g1, g2, g3, g4);
}

proof fn lemma_reports_four(s: Settings, rules: RuleSet, m: Message, o: Seq<Rule>)
    requires
        o.len() == 4,
    ensures
        reports_in_order(s, rules, m, o) == gate(rules, o[0], rule_report(s, m, o[0])) + gate(
            rules,
            o[1],
            rule_report(s, m, o[1]),
        ) + gate(rules, o[2], rule_report(s, m, o[2])) + gate(rules, o[3], rule_report(s, m, o[3])),
{
    let o1 = o.drop_first();
    let o2 = o1.drop_first();
    let o3 = o2.drop_first();
    lemma_reports_cons(s, rules, m, o);
    lemma_reports_cons(s, rules, m, o1);
    lemma_reports_cons(s, rules, m, o2);
    lemma_reports_one(s, rules, m, o3);
    let g0 = gate(rules, o[0], rule_report(s, m, o[0]));
    let g1 = gate(rules, o[1], rule_report(s, m, o[1]));
    let g2 = gate(rules, o[2], rule_report(s, m, o[2]));
    let g3 = gate(rules, o[3], rule_report(s, m, o[3]));
    assert(o1[0] == o[1] && o2[0] == o[2] && o3[0] == o[3]);
    lemma_assoc4(g0, g1, g2, g3);
}

proof fn lemma_reports_one(s: Settings, rules: RuleSet, m: Message, o: Seq<Rule>)
    requires
        o.len() == 1,
    ensures
        reports_in_order(s, rules, m, o) == gate(rules, o[0], rule_report(s, m, o[0])),
{
    assert(o.drop_first().len() == 0);
    assert(reports_in_order(s, rules, m, o.drop_first()) == Seq::<RuleViolation>::empty());
    let g0 = gate(rules, o[0], rule_report(s, m, o[0]));
    assert(g0 + Seq::<RuleViolation>::empty() =~= g0);
}

proof fn lemma_type_in_order(s: Settings, rules: RuleSet, m: Message)
    ensures
        header_type_spec(s, rules, m) == reports_in_order(s, rules, m, type_order()),
{
    reveal(rule_report);
    lemma_reports_five(s, rules, m, type_order());
}

proof fn lemma_scope_in_order(s: Settings, rules: RuleSet, m: Message)
    ensures
        header_scope_spec(s, rules, m) == reports_in_order(s, rules, m, scope_order()),
{
    reveal(rule_report);
    lemma_reports_five(s, rules, m, scope_order());
}

proof fn lemma_description_in_order(s: Settings, rules: RuleSet, m: Message)
    ensures
        header_description_spec(s, rules, m) == reports_in_order(s, rules, m, description_order()),
{
    reveal(rule_report);
    lemma_reports_four(s, rules, m, description_order());
}

proof fn lemma_header_in_order(s: Settings, rules: RuleSet, m: Message)
    ensures
        header_spec(s, rules, m) == reports_in_order(s, rules, m, header_order()),
{
    lemma_type_in_order(s, rules, m);
    lemma_scope_in_order(s, rules, m);
    lemma_description_in_order(s, rules, m);
    let mx = seq![Rule::HeaderMaxLength];
    let mn = seq![Rule::HeaderMinLength];
    lemma_reports_one(s, rules, m, mx);
    lemma_reports_one(s, rules, m, mn);
    assert(seq![Rule::HeaderMaxLength, Rule::HeaderMinLength] =~= mx + mn);
    lemma_reports_split(s, rules, m, mx, mn);
    lemma_reports_split(s, rules, m, type_order(), scope_order());
    lemma_reports_split(s, rules, m, type_order() + scope_order(), description_order());
    lemma_reports_split(
        s,
        rules,
        m,
        type_order() + scope_order() + description_order(),
        seq![Rule::HeaderMaxLength, Rule::HeaderMinLength],
    );
    assert(rule_report(s, m, Rule::HeaderMaxLength) == header::max_length_spec(m, s.header.max_length))
        by {
        reveal(rule_report);
    }
    assert(rule_report(s, m, Rule::HeaderMinLength) == header::min_length_spec(m, s.header.min_length))
        by {
        reveal(rule_report);
    }
    let t = header_type_spec(s, rules, m);
    let c = header_scope_spec(s, rules, m);
    let d = header_description_spec(s, rules, m);
    let x = gate(rules, Rule::HeaderMaxLength, header::max_length_spec(m, s.header.max_length));
    let n = gate(rules, Rule::HeaderMinLength, header::min_length_spec(m, s.header.min_length));
    lemma_assoc5(t, c, d, x, n);
    assert(t + c + d + (x + n) =~= t + c + d + x + n);
}

proof fn lemma_body_in_order(s: Settings, rules: RuleSet, m: Message)
    ensures
        reports_in_order(s, rules, m, body_order()) == (if m.body is Some {
            body_spec(s, rules, m)
        } else {
            Seq::empty()
        }),
{
    reveal(rule_report);
    lemma_reports_five(s, rules, m, body_order());
    if m.body is None {
        assert(body_spec(s, rules, m) =~= Seq::<RuleViolation>::empty());
    }
}

proof fn lemma_footers_in_order(s: Settings, rules: RuleSet, m: Message)
    ensures
        reports_in_order(s, rules, m, footer_order()) == (if m.footers@.len() > 0 {
            footers_spec(s, rules, m)
        } else {
            Seq::empty()
        }),
{
    reveal(rule_report);
    lemma_reports_four(s, rules, m, footer_order());
    if m.footers@.len() == 0 {
        assert(reports_in_order(s, rules, m, footer_order()) =~= Seq::<RuleViolation>::empty());
    }
}

/// A lint run reports the rules' reports in the order of `lint_order`.
proof fn lemma_lint_in_order(s: Settings, rules: RuleSet, m: Message)
    ensures
        lint_spec(s, rules, m) == reports_in_order(s, rules, m, lint_order()),
{
    lemma_header_in_order(s, rules, m);
    lemma_body_in_order(s, rules, m);
    lemma_footers_in_order(s, rules, m);
    let ex = seq![Rule::FooterExists];
    lemma_reports_one(s, rules, m, ex);
    assert(rule_report(s, m, Rule::FooterExists) == footer::exists_spec(m, s.footer.required@)) by {
        reveal(rule_report);
    }
    lemma_reports_split(s, rules, m, header_order(), body_order());
    lemma_reports_split(s, rules, m, header_order() + body_order(), ex);
    lemma_reports_split(s, rules, m, header_order() + body_order() + ex, footer_order());
}

/// Every violation that rule `r` reports is one of `r`'s.
proof fn lemma_report_of_rule(s: Settings, m: Message, r: Rule)
    ensures
        forall|i: int|
            0 <= i < rule_report(s, m, r).len() ==> violation_rule(#[trigger] rule_report(s, m, r)[i])
                == r,
{
    reveal(rule_report);
}

/// The reports of the rules of `order` hold a violation exactly where the
/// rule that reports it is in `order`, is enabled and reports it.
proof fn lemma_reports_contain(
    s: Settings,
    rules: RuleSet,
    m: Message,
    order: Seq<Rule>,
    v: RuleViolation,
)
    ensures
        reports_in_order(s, rules, m, order).contains(v) <==> (order.contains(violation_rule(v))
            && rules@.contains(violation_rule(v)) && rule_report(s, m, violation_rule(v)).contains(v)),
    decreases order.len(),
{
    if order.len() > 0 {
        let r = order[0];
        let g = gate(rules, r, rule_report(s, m, r));
        let rest = reports_in_order(s, rules, m, order.drop_first());
        lemma_reports_contain(s, rules, m, order.drop_first(), v);
        lemma_report_of_rule(s, m, r);
        let whole = g + rest;
        if whole.contains(v) {
            let i = choose|i: int| 0 <= i < whole.len() && whole[i] == v;
            if i < g.len() {
                assert(g[i] == v);
                assert(order.contains(r));
            } else {
                assert(rest[i - g.len()] == v);
                let k = choose|k: int|
                    0 <= k < order.drop_first().len() && order.drop_first()[k] == violation_rule(v);
                assert(order[k + 1] == violation_rule(v));
            }
        }
        if order.contains(violation_rule(v)) && rules@.contains(violation_rule(v)) && rule_report(
            s,
            m,
            violation_rule(v),
        ).contains(v) {
            if violation_rule(v) == r {
                let i = choose|i: int| 0 <= i < g.len() && g[i] == v;
                assert(whole[i] == v);
            } else {
                let k = choose|k: int| 0 <= k < order.len() && order[k] == violation_rule(v);
                assert(k != 0);
                assert(order.drop_first()[k - 1] == violation_rule(v));
                let i = choose|i: int| 0 <= i < rest.len() && rest[i] == v;
                assert(whole[g.len() + i] == v);
            }
        }
    }
}

/// A lint run reports a violation exactly where the rule that reports such a
/// violation is enabled and reports it on the message: no rule that is not
/// enabled reports anything, and each enabled rule reports what it finds.
pub proof fn law_lint_reports_enabled_rules(s: Settings, rules: RuleSet, m: Message, v: RuleViolation)
    ensures
        lint_spec(s, rules, m).contains(v) <==> rules@.contains(violation_rule(v)) && rule_report(
            s,
            m,
            violation_rule(v),
        ).contains(v),
{
    lemma_lint_in_order(s, rules, m);
    lemma_reports_contain(s, rules, m, lint_order(), v);
    reveal(rule_report);
    let r = violation_rule(v);
    if r != Rule::BodyLeadingNewLine && r != Rule::FooterKeyCase {
        let o = lint_order();
        assert(o =~= seq![
            Rule::HeaderTypeCase,
            Rule::HeaderTypeMaxLength,
            Rule::HeaderTypeMinLength,
            Rule::HeaderTypeEnum,
            Rule::HeaderTypeRequired,
            Rule::HeaderScopeCase,
            Rule::HeaderScopeMaxLength,
            Rule::HeaderScopeMinLength,
            Rule::HeaderScopeEnum,
            Rule::HeaderScopeRequired,
            Rule::HeaderDescriptionFullStop,
            Rule::HeaderDescriptionCase,
            Rule::HeaderDescriptionMaxLength,
            Rule::HeaderDescriptionMinLength,
            Rule::HeaderMaxLength,
            Rule::HeaderMinLength,
            Rule::BodyMaxLineLength,
            Rule::BodyMaxLength,
            Rule::BodyMinLength,
            Rule::BodyFullStop,
            Rule::BodyCase,
            Rule::FooterExists,
            Rule::FooterMaxLength,
            Rule::FooterBreakingExclamation,
            Rule::FooterMaxLineLength,
            Rule::FooterMinLength,
        ]);
        assert(o.contains(r)) by {
            match r {
                Rule::HeaderTypeCase => assert(o[0] == r),
                Rule::HeaderTypeMaxLength => assert(o[1] == r),
                Rule::HeaderTypeMinLength => assert(o[2] == r),
                Rule::HeaderTypeEnum => assert(o[3] == r),
                Rule::HeaderTypeRequired => assert(o[4] == r),
                Rule::HeaderScopeCase => assert(o[5] == r),
                Rule::HeaderScopeMaxLength => assert(o[6] == r),
                Rule::HeaderScopeMinLength => assert(o[7] == r),
                Rule::HeaderScopeEnum => assert(o[8] == r),
                Rule::HeaderScopeRequired => assert(o[9] == r),
                Rule::HeaderDescriptionFullStop => assert(o[10] == r),
                Rule::HeaderDescriptionCase => assert(o[11] == r),
                Rule::HeaderDescriptionMaxLength => assert(o[12] == r),
                Rule::HeaderDescriptionMinLength => assert(o[13] == r),
                Rule::HeaderMaxLength => assert(o[14] == r),
                Rule::HeaderMinLength => assert(o[15] == r),
                Rule::BodyMaxLineLength => assert(o[16] == r),
                Rule::BodyMaxLength => assert(o[17] == r),
                Rule::BodyMinLength => assert(o[18] == r),
                Rule::BodyFullStop => assert(o[19] == r),
                Rule::BodyCase => assert(o[20] == r),
                Rule::FooterExists => assert(o[21] == r),
                Rule::FooterMaxLength => assert(o[22] == r),
                Rule::FooterBreakingExclamation => assert(o[23] == r),
                Rule::FooterMaxLineLength => assert(o[24] == r),
                Rule::FooterMinLength => assert(o[25] == r),
                _ => {},
            }
        }
    }
}

/// With the type-required rule enabled, a lint run reports a missing type
/// exactly where the header has no type.
pub proof fn law_type_required(s: Settings, rules: RuleSet, m: Message)
    requires
        rules@.contains(Rule::HeaderTypeRequired),
    ensures
        lint_spec(s, rules, m).contains(RuleViolation::TypeRequired) <==> m.header.kind is None,
{
    law_lint_reports_enabled_rules(s, rules, m, RuleViolation::TypeRequired);
    assert(rule_report(s, m, Rule::HeaderTypeRequired) == header::type_required_spec(m)) by {
        reveal(rule_report);
    }
    if m.header.kind is None {
        assert(header::type_required_spec(m)[0] == RuleViolation::TypeRequired);
    }
}

/// With the scope-min-length rule enabled and a minimum above 0, a lint run
/// reports a message without a scope as having too short a scope.
pub proof fn law_empty_scope_too_short(s: Settings, rules: RuleSet, m: Message)
    requires
        rules@.contains(Rule::HeaderScopeMinLength),
        s.header.scope_min_length != 0,
        m.header.scope@.len() == 0,
    ensures
        lint_spec(s, rules, m).contains(
            RuleViolation::ScopeMinLength { length: s.header.scope_min_length },
        ),
{
    let v = RuleViolation::ScopeMinLength { length: s.header.scope_min_length };
    law_lint_reports_enabled_rules(s, rules, m, v);
    assert(rule_report(s, m, Rule::HeaderScopeMinLength) == lint_scope_min_length_spec(
        m,
        s.header.scope_min_length,
    )) by {
        reveal(rule_report);
    }
    assert(lint_scope_min_length_spec(m, s.header.scope_min_length)[0] == v);
}

/// With the scope-enum rule enabled, a lint run reports a scope item outside
/// the allowed list exactly for the first such item, and for none where every
/// item is allowed.
pub proof fn law_scope_enum(s: Settings, rules: RuleSet, m: Message, miss: String)
    requires
        rules@.contains(Rule::HeaderScopeEnum),
    ensures
        lint_spec(s, rules, m).contains(RuleViolation::ScopeEnum { miss }) <==> header::first_not_allowed(
            m.header.scope.items@,
            s.header.scope_enum@,
        ) == Some(miss),
{
    let v = RuleViolation::ScopeEnum { miss };
    law_lint_reports_enabled_rules(s, rules, m, v);
    assert(rule_report(s, m, Rule::HeaderScopeEnum) == header::scope_enum_spec(m, s.header.scope_enum@))
        by {
        reveal(rule_report);
    }
    if header::first_not_allowed(m.header.scope.items@, s.header.scope_enum@) == Some(miss) {
        assert(header::scope_enum_spec(m, s.header.scope_enum@)[0] == v);
    }
}

proof fn lemma_body_case_report(s: Settings, m: Message, b: String)
    requires
        m.body == Some(b),
    ensures
        rule_report(s, m, Rule::BodyCase).contains(RuleViolation::BodyCase { case: s.body.case })
            <==> !text_case_matches(s.body.case, b@),
{
    let v = RuleViolation::BodyCase { case: s.body.case };
    assert(rule_report(s, m, Rule::BodyCase) == body::case_spec(m, s.body.case)) by {
        reveal(rule_report);
    }
    if !text_case_matches(s.body.case, b@) {
        assert(body::case_spec(m, s.body.case)[0] == v);
    }
}

/// With the body-case rule enabled, a lint run reports the case of a body
/// exactly where the body is not written in the configured case.
pub proof fn law_body_case(s: Settings, rules: RuleSet, m: Message, b: String)
    requires
        rules@.contains(Rule::BodyCase),
        m.body == Some(b),
    ensures
        lint_spec(s, rules, m).contains(RuleViolation::BodyCase { case: s.body.case })
            <==> !text_case_matches(s.body.case, b@),
{
    let v = RuleViolation::BodyCase { case: s.body.case };
    law_lint_reports_enabled_rules(s, rules, m, v);
    assert(violation_rule(v) == Rule::BodyCase);
    lemma_body_case_report(s, m, b);
}

/// A message without a body gets no report from a body rule, and one without
/// footers none from a footer rule but the required-footers rule.
proof fn lemma_reports_need_parts(s: Settings, m: Message, v: RuleViolation)
    ensures
        m.body is None && violation_group(v) == LinterGroup::Body ==> !rule_report(
            s,
            m,
            violation_rule(v),
        ).contains(v),
        m.footers@.len() == 0 && violation_group(v) == LinterGroup::Footer && !(v is Exists) ==> !rule_report(
            s,
            m,
            violation_rule(v),
        ).contains(v),
{
    reveal(rule_report);
    if m.body is None && violation_group(v) == LinterGroup::Body {
        assert(rule_report(s, m, violation_rule(v)) =~= Seq::<RuleViolation>::empty());
    }
    if m.footers@.len() == 0 && violation_group(v) == LinterGroup::Footer && !(v is Exists) {
        assert(rule_report(s, m, violation_rule(v)) =~= Seq::<RuleViolation>::empty());
    }
}

/// A lint run reports no body violation for a message without a body.
pub proof fn law_lint_without_body(s: Settings, rules: RuleSet, m: Message, v: RuleViolation)
    requires
        m.body is None,
        lint_spec(s, rules, m).contains(v),
    ensures
        violation_group(v) != LinterGroup::Body,
{
    law_lint_reports_enabled_rules(s, rules, m, v);
    lemma_reports_need_parts(s, m, v);
}

/// A lint run reports, for a message without footers, no footer violation but
/// a missing required footer.
pub proof fn law_lint_without_footers(s: Settings, rules: RuleSet, m: Message, v: RuleViolation)
    requires
        m.footers@.len() == 0,
        lint_spec(s, rules, m).contains(v),
        violation_group(v) == LinterGroup::Footer,
    ensures
        v is Exists,
{
    law_lint_reports_enabled_rules(s, rules, m, v);
    lemma_reports_need_parts(s, m, v);
}

} // verus!
