//! Rules on the footers.
use vstd::prelude::*;

use crate::cc::footer::{footer_text, footers_text, has_key, is_breaking_key};
use crate::cc::message::Message;
use crate::linter::case::{key_case_matches, KeyCase};
use crate::linter::report::Report;
use crate::linter::rules::header::one_if;
use crate::linter::violation::RuleViolation;

verus! {

/// Settings of the footer rules.
#[derive(Debug, PartialEq)]
pub struct Settings {
    pub max_line_length: usize,
    pub max_length: usize,
    pub min_length: usize,
    pub key_case: KeyCase,
    pub required: Vec<String>,
}

impl Default for Settings {
    fn default() -> (s: Settings)
        ensures
            s.max_line_length == 0,
            s.max_length == 0,
            s.min_length == 0,
            s.key_case == KeyCase::Any,
            s.required@.len() == 0,
    {
        Settings { max_line_length: 0, max_length: 0, min_length: 0, key_case: KeyCase::Any, required: Vec::new() }
    }
}

/// The first required key that no footer has.
pub open spec fn first_missing(m: Message, required: Seq<String>) -> Option<String>
    decreases required.len(),
{
    if required.len() == 0 {
        None
    } else if !has_key(m.footers@, required[0]@) {
        Some(required[0])
    } else {
        first_missing(m, required.drop_first())
    }
}

pub open spec fn breaking_exclamation_spec(m: Message) -> Seq<RuleViolation> {
    one_if(
        m.footers@.len() > 0 && !m.header.breaking && exists|i: int|
            0 <= i < m.footers@.len() && is_breaking_key(#[trigger] m.footers@[i].key),
        RuleViolation::BreakingExclamation,
    )
}

pub open spec fn exists_spec(m: Message, required: Seq<String>) -> Seq<RuleViolation> {
    match first_missing(m, required) {
        Some(key) => seq![RuleViolation::Exists { key }],
        None => Seq::empty(),
    }
}

pub open spec fn key_case_spec(m: Message, case: KeyCase) -> Seq<RuleViolation> {
    one_if(
        exists|i: int| 0 <= i < m.footers@.len() && !key_case_matches(case, #[trigger] m.footers@[i].key),
        RuleViolation::KeyCase { case },
    )
}

pub open spec fn max_length_spec(m: Message, length: usize) -> Seq<RuleViolation> {
    one_if(footers_text(m.footers@).len() > length, RuleViolation::FooterMaxLength { length })
}

pub open spec fn min_length_spec(m: Message, length: usize) -> Seq<RuleViolation> {
    one_if(
        length > 0 && footers_text(m.footers@).len() < length,
        RuleViolation::FooterMinLength { length },
    )
}

pub open spec fn max_line_length_spec(m: Message, length: usize) -> Seq<RuleViolation> {
    one_if(
        exists|i: int| 0 <= i < m.footers@.len() && #[trigger] footer_text(m.footers@[i]).len() > length,
        RuleViolation::FooterMaxLineLength { length },
    )
}

/// Checks for the exclamation mark in a message with a breaking change footer.
pub fn breaking_exclamation(report: &mut Report, message: &Message)
    ensures
        final(report)@ == old(report)@ + breaking_exclamation_spec(*message),
{
    if message.footers.is_empty() || message.header.breaking {
        assert(report@ + Seq::<RuleViolation>::empty() =~= report@);
        return;
    }
    let mut i: usize = 0;
    while i < message.footers.items.len()
        invariant
            i <= message.footers@.len(),
            message.footers@.len() == message.footers.items@.len(),
            forall|j: int| 0 <= j < i ==> !is_breaking_key(#[trigger] message.footers@[j].key),
            message.footers@.len() > 0,
            !message.header.breaking,
            report@ == old(report)@,
        decreases message.footers.items.len() - i,
    {
        if message.footers.items[i].is_breaking_change() {
            assert(is_breaking_key(message.footers@[i as int].key));
            assert(message.footers@.len() > 0);
            assert(!message.header.breaking);
            assert(exists|j: int| 0 <= j < message.footers@.len() && is_breaking_key(#[trigger] message.footers@[j].key));
            assert(breaking_exclamation_spec(*message) == seq![RuleViolation::BreakingExclamation]);
            report.add_violation(RuleViolation::BreakingExclamation);
            return;
        }
        i = i + 1;
    }
    assert(report@ + Seq::<RuleViolation>::empty() =~= report@);
}

/// Checks that every required footer exists; reports the first missing one.
pub fn footer_exists(report: &mut Report, message: &Message, required: &Vec<String>)
    ensures
        final(report)@ == old(report)@ + exists_spec(*message, required@),
{
    let ghost all = required@;
    let mut i: usize = 0;
    assert(all.skip(0) =~= all);
    while i < required.len()
        invariant
            i <= required.len(),
            all == required@,
            first_missing(*message, all) == first_missing(*message, all.skip(i as int)),
            report@ == old(report)@,
        decreases required.len() - i,
    {
        proof {
            assert(all.skip(i as int).drop_first() =~= all.skip(i + 1));
            assert(all.skip(i as int)[0] == all[i as int]);
        }
        if !message.footers.contains_key(required[i].as_str()) {
            report.add_violation(RuleViolation::Exists { key: required[i].clone() });
            return;
        }
        i = i + 1;
    }
    assert(all.skip(required.len() as int) =~= Seq::<String>::empty());
    assert(report@ + Seq::<RuleViolation>::empty() =~= report@);
}

/// Checks the character case of every footer key.
pub fn key_case(report: &mut Report, message: &Message, case: KeyCase)
    ensures
        final(report)@ == old(report)@ + key_case_spec(*message, case),
{
    let mut i: usize = 0;
    while i < message.footers.items.len()
        invariant
            i <= message.footers@.len(),
            message.footers@.len() == message.footers.items@.len(),
            forall|j: int| 0 <= j < i ==> key_case_matches(case, #[trigger] message.footers@[j].key),
            report@ == old(report)@,
        decreases message.footers.items.len() - i,
    {
        if !case.is_match(message.footers.items[i].key.as_str()) {
            assert(!key_case_matches(case, message.footers@[i as int].key));
            report.add_violation(RuleViolation::KeyCase { case });
            return;
        }
        i = i + 1;
    }
    assert(report@ + Seq::<RuleViolation>::empty() =~= report@);
}

/// Checks the maximum length of the footers.
pub fn max_length(report: &mut Report, message: &Message, length: usize)
    ensures
        final(report)@ == old(report)@ + max_length_spec(*message, length),
{
    let t = message.footers.render();
    if t.len() > length {
        report.add_violation(RuleViolation::FooterMaxLength { length });
    } else {
        assert(report@ + Seq::<RuleViolation>::empty() =~= report@);
    }
}

/// Checks the minimum length of the footers.
pub fn min_length(report: &mut Report, message: &Message, length: usize)
    ensures
        final(report)@ == old(report)@ + min_length_spec(*message, length),
{
    let t = message.footers.render();
    if length > 0 && t.len() < length {
        report.add_violation(RuleViolation::FooterMinLength { length });
    } else {
        assert(report@ + Seq::<RuleViolation>::empty() =~= report@);
    }
}

/// Checks that no footer line is longer than `length` characters.
pub fn max_line_length(report: &mut Report, message: &Message, length: usize)
    ensures
        final(report)@ == old(report)@ + max_line_length_spec(*message, length),
{
    let mut i: usize = 0;
    while i < message.footers.items.len()
        invariant
            i <= message.footers@.len(),
            message.footers@.len() == message.footers.items@.len(),
            forall|j: int| 0 <= j < i ==> #[trigger] footer_text(message.footers@[j]).len() <= length,
            report@ == old(report)@,
        decreases message.footers.items.len() - i,
    {
        let line = message.footers.items[i].render();
        if line.len() > length {
            assert(footer_text(message.footers@[i as int]).len() > length);
            report.add_violation(RuleViolation::FooterMaxLineLength { length });
            return;
        }
        i = i + 1;
    }
    assert(report@ + Seq::<RuleViolation>::empty() =~= report@);
}

/// Once the fix of a `BreakingExclamation` violation has marked the header as
/// breaking, the rule finds nothing more to report, whatever the footers.
pub proof fn law_fixed_breaking_exclamation_passes(fixed: Message)
    requires
        fixed.header.breaking,
    ensures
        breaking_exclamation_spec(fixed) == Seq::<RuleViolation>::empty(),
{
}

} // verus!
