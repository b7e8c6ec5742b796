//! Rules on the header: type, scope, description and the whole line.
use vstd::prelude::*;

use crate::cc::header::{header_text, scope_text};
use crate::cc::message::Message;
use crate::linter::case::{key_case_matches, text_case_matches, KeyCase, TextCase};
use crate::linter::report::Report;
use crate::linter::rules::{longer_than_chars, shorter_than_chars};
use crate::linter::violation::RuleViolation;
use crate::text::{char_count, chars_of, ends_with, str_eq};

verus! {

/// Settings of the header rules.
#[derive(Debug, PartialEq)]
pub struct Settings {
    pub type_case: KeyCase,
    pub type_max_length: usize,
    pub type_min_length: usize,
    pub type_enum: Vec<String>,
    pub scope_case: KeyCase,
    pub scope_max_length: usize,
    pub scope_min_length: usize,
    pub scope_enum: Vec<String>,
    pub description_case: TextCase,
    pub description_max_length: usize,
    pub description_min_length: usize,
    pub max_length: usize,
    pub min_length: usize,
}

impl Default for Settings {
    fn default() -> (s: Settings)
        ensures
            s.type_case == KeyCase::Any,
            s.type_max_length == 0,
            s.type_min_length == 0,
            s.type_enum@.len() == 0,
            s.scope_case == KeyCase::Any,
            s.scope_max_length == 0,
            s.scope_min_length == 0,
            s.scope_enum@.len() == 0,
            s.description_case == TextCase::Any,
            s.description_max_length == 0,
            s.description_min_length == 0,
            s.max_length == 0,
            s.min_length == 0,
    {
        Settings {
            type_case: KeyCase::Any,
            type_max_length: 0,
            type_min_length: 0,
            type_enum: Vec::new(),
            scope_case: KeyCase::Any,
            scope_max_length: 0,
            scope_min_length: 0,
            scope_enum: Vec::new(),
            description_case: TextCase::Any,
            description_max_length: 0,
            description_min_length: 0,
            max_length: 0,
            min_length: 0,
        }
    }
}

/// Nothing, or the single violation `v`.
pub open spec fn one_if(cond: bool, v: RuleViolation) -> Seq<RuleViolation> {
    if cond {
        seq![v]
    } else {
        Seq::empty()
    }
}

/// Some string of `list` has the view `s`.
pub open spec fn views_contain(list: Seq<String>, s: Seq<char>) -> bool {
    exists|i: int| 0 <= i < list.len() && #[trigger] list[i]@ == s
}

/// The first item that no string of `allowed` equals.
pub open spec fn first_not_allowed(items: Seq<String>, allowed: Seq<String>) -> Option<String>
    decreases items.len(),
{
    if items.len() == 0 {
        None
    } else if !views_contain(allowed, items[0]@) {
        Some(items[0])
    } else {
        first_not_allowed(items.drop_first(), allowed)
    }
}

/// Total number of characters of the items.
pub open spec fn total_len(items: Seq<Seq<char>>) -> nat
    decreases items.len(),
{
    if items.len() == 0 {
        0
    } else {
        items[0].len() + total_len(items.drop_first())
    }
}

pub open spec fn type_case_spec(m: Message, case: KeyCase) -> Seq<RuleViolation> {
    match m.header.kind {
        Some(k) => one_if(!key_case_matches(case, k@), RuleViolation::TypeCase { case }),
        None => Seq::empty(),
    }
}

pub open spec fn type_max_length_spec(m: Message, length: usize) -> Seq<RuleViolation> {
    match m.header.kind {
        Some(k) => one_if(k@.len() > length, RuleViolation::TypeMaxLength { length }),
        None => Seq::empty(),
    }
}

pub open spec fn type_min_length_spec(m: Message, length: usize) -> Seq<RuleViolation> {
    match m.header.kind {
        Some(k) => one_if(length > 0 && k@.len() < length, RuleViolation::TypeMinLength { length }),
        None => Seq::empty(),
    }
}

pub open spec fn type_enum_spec(m: Message, allowed: Seq<String>) -> Seq<RuleViolation> {
    match m.header.kind {
        Some(k) => one_if(!views_contain(allowed, k@), RuleViolation::TypeEnum { miss: k }),
        None => Seq::empty(),
    }
}

pub open spec fn type_required_spec(m: Message) -> Seq<RuleViolation> {
    one_if(m.header.kind is None, RuleViolation::TypeRequired)
}

pub open spec fn scope_case_spec(m: Message, case: KeyCase) -> Seq<RuleViolation> {
    one_if(
        exists|i: int|
            0 <= i < m.header.scope@.len() && !key_case_matches(case, #[trigger] m.header.scope@[i]),
        RuleViolation::ScopeCase { case },
    )
}

pub open spec fn scope_max_length_spec(m: Message, length: usize) -> Seq<RuleViolation> {
    one_if(
        m.header.scope@.len() > 0 && scope_text(m.header.scope@).len() - 2 > length,
        RuleViolation::ScopeMaxLength { length },
    )
}

pub open spec fn scope_min_length_spec(m: Message, length: usize) -> Seq<RuleViolation> {
    one_if(
        length != 0 && m.header.scope@.len() > 0 && total_len(m.header.scope@) < length,
        RuleViolation::ScopeMinLength { length },
    )
}

pub open spec fn scope_enum_spec(m: Message, allowed: Seq<String>) -> Seq<RuleViolation> {
    match first_not_allowed(m.header.scope.items@, allowed) {
        Some(miss) => seq![RuleViolation::ScopeEnum { miss }],
        None => Seq::empty(),
    }
}

pub open spec fn scope_required_spec(m: Message) -> Seq<RuleViolation> {
    one_if(m.header.scope@.len() == 0, RuleViolation::ScopeRequired)
}

pub open spec fn description_full_stop_spec(m: Message) -> Seq<RuleViolation> {
    one_if(ends_with(m.header.description@, seq!['.']), RuleViolation::DescriptionFullStop)
}

pub open spec fn description_case_spec(m: Message, case: TextCase) -> Seq<RuleViolation> {
    one_if(!text_case_matches(case, m.header.description@), RuleViolation::DescriptionCase { case })
}

pub open spec fn description_max_length_spec(m: Message, length: usize) -> Seq<RuleViolation> {
    one_if(m.header.description@.len() > length, RuleViolation::DescriptionMaxLength { length })
}

pub open spec fn description_min_length_spec(m: Message, length: usize) -> Seq<RuleViolation> {
    one_if(
        length > 0 && m.header.description@.len() < length,
        RuleViolation::DescriptionMinLength { length },
    )
}

pub open spec fn max_length_spec(m: Message, length: usize) -> Seq<RuleViolation> {
    one_if(header_text(m.header@).len() > length, RuleViolation::HeaderMaxLength { length })
}

pub open spec fn min_length_spec(m: Message, length: usize) -> Seq<RuleViolation> {
    one_if(
        length > 0 && header_text(m.header@).len() < length,
        RuleViolation::HeaderMinLength { length },
    )
}

/// Whether some string of `list` equals `s`.
fn list_contains(list: &Vec<String>, s: &str) -> (r: bool)
    ensures
        r == views_contain(list@, s@),
{
    let mut i: usize = 0;
    while i < list.len()
        invariant
            i <= list.len(),
            forall|j: int| 0 <= j < i ==> #[trigger] list@[j]@ != s@,
        decreases list.len() - i,
    {
        if str_eq(list[i].as_str(), s) {
            return true;
        }
        i = i + 1;
    }
    false
}

/// Checks the character case of the commit type.
pub fn type_case(report: &mut Report, message: &Message, case: KeyCase)
    ensures
        final(report)@ == old(report)@ + type_case_spec(*message, case),
{
    let Some(kind) = &message.header.kind else {
        assert(old(report)@ + Seq::<RuleViolation>::empty() =~= old(report)@);
        return;
    };
    if !case.is_match(kind.as_str()) {
        report.add_violation(RuleViolation::TypeCase { case });
    } else {
        assert(report@ + Seq::<RuleViolation>::empty() =~= report@);
    }
}

/// Checks the maximum length of the commit type.
pub fn type_max_length(report: &mut Report, message: &Message, length: usize)
    ensures
        final(report)@ == old(report)@ + type_max_length_spec(*message, length),
{
    let Some(kind) = &message.header.kind else {
        assert(old(report)@ + Seq::<RuleViolation>::empty() =~= old(report)@);
        return;
    };
    if longer_than_chars(kind.as_str(), length) {
        report.add_violation(RuleViolation::TypeMaxLength { length });
    } else {
        assert(report@ + Seq::<RuleViolation>::empty() =~= report@);
    }
}

/// Checks the minimum length of the commit type.
pub fn type_min_length(report: &mut Report, message: &Message, length: usize)
    ensures
        final(report)@ == old(report)@ + type_min_length_spec(*message, length),
{
    let Some(kind) = &message.header.kind else {
        assert(old(report)@ + Seq::<RuleViolation>::empty() =~= old(report)@);
        return;
    };
    if shorter_than_chars(kind.as_str(), length) {
        report.add_violation(RuleViolation::TypeMinLength { length });
    } else {
        assert(report@ + Seq::<RuleViolation>::empty() =~= report@);
    }
}

/// Checks that the commit type is one of the allowed types.
pub fn type_enum(report: &mut Report, message: &Message, allowed: &Vec<String>)
    ensures
        final(report)@ == old(report)@ + type_enum_spec(*message, allowed@),
{
    let Some(kind) = &message.header.kind else {
        assert(old(report)@ + Seq::<RuleViolation>::empty() =~= old(report)@);
        return;
    };
    if list_contains(allowed, kind.as_str()) {
        assert(report@ + Seq::<RuleViolation>::empty() =~= report@);
        return;
    }
    report.add_violation(RuleViolation::TypeEnum { miss: kind.clone() });
}

/// Checks that the commit type exists.
pub fn type_required(report: &mut Report, message: &Message)
    ensures
        final(report)@ == old(report)@ + type_required_spec(*message),
{
    if message.header.kind.is_none() {
        report.add_violation(RuleViolation::TypeRequired);
    } else {
        assert(report@ + Seq::<RuleViolation>::empty() =~= report@);
    }
}

/// Checks the character case of every scope item.
pub fn scope_case(report: &mut Report, message: &Message, case: KeyCase)
    ensures
        final(report)@ == old(report)@ + scope_case_spec(*message, case),
{
    let items = &message.header.scope.items;
    let mut i: usize = 0;
    while i < items.len()
        invariant
            i <= items.len(),
            *items == message.header.scope.items,
            report@ == old(report)@,
            forall|j: int| 0 <= j < i ==> key_case_matches(case, #[trigger] message.header.scope@[j]),
        decreases items.len() - i,
    {
        if !case.is_match(items[i].as_str()) {
            report.add_violation(RuleViolation::ScopeCase { case });
            assert(!key_case_matches(case, message.header.scope@[i as int]));
            return;
        }
        i = i + 1;
    }
    assert(report@ + Seq::<RuleViolation>::empty() =~= report@);
}

/// Checks the maximum length of the scope (parentheses not counted).
pub fn scope_max_length(report: &mut Report, message: &Message, length: usize)
    ensures
        final(report)@ == old(report)@ + scope_max_length_spec(*message, length),
{
    let n = message.header.scope.str_len();
    if message.header.scope.len() > 0 && n >= 2 && n - 2 > length {
        report.add_violation(RuleViolation::ScopeMaxLength { length });
    } else {
        proof {
            if message.header.scope@.len() > 0 {
                let items = message.header.scope@;
                assert(scope_text(items).len() >= 2);
            }
        }
        assert(report@ + Seq::<RuleViolation>::empty() =~= report@);
    }
}

/// Checks the minimum length of the scope: the characters of all items together.
pub fn scope_min_length(report: &mut Report, message: &Message, length: usize)
    ensures
        final(report)@ == old(report)@ + scope_min_length_spec(*message, length),
{
    if length == 0 || message.header.scope.is_empty() {
        assert(report@ + Seq::<RuleViolation>::empty() =~= report@);
        return;
    }
    let items = &message.header.scope.items;
    let ghost all = message.header.scope@;
    let mut sum: usize = 0;
    let mut i: usize = 0;
    assert(all.skip(0) =~= all);
    while i < items.len()
        invariant
            i <= items.len(),
            *items == message.header.scope.items,
            all == message.header.scope@,
            sum < length,
            total_len(all) == sum + total_len(all.skip(i as int)),
            report@ == old(report)@,
        decreases items.len() - i,
    {
        let c = char_count(items[i].as_str());
        proof {
            assert(all.skip(i as int).drop_first() =~= all.skip(i + 1));
            assert(all.skip(i as int)[0] == all[i as int]);
        }
        if c >= length - sum {
            assert(report@ + Seq::<RuleViolation>::empty() =~= report@);
            return;
        }
        sum = sum + c;
        i = i + 1;
    }
    assert(all.skip(items.len() as int) =~= Seq::<Seq<char>>::empty());
    report.add_violation(RuleViolation::ScopeMinLength { length });
}

/// Checks that every scope item is one of the allowed scopes.
pub fn scope_enum(report: &mut Report, message: &Message, allowed: &Vec<String>)
    ensures
        final(report)@ == old(report)@ + scope_enum_spec(*message, allowed@),
{
    let items = &message.header.scope.items;
    let ghost all = items@;
    let mut i: usize = 0;
    assert(all.skip(0) =~= all);
    while i < items.len()
        invariant
            i <= items.len(),
            all == items@,
            *items == message.header.scope.items,
            first_not_allowed(all, allowed@) == first_not_allowed(all.skip(i as int), allowed@),
            report@ == old(report)@,
        decreases items.len() - i,
    {
        proof {
            assert(all.skip(i as int).drop_first() =~= all.skip(i + 1));
            assert(all.skip(i as int)[0] == all[i as int]);
        }
        if !list_contains(allowed, items[i].as_str()) {
            report.add_violation(RuleViolation::ScopeEnum { miss: items[i].clone() });
            return;
        }
        i = i + 1;
    }
    assert(all.skip(items.len() as int) =~= Seq::<String>::empty());
    assert(report@ + Seq::<RuleViolation>::empty() =~= report@);
}

/// Checks that the scope exists.
pub fn scope_required(report: &mut Report, message: &Message)
    ensures
        final(report)@ == old(report)@ + scope_required_spec(*message),
{
    if message.header.scope.is_empty() {
        report.add_violation(RuleViolation::ScopeRequired);
    } else {
        assert(report@ + Seq::<RuleViolation>::empty() =~= report@);
    }
}

/// Checks that the description does not end with a full stop.
pub fn description_full_stop(report: &mut Report, message: &Message)
    ensures
        final(report)@ == old(report)@ + description_full_stop_spec(*message),
{
    let d = chars_of(message.header.description.as_str());
    let n = d.len();
    if n > 0 && d[n - 1] == '.' {
        assert(d@.skip(n - 1) =~= seq!['.']);
        report.add_violation(RuleViolation::DescriptionFullStop);
    } else {
        proof {
            if n > 0 {
                assert(d@.skip(n - 1)[0] == d@[n - 1]);
            }
        }
        assert(report@ + Seq::<RuleViolation>::empty() =~= report@);
    }
}

/// Checks the character case of the description.
pub fn description_case(report: &mut Report, message: &Message, case: TextCase)
    ensures
        final(report)@ == old(report)@ + description_case_spec(*message, case),
{
    if !case.is_match(message.header.description.as_str()) {
        report.add_violation(RuleViolation::DescriptionCase { case });
    } else {
        assert(report@ + Seq::<RuleViolation>::empty() =~= report@);
    }
}

/// Checks the maximum length of the description.
pub fn description_max_length(report: &mut Report, message: &Message, length: usize)
    ensures
        final(report)@ == old(report)@ + description_max_length_spec(*message, length),
{
    if longer_than_chars(message.header.description.as_str(), length) {
        report.add_violation(RuleViolation::DescriptionMaxLength { length });
    } else {
        assert(report@ + Seq::<RuleViolation>::empty() =~= report@);
    }
}

/// Checks the minimum length of the description.
pub fn description_min_length(report: &mut Report, message: &Message, length: usize)
    ensures
        final(report)@ == old(report)@ + description_min_length_spec(*message, length),
{
    if shorter_than_chars(message.header.description.as_str(), length) {
        report.add_violation(RuleViolation::DescriptionMinLength { length });
    } else {
        assert(report@ + Seq::<RuleViolation>::empty() =~= report@);
    }
}

/// Checks the maximum length of the header line.
pub fn max_length(report: &mut Report, message: &Message, length: usize)
    ensures
        final(report)@ == old(report)@ + max_length_spec(*message, length),
{
    let h = message.header.render();
    if h.len() > length {
        report.add_violation(RuleViolation::HeaderMaxLength { length });
    } else {
        assert(report@ + Seq::<RuleViolation>::empty() =~= report@);
    }
}

/// Checks the minimum length of the header line.
pub fn min_length(report: &mut Report, message: &Message, length: usize)
    ensures
        final(report)@ == old(report)@ + min_length_spec(*message, length),
{
    let h = message.header.render();
    if length > 0 && h.len() < length {
        report.add_violation(RuleViolation::HeaderMinLength { length });
    } else {
        assert(report@ + Seq::<RuleViolation>::empty() =~= report@);
    }
}

} // verus!
