//! Rules on the body.
use vstd::prelude::*;

use crate::cc::message::Message;
use crate::linter::case::{text_case_matches, TextCase};
use crate::linter::report::Report;
use crate::linter::rules::header::one_if;
use crate::linter::rules::{longer_than_chars, shorter_than_chars};
use crate::linter::violation::RuleViolation;
use crate::text::{chars_of, ends_with};

verus! {

/// Settings of the body rules.
#[derive(Debug, PartialEq)]
pub struct Settings {
    pub max_line_length: usize,
    pub max_length: usize,
    pub min_length: usize,
    pub case: TextCase,
}

impl Default for Settings {
    fn default() -> (s: Settings)
        ensures
            s.max_line_length == 0,
            s.max_length == 0,
            s.min_length == 0,
            s.case == TextCase::Any,
    {
        Settings { max_line_length: 0, max_length: 0, min_length: 0, case: TextCase::Any }
    }
}

/// The `length + 1` characters from `j` on hold no line break.
pub open spec fn run_free(s: Seq<char>, j: int, length: int) -> bool {
    forall|k: int| j <= k < j + length + 1 ==> #[trigger] s[k] != '\n'
}

/// Some line of `s` has more than `length` characters: `length + 1` characters
/// in a row hold no line break.
pub open spec fn has_long_line(s: Seq<char>, length: int) -> bool {
    exists|j: int| 0 <= j && j + length + 1 <= s.len() && #[trigger] run_free(s, j, length)
}

pub open spec fn max_line_length_spec(m: Message, length: usize) -> Seq<RuleViolation> {
    match m.body {
        Some(b) => one_if(has_long_line(b@, length as int), RuleViolation::BodyMaxLineLength { length }),
        None => Seq::empty(),
    }
}

pub open spec fn max_length_spec(m: Message, length: usize) -> Seq<RuleViolation> {
    match m.body {
        Some(b) => one_if(b@.len() > length, RuleViolation::BodyMaxLength { length }),
        None => Seq::empty(),
    }
}

pub open spec fn min_length_spec(m: Message, length: usize) -> Seq<RuleViolation> {
    match m.body {
        Some(b) => one_if(length > 0 && b@.len() < length, RuleViolation::BodyMinLength { length }),
        None => Seq::empty(),
    }
}

pub open spec fn full_stop_spec(m: Message) -> Seq<RuleViolation> {
    match m.body {
        Some(b) => one_if(ends_with(b@, seq!['.']), RuleViolation::BodyFullStop),
        None => Seq::empty(),
    }
}

pub open spec fn case_spec(m: Message, case: TextCase) -> Seq<RuleViolation> {
    match m.body {
        Some(b) => one_if(!text_case_matches(case, b@), RuleViolation::BodyCase { case }),
        None => Seq::empty(),
    }
}

/// Checks that no line of the body is longer than `length` characters.
pub fn max_line_length(report: &mut Report, message: &Message, length: usize)
    ensures
        final(report)@ == old(report)@ + max_line_length_spec(*message, length),
{
    let Some(body) = message.body.as_ref() else {
        assert(report@ + Seq::<RuleViolation>::empty() =~= report@);
        return;
    };
    let v = chars_of(body.as_str());
    // `run` characters before `i` hold no line break.
    let mut run: usize = 0;
    let mut i: usize = 0;
    while i < v.len()
        invariant
            i <= v.len(),
            run <= i,
            run <= length,
            v@ == body@,
            message.body == Some(*body),
            forall|k: int| i - run <= k < i ==> #[trigger] v@[k] != '\n',
            run < i ==> v@[i - run - 1] == '\n',
            forall|j: int| 0 <= j && j + length + 1 <= i ==> !#[trigger] run_free(v@, j, length as int),
            report@ == old(report)@,
        decreases v.len() - i,
    {
        let ghost old_run = run;
        if v[i] == '\n' {
            run = 0;
        } else {
            if run == length {
                proof {
                    let j = i - length;
                    assert(run_free(v@, j, length as int));
                    assert(has_long_line(v@, length as int));
                    assert(message.body == Some(*body));
                    assert(max_line_length_spec(*message, length) == seq![RuleViolation::BodyMaxLineLength { length }]);
                }
                report.add_violation(RuleViolation::BodyMaxLineLength { length });
                return;
            }
            run = run + 1;
        }
        proof {
            assert forall|j: int| 0 <= j && j + length + 1 <= i + 1 implies !#[trigger] run_free(v@, j, length as int) by {
                if j + length + 1 == i + 1 {
                    if v@[i as int] == '\n' {
                        assert(v@[i as int] == '\n');
                    } else {
                        assert(old_run < i);
                        assert(v@[i - old_run - 1] == '\n');
                    }
                }
            }
        }
        i = i + 1;
    }
    proof {
        assert(!has_long_line(v@, length as int));
    }
    assert(report@ + Seq::<RuleViolation>::empty() =~= report@);
}

/// Checks the maximum length of the body.
pub fn max_length(report: &mut Report, message: &Message, length: usize)
    ensures
        final(report)@ == old(report)@ + max_length_spec(*message, length),
{
    let Some(body) = message.body.as_ref() else {
        assert(report@ + Seq::<RuleViolation>::empty() =~= report@);
        return;
    };
    if longer_than_chars(body.as_str(), length) {
        report.add_violation(RuleViolation::BodyMaxLength { length });
    } else {
        assert(report@ + Seq::<RuleViolation>::empty() =~= report@);
    }
}

/// Checks the minimum length of the body.
pub fn min_length(report: &mut Report, message: &Message, length: usize)
    ensures
        final(report)@ == old(report)@ + min_length_spec(*message, length),
{
    let Some(body) = message.body.as_ref() else {
        assert(report@ + Seq::<RuleViolation>::empty() =~= report@);
        return;
    };
    if shorter_than_chars(body.as_str(), length) {
        report.add_violation(RuleViolation::BodyMinLength { length });
    } else {
        assert(report@ + Seq::<RuleViolation>::empty() =~= report@);
    }
}

/// Checks that the body does not end with a full stop.
pub fn full_stop(report: &mut Report, message: &Message)
    ensures
        final(report)@ == old(report)@ + full_stop_spec(*message),
{
    let Some(body) = message.body.as_ref() else {
        assert(report@ + Seq::<RuleViolation>::empty() =~= report@);
        return;
    };
    let d = chars_of(body.as_str());
    let n = d.len();
    if n > 0 && d[n - 1] == '.' {
        assert(d@.skip(n - 1) =~= seq!['.']);
        report.add_violation(RuleViolation::BodyFullStop);
    } else {
        proof {
            if n > 0 {
                assert(d@.skip(n - 1)[0] == d@[n - 1]);
            }
        }
        assert(report@ + Seq::<RuleViolation>::empty() =~= report@);
    }
}

/// Checks the character case of the body.
pub fn case(report: &mut Report, message: &Message, case: TextCase)
    ensures
        final(report)@ == old(report)@ + case_spec(*message, case),
{
    let Some(body) = message.body.as_ref() else {
        assert(report@ + Seq::<RuleViolation>::empty() =~= report@);
        return;
    };
    if !case.is_match(body.as_str()) {
        report.add_violation(RuleViolation::BodyCase { case });
    } else {
        assert(report@ + Seq::<RuleViolation>::empty() =~= report@);
    }
}

} // verus!
