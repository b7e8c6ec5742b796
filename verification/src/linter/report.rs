//! The violations found while linting a message.
use vstd::prelude::*;

use crate::linter::violation::RuleViolation;

verus! {

/// Violations, in the order they were found.
#[derive(Debug)]
pub struct Report {
    pub violations: Vec<RuleViolation>,
}

impl View for Report {
    type V = Seq<RuleViolation>;

    open spec fn view(&self) -> Seq<RuleViolation> {
        self.violations@
    }
}

impl Default for Report {
    fn default() -> (r: Report)
        ensures
            r@ == Seq::<RuleViolation>::empty(),
    {
        Report { violations: Vec::new() }
    }
}

impl Report {
    /// Adds a violation.
    pub fn add_violation(&mut self, violation: RuleViolation)
        ensures
            final(self)@ == old(self)@.push(violation),
    {
        self.violations.push(violation);
    }

    /// Number of violations.
    pub fn len(&self) -> (n: usize)
        ensures
            n == self@.len(),
    {
        self.violations.len()
    }

    /// Whether there are no violations.
    pub fn is_empty(&self) -> (b: bool)
        ensures
            b == (self@.len() == 0),
    {
        self.violations.len() == 0
    }

    /// Removes every violation.
    pub fn clear(&mut self)
        ensures
            final(self)@ == Seq::<RuleViolation>::empty(),
    {
        self.violations.clear();
    }
}

} // verus!
