//! A set of rules held as bits of a `u64`: bit `i` stands for the rule at position `i`.
use vstd::prelude::*;

use crate::linter::rule::{lemma_rule_at, lemma_rule_index, rule_at, rule_code, rule_index, Rule, RULE_COUNT};
use crate::text::{push_str, string_of};

verus! {

/// Rule set: bit `i` of the `u64` stands for the rule at position `i`.
#[derive(Clone, Copy, Debug, PartialEq, Eq, Structural)]
pub struct RuleSet(pub u64);

/// Bit `i` of `bits` is set.
pub open spec fn bit_set(bits: u64, i: int) -> bool {
    0 <= i < 64 && bits & (1u64 << (i as u64)) != 0
}

/// The rule `r` is in the set `bits`.
pub open spec fn has_rule(bits: u64, r: Rule) -> bool {
    bit_set(bits, rule_index(r))
}

/// Number of set bits of `bits` below `n`.
pub open spec fn bits_below(bits: u64, n: int) -> nat
    decreases n,
{
    if n <= 0 {
        0
    } else {
        bits_below(bits, n - 1) + if bit_set(bits, n - 1) {
            1nat
        } else {
            0nat
        }
    }
}

/// Rules of `bits` at positions `i..RULE_COUNT`, in order.
pub open spec fn rules_from(bits: u64, i: int) -> Seq<Rule>
    decreases RULE_COUNT - i,
{
    if i < 0 || i >= RULE_COUNT {
        Seq::empty()
    } else {
        let rest = rules_from(bits, i + 1);
        if bit_set(bits, i) {
            seq![rule_at(i).unwrap()] + rest
        } else {
            rest
        }
    }
}

/// Rules of `bits` in position order.
pub open spec fn rules_of(bits: u64) -> Seq<Rule> {
    rules_from(bits, 0)
}

impl View for RuleSet {
    type V = Set<Rule>;

    open spec fn view(&self) -> Set<Rule> {
        Set::new(|r: Rule| has_rule(self.0, r))
    }
}

proof fn lemma_bit_or(a: u64, b: u64, i: u64)
    requires
        i < 64,
    ensures
        ((a | b) & (1u64 << i) != 0) == ((a & (1u64 << i) != 0) || (b & (1u64 << i) != 0)),
{
    assert(((a | b) & (1u64 << i) != 0) == ((a & (1u64 << i) != 0) || (b & (1u64 << i) != 0)))
        by (bit_vector)
        requires
            i < 64,
    ;
}

proof fn lemma_bit_and_not(a: u64, b: u64, i: u64)
    requires
        i < 64,
    ensures
        ((a & !b) & (1u64 << i) != 0) == ((a & (1u64 << i) != 0) && (b & (1u64 << i) == 0)),
{
    assert(((a & !b) & (1u64 << i) != 0) == ((a & (1u64 << i) != 0) && (b & (1u64 << i) == 0)))
        by (bit_vector)
        requires
            i < 64,
    ;
}

proof fn lemma_single_bit(i: u64, j: u64)
    requires
        i < 64,
        j < 64,
    ensures
        ((1u64 << i) & (1u64 << j) != 0) == (i == j),
{
    assert(((1u64 << i) & (1u64 << j) != 0) == (i == j)) by (bit_vector)
        requires
            i < 64,
            j < 64,
    ;
}

proof fn lemma_zero_bits(i: u64)
    requires
        i < 64,
    ensures
        0u64 & (1u64 << i) == 0,
{
    assert(0u64 & (1u64 << i) == 0) by (bit_vector);
}

/// Adding a rule sets its bit and keeps the others.
proof fn lemma_add_bits(a: u64, r: Rule, j: int)
    requires
        0 <= j < 64,
    ensures
        bit_set(a | (1u64 << (rule_index(r) as u64)), j) == (bit_set(a, j) || j == rule_index(r)),
{
    lemma_rule_index(r);
    let i = rule_index(r) as u64;
    lemma_bit_or(a, 1u64 << i, j as u64);
    lemma_single_bit(i, j as u64);
}

/// Removing a rule clears its bit and keeps the others.
proof fn lemma_remove_bits(a: u64, r: Rule, j: int)
    requires
        0 <= j < 64,
    ensures
        bit_set(a & !(1u64 << (rule_index(r) as u64)), j) == (bit_set(a, j) && j != rule_index(r)),
{
    lemma_rule_index(r);
    let i = rule_index(r) as u64;
    lemma_bit_and_not(a, 1u64 << i, j as u64);
    lemma_single_bit(i, j as u64);
}

/// Default set of rules.
pub open spec fn default_rules() -> Set<Rule> {
    set![Rule::HeaderDescriptionFullStop, Rule::FooterBreakingExclamation]
}

/// Every set bit stands for a rule.
pub open spec fn no_stray_bits(bits: u64) -> bool {
    forall|i: int| RULE_COUNT <= i < 64 ==> !bit_set(bits, i)
}

impl RuleSet {
    /// The empty set.
    pub fn empty() -> (s: RuleSet)
        ensures
            s.0 == 0,
            s@ == Set::<Rule>::empty(),
    {
        let s = RuleSet(0);
        assert forall|r: Rule| !s@.contains(r) by {
            lemma_rule_index(r);
            lemma_zero_bits(rule_index(r) as u64);
        }
        assert(s@ =~= Set::<Rule>::empty());
        s
    }

    /// The set holding exactly `rules`.
    pub fn from_rules(rules: &[Rule]) -> (s: RuleSet)
        ensures
            forall|r: Rule| s@.contains(r) <==> rules@.contains(r),
            no_stray_bits(s.0),
    {
        let mut set = RuleSet::empty();
        let mut i: usize = 0;
        proof {
            assert forall|j: int| RULE_COUNT <= j < 64 implies !bit_set(set.0, j) by {
                lemma_zero_bits(j as u64);
            }
        }
        while i < rules.len()
            invariant
                i <= rules@.len(),
                forall|r: Rule| set@.contains(r) <==> rules@.take(i as int).contains(r),
                no_stray_bits(set.0),
            decreases rules.len() - i,
        {
            let old_set = set;
            set = set.add(rules[i]);
            proof {
                assert forall|r: Rule| set@.contains(r) <==> rules@.take(i + 1).contains(r) by {
                    let t = rules@.take(i as int);
                    let t1 = rules@.take(i + 1);
                    assert(t1 =~= t.push(rules@[i as int]));
                    assert(set@.contains(r) == (old_set@.contains(r) || r == rules@[i as int]));
                    if t.contains(r) {
                        let k = choose|k: int| 0 <= k < t.len() && t[k] == r;
                        assert(t1[k] == r);
                    }
                    if t1.contains(r) {
                        let k = choose|k: int| 0 <= k < t1.len() && t1[k] == r;
                        if k < i {
                            assert(t[k] == r);
                        }
                    }
                    if r == rules@[i as int] {
                        assert(t1[i as int] == r);
                    }
                }
            }
            i = i + 1;
        }
        assert(rules@.take(rules@.len() as int) =~= rules@);
        set
    }

    /// Adds the rules of `other` to `self` and returns the result.
    pub fn union(&mut self, other: Self) -> (r: Self)
        ensures
            final(self).0 == old(self).0 | other.0,
            r == *final(self),
            final(self)@ == old(self)@.union(other@),
    {
        self.0 = self.0 | other.0;
        proof {
            assert forall|x: Rule| self@.contains(x) == old(self)@.union(other@).contains(x) by {
                lemma_rule_index(x);
                lemma_bit_or(old(self).0, other.0, rule_index(x) as u64);
            }
            assert(self@ =~= old(self)@.union(other@));
        }
        *self
    }

    /// Removes the rules of `other` from `self` and returns the result.
    pub fn subtract(&mut self, other: Self) -> (r: Self)
        ensures
            final(self).0 == old(self).0 & !other.0,
            r == *final(self),
            final(self)@ == old(self)@.difference(other@),
    {
        self.0 = self.0 & !other.0;
        proof {
            assert forall|x: Rule| self@.contains(x) == old(self)@.difference(other@).contains(x) by {
                lemma_rule_index(x);
                lemma_bit_and_not(old(self).0, other.0, rule_index(x) as u64);
            }
            assert(self@ =~= old(self)@.difference(other@));
        }
        *self
    }

    /// Inserts `rule` into the set.
    pub fn insert(&mut self, rule: Rule)
        ensures
            final(self).0 == old(self).0 | (1u64 << (rule_index(rule) as u64)),
            final(self)@ == old(self)@.insert(rule),
    {
        *self = self.add(rule);
    }

    /// The set with `rule` added.
    pub fn add(&self, rule: Rule) -> (s: Self)
        ensures
            s.0 == self.0 | (1u64 << (rule_index(rule) as u64)),
            s@ == self@.insert(rule),
            forall|j: int| 0 <= j < 64 ==> bit_set(s.0, j) == (bit_set(self.0, j) || j == rule_index(rule)),
    {
        let i = rule.index();
        let s = RuleSet(self.0 | (1u64 << i));
        proof {
            assert forall|j: int| 0 <= j < 64 implies bit_set(s.0, j) == (bit_set(self.0, j) || j == rule_index(rule)) by {
                lemma_add_bits(self.0, rule, j);
            }
            assert forall|x: Rule| s@.contains(x) == (self@.contains(x) || x == rule) by {
                lemma_rule_index(x);
                lemma_rule_index(rule);
                lemma_add_bits(self.0, rule, rule_index(x));
            }
            assert(s@ =~= self@.insert(rule));
        }
        s
    }

    /// The set with `rule` removed.
    pub fn remove(&self, rule: Rule) -> (s: Self)
        ensures
            s.0 == self.0 & !(1u64 << (rule_index(rule) as u64)),
            s@ == self@.remove(rule),
    {
        let i = rule.index();
        let s = RuleSet(self.0 & !(1u64 << i));
        proof {
            assert forall|x: Rule| s@.contains(x) == (self@.contains(x) && x != rule) by {
                lemma_rule_index(x);
                lemma_rule_index(rule);
                lemma_remove_bits(self.0, rule, rule_index(x));
            }
            assert(s@ =~= self@.remove(rule));
        }
        s
    }

    /// Number of set bits (`count_ones`).
    pub fn len(&self) -> (n: usize)
        ensures
            n == bits_below(self.0, 64),
    {
        let mut n: usize = 0;
        let mut i: u64 = 0;
        while i < 64
            invariant
                i <= 64,
                n == bits_below(self.0, i as int),
                n <= i,
            decreases 64 - i,
        {
            if self.0 & (1u64 << i) != 0 {
                n = n + 1;
            }
            i = i + 1;
        }
        n
    }

    /// Whether no bit is set.
    pub fn is_empty(&self) -> (b: bool)
        ensures
            b == (self.0 == 0),
    {
        self.0 == 0
    }

    /// Whether `rule` is in the set.
    pub fn contains(&self, rule: Rule) -> (b: bool)
        ensures
            b == self@.contains(rule),
    {
        let i = rule.index();
        self.0 & (1u64 << i) != 0
    }

    /// An iterator over the rules of the set, in position order.
    pub fn iter(&self) -> (it: RuleSetIter)
        ensures
            it.bits == self.0,
            it.current_bit == 0,
    {
        RuleSetIter { bits: self.0, current_bit: 0 }
    }

    /// The rules of the set in position order, as the iterator gives them.
    pub fn rules(&self) -> (v: Vec<Rule>)
        ensures
            v@ == rules_of(self.0),
    {
        let mut out: Vec<Rule> = Vec::new();
        let mut it = self.iter();
        loop
            invariant
                it.bits == self.0,
                it.current_bit <= 64,
                rules_of(self.0) == out@ + rules_from(self.0, it.current_bit as int),
            ensures
                rules_of(self.0) == out@,
            decreases 64 - it.current_bit,
        {
            match it.next() {
                None => {
                    assert(out@ + Seq::<Rule>::empty() =~= out@);
                    break;
                },
                Some(rule) => {
                    let ghost before = out@;
                    out.push(rule);
                    assert(before + (seq![rule] + rules_from(self.0, it.current_bit as int)) =~= out@
                        + rules_from(self.0, it.current_bit as int));
                },
            }
        }
        out
    }

    /// The set written as a list of rule codes (what `Display` writes):
    /// `[]` when no bit is set.
    pub fn to_string(&self) -> (s: String)
        ensures
            s@ == rule_set_text(self.0),
    {
        if self.0 == 0 {
            let r = vec!['[', ']'];
            assert(r@ =~= seq!['[', ']']);
            return string_of(&r);
        }
        let mut out: Vec<char> = vec!['[', '\n'];
        let mut it = self.iter();
        let mut first = true;
        let ghost mut done: Seq<Rule> = Seq::empty();
        assert(rules_of(self.0) == done + rules_from(self.0, 0));
        loop
            invariant
                it.bits == self.0,
                it.current_bit <= 64,
                rules_of(self.0) == done + rules_from(self.0, it.current_bit as int),
                first == (done.len() == 0),
                out@ == seq!['[', '\n'] + rule_lines(done),
            ensures
                rules_of(self.0) == done,
                out@ == seq!['[', '\n'] + rule_lines(done),
            decreases 64 - it.current_bit,
        {
            let ghost before = it.current_bit;
            match it.next() {
                None => {
                    proof {
                        lemma_rules_from_none(self.0, before as int);
                        assert(done + Seq::<Rule>::empty() =~= done);
                    }
                    break;
                },
                Some(rule) => {
                    proof {
                        lemma_rules_from_next(self.0, before as int, rule);
                    }
                    let ghost old_out = out@;
                    if !first {
                        out.push(',');
                        out.push('\n');
                    }
                    out.push('\t');
                    push_str(&mut out, rule.as_display());
                    proof {
                        lemma_rule_lines_push(done, rule);
                        assert(done.push(rule) + rules_from(self.0, it.current_bit as int) =~= done + (seq![rule] + rules_from(self.0, it.current_bit as int)));
                        done = done.push(rule);
                        assert(out@ =~= seq!['[', '\n'] + rule_lines(done));
                    }
                    first = false;
                },
            }
        }
        out.push('\n');
        out.push(']');
        proof {
            assert(out@ =~= seq!['[', '\n'] + rule_lines(rules_of(self.0)) + seq!['\n', ']']);
        }
        string_of(&out)
    }
}

/// The rule lines of a set: each code after a tab, separated by `,` and a line break.
pub open spec fn rule_lines(rules: Seq<Rule>) -> Seq<char>
    decreases rules.len(),
{
    if rules.len() == 0 {
        Seq::empty()
    } else if rules.len() == 1 {
        seq!['\t'] + rule_code(rules[0])
    } else {
        rule_lines(rules.drop_last()) + seq![',', '\n', '\t'] + rule_code(rules.last())
    }
}

/// Text of a rule set.
pub open spec fn rule_set_text(bits: u64) -> Seq<char> {
    if bits == 0 {
        seq!['[', ']']
    } else {
        seq!['[', '\n'] + rule_lines(rules_of(bits)) + seq!['\n', ']']
    }
}

proof fn lemma_rule_lines_push(rules: Seq<Rule>, r: Rule)
    ensures
        rule_lines(rules.push(r)) == (if rules.len() == 0 {
            seq!['\t'] + rule_code(r)
        } else {
            rule_lines(rules) + seq![',', '\n', '\t'] + rule_code(r)
        }),
{
    assert(rules.push(r).drop_last() =~= rules);
}

/// Nothing set at or after `i` gives no more rules.
proof fn lemma_rules_from_none(bits: u64, i: int)
    requires
        0 <= i <= 64,
        forall|j: int| i <= j < RULE_COUNT ==> !bit_set(bits, j),
    ensures
        rules_from(bits, i) == Seq::<Rule>::empty(),
    decreases RULE_COUNT - i,
{
    if i < RULE_COUNT {
        lemma_rules_from_none(bits, i + 1);
    }
}

/// The first rule at or after `i` heads the rules from `i`.
proof fn lemma_rules_from_next(bits: u64, i: int, r: Rule)
    requires
        0 <= i <= rule_index(r),
        bit_set(bits, rule_index(r)),
        forall|j: int| i <= j < rule_index(r) ==> !bit_set(bits, j),
    ensures
        rules_from(bits, i) == seq![r] + rules_from(bits, rule_index(r) + 1),
    decreases rule_index(r) - i,
{
    lemma_rule_index(r);
    if i < rule_index(r) {
        lemma_rules_from_next(bits, i + 1, r);
    }
}

impl Default for RuleSet {
    /// The default rules: `description-full-stop` and `breaking-exclamation`.
    fn default() -> (s: Self)
        ensures
            s@ == default_rules(),
            no_stray_bits(s.0),
    {
        let s = RuleSet::from_rules(&[Rule::HeaderDescriptionFullStop, Rule::FooterBreakingExclamation]);
        proof {
            let l = seq![Rule::HeaderDescriptionFullStop, Rule::FooterBreakingExclamation];
            assert forall|r: Rule| s@.contains(r) <==> default_rules().contains(r) by {
                if r == Rule::HeaderDescriptionFullStop {
                    assert(l[0] == r);
                }
                if r == Rule::FooterBreakingExclamation {
                    assert(l[1] == r);
                }
            }
            assert(s@ =~= default_rules());
        }
        s
    }
}

/// Iterator over the rules of a set, in position order.
pub struct RuleSetIter {
    pub bits: u64,
    pub current_bit: u8,
}

impl RuleSetIter {
    /// The next rule of the set: the one at the lowest position from `current_bit` on.
    /// Bits that stand for no rule are passed over.
    pub fn next(&mut self) -> (r: Option<Rule>)
        requires
            old(self).current_bit <= 64,
        ensures
            final(self).bits == old(self).bits,
            match r {
                Some(x) => {
                    &&& old(self).current_bit <= rule_index(x)
                    &&& bit_set(old(self).bits, rule_index(x))
                    &&& forall|j: int|
                        old(self).current_bit <= j < rule_index(x) ==> !bit_set(old(self).bits, j)
                    &&& final(self).current_bit == rule_index(x) + 1
                    &&& rules_from(old(self).bits, old(self).current_bit as int) == seq![x] + rules_from(
                        old(self).bits,
                        final(self).current_bit as int,
                    )
                },
                None => {
                    &&& forall|j: int|
                        old(self).current_bit <= j < RULE_COUNT ==> !bit_set(old(self).bits, j)
                    &&& final(self).current_bit == 64
                    &&& rules_from(old(self).bits, old(self).current_bit as int) == Seq::<Rule>::empty()
                },
            },
    {
        let ghost start = self.current_bit as int;
        while self.current_bit < 64
            invariant
                self.bits == old(self).bits,
                start == old(self).current_bit,
                old(self).current_bit <= self.current_bit <= 64,
                forall|j: int|
                    old(self).current_bit <= j < self.current_bit && j < RULE_COUNT ==> !bit_set(
                        self.bits,
                        j,
                    ),
            decreases 64 - self.current_bit,
        {
            let i = self.current_bit;
            if self.bits & (1u64 << i) != 0 {
                if let Some(rule) = Rule::from_index(i) {
                    proof {
                        lemma_rule_at(i as int);
                        lemma_rules_from_next(self.bits, start, rule);
                    }
                    self.current_bit = i + 1;
                    return Some(rule);
                }
                proof {
                    lemma_rule_at(i as int);
                }
            }
            self.current_bit = i + 1;
        }
        proof {
            lemma_rules_from_none(self.bits, start);
        }
        None
    }
}

/// The rules at positions from `i` on are those of the set there, each once,
/// as many as the set bits there.
proof fn lemma_rules_from_props(bits: u64, i: int)
    requires
        0 <= i <= RULE_COUNT,
    ensures
        rules_from(bits, i).len() == bits_below(bits, RULE_COUNT as int) - bits_below(bits, i),
        rules_from(bits, i).no_duplicates(),
        forall|r: Rule| #[trigger] rules_from(bits, i).contains(r) <==> (i <= rule_index(r) && has_rule(bits, r)),
    decreases RULE_COUNT - i,
{
    if i < RULE_COUNT {
        lemma_rules_from_props(bits, i + 1);
        let rest = rules_from(bits, i + 1);
        lemma_rule_at(i);
        let x = rule_at(i).unwrap();
        assert(rule_index(x) == i);
        if bit_set(bits, i) {
            let full = seq![x] + rest;
            assert(rules_from(bits, i) == full);
            assert forall|r: Rule| full.contains(r) <==> (i <= rule_index(r) && has_rule(bits, r)) by {
                lemma_rule_index(r);
                if full.contains(r) {
                    let k = choose|k: int| 0 <= k < full.len() && full[k] == r;
                    if k > 0 {
                        assert(rest[k - 1] == r);
                        assert(rest.contains(r));
                    }
                }
                if i <= rule_index(r) && has_rule(bits, r) {
                    if rule_index(r) == i {
                        lemma_rule_index(x);
                        assert(r == x) by {
                            lemma_rule_index(r);
                            assert(rule_at(rule_index(r)) == Some(r));
                        }
                        assert(full[0] == r);
                    } else {
                        assert(rest.contains(r));
                        let k = choose|k: int| 0 <= k < rest.len() && rest[k] == r;
                        assert(full[k + 1] == r);
                    }
                }
            }
            assert forall|a: int, b: int| 0 <= a < full.len() && 0 <= b < full.len() && a != b implies full[a] != full[b] by {
                if a > 0 && b > 0 {
                    assert(full[a] == rest[a - 1]);
                    assert(full[b] == rest[b - 1]);
                } else if a == 0 {
                    let y = rest[b - 1];
                    assert(full[b] == y);
                    assert(rest.contains(y));
                    assert(i + 1 <= rule_index(y));
                } else {
                    let y = rest[a - 1];
                    assert(full[a] == y);
                    assert(rest.contains(y));
                    assert(i + 1 <= rule_index(y));
                }
            }
        } else {
            assert(rules_from(bits, i) == rest);
            assert forall|r: Rule| rest.contains(r) <==> (i <= rule_index(r) && has_rule(bits, r)) by {
                lemma_rule_index(r);
                assert(rest.contains(r) <==> (i + 1 <= rule_index(r) && has_rule(bits, r)));
                if rule_index(r) == i {
                    assert(!has_rule(bits, r));
                }
            }
        }
    } else {
        assert(rules_from(bits, i) =~= Seq::<Rule>::empty());
        assert forall|r: Rule| !(i <= rule_index(r) && has_rule(bits, r)) by {
            lemma_rule_index(r);
        }
    }
}

/// Without stray bits, the bits at and above the last position are clear.
proof fn lemma_bits_below_stray(bits: u64, n: int)
    requires
        no_stray_bits(bits),
        RULE_COUNT <= n <= 64,
    ensures
        bits_below(bits, n) == bits_below(bits, RULE_COUNT as int),
    decreases n,
{
    if n > RULE_COUNT {
        lemma_bits_below_stray(bits, n - 1);
    }
}

/// The number of set bits, which `len` counts, is the number of rules in the
/// set, for a set without stray bits (every set that `RuleSet`'s operations
/// make from the empty set).
pub proof fn law_len_counts_rules(s: RuleSet)
    requires
        no_stray_bits(s.0),
    ensures
        s@.finite(),
        bits_below(s.0, 64) == s@.len(),
{
    lemma_rules_from_props(s.0, 0);
    lemma_bits_below_stray(s.0, 64);
    let q = rules_of(s.0);
    assert forall|r: Rule| q.to_set().contains(r) <==> s@.contains(r) by {
        lemma_rule_index(r);
    }
    assert(q.to_set() =~= s@);
    q.unique_seq_to_set();
}

/// The rules from position `i` on come in increasing position, each at `i` or after.
proof fn lemma_rules_from_sorted(bits: u64, i: int)
    requires
        0 <= i <= RULE_COUNT,
    ensures
        forall|k: int| 0 <= k < rules_from(bits, i).len() ==> i <= rule_index(#[trigger] rules_from(bits, i)[k]),
        forall|a: int, b: int|
            0 <= a < b < rules_from(bits, i).len() ==> rule_index(#[trigger] rules_from(bits, i)[a])
                < rule_index(#[trigger] rules_from(bits, i)[b]),
    decreases RULE_COUNT - i,
{
    if i < RULE_COUNT {
        lemma_rules_from_sorted(bits, i + 1);
        lemma_rule_at(i);
        let rest = rules_from(bits, i + 1);
        if bit_set(bits, i) {
            let x = rule_at(i).unwrap();
            let full = seq![x] + rest;
            assert(rules_from(bits, i) == full);
            assert(rule_index(x) == i);
            assert forall|k: int| 0 <= k < full.len() implies i <= rule_index(#[trigger] full[k]) by {
                if k > 0 {
                    assert(full[k] == rest[k - 1]);
                }
            }
            assert forall|a: int, b: int| 0 <= a < b < full.len() implies rule_index(#[trigger] full[a])
                < rule_index(#[trigger] full[b]) by {
                assert(full[b] == rest[b - 1]);
                if a > 0 {
                    assert(full[a] == rest[a - 1]);
                }
            }
        }
    }
}

/// Walking a set gives each of its rules once, in increasing position, and
/// nothing else.
pub proof fn law_iteration_order(s: RuleSet)
    ensures
        rules_of(s.0).no_duplicates(),
        forall|r: Rule| #[trigger] rules_of(s.0).contains(r) <==> s@.contains(r),
        forall|a: int, b: int|
            0 <= a < b < rules_of(s.0).len() ==> rule_index(#[trigger] rules_of(s.0)[a]) < rule_index(
                #[trigger] rules_of(s.0)[b],
            ),
{
    lemma_rules_from_props(s.0, 0);
    lemma_rules_from_sorted(s.0, 0);
    assert forall|r: Rule| #[trigger] rules_of(s.0).contains(r) <==> s@.contains(r) by {
        lemma_rule_index(r);
    }
}

/// A count of 0 set bits means no bit is set.
proof fn lemma_no_bits_counted(bits: u64, n: int)
    requires
        0 <= n <= 64,
        bits_below(bits, n) == 0,
    ensures
        forall|i: int| 0 <= i < n ==> !bit_set(bits, i),
    decreases n,
{
    if n > 0 {
        lemma_no_bits_counted(bits, n - 1);
    }
}

/// A set of no bits counts 0 bits.
proof fn lemma_zero_counts_none(n: int)
    requires
        0 <= n <= 64,
    ensures
        bits_below(0u64, n) == 0,
    decreases n,
{
    if n > 0 {
        lemma_zero_counts_none(n - 1);
        lemma_zero_bits((n - 1) as u64);
    }
}

/// `len` is 0 exactly where `is_empty` holds: the set bits are counted 0
/// times exactly when no bit is set.
pub proof fn law_len_zero_iff_empty(s: RuleSet)
    ensures
        bits_below(s.0, 64) == 0 <==> s.0 == 0,
{
    if s.0 == 0 {
        lemma_zero_counts_none(64);
    }
    if bits_below(s.0, 64) == 0 {
        lemma_no_bits_counted(s.0, 64);
        let b = s.0;
        assert(!bit_set(b, 0));
        assert(!bit_set(b, 1));
        assert(!bit_set(b, 2));
        assert(!bit_set(b, 3));
        assert(!bit_set(b, 4));
        assert(!bit_set(b, 5));
        assert(!bit_set(b, 6));
        assert(!bit_set(b, 7));
        assert(!bit_set(b, 8));
        assert(!bit_set(b, 9));
        assert(!bit_set(b, 10));
        assert(!bit_set(b, 11));
        assert(!bit_set(b, 12));
        assert(!bit_set(b, 13));
        assert(!bit_set(b, 14));
        assert(!bit_set(b, 15));
        assert(!bit_set(b, 16));
        assert(!bit_set(b, 17));
        assert(!bit_set(b, 18));
        assert(!bit_set(b, 19));
        assert(!bit_set(b, 20));
        assert(!bit_set(b, 21));
        assert(!bit_set(b, 22));
        assert(!bit_set(b, 23));
        assert(!bit_set(b, 24));
        assert(!bit_set(b, 25));
        assert(!bit_set(b, 26));
        assert(!bit_set(b, 27));
        assert(!bit_set(b, 28));
        assert(!bit_set(b, 29));
        assert(!bit_set(b, 30));
        assert(!bit_set(b, 31));
        assert(!bit_set(b, 32));
        assert(!bit_set(b, 33));
        assert(!bit_set(b, 34));
        assert(!bit_set(b, 35));
        assert(!bit_set(b, 36));
        assert(!bit_set(b, 37));
        assert(!bit_set(b, 38));
        assert(!bit_set(b, 39));
        assert(!bit_set(b, 40));
        assert(!bit_set(b, 41));
        assert(!bit_set(b, 42));
        assert(!bit_set(b, 43));
        assert(!bit_set(b, 44));
        assert(!bit_set(b, 45));
        assert(!bit_set(b, 46));
        assert(!bit_set(b, 47));
        assert(!bit_set(b, 48));
        assert(!bit_set(b, 49));
        assert(!bit_set(b, 50));
        assert(!bit_set(b, 51));
        assert(!bit_set(b, 52));
        assert(!bit_set(b, 53));
        assert(!bit_set(b, 54));
        assert(!bit_set(b, 55));
        assert(!bit_set(b, 56));
        assert(!bit_set(b, 57));
        assert(!bit_set(b, 58));
        assert(!bit_set(b, 59));
        assert(!bit_set(b, 60));
        assert(!bit_set(b, 61));
        assert(!bit_set(b, 62));
        assert(!bit_set(b, 63));
        assert(b == 0) by (bit_vector)
            requires
                b & (1u64 << 0u64) == 0,
                b & (1u64 << 1u64) == 0,
                b & (1u64 << 2u64) == 0,
                b & (1u64 << 3u64) == 0,
                b & (1u64 << 4u64) == 0,
                b & (1u64 << 5u64) == 0,
                b & (1u64 << 6u64) == 0,
                b & (1u64 << 7u64) == 0,
                b & (1u64 << 8u64) == 0,
                b & (1u64 << 9u64) == 0,
                b & (1u64 << 10u64) == 0,
                b & (1u64 << 11u64) == 0,
                b & (1u64 << 12u64) == 0,
                b & (1u64 << 13u64) == 0,
                b & (1u64 << 14u64) == 0,
                b & (1u64 << 15u64) == 0,
                b & (1u64 << 16u64) == 0,
                b & (1u64 << 17u64) == 0,
                b & (1u64 << 18u64) == 0,
                b & (1u64 << 19u64) == 0,
                b & (1u64 << 20u64) == 0,
                b & (1u64 << 21u64) == 0,
                b & (1u64 << 22u64) == 0,
                b & (1u64 << 23u64) == 0,
                b & (1u64 << 24u64) == 0,
                b & (1u64 << 25u64) == 0,
                b & (1u64 << 26u64) == 0,
                b & (1u64 << 27u64) == 0,
                b & (1u64 << 28u64) == 0,
                b & (1u64 << 29u64) == 0,
                b & (1u64 << 30u64) == 0,
                b & (1u64 << 31u64) == 0,
                b & (1u64 << 32u64) == 0,
                b & (1u64 << 33u64) == 0,
                b & (1u64 << 34u64) == 0,
                b & (1u64 << 35u64) == 0,
                b & (1u64 << 36u64) == 0,
                b & (1u64 << 37u64) == 0,
                b & (1u64 << 38u64) == 0,
                b & (1u64 << 39u64) == 0,
                b & (1u64 << 40u64) == 0,
                b & (1u64 << 41u64) == 0,
                b & (1u64 << 42u64) == 0,
                b & (1u64 << 43u64) == 0,
                b & (1u64 << 44u64) == 0,
                b & (1u64 << 45u64) == 0,
                b & (1u64 << 46u64) == 0,
                b & (1u64 << 47u64) == 0,
                b & (1u64 << 48u64) == 0,
                b & (1u64 << 49u64) == 0,
                b & (1u64 << 50u64) == 0,
                b & (1u64 << 51u64) == 0,
                b & (1u64 << 52u64) == 0,
                b & (1u64 << 53u64) == 0,
                b & (1u64 << 54u64) == 0,
                b & (1u64 << 55u64) == 0,
                b & (1u64 << 56u64) == 0,
                b & (1u64 << 57u64) == 0,
                b & (1u64 << 58u64) == 0,
                b & (1u64 << 59u64) == 0,
                b & (1u64 << 60u64) == 0,
                b & (1u64 << 61u64) == 0,
                b & (1u64 << 62u64) == 0,
                b & (1u64 << 63u64) == 0,
        ;
    }
}

} // verus!
