use commitfmt::linter::rule::{name_to_rule, LinterGroup, Rule};
use commitfmt::linter::rule_set::RuleSet;

fn collect(set: &RuleSet) -> Vec<Rule> {
    let mut it = set.iter();
    let mut out = Vec::new();
    while let Some(rule) = it.next() {
        out.push(rule);
    }
    out
}

#[test]
fn test_empty() {
    let empty_set = RuleSet::empty();
    assert_eq!(empty_set.0, 0);
    assert_eq!(empty_set.len(), 0);
    assert!(empty_set.is_empty());
}

#[test]
fn test_add_and_contains() {
    let mut set = RuleSet::empty();
    set.insert(Rule::HeaderScopeMinLength);
    assert!(set.contains(Rule::HeaderScopeMinLength));
    assert!(!set.contains(Rule::BodyMaxLineLength));
    assert_eq!(set.len(), 1);
    assert!(!set.is_empty());

    set.insert(Rule::BodyMaxLineLength);
    assert!(set.contains(Rule::BodyMaxLineLength));
    assert_eq!(set.len(), 2);
}

#[test]
fn test_remove() {
    let mut set = RuleSet::empty();
    set.insert(Rule::HeaderScopeMinLength);
    set.insert(Rule::BodyMaxLineLength);
    assert_eq!(set.len(), 2);

    set = set.remove(Rule::HeaderScopeMinLength);
    assert!(!set.contains(Rule::HeaderScopeMinLength));
    assert_eq!(set.len(), 1);
}

#[test]
fn test_union() {
    let mut set1 = RuleSet::empty();
    set1.insert(Rule::HeaderScopeMinLength);

    let mut set2 = RuleSet::empty();
    set2.insert(Rule::BodyMaxLineLength);

    let union_set = set1.union(set2);
    assert!(union_set.contains(Rule::HeaderScopeMinLength));
    assert!(union_set.contains(Rule::BodyMaxLineLength));
    assert_eq!(union_set.len(), 2);
}

#[test]
fn test_subtract() {
    let mut set1 = RuleSet::empty();
    set1.insert(Rule::HeaderScopeMinLength);
    set1.insert(Rule::BodyMaxLineLength);

    let mut set2 = RuleSet::empty();
    set2.insert(Rule::BodyMaxLineLength);

    let subtract_set = set1.subtract(set2);
    assert!(subtract_set.contains(Rule::HeaderScopeMinLength));
    assert!(!subtract_set.contains(Rule::BodyMaxLineLength));
    assert_eq!(subtract_set.len(), 1);
}

#[test]
fn test_from_rules() {
    let rules = [Rule::HeaderScopeMinLength, Rule::HeaderDescriptionFullStop];
    let set = RuleSet::from_rules(&rules);
    assert!(set.contains(Rule::HeaderScopeMinLength));
    assert!(set.contains(Rule::HeaderDescriptionFullStop));
    assert_eq!(set.len(), 2);
}

#[test]
fn test_iterator() {
    let mut set = RuleSet::empty();
    set.insert(Rule::HeaderScopeMinLength);
    set.insert(Rule::HeaderDescriptionFullStop);

    let mut rules: Vec<Rule> = collect(&set);
    rules.sort();

    let mut expected = vec![Rule::HeaderScopeMinLength, Rule::HeaderDescriptionFullStop];
    expected.sort();

    assert_eq!(rules, expected);
}

#[test]
fn test_iterator_empty() {
    let set = RuleSet::empty();
    let rules: Vec<Rule> = collect(&set);
    assert!(rules.is_empty());
}

#[test]
fn test_iterator_reference() {
    let mut set = RuleSet::empty();
    set.insert(Rule::HeaderScopeMinLength);

    let rules: Vec<Rule> = collect(&set);
    assert_eq!(rules.len(), 1);
    assert_eq!(rules[0], Rule::HeaderScopeMinLength);

    assert!(set.contains(Rule::HeaderScopeMinLength));
}

#[test]
fn test_iter_method() {
    let mut set = RuleSet::empty();
    set.insert(Rule::HeaderScopeMinLength);
    set.insert(Rule::HeaderDescriptionFullStop);

    let rules: Vec<Rule> = collect(&set);
    assert_eq!(rules.len(), 2);
    assert!(rules.contains(&Rule::HeaderScopeMinLength));
    assert!(rules.contains(&Rule::HeaderDescriptionFullStop));

    assert!(set.contains(Rule::HeaderScopeMinLength));
}

#[test]
fn test_display_empty() {
    let set = RuleSet::empty();
    assert_eq!(set.to_string(), "[]");
}

#[test]
fn test_display_single_rule() {
    let mut set = RuleSet::empty();
    set.insert(Rule::HeaderScopeMinLength);
    let expected = "[\n\tscope-min-length\n]";
    assert_eq!(set.to_string(), expected);
}

#[test]
fn test_display_multiple_rules() {
    let mut set = RuleSet::empty();
    set.insert(Rule::HeaderScopeMinLength);
    set.insert(Rule::HeaderDescriptionFullStop);

    let display = set.to_string();
    assert!(display.starts_with("[\n"));
    assert!(display.ends_with("\n]"));
    assert!(display.contains("\tscope-min-length"));
    assert!(display.contains("\tdescription-full-stop"));
    assert!(display.contains(",\n"));
}

#[test]
fn test_from_name() {
    assert_eq!(LinterGroup::from_name("header"), Some(LinterGroup::Header));
    assert_eq!(LinterGroup::from_name("body"), Some(LinterGroup::Body));
    assert_eq!(LinterGroup::from_name("footer"), Some(LinterGroup::Footer));
    assert_eq!(LinterGroup::from_name("unknown"), None);
}

#[test]
fn rule_names_round_trip() {
    assert_eq!(name_to_rule(LinterGroup::Header, "scope-min-length"), Some(Rule::HeaderScopeMinLength));
    assert_eq!(name_to_rule(LinterGroup::Body, "max-length"), Some(Rule::BodyMaxLength));
    assert_eq!(name_to_rule(LinterGroup::Footer, "max-length"), Some(Rule::FooterMaxLength));
    assert_eq!(name_to_rule(LinterGroup::Footer, "scope-min-length"), None);
    assert_eq!(Rule::FooterExists.as_display(), "exists");
    assert_eq!(Rule::FooterExists.group(), LinterGroup::Footer);
    assert_eq!(LinterGroup::all(), vec![LinterGroup::Header, LinterGroup::Body, LinterGroup::Footer]);
}

#[test]
fn default_rules_and_positions() {
    let set = RuleSet::default();
    assert_eq!(collect(&set), vec![Rule::HeaderDescriptionFullStop, Rule::FooterBreakingExclamation]);
    assert_eq!(set.0, (1u64 << 1) | (1u64 << 22));
    assert_eq!(set.to_string(), "[\n\tdescription-full-stop,\n\tbreaking-exclamation\n]");
}

#[test]
fn rules_come_in_position_order() {
    let set = RuleSet::from_rules(&[Rule::FooterMinLength, Rule::HeaderDescriptionCase, Rule::BodyCase]);
    assert_eq!(set.rules(), vec![Rule::HeaderDescriptionCase, Rule::BodyCase, Rule::FooterMinLength]);
    assert_eq!(set.rules(), collect(&set));
    assert_eq!(RuleSet::empty().rules(), Vec::<Rule>::new());
}

#[test]
fn len_zero_exactly_when_empty() {
    let empty = RuleSet::empty();
    assert_eq!(empty.len(), 0);
    assert!(empty.is_empty());
    let one = RuleSet::from_rules(&[Rule::BodyCase]);
    assert_eq!(one.len(), 1);
    assert!(!one.is_empty());
}
