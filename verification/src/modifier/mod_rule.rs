//! Selection rules and the bounds they set.
use vstd::prelude::*;

use crate::modifier::mod_error::{ModifierError, ModifierErrorView};

verus! {

/// A rule on how many of something may be selected.
#[derive(Debug, Copy, Clone, Eq, PartialEq, Hash)]
pub enum Rule {
    Min(u32),
    Max(u32),
    Default(u32),
}

/// The kind of a rule.
#[derive(Debug, Copy, Clone, Eq, PartialEq, Hash)]
pub enum RuleKind {
    Min,
    Max,
    Default,
}

pub open spec fn rule_kind(rule: Rule) -> RuleKind {
    match rule {
        Rule::Min(_) => RuleKind::Min,
        Rule::Max(_) => RuleKind::Max,
        Rule::Default(_) => RuleKind::Default,
    }
}

impl Rule {
    pub fn kind(self) -> (r: RuleKind)
        ensures
            r == rule_kind(self),
    {
        match self {
            Rule::Min(_) => RuleKind::Min,
            Rule::Max(_) => RuleKind::Max,
            Rule::Default(_) => RuleKind::Default,
        }
    }
}

/// The minimum and the optional maximum a list of rules sets.
#[derive(Debug, Copy, Clone, Eq, PartialEq)]
pub struct SelectionBounds {
    pub min: u32,
    pub max: Option<u32>,
}

/// The minimum and maximum rules met in order, or the first duplicate.
pub open spec fn rules_scan(rules: Seq<Rule>) -> Result<(Option<u32>, Option<u32>), ModifierErrorView>
    decreases rules.len(),
{
    if rules.len() == 0 {
        Ok((None, None))
    } else {
        match rules_scan(rules.drop_last()) {
            Err(e) => Err(e),
            Ok((min, max)) => match rules.last() {
                Rule::Min(v) => if min is Some {
                    Err(ModifierErrorView::DuplicateRule(RuleKind::Min))
                } else {
                    Ok((Some(v), max))
                },
                Rule::Max(v) => if max is Some {
                    Err(ModifierErrorView::DuplicateRule(RuleKind::Max))
                } else {
                    Ok((min, Some(v)))
                },
                Rule::Default(_) => Ok((min, max)),
            },
        }
    }
}

/// The bounds of a list of rules: at most one minimum (zero when absent), at
/// most one maximum, and the minimum not above the maximum.
pub open spec fn spec_bounds(rules: Seq<Rule>) -> Result<SelectionBounds, ModifierErrorView> {
    match rules_scan(rules) {
        Err(e) => Err(e),
        Ok((min, max)) => {
            let lo: u32 = match min {
                Some(v) => v,
                None => 0,
            };
            match max {
                Some(hi) => if lo > hi {
                    Err(ModifierErrorView::InvalidConstraints { min_select: lo, max_select: hi })
                } else {
                    Ok(SelectionBounds { min: lo, max: Some(hi) })
                },
                None => Ok(SelectionBounds { min: lo, max: None }),
            }
        },
    }
}

proof fn lemma_rules_scan_step(rules: Seq<Rule>, i: int)
    requires
        0 <= i < rules.len(),
    ensures
        rules_scan(rules.take(i + 1)) == match rules_scan(rules.take(i)) {
            Err(e) => Err(e),
            Ok((min, max)) => match rules[i] {
                Rule::Min(v) => if min is Some {
                    Err(ModifierErrorView::DuplicateRule(RuleKind::Min))
                } else {
                    Ok((Some(v), max))
                },
                Rule::Max(v) => if max is Some {
                    Err(ModifierErrorView::DuplicateRule(RuleKind::Max))
                } else {
                    Ok((min, Some(v)))
                },
                Rule::Default(_) => Ok::<(Option<u32>, Option<u32>), ModifierErrorView>((min, max)),
            },
        },
{
    assert(rules.take(i + 1).drop_last() =~= rules.take(i));
}

proof fn lemma_rules_scan_error_sticks(rules: Seq<Rule>, k: int)
    requires
        0 <= k <= rules.len(),
        rules_scan(rules.take(k)) is Err,
    ensures
        rules_scan(rules) == rules_scan(rules.take(k)),
    decreases rules.len() - k,
{
    if k == rules.len() {
        assert(rules.take(k) =~= rules);
    } else {
        lemma_rules_scan_step(rules, k);
        lemma_rules_scan_error_sticks(rules, k + 1);
    }
}

impl SelectionBounds {
    pub fn from_rules(rules: &[Rule]) -> (r: Result<Self, ModifierError>)
        ensures
            match r {
                Ok(b) => spec_bounds(rules@) == Ok::<SelectionBounds, ModifierErrorView>(b),
                Err(e) => spec_bounds(rules@) == Err::<SelectionBounds, ModifierErrorView>(e@),
            },
    {
        let mut min: Option<u32> = None;
        let mut max: Option<u32> = None;
        let mut i: usize = 0;
        while i < rules.len()
            invariant
                i <= rules.len(),
                rules_scan(rules@.take(i as int)) == Ok::<(Option<u32>, Option<u32>), ModifierErrorView>((min, max)),
            decreases rules.len() - i,
        {
            proof {
                lemma_rules_scan_step(rules@, i as int);
            }
            match rules[i] {
                Rule::Min(v) => {
                    if min.is_some() {
                        proof {
                            lemma_rules_scan_error_sticks(rules@, i + 1);
                        }
                        return Err(ModifierError::DuplicateRule(RuleKind::Min));
                    }
                    min = Some(v);
                },
                Rule::Max(v) => {
                    if max.is_some() {
                        proof {
                            lemma_rules_scan_error_sticks(rules@, i + 1);
                        }
                        return Err(ModifierError::DuplicateRule(RuleKind::Max));
                    }
                    max = Some(v);
                },
                Rule::Default(_) => {},
            }
            i += 1;
        }
        assert(rules@.take(rules.len() as int) =~= rules@);
        let lo: u32 = match min {
            Some(v) => v,
            None => 0,
        };
        match max {
            Some(hi) => {
                if lo > hi {
                    return Err(ModifierError::InvalidConstraints { min_select: lo, max_select: hi });
                }
                Ok(SelectionBounds { min: lo, max: Some(hi) })
            },
            None => Ok(SelectionBounds { min: lo, max: None }),
        }
    }
}

/// Whether any of the rules is a default rule.
pub open spec fn has_default_rule(rules: Seq<Rule>) -> bool {
    exists|i: int| 0 <= i < rules.len() && #[trigger] rules[i] is Default
}

pub(crate) fn any_default_rule(rules: &[Rule]) -> (r: bool)
    ensures
        r == has_default_rule(rules@),
{
    let mut i: usize = 0;
    while i < rules.len()
        invariant
            i <= rules.len(),
            forall|j: int| 0 <= j < i ==> !(#[trigger] rules@[j] is Default),
        decreases rules.len() - i,
    {
        if let Rule::Default(_) = rules[i] {
            return true;
        }
        i += 1;
    }
    false
}

} // verus!
