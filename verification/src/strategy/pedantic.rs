//! The pedantic strategy: like the general one, but once the sequence has
//! shrunk below a threshold and budget remains, every single index is
//! tried once, last index first.
use vstd::prelude::*;

use crate::rules::{idx1, mixture_rule, rule_valid, Rule, RuleModel};
use crate::strategy::common::{weighted_random_rule, Strategies};

verus! {

/// The threshold below which the one-by-one sweep runs.
pub struct PedanticStrategy {}

impl PedanticStrategy {
    pub fn new() -> (s: PedanticStrategy) {
        PedanticStrategy {  }
    }

    /// Which strategy this is, for dispatch.
    pub fn kind(&self) -> (s: Strategies)
        ensures
            s == Strategies::Pedantic,
    {
        Strategies::Pedantic
    }
}

/// The rules of the one-by-one sweep: each single index once, in
/// descending order, so that earlier removals never invalidate later
/// indices.
pub fn minimize_smaller_than(content_size: usize) -> (rules: Vec<Rule>)
    ensures
        rules@.len() == content_size,
        forall|i: int|
            0 <= i < content_size ==> (#[trigger] rules@[i]@) == (RuleModel::Sparse {
                idxs: seq![(content_size - 1 - i) as usize],
            }),
{
    let mut rules: Vec<Rule> = Vec::new();
    for t in 0..content_size
        invariant
            rules@.len() == t,
            forall|i: int|
                0 <= i < t ==> (#[trigger] rules@[i]@) == (RuleModel::Sparse {
                    idxs: seq![(content_size - 1 - i) as usize],
                }),
    {
        rules.push(Rule::RemoveRandom { indexes_to_remove: idx1(content_size - 1 - t) });
    }
    rules
}

/// One random rule from the weighted mixture.
pub fn get_random_rule(content_size: usize) -> (r: Rule)
    requires
        content_size >= 5,
    ensures
        rule_valid(r@, content_size as nat),
        mixture_rule(r@, content_size as int),
{
    weighted_random_rule(content_size)
}

} // verus!
