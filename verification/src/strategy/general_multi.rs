//! The concurrent strategy: the same search as the general one, but each
//! batch of candidates is evaluated in parallel against one snapshot, and
//! the smallest accepted candidate of the batch is committed.
use vstd::prelude::*;

use crate::rules::{mixture_rule, rule_valid, Rule};
use crate::strategy::common::{weighted_random_rule, Strategies};

verus! {

/// The batch-parallel strategy.
pub struct GeneralMultiStrategy {}

impl GeneralMultiStrategy {
    pub fn new() -> (s: GeneralMultiStrategy) {
        GeneralMultiStrategy {  }
    }

    /// Which strategy this is, for dispatch.
    pub fn kind(&self) -> (s: Strategies)
        ensures
            s == Strategies::GeneralMulti,
    {
        Strategies::GeneralMulti
    }
}

/// One random rule from the weighted mixture.
pub fn get_random_rule(content_size: usize) -> (r: Rule)
    requires
        content_size >= 5,
    ensures
        rule_valid(r@, content_size as nat),
        mixture_rule(r@, content_size as int),
{
    weighted_random_rule(content_size)
}

} // verus!
