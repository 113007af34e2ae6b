//! The general strategy: trim from the start and the end first, then draw
//! random rules from the mixture, and finish with the small-length
//! endgame.
use vstd::prelude::*;

use crate::rules::{mixture_rule, rule_valid, Rule};
use crate::strategy::common::{weighted_random_rule, Strategies};

verus! {

/// The default strategy, fit for most inputs.
pub struct GeneralStrategy {}

impl GeneralStrategy {
    pub fn new() -> (s: GeneralStrategy) {
        GeneralStrategy {  }
    }

    /// Which strategy this is, for dispatch.
    pub fn kind(&self) -> (s: Strategies)
        ensures
            s == Strategies::General,
    {
        Strategies::General
    }
}

/// One random rule from the weighted mixture.
pub fn get_random_rule(content_size: usize) -> (r: Rule)
    requires
        content_size >= 5,
    ensures
        rule_valid(r@, content_size as nat),
        mixture_rule(r@, content_size as int),
{
    weighted_random_rule(content_size)
}

} // verus!
