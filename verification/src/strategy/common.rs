//! What all strategies share: the stop conditions of a pass and the
//! bookkeeping around one executed rule.
use vstd::prelude::*;

use crate::rules::{is_end_cut, is_start_cut, mixture_rule, rule_valid, spec_wsum, Rule, RuleType};
use crate::Stats;

verus! {

/// The interchangeable search strategies.
#[derive(Debug, Clone, Copy, Ord, PartialOrd, Eq, PartialEq, Structural)]
pub enum Strategies {
    General,
    Pedantic,
    GeneralMulti,
}

/// Whether a pass goes on or stops.
#[derive(Debug, Clone, Copy, Ord, PartialOrd, Eq, PartialEq, Structural)]
pub enum ProcessStatus {
    Continue,
    Stop,
}

/// The wall-clock limit has been reached.
pub open spec fn spec_time_exceeded(max_time: Option<u32>, elapsed_secs: u64) -> bool {
    max_time matches Some(t) && elapsed_secs >= t
}

/// A stop condition of a pass: time is up, the budget is used up, or — for
/// the length-sensitive checks — the sequence is down to four elements.
pub open spec fn spec_stop(
    stats: Stats,
    max_time: Option<u32>,
    elapsed_secs: u64,
    length: nat,
    check_length: bool,
) -> bool {
    ||| spec_time_exceeded(max_time, elapsed_secs)
    ||| stats.spec_available() == 0
    ||| (check_length && length <= 4)
}

pub fn check_if_exceeded_time(max_time: Option<u32>, elapsed_secs: u64) -> (r: ProcessStatus)
    ensures
        r == ProcessStatus::Stop <==> spec_time_exceeded(max_time, elapsed_secs),
{
    match max_time {
        Some(t) => {
            if elapsed_secs >= t as u64 {
                ProcessStatus::Stop
            } else {
                ProcessStatus::Continue
            }
        },
        None => ProcessStatus::Continue,
    }
}

pub fn check_if_exceeded_iterations(stats: &Stats) -> (r: ProcessStatus)
    requires
        stats.current_iteration_count <= stats.max_attempts,
    ensures
        r == ProcessStatus::Stop <==> stats.spec_available() == 0,
{
    if stats.available() == 0 {
        ProcessStatus::Stop
    } else {
        ProcessStatus::Continue
    }
}

/// Checked before every attempt; any condition firing ends the pass.
pub fn check_if_stopping_minimization(
    stats: &Stats,
    max_time: Option<u32>,
    elapsed_secs: u64,
    length: usize,
    check_length: bool,
) -> (r: ProcessStatus)
    requires
        stats.current_iteration_count <= stats.max_attempts,
    ensures
        r == ProcessStatus::Stop <==> spec_stop(
            *stats,
            max_time,
            elapsed_secs,
            length as nat,
            check_length,
        ),
{
    if check_if_exceeded_time(max_time, elapsed_secs) == ProcessStatus::Stop {
        return ProcessStatus::Stop;
    }
    if check_if_exceeded_iterations(stats) == ProcessStatus::Stop {
        return ProcessStatus::Stop;
    }
    if check_length && length <= 4 {
        return ProcessStatus::Stop;
    }
    ProcessStatus::Continue
}

/// Accounts for `iterations` executed rules; on an accepted change the
/// per-pass counter is optionally reset so budget is re-earned.
pub fn extend_results(
    changed: bool,
    iterations: u32,
    old_len: usize,
    new_len: usize,
    stats: &mut Stats,
    reset_attempts: bool,
)
    requires
        changed ==> old_len != new_len,
        old(stats).all_iterations + iterations <= u32::MAX,
        old(stats).current_iteration_count + iterations <= u32::MAX,
    ensures
        final(stats).all_iterations == old(stats).all_iterations + iterations,
        final(stats).max_attempts == old(stats).max_attempts,
        final(stats).current_iteration_count == if changed && reset_attempts {
            0u32
        } else {
            (old(stats).current_iteration_count + iterations) as u32
        },
{
    stats.increase(iterations);
    if changed && reset_attempts {
        stats.reset();
    }
}

/// The weighted mixture all strategies draw random rules from: prefix
/// trims rarely, suffix trims more often, contiguous middle cuts most
/// often, sparse removals in between.
pub(crate) fn weighted_random_rule(content_size: usize) -> (r: Rule)
    requires
        content_size >= 5,
    ensures
        rule_valid(r@, content_size as nat),
        mixture_rule(r@, content_size as int),
{
    let mut weights: Vec<(RuleType, usize)> = Vec::new();
    weights.push((RuleType::RemoveFromStart, 2));
    weights.push((RuleType::RemoveFromEnd, 10));
    weights.push((RuleType::RemoveContinuousFromMiddle, 30));
    weights.push((RuleType::RemoveRandom, 10));
    proof {
        assert(weights@.len() == 4);
        assert(weights@[1].1 == 10);
        assert(spec_wsum(weights@, 4) == 52) by {
            reveal_with_fuel(spec_wsum, 5);
        }
    }
    let chosen = RuleType::get_random_type(weights.as_slice());
    match chosen {
        RuleType::RemoveFromStart => {
            let rules = Rule::create_start_end_rule(content_size, 1, true);
            let r = rules[0].duplicate();
            proof {
                assert(is_start_cut(rules@[0]@, content_size as int));
            }
            r
        },
        RuleType::RemoveFromEnd => {
            let rules = Rule::create_start_end_rule(content_size, 1, false);
            let r = rules[0].duplicate();
            proof {
                assert(is_end_cut(rules@[0]@, content_size as int));
            }
            r
        },
        RuleType::RemoveContinuousFromMiddle => Rule::create_continuous_rule(content_size),
        RuleType::RemoveRandom => Rule::create_random_rule(content_size, None),
    }
}

} // verus!
