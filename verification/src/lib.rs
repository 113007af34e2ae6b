//! A file minimizer engine: given a sequence of elements (bytes, characters
//! or text lines) and an external oracle that classifies a candidate as
//! still "broken" or not, the engine searches for a smallest sequence that
//! keeps the broken behaviour.
//!
//! The engine itself is pure: every interaction with the outside world
//! (running the oracle command, writing files, reading the clock) is driven
//! by the caller, who performs the requested action and reports the result
//! back to the engine.
use vstd::prelude::*;

verus! {

/// Iteration accounting for a whole run and for the current pass.
///
/// `available` spells out the remaining budget of the current pass:
/// `max_attempts - current_iteration_count`.
pub struct Stats {
    /// Attempts made over the whole run; never reset.
    pub all_iterations: u32,
    /// Attempts made in the current pass; reset at pass boundaries and,
    /// optionally, on every accepted improvement.
    pub current_iteration_count: u32,
    /// Budget of the current pass.
    pub max_attempts: u32,
}

impl Stats {
    /// Remaining budget of the current pass.
    pub open spec fn spec_available(&self) -> int {
        self.max_attempts - self.current_iteration_count
    }

    pub fn new() -> (s: Stats)
        ensures
            s.all_iterations == 0,
            s.current_iteration_count == 0,
            s.max_attempts == 0,
    {
        Stats { all_iterations: 0, current_iteration_count: 0, max_attempts: 0 }
    }

    pub fn available(&self) -> (r: u32)
        requires
            self.current_iteration_count <= self.max_attempts,
        ensures
            r == self.spec_available(),
    {
        self.max_attempts - self.current_iteration_count
    }

    pub fn increase(&mut self, how_much: u32)
        requires
            old(self).all_iterations + how_much <= u32::MAX,
            old(self).current_iteration_count + how_much <= u32::MAX,
        ensures
            final(self).all_iterations == old(self).all_iterations + how_much,
            final(self).current_iteration_count == old(self).current_iteration_count + how_much,
            final(self).max_attempts == old(self).max_attempts,
    {
        self.all_iterations = self.all_iterations + how_much;
        self.current_iteration_count = self.current_iteration_count + how_much;
    }

    pub fn reset(&mut self)
        ensures
            final(self).all_iterations == old(self).all_iterations,
            final(self).current_iteration_count == 0,
            final(self).max_attempts == old(self).max_attempts,
    {
        self.current_iteration_count = 0;
    }
}

} // verus!

mod encoding;
pub mod data_trait;
pub mod rules;
mod random;
pub mod text;
pub mod settings;
pub mod strategy;
pub mod common;
pub mod driver;
