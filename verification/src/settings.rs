//! The run configuration, handed in by the caller, and the per-process
//! temporary path the oracle writes candidates to.
use vstd::prelude::*;
use vstd::string::StringExecFns;

use crate::strategy::common::Strategies;
use crate::text::{push_decimal, spec_decimal};

verus! {

/// Everything a run is configured with. The command strings are used as
/// given; quote substitution and placeholder handling happen when the
/// oracle command is built.
pub struct Settings {
    /// The file to minimize.
    pub input_file: String,
    /// Where the best candidate found so far is kept.
    pub output_file: String,
    /// The per-run attempt budget.
    pub attempts: u32,
    /// Reset the per-pass counter on every accepted improvement.
    pub reset_attempts: bool,
    /// The oracle command; the file symbol is replaced per invocation.
    pub command: String,
    /// The placeholder replaced by the candidate path.
    pub file_symbol: String,
    /// Substitute the bare path instead of a double-quoted one.
    pub disable_file_name_escaping: bool,
    /// Any of these in the oracle output marks a candidate interesting.
    pub broken_info: Vec<String>,
    /// Any of these in the oracle output overrides to not interesting.
    pub ignored_info: Option<Vec<String>>,
    /// Print only errors.
    pub quiet: bool,
    /// Print more information.
    pub verbose: bool,
    /// Print the oracle output after each run.
    pub print_command_output: bool,
    /// Wall-clock limit in seconds, if any.
    pub max_time: Option<u32>,
    /// A second command joined to the first with `;`, if any.
    pub additional_command: Option<String>,
    /// Which search strategy drives a pass.
    pub strategy: Strategies,
}

impl Settings {
    pub fn is_normal_message_visible(&self) -> (r: bool)
        ensures
            r == !self.quiet,
    {
        !self.quiet
    }

    pub fn is_verbose_message_visible(&self) -> (r: bool)
        ensures
            r == (!self.quiet && self.verbose),
    {
        !self.quiet && self.verbose
    }
}

/// The temporary path candidates are serialized to, one per process (or
/// per worker, when workers pass their own identifier).
pub fn get_temp_file(process_id: u32) -> (r: String)
    ensures
        r@ == "/tmp/minimizer_"@ + spec_decimal(process_id as nat),
{
    let mut s = String::new();
    s.append("/tmp/minimizer_");
    push_decimal(process_id, &mut s);
    proof {
        assert(s@ =~= "/tmp/minimizer_"@ + spec_decimal(process_id as nat));
    }
    s
}

} // verus!
