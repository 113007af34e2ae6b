//! The driver: one whole minimization run as a state machine. It
//! validates the unmodified input against the oracle, then minimizes in
//! up to three passes — lines, characters, bytes for UTF-8 input, bytes
//! alone otherwise — with growing budgets, and re-checks the final result.
//!
//! The caller owns all input and output: it runs the oracle on each
//! requested candidate, reports the verdicts, and writes every returned
//! serialization to the output path at once, so that ending the process
//! at any moment loses no progress.
use vstd::prelude::*;
use vstd::utf8::encode_utf8;

use crate::data_trait::{spec_join_lines, SaveSliceToFile};
use crate::settings::Settings;
use crate::strategy::common::Strategies;
use crate::strategy::engine::{PassAction, PassEngine};
use crate::text::{bytes_to_string, join_lines_to_chars, split_lines};
use crate::Stats;

verus! {

enum Stage {
    Validate,
    ValidateWait,
    Lines(PassEngine<String>),
    Chars(PassEngine<char>),
    Bytes(PassEngine<u8>),
    FinalWait,
    Failed,
    Done { stable: bool },
}

/// An element-for-element copy.
fn copy_bytes(v: &Vec<u8>) -> (r: Vec<u8>)
    ensures
        r@ == v@,
{
    let mut r: Vec<u8> = Vec::new();
    let n = v.len();
    for i in 0..n
        invariant
            n == v@.len(),
            r@ =~= v@.take(i as int),
    {
        r.push(v[i]);
        proof {
            assert(r@ =~= v@.take(i + 1 as int));
        }
    }
    proof {
        assert(v@.take(n as int) =~= v@);
    }
    r
}

/// A whole minimization run, driven from outside exactly like a single
/// pass: `advance` yields the next action, the report methods feed the
/// oracle's verdicts back.
pub struct MinimizationRun {
    attempts: u32,
    reset_attempts: bool,
    max_time: Option<u32>,
    strategy: Strategies,
    threads: usize,
    stats: Stats,
    initial: Vec<u8>,
    result: Vec<u8>,
    stage: Stage,
}

impl MinimizationRun {
    /// A single candidate awaits its verdict.
    pub closed spec fn awaiting_single(&self) -> bool {
        match self.stage {
            Stage::ValidateWait => true,
            Stage::FinalWait => true,
            Stage::Lines(e) => e.awaiting_single(),
            Stage::Chars(e) => e.awaiting_single(),
            Stage::Bytes(e) => e.awaiting_single(),
            _ => false,
        }
    }

    /// A batch of candidates awaits its verdicts.
    pub closed spec fn awaiting_batch(&self) -> bool {
        match self.stage {
            Stage::Lines(e) => e.awaiting_batch(),
            Stage::Chars(e) => e.awaiting_batch(),
            Stage::Bytes(e) => e.awaiting_batch(),
            _ => false,
        }
    }

    /// Some candidate awaits a verdict.
    pub open spec fn awaiting(&self) -> bool {
        self.awaiting_single() || self.awaiting_batch()
    }

    /// How many candidates await their verdicts.
    pub closed spec fn batch_len(&self) -> int {
        match self.stage {
            Stage::Lines(e) => e.batch_len(),
            Stage::Chars(e) => e.batch_len(),
            Stage::Bytes(e) => e.batch_len(),
            _ => 0,
        }
    }

    /// The run has ended, well or badly.
    pub closed spec fn spec_finished(&self) -> bool {
        match self.stage {
            Stage::Failed => true,
            Stage::Done { .. } => true,
            _ => false,
        }
    }

    /// The initial validation rejected the input.
    pub closed spec fn spec_failed(&self) -> bool {
        self.stage is Failed
    }

    /// The run has not yet asked for the initial validation.
    pub closed spec fn spec_unvalidated(&self) -> bool {
        self.stage is Validate
    }

    /// The initial validation is awaiting its verdict.
    pub closed spec fn spec_validating(&self) -> bool {
        self.stage is ValidateWait
    }

    /// A minimization pass is running.
    pub closed spec fn in_pass(&self) -> bool {
        match self.stage {
            Stage::Lines(..) => true,
            Stage::Chars(..) => true,
            Stage::Bytes(..) => true,
            _ => false,
        }
    }

    /// `bytes` is the serialization of the strictly smaller candidate the
    /// running pass proposed, cut from its committed sequence by a valid
    /// rule.
    pub closed spec fn pass_candidate_ok(&self, bytes: Seq<u8>) -> bool {
        match self.stage {
            Stage::Lines(e) => {
                &&& e.awaiting_single()
                &&& bytes == <String as SaveSliceToFile>::spec_serialize(e.candidate_view())
                &&& PassEngine::<String>::candidate_from(e.data_view(), e.candidate_view())
            },
            Stage::Chars(e) => {
                &&& e.awaiting_single()
                &&& bytes == <char as SaveSliceToFile>::spec_serialize(e.candidate_view())
                &&& PassEngine::<char>::candidate_from(e.data_view(), e.candidate_view())
            },
            Stage::Bytes(e) => {
                &&& e.awaiting_single()
                &&& bytes == <u8 as SaveSliceToFile>::spec_serialize(e.candidate_view())
                &&& PassEngine::<u8>::candidate_from(e.data_view(), e.candidate_view())
            },
            _ => false,
        }
    }

    /// The final re-check is awaiting its verdict.
    pub closed spec fn spec_final_check(&self) -> bool {
        self.stage is FinalWait
    }

    /// Whether the final re-check still saw the broken behaviour.
    pub closed spec fn spec_stable(&self) -> bool {
        match self.stage {
            Stage::Done { stable } => stable,
            _ => true,
        }
    }

    /// Attempts made so far, over the whole run.
    pub closed spec fn spec_iterations(&self) -> int {
        self.stats.all_iterations as int
    }

    /// The bytes that the best sequence found so far serializes to: what
    /// the output path must hold.
    pub closed spec fn current_serialized(&self) -> Seq<u8> {
        match self.stage {
            Stage::Validate => self.initial@,
            Stage::ValidateWait => self.initial@,
            Stage::Lines(e) => <String as SaveSliceToFile>::spec_serialize(e.data_view()),
            Stage::Chars(e) => <char as SaveSliceToFile>::spec_serialize(e.data_view()),
            Stage::Bytes(e) => <u8 as SaveSliceToFile>::spec_serialize(e.data_view()),
            Stage::FinalWait => self.result@,
            Stage::Failed => self.initial@,
            Stage::Done { .. } => self.result@,
        }
    }

    spec fn stage_wf(&self) -> bool {
        match self.stage {
            Stage::Validate => self.stats.current_iteration_count == 0,
            Stage::ValidateWait => self.stats.current_iteration_count == 0,
            Stage::Lines(e) => {
                &&& e.wf()
                &&& self.stats.max_attempts == self.attempts / 3
                &&& (e.awaiting_single() ==> self.stats.spec_available() >= 1)
                &&& (e.awaiting_batch() ==> self.stats.spec_available() >= e.batch_len())
            },
            Stage::Chars(e) => {
                &&& e.wf()
                &&& self.stats.max_attempts == (self.attempts * 2) / 3
                &&& (e.awaiting_single() ==> self.stats.spec_available() >= 1)
                &&& (e.awaiting_batch() ==> self.stats.spec_available() >= e.batch_len())
            },
            Stage::Bytes(e) => {
                &&& e.wf()
                &&& self.stats.max_attempts == self.attempts
                &&& (e.awaiting_single() ==> self.stats.spec_available() >= 1)
                &&& (e.awaiting_batch() ==> self.stats.spec_available() >= e.batch_len())
            },
            _ => true,
        }
    }

    /// The run's internal consistency, established by `new` and kept by
    /// every method.
    pub closed spec fn wf(&self) -> bool {
        &&& self.stats.current_iteration_count <= self.stats.max_attempts
        &&& 1 <= self.threads <= usize::MAX / 2
        &&& self.stage_wf()
    }

    spec fn sub_rank(&self) -> int {
        match self.stage {
            Stage::Lines(e) => if e.spec_finished() {
                0int
            } else {
                1int
            },
            Stage::Chars(e) => if e.spec_finished() {
                0int
            } else {
                1int
            },
            Stage::Bytes(e) => if e.spec_finished() {
                0int
            } else {
                1int
            },
            _ => 0,
        }
    }

    spec fn rank(&self) -> int {
        match self.stage {
            Stage::Validate => 0,
            Stage::ValidateWait => 0,
            Stage::Lines(..) => 1,
            Stage::Chars(..) => 2,
            Stage::Bytes(..) => 3,
            Stage::FinalWait => 4,
            Stage::Failed => 5,
            Stage::Done { .. } => 5,
        }
    }

    /// A fresh run over `initial_content`, configured by `settings`;
    /// `threads` is the host parallelism granted to the concurrent
    /// strategy.
    pub fn new(settings: &Settings, initial_content: Vec<u8>, threads: usize) -> (r:
        MinimizationRun)
        requires
            1 <= threads <= usize::MAX / 2,
        ensures
            r.wf(),
            !r.awaiting(),
            !r.spec_finished(),
            r.current_serialized() == initial_content@,
            r.spec_iterations() == 0,
    {
        MinimizationRun {
            attempts: settings.attempts,
            reset_attempts: settings.reset_attempts,
            max_time: settings.max_time,
            strategy: settings.strategy,
            threads,
            stats: Stats::new(),
            initial: initial_content,
            result: Vec::new(),
            stage: Stage::Validate,
        }
    }

    pub fn is_awaiting(&self) -> (r: bool)
        ensures
            r == self.awaiting(),
    {
        match &self.stage {
            Stage::ValidateWait => true,
            Stage::FinalWait => true,
            Stage::Lines(e) => e.is_awaiting(),
            Stage::Chars(e) => e.is_awaiting(),
            Stage::Bytes(e) => e.is_awaiting(),
            _ => false,
        }
    }

    pub fn is_awaiting_batch(&self) -> (r: bool)
        ensures
            r == self.awaiting_batch(),
    {
        match &self.stage {
            Stage::Lines(e) => e.is_awaiting_batch(),
            Stage::Chars(e) => e.is_awaiting_batch(),
            Stage::Bytes(e) => e.is_awaiting_batch(),
            _ => false,
        }
    }

    /// The number of candidates of the awaiting batch.
    pub fn batch_size(&self) -> (r: usize)
        requires
            self.wf(),
        ensures
            r == self.batch_len(),
    {
        match &self.stage {
            Stage::Lines(e) => e.batch_size(),
            Stage::Chars(e) => e.batch_size(),
            Stage::Bytes(e) => e.batch_size(),
            _ => 0,
        }
    }

    pub fn is_finished(&self) -> (r: bool)
        ensures
            r == self.spec_finished(),
    {
        match &self.stage {
            Stage::Failed => true,
            Stage::Done { .. } => true,
            _ => false,
        }
    }

    pub fn is_failed(&self) -> (r: bool)
        ensures
            r == self.spec_failed(),
    {
        match &self.stage {
            Stage::Failed => true,
            _ => false,
        }
    }

    /// Whether the final oracle re-check still saw the broken behaviour;
    /// when it did not, the oracle output is unstable and the caller may
    /// print a diagnostic.
    pub fn is_stable(&self) -> (r: bool)
        requires
            self.spec_finished(),
            !self.spec_failed(),
        ensures
            r == self.spec_stable(),
    {
        match &self.stage {
            Stage::Done { stable } => *stable,
            _ => true,
        }
    }

    /// Attempts made so far, over the whole run.
    pub fn iterations(&self) -> (r: u32)
        ensures
            r == self.spec_iterations(),
    {
        self.stats.all_iterations
    }

    /// The best found bytes, once the run is over.
    pub fn result(&self) -> (r: &Vec<u8>)
        requires
            self.spec_finished(),
            !self.spec_failed(),
        ensures
            r@ == self.current_serialized(),
    {
        &self.result
    }

    /// The next thing to do: evaluate a candidate or a batch, or nothing.
    /// Advancing never changes what the output path must hold.
    pub fn advance(&mut self, elapsed_secs: u64) -> (a: PassAction)
        requires
            old(self).wf(),
            !old(self).awaiting(),
        ensures
            final(self).wf(),
            final(self).current_serialized() == old(self).current_serialized(),
            match a {
                PassAction::Evaluate { candidate } => {
                    &&& final(self).awaiting_single()
                    &&& !final(self).spec_finished()
                    &&& candidate@.len() <= old(self).current_serialized().len()
                    &&& (final(self).spec_validating()
                        ==> candidate@ == old(self).current_serialized())
                    &&& (final(self).spec_final_check()
                        ==> candidate@ == final(self).current_serialized())
                    &&& (final(self).in_pass() ==> final(self).pass_candidate_ok(candidate@))
                    &&& (final(self).spec_validating() || final(self).spec_final_check()
                        || final(self).in_pass())
                },
                PassAction::EvaluateBatch { candidates } => {
                    &&& final(self).awaiting_batch()
                    &&& candidates@.len() == final(self).batch_len() >= 1
                    &&& !final(self).spec_finished()
                    &&& final(self).in_pass()
                    &&& forall|i: int|
                        0 <= i < candidates@.len() ==> (#[trigger] candidates@[i])@.len()
                            <= old(self).current_serialized().len()
                },
                PassAction::Finished => final(self).spec_finished() && !final(self).awaiting(),
            },
            a is Finished ==> old(self).spec_finished(),
            old(self).spec_unvalidated() ==> final(self).spec_validating(),
    {
        loop
            invariant
                self.wf(),
                !self.awaiting(),
                self.current_serialized() == old(self).current_serialized(),
                self.attempts == old(self).attempts,
                self.spec_finished() ==> old(self).spec_finished(),
                old(self).spec_unvalidated() ==> self.spec_unvalidated(),
            decreases 6 - self.rank(), self.sub_rank(),
        {
            match &mut self.stage {
                Stage::Validate => {
                    let candidate = copy_bytes(&self.initial);
                    self.stage = Stage::ValidateWait;
                    return PassAction::Evaluate { candidate };
                },
                Stage::ValidateWait => {
                    proof {
                        assert(false);
                    }
                    return PassAction::Finished;
                },
                Stage::Lines(e) => {
                    if e.is_finished() {
                        let lines = e.take_data();
                        let chars = join_lines_to_chars(&lines);
                        proof {
                            assert(chars.deep_view() =~= chars@);
                            assert(encode_utf8(chars@) == <String as SaveSliceToFile>::spec_serialize(
                                lines.deep_view(),
                            ));
                            assert(<char as SaveSliceToFile>::spec_serialize(chars.deep_view())
                                == <String as SaveSliceToFile>::spec_serialize(lines.deep_view()));
                        }
                        self.stats.max_attempts = ((self.attempts as u64) * 2 / 3) as u32;
                        let engine = PassEngine::new(self.strategy, chars, self.threads);
                        self.stage = Stage::Chars(engine);
                    } else {
                        let a = e.advance(&self.stats, self.max_time, elapsed_secs);
                        match a {
                            PassAction::Finished => {},
                            PassAction::Evaluate { candidate } => {
                                return PassAction::Evaluate { candidate };
                            },
                            PassAction::EvaluateBatch { candidates } => {
                                return PassAction::EvaluateBatch { candidates };
                            },
                        }
                    }
                },
                Stage::Chars(e) => {
                    if e.is_finished() {
                        let chars = e.take_data();
                        let bytes = <char as SaveSliceToFile>::serialize_slice(&chars);
                        proof {
                            assert(bytes.deep_view() =~= bytes@);
                            assert(<u8 as SaveSliceToFile>::spec_serialize(bytes.deep_view())
                                == <char as SaveSliceToFile>::spec_serialize(chars.deep_view()));
                        }
                        self.stats.max_attempts = self.attempts;
                        let engine = PassEngine::new(self.strategy, bytes, self.threads);
                        self.stage = Stage::Bytes(engine);
                    } else {
                        let a = e.advance(&self.stats, self.max_time, elapsed_secs);
                        match a {
                            PassAction::Finished => {},
                            PassAction::Evaluate { candidate } => {
                                return PassAction::Evaluate { candidate };
                            },
                            PassAction::EvaluateBatch { candidates } => {
                                return PassAction::EvaluateBatch { candidates };
                            },
                        }
                    }
                },
                Stage::Bytes(e) => {
                    if e.is_finished() {
                        let bytes = e.take_data();
                        proof {
                            assert(bytes.deep_view() =~= bytes@);
                        }
                        self.result = bytes;
                        let candidate = copy_bytes(&self.result);
                        self.stage = Stage::FinalWait;
                        return PassAction::Evaluate { candidate };
                    } else {
                        let a = e.advance(&self.stats, self.max_time, elapsed_secs);
                        match a {
                            PassAction::Finished => {},
                            PassAction::Evaluate { candidate } => {
                                return PassAction::Evaluate { candidate };
                            },
                            PassAction::EvaluateBatch { candidates } => {
                                return PassAction::EvaluateBatch { candidates };
                            },
                        }
                    }
                },
                Stage::FinalWait => {
                    proof {
                        assert(false);
                    }
                    return PassAction::Finished;
                },
                Stage::Failed => {
                    return PassAction::Finished;
                },
                Stage::Done { .. } => {
                    return PassAction::Finished;
                },
            }
        }
    }

    /// Takes the oracle's verdict for the awaiting candidate. During a
    /// pass, an accepted candidate is committed and its serialization —
    /// exactly what the output path must now hold — is returned; a
    /// rejected one leaves everything as it was. During validation, a
    /// rejection ends the run as failed; the final re-check only records
    /// whether the result is stable.
    pub fn report_verdict(&mut self, is_broken: bool) -> (persist: Option<Vec<u8>>)
        requires
            old(self).wf(),
            old(self).awaiting_single(),
            old(self).spec_iterations() < u32::MAX,
        ensures
            final(self).wf(),
            !final(self).awaiting(),
            persist matches Some(bytes) ==> bytes@ == final(self).current_serialized(),
            persist is None ==> final(self).current_serialized() == old(
                self,
            ).current_serialized(),
            final(self).current_serialized().len() <= old(self).current_serialized().len(),
            old(self).spec_validating() && !is_broken ==> final(self).spec_failed(),
            old(self).spec_validating() && is_broken ==> !final(self).spec_finished(),
            old(self).spec_final_check() ==> final(self).spec_finished()
                && !final(self).spec_failed() && final(self).spec_stable() == is_broken,
            old(self).in_pass() ==> {
                &&& final(self).in_pass()
                &&& final(self).spec_iterations() == old(self).spec_iterations() + 1
                &&& (is_broken <==> persist is Some)
            },
            (old(self).spec_validating() || old(self).spec_final_check()) ==> persist is None
                && final(self).spec_iterations() == old(self).spec_iterations(),
    {
        match &mut self.stage {
            Stage::ValidateWait => {
                if is_broken {
                    match bytes_to_string(&self.initial) {
                        Some(text) => {
                            let lines = split_lines(text.as_str());
                            proof {
                                vstd::utf8::decode_utf8_encode_utf8(self.initial@);
                                assert(encode_utf8(spec_join_lines(lines.deep_view()))
                                    == self.initial@);
                            }
                            self.stats.max_attempts = self.attempts / 3;
                            let engine = PassEngine::new(self.strategy, lines, self.threads);
                            self.stage = Stage::Lines(engine);
                        },
                        None => {
                            self.stats.max_attempts = self.attempts;
                            let bytes = copy_bytes(&self.initial);
                            let engine = PassEngine::new(self.strategy, bytes, self.threads);
                            self.stage = Stage::Bytes(engine);
                        },
                    }
                } else {
                    self.stage = Stage::Failed;
                }
                None
            },
            Stage::FinalWait => {
                self.stage = Stage::Done { stable: is_broken };
                None
            },
            Stage::Lines(e) => e.report_verdict(is_broken, &mut self.stats, self.reset_attempts),
            Stage::Chars(e) => e.report_verdict(is_broken, &mut self.stats, self.reset_attempts),
            Stage::Bytes(e) => e.report_verdict(is_broken, &mut self.stats, self.reset_attempts),
            _ => {
                proof {
                    assert(false);
                }
                None
            },
        }
    }

    /// Takes the oracle's verdicts for an awaiting batch; see the pass
    /// engine for the commitment discipline.
    pub fn report_batch_verdicts(&mut self, verdicts: &Vec<bool>) -> (persist: Option<Vec<u8>>)
        requires
            old(self).wf(),
            old(self).awaiting_batch(),
            verdicts@.len() <= old(self).batch_len(),
            old(self).spec_iterations() + verdicts@.len() <= u32::MAX,
        ensures
            final(self).wf(),
            !final(self).awaiting(),
            persist matches Some(bytes) ==> bytes@ == final(self).current_serialized(),
            persist is None ==> final(self).current_serialized() == old(
                self,
            ).current_serialized(),
            final(self).current_serialized().len() <= old(self).current_serialized().len(),
            final(self).in_pass(),
            final(self).spec_iterations() == old(self).spec_iterations() + verdicts@.len(),
            (exists|i: int| 0 <= i < verdicts@.len() && verdicts@[i]) <==> persist is Some,
    {
        match &mut self.stage {
            Stage::Lines(e) => e.report_batch_verdicts(
                verdicts,
                &mut self.stats,
                self.reset_attempts,
            ),
            Stage::Chars(e) => e.report_batch_verdicts(
                verdicts,
                &mut self.stats,
                self.reset_attempts,
            ),
            Stage::Bytes(e) => e.report_batch_verdicts(
                verdicts,
                &mut self.stats,
                self.reset_attempts,
            ),
            _ => {
                proof {
                    assert(false);
                }
                None
            },
        }
    }
}

} // verus!
