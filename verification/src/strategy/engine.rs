//! The pass engine: one granularity of minimization as an explicit state
//! machine. The engine proposes candidates; the caller runs the oracle on
//! them and reports each verdict; the engine commits or reverts and keeps
//! the accounting.
//!
//! The frame is the same for every strategy: a start-trim sweep, an
//! end-trim sweep, then the random main loop, and — once two to four
//! elements are left — the exhaustive endgame. The pedantic strategy adds
//! a one-by-one sweep; the concurrent strategy evaluates whole batches
//! against one snapshot.
use vstd::prelude::*;

use crate::data_trait::SaveSliceToFile;
use crate::rules::{
    apply_rule, keep_upto, lemma_apply_rule_len, lemma_short_list_misses_index, rule_valid,
    spec_combination_models, Rule, RuleModel,
};
use crate::strategy::common::{
    check_if_stopping_minimization, extend_results, spec_stop, spec_time_exceeded, ProcessStatus,
    Strategies,
};
use crate::strategy::{general, general_multi, pedantic};
use crate::Stats;

verus! {

/// What the caller must do next for the pass to go on.
pub enum PassAction {
    /// Run the oracle on these serialized candidate bytes and report the
    /// verdict back.
    Evaluate { candidate: Vec<u8> },
    /// Run the oracle on every candidate of this batch — each against its
    /// own temporary path — and report all verdicts back.
    EvaluateBatch { candidates: Vec<Vec<u8>> },
    /// The pass is over.
    Finished,
}

#[derive(Copy, Clone, PartialEq, Eq, Structural)]
enum Phase {
    SweepStart,
    SweepEnd,
    MainLoop,
    OneByOne,
    Endgame,
    Done,
}

/// Removing one in-range index shortens a sequence by exactly one.
proof fn lemma_keep_upto_singleton<A>(s: Seq<A>, x: usize, i: int)
    requires
        0 <= i <= s.len(),
        i <= usize::MAX,
    ensures
        keep_upto(s, seq![x], i).len() == i - (if 0 <= (x as int) < i {
            1int
        } else {
            0int
        }),
    decreases i,
{
    let single: Seq<usize> = seq![x];
    if i > 0 {
        lemma_keep_upto_singleton(s, x, i - 1);
        assert(single[0] == x);
        if x as int == i - 1 {
            assert(single.contains((i - 1) as usize));
            assert(keep_upto(s, single, i).len() == keep_upto(s, single, i - 1).len());
        } else {
            assert(!single.contains((i - 1) as usize)) by {
                assert forall|k: int| 0 <= k < single.len() implies single[k] != (i - 1) as usize by {
                    assert(single[k] == x);
                }
            }
            assert(keep_upto(s, single, i).len() == keep_upto(s, single, i - 1).len() + 1);
        }
    }
}

/// Removing one index of a sequence of two or more is a valid rule.
proof fn lemma_singleton_rule_valid(x: usize, len: nat)
    requires
        x < len,
        2 <= len,
        len <= usize::MAX,
    ensures
        rule_valid(RuleModel::Sparse { idxs: seq![x] }, len),
{
    let idxs: Seq<usize> = seq![x];
    lemma_short_list_misses_index(idxs, len);
    assert(exists|k: int| 0 <= k < idxs.len() && #[trigger] idxs[k] < len) by {
        assert(idxs[0] < len);
    }
}

/// One pass of minimization over elements of kind `T`, driven from outside:
/// `advance` yields the next action, `report_verdict` and
/// `report_batch_verdicts` feed the oracle's answers back.
pub struct PassEngine<T: SaveSliceToFile> {
    strategy: Strategies,
    threads: usize,
    data: Vec<T>,
    phase: Phase,
    pending: Vec<Rule>,
    next_rule: usize,
    one_by_one_done: bool,
    candidate: Option<Vec<T>>,
    candidate_rule: Ghost<RuleModel>,
    batch: Vec<Vec<T>>,
    batch_rules: Ghost<Seq<RuleModel>>,
}

impl<T: SaveSliceToFile> PassEngine<T> {
    /// The committed sequence, as element views.
    pub closed spec fn data_view(&self) -> Seq<T::V> {
        self.data.deep_view()
    }

    /// A single candidate awaits its verdict.
    pub closed spec fn awaiting_single(&self) -> bool {
        self.candidate is Some
    }

    /// A batch of candidates awaits its verdicts.
    pub closed spec fn awaiting_batch(&self) -> bool {
        self.batch@.len() > 0
    }

    /// Some candidate awaits a verdict.
    pub open spec fn awaiting(&self) -> bool {
        self.awaiting_single() || self.awaiting_batch()
    }

    /// The pass has ended.
    pub closed spec fn spec_finished(&self) -> bool {
        self.phase is Done
    }

    /// The candidate awaiting its verdict.
    pub closed spec fn candidate_view(&self) -> Seq<T::V> {
        match self.candidate {
            Some(c) => c.deep_view(),
            None => Seq::empty(),
        }
    }

    /// How many candidates await their verdicts.
    pub closed spec fn batch_len(&self) -> int {
        self.batch@.len() as int
    }

    /// One candidate of the awaiting batch.
    pub closed spec fn batch_view(&self, i: int) -> Seq<T::V> {
        self.batch@[i].deep_view()
    }

    /// `c` is a proper candidate cut from the sequence `from`: some valid
    /// rule produces it, so it is non-empty and strictly smaller.
    pub open spec fn candidate_from(from: Seq<T::V>, c: Seq<T::V>) -> bool {
        &&& 1 <= c.len() < from.len()
        &&& exists|m: RuleModel| rule_valid(m, from.len()) && c == apply_rule(m, from)
    }

    /// The rules still queued in the current ordered phase, front first.
    pub closed spec fn queued_rules(&self) -> Seq<RuleModel> {
        if self.next_rule <= self.pending@.len() {
            Seq::new(
                (self.pending@.len() - self.next_rule) as nat,
                |i: int| self.pending@[self.next_rule + i]@,
            )
        } else {
            Seq::empty()
        }
    }

    /// A start-trim or end-trim sweep is running.
    pub closed spec fn in_trim_sweep(&self) -> bool {
        self.phase is SweepStart || self.phase is SweepEnd
    }

    /// The endgame is running.
    pub closed spec fn in_endgame(&self) -> bool {
        self.phase is Endgame
    }

    /// The rule the awaiting candidate was produced by.
    pub closed spec fn candidate_rule_model(&self) -> RuleModel {
        self.candidate_rule@
    }

    /// The rules the awaiting batch was produced by, in order.
    pub closed spec fn batch_rule_models(&self) -> Seq<RuleModel> {
        self.batch_rules@
    }

    spec fn pending_wf(&self) -> bool {
        &&& self.next_rule <= self.pending@.len()
        &&& ((self.phase is SweepStart || self.phase is SweepEnd || self.phase is Endgame)
            ==> forall|i: int|
                self.next_rule <= i < self.pending@.len() ==> rule_valid(
                    #[trigger] self.pending@[i]@,
                    self.data.deep_view().len(),
                ))
        &&& (self.phase is OneByOne ==> {
            &&& forall|i: int|
                self.next_rule <= i < self.pending@.len() ==> (#[trigger] self.pending@[i]@)
                    == (RuleModel::Sparse { idxs: seq![(self.pending@.len() - 1 - i) as usize] })
            &&& self.data@.len() + self.next_rule >= self.pending@.len()
        })
        &&& (self.phase is Endgame ==> {
            &&& self.pending@.len() == spec_combination_models(self.data@.len() as int).len()
            &&& forall|i: int|
                0 <= i < self.pending@.len() ==> (#[trigger] self.pending@[i]@)
                    == spec_combination_models(self.data@.len() as int)[i]
        })
    }

    spec fn candidate_wf(&self) -> bool {
        match self.candidate {
            Some(c) => {
                &&& !(self.phase is Done)
                &&& rule_valid(self.candidate_rule@, self.data.deep_view().len())
                &&& c.deep_view() == apply_rule(self.candidate_rule@, self.data.deep_view())
                &&& (self.phase is OneByOne ==> self.data@.len() + self.next_rule
                    >= self.pending@.len() + 1 && c.deep_view().len() + 1 == self.data@.len())
            },
            None => true,
        }
    }

    spec fn batch_wf(&self) -> bool {
        &&& self.batch@.len() == self.batch_rules@.len()
        &&& (self.batch@.len() > 0 ==> !(self.phase is Done) && !(self.phase is OneByOne))
        &&& forall|i: int|
            0 <= i < self.batch@.len() ==> rule_valid(
                #[trigger] self.batch_rules@[i],
                self.data.deep_view().len(),
            ) && self.batch@[i].deep_view() == apply_rule(
                self.batch_rules@[i],
                self.data.deep_view(),
            )
    }

    /// The engine's internal consistency, established by `new` and kept by
    /// every method.
    pub closed spec fn wf(&self) -> bool {
        &&& 1 <= self.threads <= usize::MAX / 2
        &&& self.pending_wf()
        &&& self.candidate_wf()
        &&& self.batch_wf()
        &&& !(self.candidate is Some && self.batch@.len() > 0)
        &&& (self.phase is OneByOne ==> self.strategy is Pedantic && self.one_by_one_done)
        &&& (self.phase is Endgame ==> 2 <= self.data@.len() <= 4)
    }

    spec fn rank(&self) -> int {
        match self.phase {
            Phase::SweepStart => 0,
            Phase::SweepEnd => 1,
            Phase::MainLoop => if self.strategy is Pedantic && !self.one_by_one_done {
                2
            } else {
                4
            },
            Phase::OneByOne => 3,
            Phase::Endgame => 5,
            Phase::Done => 6,
        }
    }

    /// A fresh pass over `data`, for the given strategy. `threads` bounds
    /// the batch size of the concurrent strategy.
    pub fn new(strategy: Strategies, data: Vec<T>, threads: usize) -> (e: PassEngine<T>)
        requires
            1 <= threads <= usize::MAX / 2,
        ensures
            e.wf(),
            !e.awaiting(),
            !e.spec_finished(),
            e.data_view() == data.deep_view(),
    {
        PassEngine {
            strategy,
            threads,
            data,
            phase: Phase::SweepStart,
            pending: Vec::new(),
            next_rule: 0,
            one_by_one_done: false,
            candidate: None,
            candidate_rule: Ghost(RuleModel::Continuous { lo: 0, hi: 0 }),
            batch: Vec::new(),
            batch_rules: Ghost(Seq::empty()),
        }
    }

    pub fn is_awaiting(&self) -> (r: bool)
        ensures
            r == self.awaiting(),
    {
        self.candidate.is_some() || self.batch.len() > 0
    }

    pub fn is_awaiting_batch(&self) -> (r: bool)
        ensures
            r == self.awaiting_batch(),
    {
        self.batch.len() > 0
    }

    pub fn is_finished(&self) -> (r: bool)
        ensures
            r == self.spec_finished(),
    {
        match self.phase {
            Phase::Done => true,
            _ => false,
        }
    }

    /// The number of candidates of the awaiting batch.
    pub fn batch_size(&self) -> (r: usize)
        ensures
            r == self.batch_len(),
    {
        self.batch.len()
    }

    /// The committed sequence.
    pub fn data(&self) -> (r: &Vec<T>)
        ensures
            r.deep_view() == self.data_view(),
    {
        &self.data
    }

    /// The committed sequence's length.
    pub fn len(&self) -> (r: usize)
        ensures
            r == self.data_view().len(),
    {
        self.data.len()
    }

    /// Hands the committed sequence out once the pass is over.
    pub fn take_data(&mut self) -> (r: Vec<T>)
        requires
            old(self).wf(),
            old(self).spec_finished(),
        ensures
            final(self).wf(),
            final(self).spec_finished(),
            !final(self).awaiting(),
            r.deep_view() == old(self).data_view(),
    {
        proof {
            assert(!old(self).awaiting());
        }
        let mut out: Vec<T> = Vec::new();
        core::mem::swap(&mut out, &mut self.data);
        out
    }

    fn make_candidate(&mut self, rule: Rule) -> (a: PassAction)
        requires
            old(self).wf(),
            !old(self).awaiting(),
            !(old(self).phase is Done),
            rule_valid(rule@, old(self).data.deep_view().len()),
            old(self).phase is OneByOne ==> old(self).data@.len() + old(self).next_rule
                >= old(self).pending@.len() + 1 && apply_rule(
                rule@,
                old(self).data.deep_view(),
            ).len() + 1 == old(self).data@.len(),
        ensures
            final(self).wf(),
            final(self).awaiting_single(),
            !final(self).awaiting_batch(),
            !final(self).spec_finished(),
            final(self).data_view() == old(self).data_view(),
            final(self).candidate_view() == apply_rule(rule@, old(self).data_view()),
            Self::candidate_from(old(self).data_view(), final(self).candidate_view()),
            final(self).candidate_rule_model() == rule@,
            final(self).queued_rules() == old(self).queued_rules(),
            final(self).in_trim_sweep() == old(self).in_trim_sweep(),
            final(self).in_endgame() == old(self).in_endgame(),
            T::spec_serialize(final(self).candidate_view()).len() <= T::spec_serialize(
                old(self).data_view(),
            ).len(),
            a matches PassAction::Evaluate { candidate } && candidate@ == T::spec_serialize(
                final(self).candidate_view(),
            ),
    {
        proof {
            lemma_apply_rule_len(rule@, self.data.deep_view());
            T::lemma_serialize_len_monotone(rule@, self.data.deep_view());
        }
        let cand = rule.apply(&self.data);
        let bytes = T::serialize_slice(&cand);
        self.candidate = Some(cand);
        self.candidate_rule = Ghost(rule@);
        PassAction::Evaluate { candidate: bytes }
    }

    fn make_batch(&mut self, rules: Vec<Rule>) -> (a: PassAction)
        requires
            old(self).wf(),
            !old(self).awaiting(),
            !(old(self).phase is Done),
            !(old(self).phase is OneByOne),
            1 <= rules@.len(),
            forall|i: int|
                0 <= i < rules@.len() ==> rule_valid(
                    #[trigger] rules@[i]@,
                    old(self).data.deep_view().len(),
                ),
        ensures
            final(self).wf(),
            final(self).awaiting_batch(),
            !final(self).awaiting_single(),
            !final(self).spec_finished(),
            final(self).data_view() == old(self).data_view(),
            final(self).batch_len() == rules@.len(),
            forall|i: int|
                0 <= i < rules@.len() ==> Self::candidate_from(
                    old(self).data_view(),
                    #[trigger] final(self).batch_view(i),
                ),
            final(self).batch_rule_models().len() == rules@.len(),
            forall|i: int|
                0 <= i < rules@.len() ==> #[trigger] final(self).batch_rule_models()[i]
                    == rules@[i]@,
            final(self).queued_rules() == old(self).queued_rules(),
            final(self).in_trim_sweep() == old(self).in_trim_sweep(),
            final(self).in_endgame() == old(self).in_endgame(),
            forall|i: int|
                0 <= i < rules@.len() ==> T::spec_serialize(
                    #[trigger] final(self).batch_view(i),
                ).len() <= T::spec_serialize(old(self).data_view()).len(),
            a matches PassAction::EvaluateBatch { candidates } && candidates@.len()
                == rules@.len() && (forall|i: int|
                0 <= i < candidates@.len() ==> (#[trigger] candidates@[i])@ == T::spec_serialize(
                    final(self).batch_view(i),
                )),
    {
        let n = rules.len();
        let mut batch: Vec<Vec<T>> = Vec::new();
        let mut cands: Vec<Vec<u8>> = Vec::new();
        let ghost mut models: Seq<RuleModel> = Seq::empty();
        let mut j: usize = 0;
        while j < n
            invariant
                n == rules@.len(),
                j <= n,
                self == old(self),
                forall|i: int|
                    0 <= i < rules@.len() ==> rule_valid(
                        #[trigger] rules@[i]@,
                        self.data.deep_view().len(),
                    ),
                batch@.len() == j,
                cands@.len() == j,
                models.len() == j,
                forall|i: int| 0 <= i < j ==> #[trigger] models[i] == rules@[i]@,
                forall|i: int|
                    0 <= i < j ==> (#[trigger] batch@[i]).deep_view() == apply_rule(
                        rules@[i]@,
                        self.data.deep_view(),
                    ),
                forall|i: int|
                    0 <= i < j ==> (#[trigger] cands@[i])@ == T::spec_serialize(
                        batch@[i].deep_view(),
                    ),
            decreases n - j,
        {
            let cand = rules[j].apply(&self.data);
            let bytes = T::serialize_slice(&cand);
            let ghost cd = cand.deep_view();
            let ghost bv = bytes@;
            batch.push(cand);
            cands.push(bytes);
            proof {
                models = models.push(rules@[j as int]@);
                assert(batch@[j as int].deep_view() == cd);
                assert(cd == apply_rule(rules@[j as int]@, self.data.deep_view()));
                assert(cands@[j as int]@ == bv);
                assert(bv == T::spec_serialize(cd));
            }
            j = j + 1;
        }
        self.batch = batch;
        self.batch_rules = Ghost(models);
        proof {
            assert forall|i: int| 0 <= i < self.batch@.len() implies rule_valid(
                #[trigger] self.batch_rules@[i],
                self.data.deep_view().len(),
            ) && self.batch@[i].deep_view() == apply_rule(
                self.batch_rules@[i],
                self.data.deep_view(),
            ) by {
                assert(self.batch_rules@[i] == rules@[i]@);
            }
        }
        proof {
            assert forall|i: int| 0 <= i < rules@.len() implies Self::candidate_from(
                self.data_view(),
                #[trigger] self.batch_view(i),
            ) && T::spec_serialize(self.batch_view(i)).len() <= T::spec_serialize(
                self.data_view(),
            ).len() by {
                lemma_apply_rule_len(rules@[i]@, self.data.deep_view());
                T::lemma_serialize_len_monotone(rules@[i]@, self.data.deep_view());
                assert(self.batch_view(i) == apply_rule(rules@[i]@, self.data.deep_view()));
            }
        }
        PassAction::EvaluateBatch { candidates: cands }
    }

    fn enter_endgame(&mut self)
        requires
            old(self).wf(),
            !old(self).awaiting(),
            old(self).rank() <= 4,
        ensures
            final(self).wf(),
            !final(self).awaiting(),
            final(self).data_view() == old(self).data_view(),
            final(self).strategy == old(self).strategy,
            final(self).threads == old(self).threads,
            5 <= final(self).rank(),
            final(self).spec_finished() ==> !(2 <= old(self).data@.len() <= 4),
            final(self).in_endgame() ==> final(self).queued_rules() == spec_combination_models(
                final(self).data@.len() as int,
            ),
    {
        let len = self.data.len();
        self.next_rule = 0;
        if 2 <= len && len <= 4 {
            self.pending = Rule::create_all_combinations_rule(len);
            self.phase = Phase::Endgame;
            proof {
                assert(self.queued_rules() =~= spec_combination_models(self.data@.len() as int));
            }
        } else {
            self.pending = Vec::new();
            self.phase = Phase::Done;
        }
    }

    /// The next thing to do: evaluate a candidate (or a batch of them), or
    /// nothing — the pass is over. An evaluation is only ever requested
    /// while budget remains, and every candidate is strictly smaller than
    /// the committed sequence it was cut from.
    #[verifier::rlimit(100)]
    #[verifier::spinoff_prover]
    pub fn advance(&mut self, stats: &Stats, max_time: Option<u32>, elapsed_secs: u64) -> (a:
        PassAction)
        requires
            old(self).wf(),
            !old(self).awaiting(),
            stats.current_iteration_count <= stats.max_attempts,
        ensures
            final(self).wf(),
            final(self).data_view() == old(self).data_view(),
            match a {
                PassAction::Evaluate { candidate } => {
                    &&& final(self).awaiting_single()
                    &&& !final(self).awaiting_batch()
                    &&& !final(self).spec_finished()
                    &&& stats.spec_available() >= 1
                    &&& !spec_time_exceeded(max_time, elapsed_secs)
                    &&& candidate@ == T::spec_serialize(final(self).candidate_view())
                    &&& candidate@.len() <= T::spec_serialize(old(self).data_view()).len()
                    &&& Self::candidate_from(
                        old(self).data_view(),
                        final(self).candidate_view(),
                    )
                },
                PassAction::EvaluateBatch { candidates } => {
                    &&& final(self).awaiting_batch()
                    &&& !final(self).awaiting_single()
                    &&& !final(self).spec_finished()
                    &&& !spec_time_exceeded(max_time, elapsed_secs)
                    &&& 1 <= candidates@.len() == final(self).batch_len() <= stats.spec_available()
                    &&& forall|i: int|
                        0 <= i < candidates@.len() ==> (#[trigger] candidates@[i])@
                            == T::spec_serialize(final(self).batch_view(i))
                    &&& forall|i: int|
                        0 <= i < candidates@.len() ==> Self::candidate_from(
                            old(self).data_view(),
                            #[trigger] final(self).batch_view(i),
                        )
                    &&& forall|i: int|
                        0 <= i < candidates@.len() ==> (#[trigger] candidates@[i])@.len()
                            <= T::spec_serialize(old(self).data_view()).len()
                },
                PassAction::Finished => {
                    &&& final(self).spec_finished()
                    &&& !final(self).awaiting()
                    &&& (old(self).spec_finished() || spec_stop(
                        *stats,
                        max_time,
                        elapsed_secs,
                        old(self).data_view().len(),
                        true,
                    ) || 2 <= old(self).data_view().len() <= 4)
                },
            },
            old(self).in_trim_sweep() && old(self).queued_rules().len() > 0 && !spec_stop(
                *stats,
                max_time,
                elapsed_secs,
                old(self).data_view().len(),
                true,
            ) ==> match a {
                PassAction::Evaluate { .. } => {
                    &&& final(self).candidate_rule_model() == old(self).queued_rules()[0]
                    &&& final(self).queued_rules() == old(self).queued_rules().drop_first()
                },
                PassAction::EvaluateBatch { .. } => {
                    &&& final(self).batch_rule_models() == old(self).queued_rules().take(
                        final(self).batch_len(),
                    )
                    &&& final(self).queued_rules().len() == 0
                },
                PassAction::Finished => false,
            },
            old(self).in_endgame() && old(self).queued_rules().len() > 0 && !spec_stop(
                *stats,
                max_time,
                elapsed_secs,
                old(self).data_view().len(),
                false,
            ) ==> match a {
                PassAction::Evaluate { .. } => {
                    &&& final(self).candidate_rule_model() == old(self).queued_rules()[0]
                    &&& final(self).queued_rules() == old(self).queued_rules().drop_first()
                },
                PassAction::EvaluateBatch { .. } => {
                    &&& final(self).batch_rule_models() == old(self).queued_rules().take(
                        final(self).batch_len(),
                    )
                    &&& final(self).queued_rules().len() == 0
                },
                PassAction::Finished => false,
            },
            !old(self).in_endgame() && final(self).in_endgame() ==> match a {
                PassAction::Evaluate { .. } => {
                    &&& final(self).candidate_rule_model() == spec_combination_models(
                        final(self).data_view().len() as int,
                    )[0]
                    &&& final(self).queued_rules() == spec_combination_models(
                        final(self).data_view().len() as int,
                    ).drop_first()
                },
                PassAction::EvaluateBatch { .. } => {
                    &&& final(self).batch_rule_models() == spec_combination_models(
                        final(self).data_view().len() as int,
                    ).take(final(self).batch_len())
                    &&& final(self).queued_rules().len() == 0
                },
                PassAction::Finished => false,
            },
    {
        loop
            invariant
                self.wf(),
                !self.awaiting(),
                self.data.deep_view() == old(self).data_view(),
                stats.current_iteration_count <= stats.max_attempts,
                self.phase is Done ==> old(self).spec_finished() || spec_stop(
                    *stats,
                    max_time,
                    elapsed_secs,
                    old(self).data_view().len(),
                    true,
                ) || 2 <= old(self).data_view().len() <= 4,
                old(self).in_trim_sweep() && old(self).queued_rules().len() > 0 && !spec_stop(
                    *stats,
                    max_time,
                    elapsed_secs,
                    old(self).data_view().len(),
                    true,
                ) ==> *self == *old(self),
                old(self).in_endgame() && old(self).queued_rules().len() > 0 && !spec_stop(
                    *stats,
                    max_time,
                    elapsed_secs,
                    old(self).data_view().len(),
                    false,
                ) ==> *self == *old(self),
                !old(self).in_endgame() && self.phase is Endgame ==> self.queued_rules()
                    == spec_combination_models(self.data@.len() as int),
            decreases 7 - self.rank(),
        {
            match self.phase {
                Phase::Done => {
                    return PassAction::Finished;
                },
                Phase::SweepStart | Phase::SweepEnd => {
                    let is_start = match self.phase {
                        Phase::SweepStart => true,
                        _ => false,
                    };
                    if self.pending.len() > 0 && self.next_rule >= self.pending.len() {
                        self.pending = Vec::new();
                        self.next_rule = 0;
                        self.phase = if is_start {
                            Phase::SweepEnd
                        } else {
                            Phase::MainLoop
                        };
                    } else if check_if_stopping_minimization(
                        stats,
                        max_time,
                        elapsed_secs,
                        self.data.len(),
                        true,
                    ) == ProcessStatus::Stop {
                        self.enter_endgame();
                    } else {
                        if self.pending.len() == 0 {
                            let checks: usize = if is_start {
                                5
                            } else if match self.strategy {
                                Strategies::Pedantic => true,
                                _ => false,
                            } {
                                20
                            } else {
                                35
                            };
                            self.pending = Rule::create_start_end_rule(
                                self.data.len(),
                                checks,
                                is_start,
                            );
                            self.next_rule = 0;
                        }
                        match self.strategy {
                            Strategies::GeneralMulti => {
                                let ghost pre_queue = self.queued_rules();
                                let avail = stats.available() as usize;
                                let rem = self.pending.len() - self.next_rule;
                                let k = if rem < avail {
                                    rem
                                } else {
                                    avail
                                };
                                let mut rules: Vec<Rule> = Vec::new();
                                let base = self.next_rule;
                                let ghost snap = *self;
                                let mut j: usize = 0;
                                while j < k
                                    invariant
                                        *self == snap,
                                        j <= k,
                                        base + k <= self.pending@.len() <= usize::MAX,
                                        self.wf(),
                                        self.phase is SweepStart || self.phase is SweepEnd
                                            || self.phase is Endgame,
                                        base == self.next_rule,
                                        rules@.len() == j,
                                        forall|i: int|
                                            0 <= i < j ==> rule_valid(
                                                #[trigger] rules@[i]@,
                                                self.data.deep_view().len(),
                                            ),
                                        forall|i: int|
                                            0 <= i < j ==> #[trigger] rules@[i]@
                                                == self.pending@[base + i]@,
                                    decreases k - j,
                                {
                                    proof {
                                        assert(rule_valid(
                                            self.pending@[(base + j) as int]@,
                                            self.data.deep_view().len(),
                                        ));
                                    }
                                    rules.push(self.pending[base + j].duplicate());
                                    j = j + 1;
                                }
                                self.next_rule = self.pending.len();
                                proof {
                                    assert(1 <= k);
                                    assert(k <= stats.spec_available());
                                    assert(self.queued_rules().len() == 0);
                                    assert forall|i: int| 0 <= i < k implies #[trigger] rules@[i]@
                                        == pre_queue[i] by {
                                        assert(rules@[i]@ == snap.pending@[base + i]@);
                                    }
                                }
                                let a = self.make_batch(rules);
                                proof {
                                    assert(self.batch_rule_models() =~= pre_queue.take(k as int));
                                }
                                return a;
                            },
                            _ => {
                                let ghost pre_queue = self.queued_rules();
                                let rule = self.pending[self.next_rule].duplicate();
                                self.next_rule = self.next_rule + 1;
                                proof {
                                    assert(rule@ == pre_queue[0]);
                                    assert(self.queued_rules() =~= pre_queue.drop_first());
                                }
                                return self.make_candidate(rule);
                            },
                        }
                    }
                },
                Phase::MainLoop => {
                    let is_pedantic = match self.strategy {
                        Strategies::Pedantic => true,
                        _ => false,
                    };
                    if is_pedantic && !self.one_by_one_done && self.data.len() < 100
                        && stats.available() > 100 {
                        self.one_by_one_done = true;
                        self.pending = pedantic::minimize_smaller_than(self.data.len());
                        self.next_rule = 0;
                        self.phase = Phase::OneByOne;
                    } else if check_if_stopping_minimization(
                        stats,
                        max_time,
                        elapsed_secs,
                        self.data.len(),
                        true,
                    ) == ProcessStatus::Stop {
                        self.enter_endgame();
                    } else {
                        match self.strategy {
                            Strategies::GeneralMulti => {
                                let avail = stats.available() as usize;
                                let cap = 2 * self.threads;
                                let k = if avail < cap {
                                    avail
                                } else {
                                    cap
                                };
                                let len = self.data.len();
                                let mut rules: Vec<Rule> = Vec::new();
                                let ghost snap = *self;
                                let mut j: usize = 0;
                                while j < k
                                    invariant
                                        *self == snap,
                                        j <= k,
                                        self.wf(),
                                        len == self.data@.len(),
                                        len >= 5,
                                        rules@.len() == j,
                                        forall|i: int|
                                            0 <= i < j ==> rule_valid(
                                                #[trigger] rules@[i]@,
                                                self.data.deep_view().len(),
                                            ),
                                    decreases k - j,
                                {
                                    rules.push(general_multi::get_random_rule(len));
                                    j = j + 1;
                                }
                                proof {
                                    assert(1 <= k);
                                    assert(k <= stats.spec_available());
                                }
                                return self.make_batch(rules);
                            },
                            Strategies::Pedantic => {
                                let rule = pedantic::get_random_rule(self.data.len());
                                return self.make_candidate(rule);
                            },
                            Strategies::General => {
                                let rule = general::get_random_rule(self.data.len());
                                return self.make_candidate(rule);
                            },
                        }
                    }
                },
                Phase::OneByOne => {
                    if self.next_rule >= self.pending.len() {
                        self.pending = Vec::new();
                        self.next_rule = 0;
                        self.phase = Phase::MainLoop;
                    } else if check_if_stopping_minimization(
                        stats,
                        max_time,
                        elapsed_secs,
                        self.data.len(),
                        true,
                    ) == ProcessStatus::Stop {
                        self.enter_endgame();
                    } else {
                        let rule = self.pending[self.next_rule].duplicate();
                        self.next_rule = self.next_rule + 1;
                        proof {
                            let idx = (self.pending@.len() - self.next_rule) as usize;
                            assert(rule@ == (RuleModel::Sparse { idxs: seq![idx] }));
                            lemma_singleton_rule_valid(idx, self.data.deep_view().len());
                            lemma_keep_upto_singleton(
                                self.data.deep_view(),
                                idx,
                                self.data.deep_view().len() as int,
                            );
                            assert(apply_rule(rule@, self.data.deep_view()).len() + 1
                                == self.data@.len());
                        }
                        return self.make_candidate(rule);
                    }
                },
                Phase::Endgame => {
                    if self.next_rule >= self.pending.len() {
                        self.pending = Vec::new();
                        self.next_rule = 0;
                        self.phase = Phase::Done;
                    } else if check_if_stopping_minimization(
                        stats,
                        max_time,
                        elapsed_secs,
                        self.data.len(),
                        false,
                    ) == ProcessStatus::Stop {
                        self.pending = Vec::new();
                        self.next_rule = 0;
                        self.phase = Phase::Done;
                    } else {
                        match self.strategy {
                            Strategies::GeneralMulti => {
                                let ghost pre_queue = self.queued_rules();
                                let avail = stats.available() as usize;
                                let rem = self.pending.len() - self.next_rule;
                                let k = if rem < avail {
                                    rem
                                } else {
                                    avail
                                };
                                let mut rules: Vec<Rule> = Vec::new();
                                let base = self.next_rule;
                                let ghost snap = *self;
                                let mut j: usize = 0;
                                while j < k
                                    invariant
                                        *self == snap,
                                        j <= k,
                                        base + k <= self.pending@.len() <= usize::MAX,
                                        self.wf(),
                                        self.phase is SweepStart || self.phase is SweepEnd
                                            || self.phase is Endgame,
                                        base == self.next_rule,
                                        rules@.len() == j,
                                        forall|i: int|
                                            0 <= i < j ==> rule_valid(
                                                #[trigger] rules@[i]@,
                                                self.data.deep_view().len(),
                                            ),
                                        forall|i: int|
                                            0 <= i < j ==> #[trigger] rules@[i]@
                                                == self.pending@[base + i]@,
                                    decreases k - j,
                                {
                                    proof {
                                        assert(rule_valid(
                                            self.pending@[(base + j) as int]@,
                                            self.data.deep_view().len(),
                                        ));
                                    }
                                    rules.push(self.pending[base + j].duplicate());
                                    j = j + 1;
                                }
                                self.next_rule = self.pending.len();
                                proof {
                                    assert(1 <= k);
                                    assert(k <= stats.spec_available());
                                    assert(self.queued_rules().len() == 0);
                                    assert forall|i: int| 0 <= i < k implies #[trigger] rules@[i]@
                                        == pre_queue[i] by {
                                        assert(rules@[i]@ == snap.pending@[base + i]@);
                                    }
                                }
                                let a = self.make_batch(rules);
                                proof {
                                    assert(self.batch_rule_models() =~= pre_queue.take(k as int));
                                }
                                return a;
                            },
                            _ => {
                                let ghost pre_queue = self.queued_rules();
                                let rule = self.pending[self.next_rule].duplicate();
                                self.next_rule = self.next_rule + 1;
                                proof {
                                    assert(rule@ == pre_queue[0]);
                                    assert(self.queued_rules() =~= pre_queue.drop_first());
                                }
                                return self.make_candidate(rule);
                            },
                        }
                    }
                },
            }
        }
    }

    /// Takes the oracle's verdict for the awaiting candidate. On an
    /// accepted candidate the sequence is replaced and its serialized form
    /// is returned, to be persisted at once; on a rejected one the
    /// sequence is exactly as before. Either way one attempt is counted.
    pub fn report_verdict(&mut self, is_broken: bool, stats: &mut Stats, reset_attempts: bool) -> (persist: Option<
        Vec<u8>,
    >)
        requires
            old(self).wf(),
            old(self).awaiting_single(),
            old(stats).current_iteration_count < old(stats).max_attempts,
            old(stats).all_iterations < u32::MAX,
        ensures
            final(self).wf(),
            !final(self).awaiting(),
            final(stats).all_iterations == old(stats).all_iterations + 1,
            final(stats).max_attempts == old(stats).max_attempts,
            final(stats).current_iteration_count == if is_broken && reset_attempts {
                0u32
            } else {
                (old(stats).current_iteration_count + 1) as u32
            },
            !is_broken ==> {
                &&& final(self).data_view() == old(self).data_view()
                &&& persist is None
                &&& final(self).queued_rules() == old(self).queued_rules()
                &&& final(self).in_trim_sweep() == old(self).in_trim_sweep()
                &&& final(self).in_endgame() == old(self).in_endgame()
            },
            is_broken && (old(self).in_trim_sweep() || old(self).in_endgame())
                ==> final(self).queued_rules().len() == 0,
            is_broken ==> {
                &&& final(self).data_view() == old(self).candidate_view()
                &&& final(self).data_view().len() < old(self).data_view().len()
                &&& 1 <= final(self).data_view().len()
                &&& T::spec_serialize(final(self).data_view()).len() <= T::spec_serialize(
                    old(self).data_view(),
                ).len()
                &&& persist matches Some(bytes) && bytes@ == T::spec_serialize(
                    final(self).data_view(),
                )
            },
    {
        let old_len = self.data.len();
        let taken = self.candidate.take();
        let cand = match taken {
            Some(c) => c,
            None => {
                proof {
                    assert(false);
                }
                Vec::new()
            },
        };
        let mut persist: Option<Vec<u8>> = None;
        if is_broken {
            proof {
                lemma_apply_rule_len(self.candidate_rule@, self.data.deep_view());
                T::lemma_serialize_len_monotone(self.candidate_rule@, self.data.deep_view());
                match self.candidate_rule@ {
                    RuleModel::Sparse { idxs } => {
                        if self.phase is OneByOne {
                            lemma_keep_upto_singleton(
                                self.data.deep_view(),
                                (self.pending@.len() - self.next_rule) as usize,
                                self.data.deep_view().len() as int,
                            );
                        }
                    },
                    _ => {},
                }
            }
            self.data = cand;
            match self.phase {
                Phase::SweepStart => {
                    self.pending = Vec::new();
                    self.next_rule = 0;
                    self.phase = Phase::SweepEnd;
                },
                Phase::SweepEnd => {
                    self.pending = Vec::new();
                    self.next_rule = 0;
                    self.phase = Phase::MainLoop;
                },
                Phase::Endgame => {
                    self.pending = Vec::new();
                    self.next_rule = 0;
                    self.phase = Phase::Done;
                },
                _ => {},
            }
            persist = Some(T::serialize_slice(&self.data));
            proof {
                if old(self).in_trim_sweep() || old(self).in_endgame() {
                    assert(self.queued_rules().len() == 0);
                }
            }
        }
        extend_results(is_broken, 1, old_len, self.data.len(), stats, reset_attempts);
        persist
    }

    /// Takes the oracle's verdicts for an awaiting batch — possibly fewer
    /// than requested, when evaluation was cut short. The accepted
    /// candidate of smallest length is committed, the earliest produced
    /// winning ties; with no acceptance the sequence is exactly as before.
    /// Every reported verdict counts one attempt.
    pub fn report_batch_verdicts(
        &mut self,
        verdicts: &Vec<bool>,
        stats: &mut Stats,
        reset_attempts: bool,
    ) -> (persist: Option<Vec<u8>>)
        requires
            old(self).wf(),
            old(self).awaiting_batch(),
            verdicts@.len() <= old(self).batch_len(),
            old(stats).current_iteration_count <= old(stats).max_attempts,
            old(stats).spec_available() >= verdicts@.len(),
            old(stats).all_iterations + verdicts@.len() <= u32::MAX,
        ensures
            final(self).wf(),
            !final(self).awaiting(),
            final(stats).all_iterations == old(stats).all_iterations + verdicts@.len(),
            final(stats).max_attempts == old(stats).max_attempts,
            (forall|i: int| 0 <= i < verdicts@.len() ==> !verdicts@[i]) ==> {
                &&& final(self).data_view() == old(self).data_view()
                &&& persist is None
                &&& final(stats).current_iteration_count == old(stats).current_iteration_count
                    + verdicts@.len()
                &&& final(self).queued_rules() == old(self).queued_rules()
                &&& final(self).in_trim_sweep() == old(self).in_trim_sweep()
                &&& final(self).in_endgame() == old(self).in_endgame()
            },
            (exists|i: int| 0 <= i < verdicts@.len() && verdicts@[i]) && (old(self).in_trim_sweep()
                || old(self).in_endgame()) ==> final(self).queued_rules().len() == 0,
            (exists|i: int| 0 <= i < verdicts@.len() && verdicts@[i]) ==> {
                &&& exists|k: int|
                    {
                        &&& 0 <= k < verdicts@.len()
                        &&& verdicts@[k]
                        &&& final(self).data_view() == old(self).batch_view(k)
                        &&& forall|i: int|
                            0 <= i < verdicts@.len() && verdicts@[i]
                                ==> old(self).batch_view(k).len() <= #[trigger] old(
                                self,
                            ).batch_view(i).len()
                        &&& forall|i: int|
                            0 <= i < verdicts@.len() && verdicts@[i] && #[trigger] old(
                                self,
                            ).batch_view(i).len() == old(self).batch_view(k).len() ==> k <= i
                    }
                &&& final(self).data_view().len() < old(self).data_view().len()
                &&& T::spec_serialize(final(self).data_view()).len() <= T::spec_serialize(
                    old(self).data_view(),
                ).len()
                &&& persist matches Some(bytes) && bytes@ == T::spec_serialize(
                    final(self).data_view(),
                )
                &&& final(stats).current_iteration_count == if reset_attempts {
                    0int
                } else {
                    old(stats).current_iteration_count + verdicts@.len()
                }
            },
    {
        let old_len = self.data.len();
        let n = verdicts.len();
        let mut best: Option<usize> = None;
        for i in 0..n
            invariant
                n == verdicts@.len(),
                n <= self.batch@.len(),
                self.wf(),
                match best {
                    Some(k) => {
                        &&& k < i
                        &&& verdicts@[k as int]
                        &&& forall|t: int|
                            0 <= t < i && verdicts@[t] ==> self.batch@[k as int].deep_view().len()
                                <= #[trigger] self.batch@[t].deep_view().len()
                        &&& forall|t: int|
                            0 <= t < i && verdicts@[t] && #[trigger] self.batch@[t].deep_view().len()
                                == self.batch@[k as int].deep_view().len() ==> k <= t
                    },
                    None => forall|t: int| 0 <= t < i ==> !verdicts@[t],
                },
        {
            if verdicts[i] {
                match best {
                    None => {
                        best = Some(i);
                    },
                    Some(k) => {
                        if self.batch[i].len() < self.batch[k].len() {
                            best = Some(i);
                        }
                    },
                }
            }
        }
        let mut persist: Option<Vec<u8>> = None;
        let changed = best.is_some();
        match best {
            Some(k) => {
                let chosen = self.batch.swap_remove(k);
                proof {
                    lemma_apply_rule_len(self.batch_rules@[k as int], self.data.deep_view());
                    T::lemma_serialize_len_monotone(
                        self.batch_rules@[k as int],
                        self.data.deep_view(),
                    );
                }
                self.data = chosen;
                match self.phase {
                    Phase::SweepStart => {
                        self.pending = Vec::new();
                        self.next_rule = 0;
                        self.phase = Phase::SweepEnd;
                    },
                    Phase::SweepEnd => {
                        self.pending = Vec::new();
                        self.next_rule = 0;
                        self.phase = Phase::MainLoop;
                    },
                    Phase::Endgame => {
                        self.pending = Vec::new();
                        self.next_rule = 0;
                        self.phase = Phase::Done;
                    },
                    _ => {},
                }
                persist = Some(T::serialize_slice(&self.data));
                proof {
                    if old(self).in_trim_sweep() || old(self).in_endgame() {
                        assert(self.queued_rules().len() == 0);
                    }
                }
            },
            None => {},
        }
        self.batch = Vec::new();
        self.batch_rules = Ghost(Seq::empty());
        proof {
            assert(n <= u32::MAX);
        }
        extend_results(changed, n as u32, old_len, self.data.len(), stats, reset_attempts);
        persist
    }
}

} // verus!
