//! Rules: immutable descriptions of one candidate mutation of a sequence —
//! remove a contiguous span, or remove a set of indices — together with the
//! factories that produce them and the verified application of a rule to a
//! sequence.
use vstd::prelude::*;
use vstd::assert_by_contradiction;
use vstd::utf8::encode_utf8;
use vstd::seq_lib::*;
use vstd::set_lib::*;

use crate::data_trait::SaveSliceToFile;
use crate::encoding::{lemma_encode_utf8_concat, lemma_encode_utf8_push};
use crate::random::gen_range;

verus! {

/// The families of random rules the main loop draws from.
#[derive(Copy, Clone, Debug, PartialEq, Eq, Structural)]
pub enum RuleType {
    RemoveFromStart,
    RemoveFromEnd,
    RemoveContinuousFromMiddle,
    RemoveRandom,
}

/// One candidate mutation.
#[derive(Debug)]
pub enum Rule {
    /// Remove the span `start_idx_included..end_idx_excluded`.
    RemoveContinuous { start_idx_included: usize, end_idx_excluded: usize },
    /// Remove every listed index; duplicates and out-of-range entries are
    /// ignored by the removal itself.
    RemoveRandom { indexes_to_remove: Vec<usize> },
}

/// The mathematical shape of a rule.
pub ghost enum RuleModel {
    Continuous { lo: int, hi: int },
    Sparse { idxs: Seq<usize> },
}

impl View for Rule {
    type V = RuleModel;

    open spec fn view(&self) -> RuleModel {
        match self {
            Rule::RemoveContinuous { start_idx_included, end_idx_excluded } =>
                RuleModel::Continuous {
                    lo: *start_idx_included as int,
                    hi: *end_idx_excluded as int,
                },
            Rule::RemoveRandom { indexes_to_remove } =>
                RuleModel::Sparse { idxs: indexes_to_remove@ },
        }
    }
}

/// A rule that can be applied to a sequence of length `len`: the removal is
/// non-empty and leaves at least one element behind.
pub open spec fn rule_valid(m: RuleModel, len: nat) -> bool {
    match m {
        RuleModel::Continuous { lo, hi } => {
            &&& 0 <= lo < hi <= len
            &&& !(lo == 0 && hi == len)
        },
        RuleModel::Sparse { idxs } => {
            &&& exists|k: int| 0 <= k < idxs.len() && #[trigger] idxs[k] < len
            &&& exists|j: int| 0 <= j < len && !idxs.contains(#[trigger] (j as usize))
        },
    }
}

/// The elements of `s` up to position `i` whose position is not listed in
/// `removed`, in order.
pub open spec fn keep_upto<A>(s: Seq<A>, removed: Seq<usize>, i: int) -> Seq<A>
    decreases i,
{
    if i <= 0 {
        Seq::empty()
    } else {
        keep_upto(s, removed, i - 1) + if removed.contains((i - 1) as usize) {
            Seq::empty()
        } else {
            seq![s[i - 1]]
        }
    }
}

/// The sequence a rule turns `s` into.
pub open spec fn apply_rule<A>(m: RuleModel, s: Seq<A>) -> Seq<A> {
    match m {
        RuleModel::Continuous { lo, hi } => s.subrange(0, lo) + s.subrange(hi, s.len() as int),
        RuleModel::Sparse { idxs } => keep_upto(s, idxs, s.len() as int),
    }
}

pub proof fn lemma_keep_upto_le<A>(s: Seq<A>, removed: Seq<usize>, i: int)
    requires
        0 <= i,
    ensures
        keep_upto(s, removed, i).len() <= i,
    decreases i,
{
    if i > 0 {
        lemma_keep_upto_le(s, removed, i - 1);
    }
}

proof fn lemma_keep_upto_lt<A>(s: Seq<A>, removed: Seq<usize>, i: int, k: int)
    requires
        0 <= k < i,
        removed.contains(k as usize),
    ensures
        keep_upto(s, removed, i).len() < i,
    decreases i,
{
    if k == i - 1 {
        lemma_keep_upto_le(s, removed, i - 1);
    } else {
        lemma_keep_upto_lt(s, removed, i - 1, k);
    }
}

proof fn lemma_keep_upto_nonempty<A>(s: Seq<A>, removed: Seq<usize>, i: int, j: int)
    requires
        0 <= j < i,
        !removed.contains(j as usize),
    ensures
        keep_upto(s, removed, i).len() >= 1,
    decreases i,
{
    if j < i - 1 {
        lemma_keep_upto_nonempty(s, removed, i - 1, j);
    }
}

/// A valid rule strictly shrinks the sequence and leaves it non-empty.
pub proof fn lemma_apply_rule_len<A>(m: RuleModel, s: Seq<A>)
    requires
        rule_valid(m, s.len()),
    ensures
        1 <= apply_rule(m, s).len() < s.len(),
{
    match m {
        RuleModel::Continuous { lo, hi } => {
        },
        RuleModel::Sparse { idxs } => {
            let k = choose|k: int| 0 <= k < idxs.len() && idxs[k] < s.len();
            let j = choose|j: int| 0 <= j < s.len() && !idxs.contains(#[trigger] (j as usize));
            assert(idxs.contains(idxs[k]));
            lemma_keep_upto_lt(s, idxs, s.len() as int, idxs[k] as int);
            lemma_keep_upto_nonempty(s, idxs, s.len() as int, j);
        },
    }
}

/// A list of fewer than `len` indices misses at least one index below `len`.
pub proof fn lemma_short_list_misses_index(idxs: Seq<usize>, len: nat)
    requires
        idxs.len() < len,
        len <= usize::MAX,
    ensures
        exists|j: int| 0 <= j < len && !idxs.contains(#[trigger] (j as usize)),
{
    let ints = idxs.map_values(|u: usize| u as int);
    assert_by_contradiction!(exists|j: int| 0 <= j < len && !idxs.contains(#[trigger] (j as usize)), {
        assert forall|j: int| 0 <= j < len implies ints.to_set().contains(j) by {
            assert(idxs.contains(j as usize));
            let k = choose|k: int| 0 <= k < idxs.len() && idxs[k] == j as usize;
            assert(ints[k] == j);
            assert(ints.contains(j));
        }
        assert(set_int_range(0, len as int).subset_of(ints.to_set()));
        lemma_int_range(0, len as int);
        ints.lemma_cardinality_of_set();
        lemma_len_subset(set_int_range(0, len as int), ints.to_set());
    });
}

impl Rule {
    /// Builds the candidate sequence a rule proposes: the input with the
    /// rule's elements removed. The input itself is left untouched.
    pub fn apply<T: SaveSliceToFile>(&self, content: &Vec<T>) -> (r: Vec<T>)
        requires
            rule_valid(self@, content@.len() as nat),
        ensures
            r.deep_view() == apply_rule(self@, content.deep_view()),
            1 <= r@.len() < content@.len(),
    {
        proof {
            lemma_apply_rule_len(self@, content.deep_view());
        }
        let n = content.len();
        match self {
            Rule::RemoveContinuous { start_idx_included, end_idx_excluded } => {
                let lo = *start_idx_included;
                let hi = *end_idx_excluded;
                let mut r: Vec<T> = Vec::new();
                for i in 0..lo
                    invariant
                        lo < hi <= n,
                        n == content@.len(),
                        r.deep_view() =~= content.deep_view().subrange(0, i as int),
                {
                    let ghost prev = r.deep_view();
                    let item = content[i].clone_item();
                    let ghost item_dv = item.deep_view();
                    r.push(item);
                    proof {
                        assert(r.deep_view() =~= prev.push(item_dv));
                        assert(item_dv == content.deep_view()[i as int]);
                        assert(r.deep_view() =~= content.deep_view().subrange(0, i + 1 as int));
                    }
                }
                for i in hi..n
                    invariant
                        lo < hi <= n,
                        n == content@.len(),
                        r.deep_view() =~= content.deep_view().subrange(0, lo as int)
                            + content.deep_view().subrange(hi as int, i as int),
                {
                    let ghost prev = r.deep_view();
                    let item = content[i].clone_item();
                    let ghost item_dv = item.deep_view();
                    r.push(item);
                    proof {
                        assert(r.deep_view() =~= prev.push(item_dv));
                        assert(item_dv == content.deep_view()[i as int]);
                        assert(r.deep_view() =~= content.deep_view().subrange(0, lo as int)
                            + content.deep_view().subrange(hi as int, i + 1 as int));
                    }
                }
                proof {
                    assert(r.deep_view() =~= apply_rule(self@, content.deep_view()));
                }
                r
            },
            Rule::RemoveRandom { indexes_to_remove } => {
                let mut r: Vec<T> = Vec::new();
                for i in 0..n
                    invariant
                        n == content@.len(),
                        r.deep_view() =~= keep_upto(content.deep_view(), indexes_to_remove@, i as int),
                {
                    let ghost prev = r.deep_view();
                    if !contains_usize(indexes_to_remove, i) {
                        let item = content[i].clone_item();
                        let ghost item_dv = item.deep_view();
                        r.push(item);
                        proof {
                            assert(r.deep_view() =~= prev.push(item_dv));
                            assert(item_dv == content.deep_view()[i as int]);
                        }
                    }
                    proof {
                        assert(r.deep_view() =~= keep_upto(
                            content.deep_view(),
                            indexes_to_remove@,
                            i + 1 as int,
                        ));
                    }
                }
                r
            },
        }
    }

    /// A copy of this rule, equal up to the view.
    pub fn duplicate(&self) -> (r: Rule)
        ensures
            r@ == self@,
    {
        match self {
            Rule::RemoveContinuous { start_idx_included, end_idx_excluded } =>
                Rule::RemoveContinuous {
                    start_idx_included: *start_idx_included,
                    end_idx_excluded: *end_idx_excluded,
                },
            Rule::RemoveRandom { indexes_to_remove } => Rule::RemoveRandom {
                indexes_to_remove: copy_usize_vec(indexes_to_remove),
            },
        }
    }

    /// A rule that removes exactly the given indices.
    pub fn crete_remove_exact_idx_rule(idxs: Vec<usize>) -> (r: Rule)
        ensures
            r@ matches RuleModel::Sparse { idxs: m } && m == idxs@,
    {
        Rule::RemoveRandom { indexes_to_remove: idxs }
    }
}

/// Whether `v` holds `x`.
fn contains_usize(v: &Vec<usize>, x: usize) -> (r: bool)
    ensures
        r == v@.contains(x),
{
    let n = v.len();
    for i in 0..n
        invariant
            n == v@.len(),
            forall|k: int| 0 <= k < i ==> v@[k] != x,
    {
        if v[i] == x {
            return true;
        }
    }
    false
}

/// An element-for-element copy.
fn copy_usize_vec(v: &Vec<usize>) -> (r: Vec<usize>)
    ensures
        r@ == v@,
{
    let mut r: Vec<usize> = Vec::new();
    let n = v.len();
    for i in 0..n
        invariant
            n == v@.len(),
            r@ =~= v@.take(i as int),
    {
        r.push(v[i]);
        proof {
            assert(r@ =~= v@.take(i + 1 as int));
        }
    }
    proof {
        assert(v@.take(n as int) =~= v@);
    }
    r
}

/// Every element is smaller than every later one.
pub open spec fn strictly_increasing(s: Seq<usize>) -> bool {
    forall|i: int, j: int| 0 <= i < j < s.len() ==> s[i] < s[j]
}

/// Whether a rule cuts a prefix: removes `0..hi` with `1 <= hi <= len - 1`.
pub open spec fn is_start_cut(m: RuleModel, len: int) -> bool {
    m matches RuleModel::Continuous { lo, hi } && lo == 0 && 1 <= hi <= len - 1
}

/// Whether a rule cuts a suffix: removes `lo..len` with `1 <= lo <= len - 1`.
pub open spec fn is_end_cut(m: RuleModel, len: int) -> bool {
    m matches RuleModel::Continuous { lo, hi } && 1 <= lo <= len - 1 && hi == len
}

/// How many elements a contiguous cut removes.
pub open spec fn cut_size(m: RuleModel) -> int {
    match m {
        RuleModel::Continuous { lo, hi } => hi - lo,
        RuleModel::Sparse { .. } => 0,
    }
}

/// The shapes the random rule mixture draws: a prefix cut, a suffix cut,
/// an interior cut that keeps both endpoints, or a sparse removal with at
/// least one index and every index in range.
pub open spec fn mixture_rule(m: RuleModel, len: int) -> bool {
    ||| is_start_cut(m, len)
    ||| is_end_cut(m, len)
    ||| (m matches RuleModel::Continuous { lo, hi } && 0 < lo && lo < hi && hi <= len - 2)
    ||| (m matches RuleModel::Sparse { idxs } && 1 <= idxs.len() && (forall|k: int|
        0 <= k < idxs.len() ==> #[trigger] idxs[k] < len))
}

/// Keeps `v` strictly increasing while adding `x` (a duplicate is dropped).
fn insert_sorted_unique(v: &mut Vec<usize>, x: usize)
    requires
        strictly_increasing(old(v)@),
    ensures
        strictly_increasing(final(v)@),
        1 <= final(v)@.len(),
        final(v)@.len() <= old(v)@.len() + 1,
        forall|k: int|
            0 <= k < final(v)@.len() ==> old(v)@.contains(#[trigger] final(v)@[k])
                || final(v)@[k] == x,
{
    let n = v.len();
    let mut p: usize = 0;
    while p < n && v[p] < x
        invariant
            p <= n,
            n == v@.len(),
            strictly_increasing(v@),
            v@ == old(v)@,
            forall|k: int| 0 <= k < p ==> v@[k] < x,
        decreases n - p,
    {
        p = p + 1;
    }
    if p < n && v[p] == x {
        proof {
            assert(old(v)@.contains(old(v)@[p as int]));
            assert forall|k: int| 0 <= k < v@.len() implies old(v)@.contains(#[trigger] v@[k])
                || v@[k] == x by {
                assert(old(v)@.contains(old(v)@[k]));
            }
        }
        return ;
    }
    v.insert(p, x);
    proof {
        assert forall|k: int| 0 <= k < v@.len() implies old(v)@.contains(#[trigger] v@[k])
            || v@[k] == x by {
            if k < p {
                assert(v@[k] == old(v)@[k]);
                assert(old(v)@.contains(old(v)@[k]));
            } else if k > p {
                assert(v@[k] == old(v)@[k - 1]);
                assert(old(v)@.contains(old(v)@[k - 1]));
            }
        }
        assert forall|i: int, j: int| 0 <= i < j < v@.len() implies v@[i] < v@[j] by {
            if j < p {
            } else if i < p && j == p {
            } else if i < p && j > p {
                assert(v@[j] == old(v)@[j - 1]);
                assert(old(v)@[p as int] > x || p == n);
            } else if i == p {
                assert(v@[j] == old(v)@[j - 1]);
                assert(old(v)@[j - 1] >= old(v)@[p as int]);
            } else {
                assert(v@[i] == old(v)@[i - 1]);
                assert(v@[j] == old(v)@[j - 1]);
            }
        }
    }
}

impl Rule {
    /// An ordered list of prefix cuts (or suffix cuts): the cut points are
    /// sampled (or, for a short sequence, taken exhaustively), sorted and
    /// deduplicated, and the rules are emitted most aggressive first.
    pub fn create_start_end_rule(
        content_size: usize,
        number_of_checks: usize,
        remove_from_start: bool,
    ) -> (rules: Vec<Rule>)
        requires
            5 <= content_size,
            1 <= number_of_checks,
        ensures
            1 <= rules@.len(),
            forall|i: int|
                0 <= i < rules@.len() ==> rule_valid(#[trigger] rules@[i]@, content_size as nat),
            forall|i: int|
                0 <= i < rules@.len() ==> if remove_from_start {
                    is_start_cut(#[trigger] rules@[i]@, content_size as int)
                } else {
                    is_end_cut(#[trigger] rules@[i]@, content_size as int)
                },
            forall|i: int, j: int|
                0 <= i < j < rules@.len() ==> cut_size(#[trigger] rules@[i]@) > cut_size(
                    #[trigger] rules@[j]@,
                ),
            content_size < number_of_checks ==> {
                &&& rules@.len() == content_size - 1
                &&& (remove_from_start ==> forall|i: int|
                    0 <= i < rules@.len() ==> (#[trigger] rules@[i]@) == (RuleModel::Continuous {
                        lo: 0,
                        hi: content_size - 1 - i,
                    }))
                &&& (!remove_from_start ==> forall|i: int|
                    0 <= i < rules@.len() ==> (#[trigger] rules@[i]@) == (RuleModel::Continuous {
                        lo: 1 + i,
                        hi: content_size as int,
                    }))
            },
            content_size >= number_of_checks ==> rules@.len() <= number_of_checks,
    {
        let exhaustive = content_size < number_of_checks;
        let mut chosen: Vec<usize> = Vec::new();
        if exhaustive {
            for k in 1..content_size
                invariant
                    content_size >= 5,
                    chosen@.len() == k - 1,
                    forall|t: int| 0 <= t < chosen@.len() ==> #[trigger] chosen@[t] == t + 1,
            {
                chosen.push(k);
            }
        } else {
            for t in 0..number_of_checks
                invariant
                    content_size >= 5,
                    strictly_increasing(chosen@),
                    t >= 1 ==> chosen@.len() >= 1,
                    chosen@.len() <= t,
                    forall|k: int|
                        0 <= k < chosen@.len() ==> 1 <= #[trigger] chosen@[k] < content_size,
            {
                let x = gen_range(1, content_size);
                insert_sorted_unique(&mut chosen, x);
            }
        }
        proof {
            assert(strictly_increasing(chosen@));
            assert(chosen@.len() >= 1);
            assert(forall|k: int| 0 <= k < chosen@.len() ==> 1 <= #[trigger] chosen@[k]
                < content_size);
            if exhaustive {
                assert(chosen@.len() == content_size - 1);
                assert(forall|t: int| 0 <= t < chosen@.len() ==> #[trigger] chosen@[t] == t + 1);
            }
        }
        let m = chosen.len();
        let mut rules: Vec<Rule> = Vec::new();
        if remove_from_start {
            for t in 0..m
                invariant
                    m == chosen@.len(),
                    strictly_increasing(chosen@),
                    forall|k: int|
                        0 <= k < chosen@.len() ==> 1 <= #[trigger] chosen@[k] < content_size,
                    rules@.len() == t,
                    forall|i: int|
                        0 <= i < t ==> #[trigger] rules@[i]@ == (RuleModel::Continuous {
                            lo: 0int,
                            hi: chosen@[m - 1 - i] as int,
                        }),
            {
                rules.push(
                    Rule::RemoveContinuous {
                        start_idx_included: 0,
                        end_idx_excluded: chosen[m - 1 - t],
                    },
                );
            }
        } else {
            for t in 0..m
                invariant
                    m == chosen@.len(),
                    strictly_increasing(chosen@),
                    forall|k: int|
                        0 <= k < chosen@.len() ==> 1 <= #[trigger] chosen@[k] < content_size,
                    rules@.len() == t,
                    forall|i: int|
                        0 <= i < t ==> #[trigger] rules@[i]@ == (RuleModel::Continuous {
                            lo: chosen@[i] as int,
                            hi: content_size as int,
                        }),
            {
                rules.push(
                    Rule::RemoveContinuous {
                        start_idx_included: chosen[t],
                        end_idx_excluded: content_size,
                    },
                );
            }
        }
        rules
    }

    /// A random contiguous cut strictly inside the sequence: the first and
    /// the last element always stay.
    pub fn create_continuous_rule(content_size: usize) -> (r: Rule)
        requires
            content_size >= 5,
        ensures
            r@ matches RuleModel::Continuous { lo, hi } && 0 < lo && lo <= content_size - 3
                && lo < hi && hi <= content_size - 2,
            rule_valid(r@, content_size as nat),
    {
        let start_idx = gen_range(1, content_size - 2);
        let end_idx = gen_range(start_idx + 1, content_size - 1);
        Rule::RemoveContinuous { start_idx_included: start_idx, end_idx_excluded: end_idx }
    }

    /// A random sparse removal: at least one index, and few enough that at
    /// least one element always stays.
    #[verifier::rlimit(50)]
    pub fn create_random_rule(content_size: usize, number_of_indexes: Option<usize>) -> (r: Rule)
        requires
            content_size >= 5,
            number_of_indexes matches Some(n) ==> n >= 3,
        ensures
            r@ matches RuleModel::Sparse { idxs } && 1 <= idxs.len() <= content_size - 2 && (
            forall|k: int| 0 <= k < idxs.len() ==> #[trigger] idxs[k] < content_size),
            number_of_indexes matches Some(cap) ==> (r@ matches RuleModel::Sparse { idxs }
                && idxs.len() <= cap - 2),
            number_of_indexes is None ==> (r@ matches RuleModel::Sparse { idxs } && idxs.len()
                <= 98),
            rule_valid(r@, content_size as nat),
    {
        let max_number_of_indexes = match number_of_indexes {
            Some(n) => n,
            None => clamped_sqrt(content_size),
        };
        let number = gen_range(2, max_number_of_indexes);
        let limit = if number < content_size - 1 {
            number
        } else {
            content_size - 1
        };
        let count = limit - 1;
        let mut idxs: Vec<usize> = Vec::new();
        for t in 0..count
            invariant
                idxs@.len() == t,
                count <= content_size - 2,
                forall|k: int| 0 <= k < idxs@.len() ==> #[trigger] idxs@[k] < content_size,
        {
            idxs.push(gen_range(0, content_size));
        }
        proof {
            lemma_short_list_misses_index(idxs@, content_size as nat);
            assert(exists|k: int| 0 <= k < idxs@.len() && #[trigger] idxs@[k] < content_size) by {
                assert(idxs@[0] < content_size);
            }
        }
        Rule::RemoveRandom { indexes_to_remove: idxs }
    }
}

fn square_le(a: usize, n: usize) -> (b: bool)
    requires
        a <= 101,
    ensures
        b == (a * a <= n),
{
    proof {
        assert(a * a <= 10201) by (nonlinear_arith)
            requires
                a <= 101,
        ;
    }
    a * a <= n
}

/// Floor square root, clamped into `[3, 100]`.
fn clamped_sqrt(n: usize) -> (r: usize)
    ensures
        3 <= r <= 100,
        r * r <= n || r == 3,
        n < (r + 1) * (r + 1) || r == 100,
{
    let mut r: usize = 0;
    while r < 100 && square_le(r + 1, n)
        invariant
            r <= 100,
            r * r <= n || r == 0,
        decreases 100 - r,
    {
        r = r + 1;
    }
    if r < 3 {
        proof {
            assert(r <= 2);
            assert((r + 1) * (r + 1) <= 9) by (nonlinear_arith)
                requires
                    r <= 2,
            ;
            assert(n < 9 || r == 100);
        }
        r = 3;
    }
    r
}

/// The sum of the first `i` weights.
pub open spec fn spec_wsum(ws: Seq<(RuleType, usize)>, i: int) -> int
    decreases i,
{
    if i <= 0 {
        0
    } else {
        spec_wsum(ws, i - 1) + ws[i - 1].1
    }
}

proof fn lemma_wsum_mono(ws: Seq<(RuleType, usize)>, i: int, j: int)
    requires
        0 <= i <= j,
    ensures
        spec_wsum(ws, i) <= spec_wsum(ws, j),
    decreases j,
{
    if i < j {
        lemma_wsum_mono(ws, i, j - 1);
    }
}

impl RuleType {
    /// Draws one rule family at random, each family weighted as given.
    /// The call panics when no weight is positive or the weights overflow,
    /// which is the caller's responsibility to rule out.
    pub fn get_random_type(weights: &[(RuleType, usize)]) -> (r: RuleType)
        requires
            weights@.len() >= 1,
            spec_wsum(weights@, weights@.len() as int) <= usize::MAX,
            exists|i: int| 0 <= i < weights@.len() && #[trigger] weights@[i].1 > 0,
        ensures
            exists|i: int|
                0 <= i < weights@.len() && #[trigger] weights@[i].1 > 0 && r == weights@[i].0,
    {
        let n = weights.len();
        let mut total: usize = 0;
        for j in 0..n
            invariant
                n == weights@.len(),
                total == spec_wsum(weights@, j as int),
                spec_wsum(weights@, n as int) <= usize::MAX,
        {
            proof {
                lemma_wsum_mono(weights@, j + 1, n as int);
            }
            total = total + weights[j].1;
        }
        proof {
            let i = choose|i: int| 0 <= i < weights@.len() && #[trigger] weights@[i].1 > 0;
            lemma_wsum_mono(weights@, 0, i);
            lemma_wsum_mono(weights@, i + 1, n as int);
            assert(spec_wsum(weights@, i + 1) == spec_wsum(weights@, i) + weights@[i].1);
            assert(total >= 1);
        }
        let x = gen_range(0, total);
        let mut acc: usize = 0;
        let mut j: usize = 0;
        loop
            invariant
                j <= n,
                n == weights@.len(),
                acc == spec_wsum(weights@, j as int),
                acc <= x < total,
                total == spec_wsum(weights@, n as int),
                spec_wsum(weights@, n as int) <= usize::MAX,
            decreases n - j,
        {
            proof {
                if j == n {
                    assert(false);
                }
                lemma_wsum_mono(weights@, j + 1, n as int);
            }
            let w = weights[j].1;
            if x < acc + w {
                return weights[j].0;
            }
            acc = acc + w;
            j = j + 1;
        }
    }
}


/// The literal removal sets of the endgame, ordered by descending size.
pub open spec fn spec_all_combinations(len: int) -> Seq<Seq<usize>> {
    if len == 2 {
        seq![seq![0usize], seq![1usize]]
    } else if len == 3 {
        seq![
            seq![0usize, 1usize],
            seq![0usize, 2usize],
            seq![1usize, 2usize],
            seq![0usize],
            seq![1usize],
            seq![2usize],
        ]
    } else {
        seq![
            seq![0usize, 1usize, 2usize],
            seq![0usize, 1usize, 3usize],
            seq![0usize, 2usize, 3usize],
            seq![1usize, 2usize, 3usize],
            seq![0usize, 1usize],
            seq![0usize, 2usize],
            seq![0usize, 3usize],
            seq![1usize, 2usize],
            seq![1usize, 3usize],
            seq![2usize, 3usize],
            seq![0usize],
            seq![1usize],
            seq![2usize],
            seq![3usize],
        ]
    }
}

/// The endgame's removal sets as rule models, in order.
pub open spec fn spec_combination_models(len: int) -> Seq<RuleModel> {
    Seq::new(
        spec_all_combinations(len).len(),
        |i: int| RuleModel::Sparse { idxs: spec_all_combinations(len)[i] },
    )
}

pub(crate) fn idx1(a: usize) -> (r: Vec<usize>)
    ensures
        r@ == seq![a],
{
    let mut v: Vec<usize> = Vec::new();
    v.push(a);
    proof {
        assert(v@ =~= seq![a]);
    }
    v
}

fn idx2(a: usize, b: usize) -> (r: Vec<usize>)
    ensures
        r@ == seq![a, b],
{
    let mut v: Vec<usize> = Vec::new();
    v.push(a);
    v.push(b);
    proof {
        assert(v@ =~= seq![a, b]);
    }
    v
}

fn idx3(a: usize, b: usize, c: usize) -> (r: Vec<usize>)
    ensures
        r@ == seq![a, b, c],
{
    let mut v: Vec<usize> = Vec::new();
    v.push(a);
    v.push(b);
    v.push(c);
    proof {
        assert(v@ =~= seq![a, b, c]);
    }
    v
}

impl Rule {
    /// All candidate removals for a sequence of two to four elements: every
    /// non-empty proper subset of the positions, largest removals first.
    pub fn create_all_combinations_rule(content_size: usize) -> (rules: Vec<Rule>)
        requires
            2 <= content_size <= 4,
        ensures
            rules@.len() == spec_all_combinations(content_size as int).len(),
            forall|i: int|
                0 <= i < rules@.len() ==> (#[trigger] rules@[i]@) == (RuleModel::Sparse {
                    idxs: spec_all_combinations(content_size as int)[i],
                }),
            forall|i: int|
                0 <= i < rules@.len() ==> rule_valid(#[trigger] rules@[i]@, content_size as nat),
            forall|i: int, j: int|
                0 <= i < j < rules@.len() ==> spec_all_combinations(content_size as int)[i].len()
                    >= spec_all_combinations(content_size as int)[j].len(),
    {
        let mut rules: Vec<Rule> = Vec::new();
        if content_size == 2 {
            rules.push(Rule::RemoveRandom { indexes_to_remove: idx1(0) });
            rules.push(Rule::RemoveRandom { indexes_to_remove: idx1(1) });
        } else if content_size == 3 {
            rules.push(Rule::RemoveRandom { indexes_to_remove: idx2(0, 1) });
            rules.push(Rule::RemoveRandom { indexes_to_remove: idx2(0, 2) });
            rules.push(Rule::RemoveRandom { indexes_to_remove: idx2(1, 2) });
            rules.push(Rule::RemoveRandom { indexes_to_remove: idx1(0) });
            rules.push(Rule::RemoveRandom { indexes_to_remove: idx1(1) });
            rules.push(Rule::RemoveRandom { indexes_to_remove: idx1(2) });
        } else {
            rules.push(Rule::RemoveRandom { indexes_to_remove: idx3(0, 1, 2) });
            rules.push(Rule::RemoveRandom { indexes_to_remove: idx3(0, 1, 3) });
            rules.push(Rule::RemoveRandom { indexes_to_remove: idx3(0, 2, 3) });
            rules.push(Rule::RemoveRandom { indexes_to_remove: idx3(1, 2, 3) });
            rules.push(Rule::RemoveRandom { indexes_to_remove: idx2(0, 1) });
            rules.push(Rule::RemoveRandom { indexes_to_remove: idx2(0, 2) });
            rules.push(Rule::RemoveRandom { indexes_to_remove: idx2(0, 3) });
            rules.push(Rule::RemoveRandom { indexes_to_remove: idx2(1, 2) });
            rules.push(Rule::RemoveRandom { indexes_to_remove: idx2(1, 3) });
            rules.push(Rule::RemoveRandom { indexes_to_remove: idx2(2, 3) });
            rules.push(Rule::RemoveRandom { indexes_to_remove: idx1(0) });
            rules.push(Rule::RemoveRandom { indexes_to_remove: idx1(1) });
            rules.push(Rule::RemoveRandom { indexes_to_remove: idx1(2) });
            rules.push(Rule::RemoveRandom { indexes_to_remove: idx1(3) });
        }
        proof {
            assert forall|i: int| 0 <= i < rules@.len() implies (#[trigger] rules@[i]@)
                == (RuleModel::Sparse {
                idxs: spec_all_combinations(content_size as int)[i],
            }) by {}
            assert forall|i: int| 0 <= i < rules@.len() implies rule_valid(
                #[trigger] rules@[i]@,
                content_size as nat,
            ) by {
                let idxs = spec_all_combinations(content_size as int)[i];
                assert(idxs[0] < content_size);
                assert(idxs.len() < content_size);
                lemma_short_list_misses_index(idxs, content_size as nat);
            }
        }
        rules
    }
}


proof fn lemma_seq_to_set_eq(q: Seq<usize>, s: Set<usize>, len: int)
    requires
        forall|u: usize| #[trigger] s.contains(u) ==> u < len,
        forall|k: int| 0 <= k < q.len() ==> s.contains(#[trigger] q[k]),
        forall|u: usize| u < len && #[trigger] s.contains(u) ==> q.contains(u),
    ensures
        q.to_set() == s,
{
    assert forall|a: usize| q.to_set().contains(a) <==> s.contains(a) by {
        if q.contains(a) {
            let k = choose|k: int| 0 <= k < q.len() && q[k] == a;
            assert(s.contains(q[k]));
        }
        if s.contains(a) {
            assert(a < len);
        }
    }
    assert(q.to_set() =~= s);
}

/// The endgame enumerates every candidate: for a sequence of two to four
/// elements, each non-empty proper subset of its positions is the removal
/// set of one listed combination, and the combinations are ordered
/// largest removal first (see `create_all_combinations_rule`).
pub proof fn lemma_all_combinations_complete(len: int, s: Set<usize>)
    requires
        2 <= len <= 4,
        forall|u: usize| #[trigger] s.contains(u) ==> u < len,
        exists|u: usize| s.contains(u),
        exists|u: usize| u < len && !(#[trigger] s.contains(u)),
    ensures
        exists|i: int|
            0 <= i < spec_all_combinations(len).len() && (#[trigger] spec_all_combinations(
                len,
            )[i]).to_set() == s,
{
    let b0 = s.contains(0usize);
    let b1 = s.contains(1usize);
    let b2 = s.contains(2usize);
    let b3 = s.contains(3usize);
    if len == 2 {
        if !b0 && !b1 {
            let u = choose|u: usize| s.contains(u);
            assert(u < 2);
            assert(false);
        } else if b0 && !b1 {
            let q = spec_all_combinations(2)[0];
            assert(q.contains(0usize)) by {
                assert(q[0] == 0usize);
            }
            lemma_seq_to_set_eq(q, s, 2);
            assert((spec_all_combinations(2)[0]).to_set() == s);
        } else if !b0 && b1 {
            let q = spec_all_combinations(2)[1];
            assert(q.contains(1usize)) by {
                assert(q[0] == 1usize);
            }
            lemma_seq_to_set_eq(q, s, 2);
            assert((spec_all_combinations(2)[1]).to_set() == s);
        } else if b0 && b1 {
            let u = choose|u: usize| u < 2 && !s.contains(u);
            assert(false);
        }
    } else if len == 3 {
        if !b0 && !b1 && !b2 {
            let u = choose|u: usize| s.contains(u);
            assert(u < 3);
            assert(false);
        } else if b0 && !b1 && !b2 {
            let q = spec_all_combinations(3)[3];
            assert(q.contains(0usize)) by {
                assert(q[0] == 0usize);
            }
            lemma_seq_to_set_eq(q, s, 3);
            assert((spec_all_combinations(3)[3]).to_set() == s);
        } else if !b0 && b1 && !b2 {
            let q = spec_all_combinations(3)[4];
            assert(q.contains(1usize)) by {
                assert(q[0] == 1usize);
            }
            lemma_seq_to_set_eq(q, s, 3);
            assert((spec_all_combinations(3)[4]).to_set() == s);
        } else if b0 && b1 && !b2 {
            let q = spec_all_combinations(3)[0];
            assert(q.contains(0usize)) by {
                assert(q[0] == 0usize);
            }
            assert(q.contains(1usize)) by {
                assert(q[1] == 1usize);
            }
            lemma_seq_to_set_eq(q, s, 3);
            assert((spec_all_combinations(3)[0]).to_set() == s);
        } else if !b0 && !b1 && b2 {
            let q = spec_all_combinations(3)[5];
            assert(q.contains(2usize)) by {
                assert(q[0] == 2usize);
            }
            lemma_seq_to_set_eq(q, s, 3);
            assert((spec_all_combinations(3)[5]).to_set() == s);
        } else if b0 && !b1 && b2 {
            let q = spec_all_combinations(3)[1];
            assert(q.contains(0usize)) by {
                assert(q[0] == 0usize);
            }
            assert(q.contains(2usize)) by {
                assert(q[1] == 2usize);
            }
            lemma_seq_to_set_eq(q, s, 3);
            assert((spec_all_combinations(3)[1]).to_set() == s);
        } else if !b0 && b1 && b2 {
            let q = spec_all_combinations(3)[2];
            assert(q.contains(1usize)) by {
                assert(q[0] == 1usize);
            }
            assert(q.contains(2usize)) by {
                assert(q[1] == 2usize);
            }
            lemma_seq_to_set_eq(q, s, 3);
            assert((spec_all_combinations(3)[2]).to_set() == s);
        } else if b0 && b1 && b2 {
            let u = choose|u: usize| u < 3 && !s.contains(u);
            assert(false);
        }
    } else {
        if !b0 && !b1 && !b2 && !b3 {
            let u = choose|u: usize| s.contains(u);
            assert(u < 4);
            assert(false);
        } else if b0 && !b1 && !b2 && !b3 {
            let q = spec_all_combinations(4)[10];
            assert(q.contains(0usize)) by {
                assert(q[0] == 0usize);
            }
            lemma_seq_to_set_eq(q, s, 4);
            assert((spec_all_combinations(4)[10]).to_set() == s);
        } else if !b0 && b1 && !b2 && !b3 {
            let q = spec_all_combinations(4)[11];
            assert(q.contains(1usize)) by {
                assert(q[0] == 1usize);
            }
            lemma_seq_to_set_eq(q, s, 4);
            assert((spec_all_combinations(4)[11]).to_set() == s);
        } else if b0 && b1 && !b2 && !b3 {
            let q = spec_all_combinations(4)[4];
            assert(q.contains(0usize)) by {
                assert(q[0] == 0usize);
            }
            assert(q.contains(1usize)) by {
                assert(q[1] == 1usize);
            }
            lemma_seq_to_set_eq(q, s, 4);
            assert((spec_all_combinations(4)[4]).to_set() == s);
        } else if !b0 && !b1 && b2 && !b3 {
            let q = spec_all_combinations(4)[12];
            assert(q.contains(2usize)) by {
                assert(q[0] == 2usize);
            }
            lemma_seq_to_set_eq(q, s, 4);
            assert((spec_all_combinations(4)[12]).to_set() == s);
        } else if b0 && !b1 && b2 && !b3 {
            let q = spec_all_combinations(4)[5];
            assert(q.contains(0usize)) by {
                assert(q[0] == 0usize);
            }
            assert(q.contains(2usize)) by {
                assert(q[1] == 2usize);
            }
            lemma_seq_to_set_eq(q, s, 4);
            assert((spec_all_combinations(4)[5]).to_set() == s);
        } else if !b0 && b1 && b2 && !b3 {
            let q = spec_all_combinations(4)[7];
            assert(q.contains(1usize)) by {
                assert(q[0] == 1usize);
            }
            assert(q.contains(2usize)) by {
                assert(q[1] == 2usize);
            }
            lemma_seq_to_set_eq(q, s, 4);
            assert((spec_all_combinations(4)[7]).to_set() == s);
        } else if b0 && b1 && b2 && !b3 {
            let q = spec_all_combinations(4)[0];
            assert(q.contains(0usize)) by {
                assert(q[0] == 0usize);
            }
            assert(q.contains(1usize)) by {
                assert(q[1] == 1usize);
            }
            assert(q.contains(2usize)) by {
                assert(q[2] == 2usize);
            }
            lemma_seq_to_set_eq(q, s, 4);
            assert((spec_all_combinations(4)[0]).to_set() == s);
        } else if !b0 && !b1 && !b2 && b3 {
            let q = spec_all_combinations(4)[13];
            assert(q.contains(3usize)) by {
                assert(q[0] == 3usize);
            }
            lemma_seq_to_set_eq(q, s, 4);
            assert((spec_all_combinations(4)[13]).to_set() == s);
        } else if b0 && !b1 && !b2 && b3 {
            let q = spec_all_combinations(4)[6];
            assert(q.contains(0usize)) by {
                assert(q[0] == 0usize);
            }
            assert(q.contains(3usize)) by {
                assert(q[1] == 3usize);
            }
            lemma_seq_to_set_eq(q, s, 4);
            assert((spec_all_combinations(4)[6]).to_set() == s);
        } else if !b0 && b1 && !b2 && b3 {
            let q = spec_all_combinations(4)[8];
            assert(q.contains(1usize)) by {
                assert(q[0] == 1usize);
            }
            assert(q.contains(3usize)) by {
                assert(q[1] == 3usize);
            }
            lemma_seq_to_set_eq(q, s, 4);
            assert((spec_all_combinations(4)[8]).to_set() == s);
        } else if b0 && b1 && !b2 && b3 {
            let q = spec_all_combinations(4)[1];
            assert(q.contains(0usize)) by {
                assert(q[0] == 0usize);
            }
            assert(q.contains(1usize)) by {
                assert(q[1] == 1usize);
            }
            assert(q.contains(3usize)) by {
                assert(q[2] == 3usize);
            }
            lemma_seq_to_set_eq(q, s, 4);
            assert((spec_all_combinations(4)[1]).to_set() == s);
        } else if !b0 && !b1 && b2 && b3 {
            let q = spec_all_combinations(4)[9];
            assert(q.contains(2usize)) by {
                assert(q[0] == 2usize);
            }
            assert(q.contains(3usize)) by {
                assert(q[1] == 3usize);
            }
            lemma_seq_to_set_eq(q, s, 4);
            assert((spec_all_combinations(4)[9]).to_set() == s);
        } else if b0 && !b1 && b2 && b3 {
            let q = spec_all_combinations(4)[2];
            assert(q.contains(0usize)) by {
                assert(q[0] == 0usize);
            }
            assert(q.contains(2usize)) by {
                assert(q[1] == 2usize);
            }
            assert(q.contains(3usize)) by {
                assert(q[2] == 3usize);
            }
            lemma_seq_to_set_eq(q, s, 4);
            assert((spec_all_combinations(4)[2]).to_set() == s);
        } else if !b0 && b1 && b2 && b3 {
            let q = spec_all_combinations(4)[3];
            assert(q.contains(1usize)) by {
                assert(q[0] == 1usize);
            }
            assert(q.contains(2usize)) by {
                assert(q[1] == 2usize);
            }
            assert(q.contains(3usize)) by {
                assert(q[2] == 3usize);
            }
            lemma_seq_to_set_eq(q, s, 4);
            assert((spec_all_combinations(4)[3]).to_set() == s);
        } else if b0 && b1 && b2 && b3 {
            let u = choose|u: usize| u < 4 && !s.contains(u);
            assert(false);
        }
    }
}

proof fn lemma_encode_keep_upto(s: Seq<char>, removed: Seq<usize>, i: int)
    requires
        0 <= i <= s.len(),
    ensures
        encode_utf8(keep_upto(s, removed, i)).len() <= encode_utf8(s.take(i)).len(),
    decreases i,
{
    if i > 0 {
        lemma_encode_keep_upto(s, removed, i - 1);
        assert(s.take(i) =~= s.take(i - 1).push(s[i - 1]));
        lemma_encode_utf8_push(s.take(i - 1), s[i - 1]);
        if removed.contains((i - 1) as usize) {
            assert(keep_upto(s, removed, i) =~= keep_upto(s, removed, i - 1));
        } else {
            assert(keep_upto(s, removed, i) =~= keep_upto(s, removed, i - 1).push(s[i - 1]));
            lemma_encode_utf8_push(keep_upto(s, removed, i - 1), s[i - 1]);
        }
    } else {
        assert(s.take(0) =~= Seq::<char>::empty());
        assert(keep_upto(s, removed, 0) =~= Seq::<char>::empty());
    }
}

/// A valid rule never grows the UTF-8 encoding of a character sequence.
pub proof fn lemma_apply_rule_encode_len(m: RuleModel, s: Seq<char>)
    requires
        rule_valid(m, s.len()),
    ensures
        encode_utf8(apply_rule(m, s)).len() <= encode_utf8(s).len(),
{
    match m {
        RuleModel::Continuous { lo, hi } => {
            let n = s.len() as int;
            let pre = s.subrange(0, lo);
            let mid = s.subrange(lo, hi);
            let suf = s.subrange(hi, n);
            assert(s =~= pre + (mid + suf));
            lemma_encode_utf8_concat(pre, mid + suf);
            lemma_encode_utf8_concat(mid, suf);
            lemma_encode_utf8_concat(pre, suf);
        },
        RuleModel::Sparse { idxs } => {
            lemma_encode_keep_upto(s, idxs, s.len() as int);
            assert(s.take(s.len() as int) =~= s);
        },
    }
}

} // verus!
