//! Measure accumulators are summaries of model performance, such as classification accuracy.
//!
//! An accumulator is fed pairs of a known and a predicted label, one at a time.
//! What it has been fed, in order, is its mathematical content; what it reports
//! is a function of that content alone.

use std::collections::HashMap;
use std::hash::Hash;
use vstd::pervasive::cloned;
use vstd::prelude::*;
use vstd::std_specs::cmp::PartialEqSpec;
use vstd::std_specs::hash::obeys_key_model;

use crate::error::Error;

verus! {

/// The pairs that two sequences of equal length form, position by position.
pub open spec fn paired<T>(known: Seq<T>, predicted: Seq<T>) -> Seq<(T, T)> {
    Seq::new(known.len(), |i: int| (known[i], predicted[i]))
}

/// Trait implemented by performance measures.
pub trait MeasureAccumulator<T>: Sized {
    /// What the measure reports.
    type Summary;

    /// What the measure needs of the type of the labels.
    spec fn labels_ok() -> bool;

    /// Whether the accumulator's state is consistent with what it has seen.
    spec fn wf(&self) -> bool;

    /// The pairs of a known and a predicted label seen so far, oldest first.
    spec fn observed(&self) -> Seq<(T, T)>;

    /// How many pairs an accumulator can take.
    spec fn capacity() -> nat;

    /// The report on a sequence of pairs.
    spec fn summary(observed: Seq<(T, T)>) -> Result<Self::Summary, Error>;

    /// Initialize a new measure, which has seen nothing.
    fn new() -> (measure: Self)
        requires
            Self::labels_ok(),
        ensures
            measure.wf(),
            measure.observed() == Seq::<(T, T)>::empty(),
    ;

    /// Update with one prediction.
    fn update_one(&mut self, known: &T, pred: &T)
        requires
            old(self).wf(),
            old(self).observed().len() < Self::capacity(),
        ensures
            final(self).wf(),
            final(self).observed() == old(self).observed().push((*known, *pred)),
    ;

    /// How many more pairs the accumulator can take.
    fn room(&self) -> (left: usize)
        requires
            self.wf(),
        ensures
            left == Self::capacity() - self.observed().len(),
    ;

    /// Get the resulting performance. There is none before the measure has
    /// seen enough to have one.
    fn result(&self) -> (report: Result<Self::Summary, Error>)
        requires
            self.wf(),
        ensures
            report == Self::summary(self.observed()),
    ;

    /// Update with multiple predictions, paired with the known labels position
    /// by position. Sequences of different lengths are refused, and nothing is
    /// taken from them.
    fn update(&mut self, known: &[T], predicted: &[T]) -> (done: Result<(), Error>)
        requires
            old(self).wf(),
            old(self).observed().len() + known@.len() <= Self::capacity(),
        ensures
            final(self).wf(),
            known@.len() != predicted@.len() ==> done == Err::<(), Error>(Error::LengthMismatch)
                && final(self).observed() == old(self).observed(),
            known@.len() == predicted@.len() ==> done == Ok::<(), Error>(())
                && final(self).observed() == old(self).observed() + paired(known@, predicted@),
    {
        if known.len() != predicted.len() {
            return Err(Error::LengthMismatch);
        }
        let mut i: usize = 0;
        while i < known.len()
            invariant
                i <= known@.len(),
                known@.len() == predicted@.len(),
                self.wf(),
                old(self).observed().len() + known@.len() <= Self::capacity(),
                self.observed() == old(self).observed() + paired(known@, predicted@).take(i as int),
            decreases known@.len() - i,
        {
            self.update_one(&known[i], &predicted[i]);
            proof {
                assert(paired(known@, predicted@).take(i as int + 1) == paired(
                    known@,
                    predicted@,
                ).take(i as int).push((known@[i as int], predicted@[i as int])));
            }
            i = i + 1;
        }
        Ok(())
    }
}

/// A share of a whole, as two counts.
#[derive(Clone, Copy, Debug, PartialEq, Eq, Structural)]
pub struct Ratio {
    pub numerator: usize,
    pub denominator: usize,
}

/// How many of `observed` pair a label with an equal one.
pub open spec fn agreements<T: PartialEq>(observed: Seq<(T, T)>) -> nat
    decreases observed.len(),
{
    if observed.len() == 0 {
        0
    } else {
        agreements(observed.drop_last()) + if observed.last().0.eq_spec(&observed.last().1) {
            1nat
        } else {
            0nat
        }
    }
}

/// Classification Accuracy: relative amount of correctly classified labels.
pub struct PredictiveAccuracy<T> {
    n_correct: usize,
    n_wrong: usize,
    seen: Ghost<Seq<(T, T)>>,
}

impl<T: PartialEq> MeasureAccumulator<T> for PredictiveAccuracy<T> {
    type Summary = Ratio;

    open spec fn labels_ok() -> bool {
        T::obeys_eq_spec()
    }

    closed spec fn wf(&self) -> bool {
        &&& T::obeys_eq_spec()
        &&& self.n_correct == agreements(self.seen@)
        &&& self.n_correct + self.n_wrong == self.seen@.len()
        &&& self.seen@.len() <= usize::MAX
    }

    closed spec fn observed(&self) -> Seq<(T, T)> {
        self.seen@
    }

    open spec fn capacity() -> nat {
        usize::MAX as nat
    }

    /// The pairs that agree out of all pairs; nothing where there is no pair.
    open spec fn summary(observed: Seq<(T, T)>) -> Result<Ratio, Error> {
        if observed.len() == 0 {
            Err(Error::DegenerateMeasure)
        } else {
            Ok(
                Ratio {
                    numerator: agreements(observed) as usize,
                    denominator: observed.len() as usize,
                },
            )
        }
    }

    fn new() -> (measure: Self) {
        PredictiveAccuracy { n_correct: 0, n_wrong: 0, seen: Ghost(Seq::empty()) }
    }

    fn update_one(&mut self, known: &T, pred: &T) {
        proof {
            assert(self.seen@.push((*known, *pred)).drop_last() =~= self.seen@);
        }
        if *known == *pred {
            self.n_correct = self.n_correct + 1;
        } else {
            self.n_wrong = self.n_wrong + 1;
        }
        self.seen = Ghost(self.seen@.push((*known, *pred)));
    }

    fn room(&self) -> (left: usize) {
        usize::MAX - (self.n_correct + self.n_wrong)
    }

    fn result(&self) -> (report: Result<Ratio, Error>) {
        if self.n_correct == 0 && self.n_wrong == 0 {
            Err(Error::DegenerateMeasure)
        } else {
            Ok(Ratio { numerator: self.n_correct, denominator: self.n_correct + self.n_wrong })
        }
    }
}

/// The number of unordered pairs within a group of `n`.
pub open spec fn pairs(n: nat) -> nat {
    if n == 0 {
        0
    } else {
        (n * (n - 1) / 2) as nat
    }
}

/// A group of one more has as many more pairs as it had members.
pub proof fn lemma_pairs_step(n: nat)
    ensures
        pairs(n + 1) == pairs(n) + n,
{
    if n > 0 {
        assert((n + 1) * n == n * (n - 1) + 2 * n) by (nonlinear_arith);
    }
}

/// A larger group has no fewer pairs.
pub proof fn lemma_pairs_monotonic(m: nat, n: nat)
    requires
        m <= n,
    ensures
        pairs(m) <= pairs(n),
    decreases n - m,
{
    if m < n {
        lemma_pairs_step(m);
        lemma_pairs_monotonic(m + 1, n);
    }
}

/// The number of unordered pairs within a group of `n`, computed so that no
/// intermediate value is larger than the result.
pub fn combinations(n: usize) -> (c: usize)
    requires
        pairs(n as nat) <= usize::MAX,
    ensures
        c == pairs(n as nat),
{
    if n == 0 {
        0
    } else if n % 2 == 0 {
        let half = n / 2;
        assert((n - 1) * half == n * (n - 1) / 2) by (nonlinear_arith)
            requires
                n == 2 * half,
                n >= 1,
        ;
        (n - 1) * half
    } else {
        let half = (n - 1) / 2;
        assert(n * half == n * (n - 1) / 2) by (nonlinear_arith)
            requires
                n - 1 == 2 * half,
                n >= 1,
        ;
        n * half
    }
}

/// How often `key` occurs in `keys`.
pub open spec fn occurrences<K>(keys: Seq<K>, key: K) -> nat
    decreases keys.len(),
{
    if keys.len() == 0 {
        0
    } else {
        occurrences(keys.drop_last(), key) + if keys.last() == key {
            1nat
        } else {
            0nat
        }
    }
}

/// The number of unordered pairs of positions of `keys` that hold equal keys:
/// each key adds as many pairs as there are equal keys before it.
pub open spec fn alike_pairs<K>(keys: Seq<K>) -> nat
    decreases keys.len(),
{
    if keys.len() == 0 {
        0
    } else {
        alike_pairs(keys.drop_last()) + occurrences(keys.drop_last(), keys.last())
    }
}

/// A key occurs no more often than there are keys.
pub proof fn lemma_occurrences_bounded<K>(keys: Seq<K>, key: K)
    ensures
        occurrences(keys, key) <= keys.len(),
    decreases keys.len(),
{
    if keys.len() > 0 {
        lemma_occurrences_bounded(keys.drop_last(), key);
    }
}

/// No more pairs hold equal keys than there are pairs.
pub proof fn lemma_alike_pairs_bounded<K>(keys: Seq<K>)
    ensures
        alike_pairs(keys) <= pairs(keys.len()),
    decreases keys.len(),
{
    if keys.len() > 0 {
        lemma_alike_pairs_bounded(keys.drop_last());
        lemma_occurrences_bounded(keys.drop_last(), keys.last());
        lemma_pairs_step(keys.drop_last().len());
    }
}

/// The sum, over the keys in `groups`, of the pairs within the group of the
/// occurrences of the key in `keys`.
pub open spec fn pairs_within_groups<K>(keys: Seq<K>, groups: Seq<K>) -> nat
    decreases groups.len(),
{
    if groups.len() == 0 {
        0
    } else {
        pairs_within_groups(keys, groups.drop_last()) + pairs(occurrences(keys, groups.last()))
    }
}

/// One more key adds to the sum over the groups as many pairs as its group
/// had members, where it has a group.
pub proof fn lemma_pairs_within_groups_step<K>(keys: Seq<K>, key: K, groups: Seq<K>)
    requires
        groups.no_duplicates(),
    ensures
        pairs_within_groups(keys.push(key), groups) == pairs_within_groups(keys, groups)
            + if groups.contains(key) {
            occurrences(keys, key)
        } else {
            0
        },
    decreases groups.len(),
{
    if groups.len() > 0 {
        let rest = groups.drop_last();
        lemma_pairs_within_groups_step(keys, key, rest);
        assert(keys.push(key).drop_last() =~= keys);
        lemma_pairs_step(occurrences(keys, key));
        if groups.last() == key {
            assert(!rest.contains(key));
            assert(groups.contains(key));
        } else {
            assert(rest.contains(key) == groups.contains(key)) by {
                if groups.contains(key) {
                    let i = choose|i: int| 0 <= i < groups.len() && groups[i] == key;
                    assert(rest[i] == key);
                }
                if rest.contains(key) {
                    let i = choose|i: int| 0 <= i < rest.len() && rest[i] == key;
                    assert(groups[i] == key);
                }
            }
        }
    }
}

/// The pairs of positions that hold equal keys are the pairs within the groups
/// of equal keys, summed over the groups: over the cells of a contingency
/// table, where the keys are pairs of labels, and over its rows or columns,
/// where they are labels.
pub proof fn lemma_alike_pairs_by_groups<K>(keys: Seq<K>, groups: Seq<K>)
    requires
        groups.no_duplicates(),
        forall|i: int| 0 <= i < keys.len() ==> groups.contains(#[trigger] keys[i]),
    ensures
        alike_pairs(keys) == pairs_within_groups(keys, groups),
    decreases keys.len(),
{
    if keys.len() == 0 {
        lemma_no_keys_no_pairs(keys, groups);
    } else {
        let rest = keys.drop_last();
        assert forall|i: int| 0 <= i < rest.len() implies groups.contains(#[trigger] rest[i]) by {
            assert(rest[i] == keys[i]);
        }
        lemma_alike_pairs_by_groups(rest, groups);
        lemma_pairs_within_groups_step(rest, keys.last(), groups);
        assert(rest.push(keys.last()) =~= keys);
        assert(groups.contains(keys[keys.len() - 1]));
    }
}

/// Without keys there are no pairs in any group.
pub proof fn lemma_no_keys_no_pairs<K>(keys: Seq<K>, groups: Seq<K>)
    requires
        keys.len() == 0,
    ensures
        pairs_within_groups(keys, groups) == 0,
    decreases groups.len(),
{
    if groups.len() > 0 {
        lemma_no_keys_no_pairs(keys, groups.drop_last());
    }
}

/// The known labels of `observed`, in order.
pub open spec fn knowns<T>(observed: Seq<(T, T)>) -> Seq<T> {
    Seq::new(observed.len(), |i: int| observed[i].0)
}

/// The predicted labels of `observed`, in order.
pub open spec fn predicteds<T>(observed: Seq<(T, T)>) -> Seq<T> {
    Seq::new(observed.len(), |i: int| observed[i].1)
}

/// The four counts of pairs from which the adjusted Rand index is formed.
///
/// With `expected = known_pairs * predicted_pairs / total_pairs` and
/// `max = (known_pairs + predicted_pairs) / 2`, taken as real numbers, the
/// index is `(index - expected) / (max - expected)`.
#[derive(Clone, Copy, Debug, PartialEq, Eq, Structural)]
pub struct RandIndex {
    /// Pairs of observations alike in both labels.
    pub index: usize,
    /// Pairs of observations alike in the known label.
    pub known_pairs: usize,
    /// Pairs of observations alike in the predicted label.
    pub predicted_pairs: usize,
    /// All pairs of observations.
    pub total_pairs: usize,
}

/// Whether a clone of a label is the label.
pub open spec fn clones_are_equal<T: Clone>() -> bool {
    forall|a: T, b: T| cloned(a, b) ==> a == b
}

/// The count that a table of counts holds for `key`: none where it has no entry.
pub open spec fn count_at<T>(counts: Map<T, usize>, key: T) -> nat {
    if counts.contains_key(key) {
        counts[key] as nat
    } else {
        0
    }
}

/// The count that a contingency table holds for a known and a predicted label.
pub open spec fn cell_at<T>(table: Map<T, HashMap<T, usize>>, known: T, pred: T) -> nat {
    if table.contains_key(known) {
        count_at(table[known]@, pred)
    } else {
        0
    }
}

/// Counts `key` once more, and returns how often it was counted before.
fn count_one_more<T: Eq + Hash + Clone>(counts: &mut HashMap<T, usize>, key: &T) -> (before: usize)
    requires
        obeys_key_model::<T>(),
        clones_are_equal::<T>(),
        count_at(old(counts)@, *key) < usize::MAX,
    ensures
        before == count_at(old(counts)@, *key),
        final(counts)@ == old(counts)@.insert(*key, (before + 1) as usize),
{
    broadcast use vstd::std_specs::hash::group_hash_axioms;

    let before = match counts.get(key) {
        Some(count) => *count,
        None => 0,
    };
    let owned = key.clone();
    assert(cloned(*key, owned));
    counts.insert(owned, before + 1);
    before
}

/// Counts the cell of `known` and `pred` once more, and returns how often it
/// was counted before.
fn count_cell_one_more<T: Eq + Hash + Clone>(
    table: &mut HashMap<T, HashMap<T, usize>>,
    known: &T,
    pred: &T,
) -> (before: usize)
    requires
        obeys_key_model::<T>(),
        clones_are_equal::<T>(),
        cell_at(old(table)@, *known, *pred) < usize::MAX,
    ensures
        before == cell_at(old(table)@, *known, *pred),
        forall|k: T, p: T|
            #[trigger] cell_at(final(table)@, k, p) == if k == *known && p == *pred {
                (before + 1) as nat
            } else {
                cell_at(old(table)@, k, p)
            },
{
    broadcast use vstd::std_specs::hash::group_hash_axioms;

    let mut row = match table.remove(known) {
        Some(row) => row,
        None => HashMap::new(),
    };
    let before = count_one_more(&mut row, pred);
    let owned = known.clone();
    assert(cloned(*known, owned));
    table.insert(owned, row);
    before
}

/// Adjusted Rand Index: how far two labellings of the same rows agree on which
/// rows belong together, corrected for the agreement that chance would give.
pub struct AdjustedRandIndex<T> where T: Eq + Hash {
    contingency_table: HashMap<T, HashMap<T, usize>>,
    known_totals: HashMap<T, usize>,
    predicted_totals: HashMap<T, usize>,
    index: usize,
    known_pairs: usize,
    predicted_pairs: usize,
    n_total: usize,
    seen: Ghost<Seq<(T, T)>>,
}

impl<T: Eq + Hash + Clone> MeasureAccumulator<T> for AdjustedRandIndex<T> {
    type Summary = RandIndex;

    open spec fn labels_ok() -> bool {
        obeys_key_model::<T>() && clones_are_equal::<T>()
    }

    closed spec fn wf(&self) -> bool {
        &&& obeys_key_model::<T>()
        &&& clones_are_equal::<T>()
        &&& self.seen@.len() <= Self::capacity()
        &&& self.n_total == self.seen@.len()
        &&& self.index == alike_pairs(self.seen@)
        &&& self.known_pairs == alike_pairs(knowns(self.seen@))
        &&& self.predicted_pairs == alike_pairs(predicteds(self.seen@))
        &&& forall|k: T| #[trigger]
            count_at(self.known_totals@, k) == occurrences(knowns(self.seen@), k)
        &&& forall|p: T| #[trigger]
            count_at(self.predicted_totals@, p) == occurrences(predicteds(self.seen@), p)
        &&& forall|k: T, p: T| #[trigger]
            cell_at(self.contingency_table@, k, p) == occurrences(self.seen@, (k, p))
    }

    closed spec fn observed(&self) -> Seq<(T, T)> {
        self.seen@
    }

    /// As many pairs as keep every count of pairs within the machine's integers.
    open spec fn capacity() -> nat {
        if usize::MAX > 0xFFFF_FFFF {
            0xFFFF_FFFF
        } else {
            0xFFFF
        }
    }

    /// The four counts of pairs. There is no index for fewer than two
    /// observations, nor where the expected index equals the maximum index, which is
    /// where `total_pairs * (known_pairs + predicted_pairs)` equals
    /// `2 * known_pairs * predicted_pairs`.
    open spec fn summary(observed: Seq<(T, T)>) -> Result<RandIndex, Error> {
        let total = pairs(observed.len());
        let a = alike_pairs(knowns(observed));
        let b = alike_pairs(predicteds(observed));
        if observed.len() < 2 || total * (a + b) == 2 * a * b {
            Err(Error::DegenerateMeasure)
        } else {
            Ok(
                RandIndex {
                    index: alike_pairs(observed) as usize,
                    known_pairs: a as usize,
                    predicted_pairs: b as usize,
                    total_pairs: total as usize,
                },
            )
        }
    }

    fn new() -> (measure: Self) {
        AdjustedRandIndex {
            contingency_table: HashMap::new(),
            known_totals: HashMap::new(),
            predicted_totals: HashMap::new(),
            index: 0,
            known_pairs: 0,
            predicted_pairs: 0,
            n_total: 0,
            seen: Ghost(Seq::empty()),
        }
    }

    fn update_one(&mut self, known: &T, pred: &T) {
        let ghost before = self.seen@;
        let ghost after = before.push((*known, *pred));
        proof {
            assert(after.drop_last() =~= before);
            assert(knowns(after).drop_last() =~= knowns(before));
            assert(predicteds(after).drop_last() =~= predicteds(before));
            lemma_occurrences_bounded(before, (*known, *pred));
            lemma_occurrences_bounded(knowns(before), *known);
            lemma_occurrences_bounded(predicteds(before), *pred);
            lemma_alike_pairs_bounded(after);
            lemma_alike_pairs_bounded(knowns(after));
            lemma_alike_pairs_bounded(predicteds(after));
            lemma_capacity_fits();
            lemma_pairs_monotonic(after.len(), Self::capacity());
        }
        let both = count_cell_one_more(&mut self.contingency_table, known, pred);
        let row = count_one_more(&mut self.known_totals, known);
        let column = count_one_more(&mut self.predicted_totals, pred);
        self.index = self.index + both;
        self.known_pairs = self.known_pairs + row;
        self.predicted_pairs = self.predicted_pairs + column;
        self.n_total = self.n_total + 1;
        self.seen = Ghost(after);
        proof {
            assert forall|k: T| #[trigger]
                count_at(self.known_totals@, k) == occurrences(knowns(after), k) by {
                assert(count_at(old(self).known_totals@, k) == occurrences(knowns(before), k));
            }
            assert forall|p: T| #[trigger]
                count_at(self.predicted_totals@, p) == occurrences(predicteds(after), p) by {
                assert(count_at(old(self).predicted_totals@, p) == occurrences(
                    predicteds(before),
                    p,
                ));
            }
        }
    }

    fn room(&self) -> (left: usize) {
        if usize::MAX > 0xFFFF_FFFF {
            0xFFFF_FFFF - self.n_total
        } else {
            0xFFFF - self.n_total
        }
    }

    fn result(&self) -> (report: Result<RandIndex, Error>) {
        if self.n_total < 2 {
            return Err(Error::DegenerateMeasure);
        }
        proof {
            lemma_alike_pairs_bounded(self.seen@);
            lemma_alike_pairs_bounded(knowns(self.seen@));
            lemma_alike_pairs_bounded(predicteds(self.seen@));
            lemma_capacity_fits();
            lemma_pairs_monotonic(self.seen@.len(), Self::capacity());
        }
        let total = combinations(self.n_total);
        if balanced(total, self.known_pairs, self.predicted_pairs) {
            Err(Error::DegenerateMeasure)
        } else {
            Ok(
                RandIndex {
                    index: self.index,
                    known_pairs: self.known_pairs,
                    predicted_pairs: self.predicted_pairs,
                    total_pairs: total,
                },
            )
        }
    }
}

/// `s` with the entries at `i` and at `i + 1` exchanged.
pub open spec fn exchanged<K>(s: Seq<K>, i: int) -> Seq<K> {
    s.update(i, s[i + 1]).update(i + 1, s[i])
}

/// How often a key occurs does not depend on the order of the keys.
pub proof fn lemma_occurrences_ignore_order<K>(keys: Seq<K>, key: K, i: int)
    requires
        0 <= i,
        i + 1 < keys.len(),
    ensures
        occurrences(exchanged(keys, i), key) == occurrences(keys, key),
    decreases keys.len(),
{
    reveal_with_fuel(occurrences, 3);
    let turned = exchanged(keys, i);
    if i + 1 == keys.len() - 1 {
        assert(turned.drop_last().drop_last() =~= keys.drop_last().drop_last());
        assert(turned.drop_last().last() == keys.last());
        assert(keys.drop_last().last() == turned.last());
    } else {
        assert(turned.last() == keys.last());
        assert(turned.drop_last() =~= exchanged(keys.drop_last(), i));
        lemma_occurrences_ignore_order(keys.drop_last(), key, i);
    }
}

/// How many pairs of positions hold equal keys does not depend on the order
/// of the keys.
pub proof fn lemma_alike_pairs_ignore_order<K>(keys: Seq<K>, i: int)
    requires
        0 <= i,
        i + 1 < keys.len(),
    ensures
        alike_pairs(exchanged(keys, i)) == alike_pairs(keys),
    decreases keys.len(),
{
    reveal_with_fuel(alike_pairs, 3);
    reveal_with_fuel(occurrences, 3);
    let turned = exchanged(keys, i);
    if i + 1 == keys.len() - 1 {
        assert(turned.drop_last().drop_last() =~= keys.drop_last().drop_last());
        assert(turned.drop_last().last() == keys.last());
        assert(keys.drop_last().last() == turned.last());
    } else {
        assert(turned.last() == keys.last());
        assert(turned.drop_last() =~= exchanged(keys.drop_last(), i));
        lemma_alike_pairs_ignore_order(keys.drop_last(), i);
        lemma_occurrences_ignore_order(keys.drop_last(), keys.last(), i);
    }
}

/// How many pairs agree does not depend on the order of the pairs.
pub proof fn lemma_agreements_ignore_order<T: PartialEq>(observed: Seq<(T, T)>, i: int)
    requires
        0 <= i,
        i + 1 < observed.len(),
    ensures
        agreements(exchanged(observed, i)) == agreements(observed),
    decreases observed.len(),
{
    reveal_with_fuel(agreements, 3);
    let turned = exchanged(observed, i);
    if i + 1 == observed.len() - 1 {
        assert(turned.drop_last().drop_last() =~= observed.drop_last().drop_last());
        assert(turned.drop_last().last() == observed.last());
        assert(observed.drop_last().last() == turned.last());
    } else {
        assert(turned.last() == observed.last());
        assert(turned.drop_last() =~= exchanged(observed.drop_last(), i));
        lemma_agreements_ignore_order(observed.drop_last(), i);
    }
}

/// What the measures report does not change when two observations that
/// follow one another change places, and so it does not depend on the order
/// of the observations at all: folds may be fed in any order.
pub proof fn lemma_measures_ignore_order<T: Eq + Hash + Clone>(observed: Seq<(T, T)>, i: int)
    requires
        0 <= i,
        i + 1 < observed.len(),
    ensures
        PredictiveAccuracy::<T>::summary(exchanged(observed, i)) == PredictiveAccuracy::<T>::summary(
            observed,
        ),
        AdjustedRandIndex::<T>::summary(exchanged(observed, i)) == AdjustedRandIndex::<T>::summary(
            observed,
        ),
{
    lemma_agreements_ignore_order(observed, i);
    lemma_alike_pairs_ignore_order(observed, i);
    lemma_alike_pairs_ignore_order(knowns(observed), i);
    lemma_alike_pairs_ignore_order(predicteds(observed), i);
    assert(knowns(exchanged(observed, i)) =~= exchanged(knowns(observed), i));
    assert(predicteds(exchanged(observed, i)) =~= exchanged(predicteds(observed), i));
}

/// The largest number of pairs that any accumulator takes has fewer than 2^63
/// pairs within it, and no more than the machine's integers hold.
pub proof fn lemma_capacity_fits()
    ensures
        pairs(0xFFFF) <= 0xFFFF_FFFF,
        pairs(0xFFFF_FFFF) < 0x8000_0000_0000_0000,
{
}

/// Whether `total * (a + b)` equals `2 * a * b`.
fn balanced(total: usize, a: usize, b: usize) -> (yes: bool)
    requires
        total < 0x8000_0000_0000_0000,
        a <= total,
        b <= total,
    ensures
        yes == (total * (a + b) == 2 * a * b),
{
    let wide_total = total as u128;
    let wide_a = a as u128;
    let wide_b = b as u128;
    assert(wide_total * (wide_a + wide_b) <= 0x8000_0000_0000_0000 * 0x1_0000_0000_0000_0000)
        by (nonlinear_arith)
        requires
            wide_total <= 0x8000_0000_0000_0000,
            wide_a + wide_b <= 0x1_0000_0000_0000_0000,
    ;
    assert(wide_a * wide_b <= 0x8000_0000_0000_0000 * 0x8000_0000_0000_0000) by (nonlinear_arith)
        requires
            wide_a <= 0x8000_0000_0000_0000,
            wide_b <= 0x8000_0000_0000_0000,
    ;
    assert(2 * a * b == 2 * (a * b)) by (nonlinear_arith);
    wide_total * (wide_a + wide_b) == 2 * (wide_a * wide_b)
}

} // verus!
