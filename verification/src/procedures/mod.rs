//! Validation procedures.

pub mod frozen_sets;

use vstd::prelude::*;

pub use self::frozen_sets::FrozenSets;

verus! {

/// A single cross-validation fold: the rows to train on and the rows to test on,
/// each in the order in which they are fed to a model.
#[derive(Debug, Clone)]
pub struct Fold {
    pub trainset: Vec<usize>,
    pub testset: Vec<usize>,
}

/// The mathematical content of a [`Fold`].
pub struct FoldView {
    pub train: Seq<usize>,
    pub test: Seq<usize>,
}

impl View for Fold {
    type V = FoldView;

    open spec fn view(&self) -> FoldView {
        FoldView { train: self.trainset@, test: self.testset@ }
    }
}

impl FoldView {
    /// The fold without any row.
    pub open spec fn empty() -> FoldView {
        FoldView { train: Seq::empty(), test: Seq::empty() }
    }
}

impl FoldView {
    /// Whether every row of the fold is a row of a data set with `n_rows` rows.
    pub open spec fn within(self, n_rows: nat) -> bool {
        &&& forall|k: int| 0 <= k < self.train.len() ==> self.train[k] < n_rows
        &&& forall|k: int| 0 <= k < self.test.len() ==> self.test[k] < n_rows
    }

    /// Whether no row is both trained and tested on.
    pub open spec fn disjoint(self) -> bool {
        forall|j: int, k: int|
            0 <= j < self.train.len() && 0 <= k < self.test.len() ==> self.train[j] != self.test[k]
    }
}

/// Whether every entry of `rows` is less than `n_rows`.
fn all_below(rows: &Vec<usize>, n_rows: usize) -> (yes: bool)
    ensures
        yes == (forall|k: int| 0 <= k < rows@.len() ==> rows@[k] < n_rows),
{
    let mut k: usize = 0;
    while k < rows.len()
        invariant
            k <= rows@.len(),
            forall|j: int| 0 <= j < k ==> rows@[j] < n_rows,
        decreases rows@.len() - k,
    {
        if rows[k] >= n_rows {
            return false;
        }
        k = k + 1;
    }
    true
}

impl Fold {
    /// A fold without any row.
    pub fn new() -> (fold: Self)
        ensures
            fold@ == FoldView::empty(),
    {
        Fold { trainset: Vec::new(), testset: Vec::new() }
    }

    /// Whether every row of the fold is a row of a data set with `n_rows` rows.
    pub fn within(&self, n_rows: usize) -> (yes: bool)
        ensures
            yes == self@.within(n_rows as nat),
    {
        let train = all_below(&self.trainset, n_rows);
        let test = all_below(&self.testset, n_rows);
        proof {
            assert(self@.train == self.trainset@);
            assert(self@.test == self.testset@);
        }
        train && test
    }
}

impl Fold {
    /// Whether no row is both trained and tested on, for a fold within a data
    /// set with `n_rows` rows.
    pub fn disjoint(&self, n_rows: usize) -> (yes: bool)
        requires
            self@.within(n_rows as nat),
        ensures
            yes == self@.disjoint(),
    {
        let mut trained: Vec<bool> = Vec::new();
        let mut r: usize = 0;
        while r < n_rows
            invariant
                r <= n_rows,
                trained@.len() == r,
                forall|i: int| 0 <= i < r ==> !trained@[i],
            decreases n_rows - r,
        {
            trained.push(false);
            r = r + 1;
        }
        let mut j: usize = 0;
        while j < self.trainset.len()
            invariant
                j <= self.trainset@.len(),
                self@.within(n_rows as nat),
                trained@.len() == n_rows,
                forall|i: int|
                    0 <= i < n_rows ==> (trained@[i] <==> exists|t: int|
                        0 <= t < j && self.trainset@[t] == i),
            decreases self.trainset@.len() - j,
        {
            let row = self.trainset[j];
            assert(self@.train[j as int] == row);
            trained.set(row, true);
            j = j + 1;
        }
        let mut k: usize = 0;
        while k < self.testset.len()
            invariant
                k <= self.testset@.len(),
                self@.within(n_rows as nat),
                trained@.len() == n_rows,
                forall|i: int|
                    0 <= i < n_rows ==> (trained@[i] <==> exists|t: int|
                        0 <= t < self.trainset@.len() && self.trainset@[t] == i),
                forall|t: int, u: int|
                    0 <= t < self.trainset@.len() && 0 <= u < k ==> self.trainset@[t]
                        != self.testset@[u],
            decreases self.testset@.len() - k,
        {
            let row = self.testset[k];
            assert(self@.test[k as int] == row);
            if trained[row] {
                let ghost t = choose|t: int| 0 <= t < self.trainset@.len() && self.trainset@[t] == row;
                assert(self@.train[t] == self@.test[k as int]);
                return false;
            }
            k = k + 1;
        }
        true
    }
}

/// A validation procedure: a finite sequence of folds that can be walked again
/// and again. Splits fixed in advance are the one kind there is.
#[derive(Debug)]
pub enum Procedure {
    Frozen(FrozenSets),
}

impl View for Procedure {
    type V = Seq<FoldView>;

    /// The folds of the procedure, repeat by repeat, and within a repeat fold by fold.
    open spec fn view(&self) -> Seq<FoldView> {
        match self {
            Procedure::Frozen(sets) => sets@.flatten(),
        }
    }
}

/// Whether every fold of `folds` stays within a data set with `n_rows` rows.
pub open spec fn all_within(folds: Seq<FoldView>, n_rows: nat) -> bool {
    forall|k: int| 0 <= k < folds.len() ==> (#[trigger] folds[k]).within(n_rows)
}

/// Whether no fold of `folds` trains and tests on one row.
pub open spec fn all_disjoint(folds: Seq<FoldView>) -> bool {
    forall|k: int| 0 <= k < folds.len() ==> (#[trigger] folds[k]).disjoint()
}

/// The number of test rows of all `folds` together.
pub open spec fn test_total(folds: Seq<FoldView>) -> nat
    decreases folds.len(),
{
    if folds.len() == 0 {
        0
    } else {
        test_total(folds.drop_last()) + folds.last().test.len()
    }
}

/// The first folds of a procedure have no more test rows than all of them.
pub proof fn lemma_test_total_prefix(folds: Seq<FoldView>, k: int)
    requires
        0 <= k <= folds.len(),
    ensures
        test_total(folds.take(k)) <= test_total(folds),
    decreases folds.len(),
{
    if k < folds.len() {
        lemma_test_total_prefix(folds.drop_last(), k);
        assert(folds.drop_last().take(k) =~= folds.take(k));
    } else {
        assert(folds.take(k) =~= folds);
    }
}

impl Procedure {
    /// The number of test rows of all folds together, where the machine's
    /// integers hold it.
    pub fn test_rows(&self) -> (total: Option<usize>)
        ensures
            match total {
                Some(n) => n == test_total(self@),
                None => test_total(self@) > usize::MAX,
            },
    {
        let folds = self.iter();
        let mut total: usize = 0;
        let mut k: usize = 0;
        while k < folds.len()
            invariant
                k <= folds@.len(),
                folds@.len() == self@.len(),
                forall|j: int| 0 <= j < folds@.len() ==> (#[trigger] folds@[j])@ == self@[j],
                total == test_total(self@.take(k as int)),
            decreases folds@.len() - k,
        {
            proof {
                assert(self@.take(k as int + 1).drop_last() =~= self@.take(k as int));
                lemma_test_total_prefix(self@, k as int + 1);
            }
            match total.checked_add(folds[k].testset.len()) {
                Some(sum) => {
                    total = sum;
                },
                None => {
                    return None;
                },
            }
            k = k + 1;
        }
        proof {
            assert(self@.take(k as int) =~= self@);
        }
        Some(total)
    }

    /// The folds in the order in which they are run: ascending by repeat, and
    /// within a repeat ascending by fold, each fold once.
    pub fn iter(&self) -> (folds: Vec<&Fold>)
        ensures
            folds@.len() == self@.len(),
            forall|k: int| 0 <= k < folds@.len() ==> (#[trigger] folds@[k])@ == self@[k],
    {
        match self {
            Procedure::Frozen(sets) => sets.iter(),
        }
    }

    /// Whether no fold trains and tests on one row, for folds within a data
    /// set with `n_rows` rows.
    pub fn disjoint(&self, n_rows: usize) -> (yes: bool)
        requires
            all_within(self@, n_rows as nat),
        ensures
            yes == all_disjoint(self@),
    {
        let folds = self.iter();
        let mut k: usize = 0;
        while k < folds.len()
            invariant
                k <= folds@.len(),
                folds@.len() == self@.len(),
                all_within(self@, n_rows as nat),
                forall|j: int| 0 <= j < folds@.len() ==> (#[trigger] folds@[j])@ == self@[j],
                forall|j: int| 0 <= j < k ==> (#[trigger] self@[j]).disjoint(),
            decreases folds@.len() - k,
        {
            assert(self@[k as int].within(n_rows as nat));
            if !folds[k].disjoint(n_rows) {
                assert(!self@[k as int].disjoint());
                return false;
            }
            k = k + 1;
        }
        true
    }

    /// Whether every fold stays within a data set with `n_rows` rows.
    pub fn within(&self, n_rows: usize) -> (yes: bool)
        ensures
            yes == all_within(self@, n_rows as nat),
    {
        let folds = self.iter();
        let mut k: usize = 0;
        while k < folds.len()
            invariant
                k <= folds@.len(),
                folds@.len() == self@.len(),
                forall|j: int| 0 <= j < folds@.len() ==> (#[trigger] folds@[j])@ == self@[j],
                forall|j: int| 0 <= j < k ==> (#[trigger] self@[j]).within(n_rows as nat),
            decreases folds@.len() - k,
        {
            if !folds[k].within(n_rows) {
                return false;
            }
            k = k + 1;
        }
        true
    }
}

} // verus!
