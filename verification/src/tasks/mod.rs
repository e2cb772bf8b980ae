//! Running prediction routines against the folds of a task.
//!
//! A run walks the folds of a procedure in order. For each fold it hands the
//! routine the training rows with their labels and the test rows, takes back
//! one predicted label per test row, and feeds the known and the predicted
//! label of each test row to a measure, in the order of the fold's test rows.

pub mod supervised_classification;
pub mod supervised_regression;

use vstd::prelude::*;

pub use self::supervised_classification::SupervisedClassification;
pub use self::supervised_regression::SupervisedRegression;

use crate::error::Error;
use crate::measure_accumulator::{paired, MeasureAccumulator};
use crate::procedures::{
    all_within, lemma_test_total_prefix, test_total, Fold, FoldView, Procedure,
};

verus! {

/// What a routine is given to train on in `fold`: each training row with its
/// label, in the fold's order.
pub open spec fn train_input<'a, R, Y>(rows: Seq<R>, y: &'a [Y], fold: FoldView) -> Seq<(R, &'a Y)> {
    Seq::new(
        fold.train.len(),
        |j: int| (rows[fold.train[j] as int], &y@[fold.train[j] as int]),
    )
}

/// What a routine is given to predict in `fold`: each test row, in the fold's order.
pub open spec fn test_input<R>(rows: Seq<R>, fold: FoldView) -> Seq<R> {
    Seq::new(fold.test.len(), |j: int| rows[fold.test[j] as int])
}

/// The known labels of the test rows of `fold`, in the fold's order.
pub open spec fn known_labels<Y>(y: Seq<Y>, fold: FoldView) -> Seq<Y> {
    Seq::new(fold.test.len(), |j: int| y[fold.test[j] as int])
}

/// Whether `flow` may be called with what the engine hands it for `fold`.
pub open spec fn accepts<R, Y, F: Fn(Vec<(R, &Y)>, Vec<R>) -> Vec<Y>>(
    flow: F,
    rows: Seq<R>,
    y: &[Y],
    fold: FoldView,
) -> bool {
    forall|train: Vec<(R, &Y)>, test: Vec<R>|
        train@ == train_input(rows, y, fold) && test@ == test_input(rows, fold) ==> call_requires(
            flow,
            (train, test),
        )
}

/// Whether `out` is something that `flow` may return for `fold`.
pub open spec fn answers<R, Y, F: Fn(Vec<(R, &Y)>, Vec<R>) -> Vec<Y>>(
    flow: F,
    rows: Seq<R>,
    y: &[Y],
    fold: FoldView,
    out: Vec<Y>,
) -> bool {
    exists|train: Vec<(R, &Y)>, test: Vec<R>|
        train@ == train_input(rows, y, fold) && test@ == test_input(rows, fold) && call_ensures(
            flow,
            (train, test),
            out,
        )
}

/// What a measure has seen after a run over `folds` in which the routine
/// returned `outs[k]` for fold `k`: fold after fold, the known label of each
/// test row paired with the prediction at the same position.
pub open spec fn run_pairs<Y>(y: Seq<Y>, folds: Seq<FoldView>, outs: Seq<Vec<Y>>) -> Seq<(Y, Y)>
    decreases folds.len(),
{
    if folds.len() == 0 {
        Seq::empty()
    } else {
        run_pairs(y, folds.drop_last(), outs.drop_last()) + paired(
            known_labels(y, folds.last()),
            outs.last()@,
        )
    }
}

/// What the routine gets for one fold: the training rows with their labels,
/// and the test rows.
pub fn fold_inputs<'a, R: Copy, Y>(rows: &[R], y: &'a [Y], fold: &Fold) -> (inputs: (
    Vec<(R, &'a Y)>,
    Vec<R>,
))
    requires
        rows@.len() == y@.len(),
        fold@.within(y@.len()),
    ensures
        inputs.0@ == train_input(rows@, y, fold@),
        inputs.1@ == test_input(rows@, fold@),
{
    let mut train: Vec<(R, &'a Y)> = Vec::new();
    let mut j: usize = 0;
    while j < fold.trainset.len()
        invariant
            j <= fold.trainset@.len(),
            rows@.len() == y@.len(),
            fold@.within(y@.len()),
            train@ == train_input(rows@, y, fold@).take(j as int),
        decreases fold.trainset@.len() - j,
    {
        let i = fold.trainset[j];
        train.push((rows[i], &y[i]));
        j = j + 1;
    }
    let mut test: Vec<R> = Vec::new();
    let mut j: usize = 0;
    while j < fold.testset.len()
        invariant
            j <= fold.testset@.len(),
            rows@.len() == y@.len(),
            fold@.within(y@.len()),
            test@ == test_input(rows@, fold@).take(j as int),
        decreases fold.testset@.len() - j,
    {
        let i = fold.testset[j];
        test.push(rows[i]);
        j = j + 1;
    }
    (train, test)
}

/// Feeds the predictions for one fold to the measure: the known label of each
/// test row with the prediction at the same position. Predictions that are not
/// one per test row are refused, and the measure takes nothing from them.
pub fn merge_fold<Y, M: MeasureAccumulator<Y>>(
    measure: &mut M,
    y: &[Y],
    fold: &Fold,
    predictions: &Vec<Y>,
) -> (done: Result<(), Error>)
    requires
        old(measure).wf(),
        fold@.within(y@.len()),
        old(measure).observed().len() + fold@.test.len() <= M::capacity(),
    ensures
        final(measure).wf(),
        predictions@.len() != fold@.test.len() ==> done == Err::<(), Error>(Error::LengthMismatch)
            && final(measure).observed() == old(measure).observed(),
        predictions@.len() == fold@.test.len() ==> done == Ok::<(), Error>(())
            && final(measure).observed() == old(measure).observed() + paired(
            known_labels(y@, fold@),
            predictions@,
        ),
{
    if predictions.len() != fold.testset.len() {
        return Err(Error::LengthMismatch);
    }
    let ghost pairs = paired(known_labels(y@, fold@), predictions@);
    let mut j: usize = 0;
    while j < fold.testset.len()
        invariant
            j <= fold.testset@.len(),
            predictions@.len() == fold@.test.len(),
            fold@.within(y@.len()),
            measure.wf(),
            old(measure).observed().len() + fold@.test.len() <= M::capacity(),
            pairs == paired(known_labels(y@, fold@), predictions@),
            measure.observed() == old(measure).observed() + pairs.take(j as int),
        decreases fold.testset@.len() - j,
    {
        let i = fold.testset[j];
        measure.update_one(&y[i], &predictions[j]);
        assert(pairs.take(j as int + 1) =~= pairs.take(j as int).push(
            (y@[i as int], predictions@[j as int]),
        ));
        j = j + 1;
    }
    Ok(())
}

/// Whether a run over `folds` may have ended in `measure`: for every fold the
/// routine returned one prediction per test row, and the measure has seen
/// exactly the pairs of such a run.
pub open spec fn run_completed<R, Y, F: Fn(Vec<(R, &Y)>, Vec<R>) -> Vec<Y>, M: MeasureAccumulator<Y>>(
    flow: F,
    rows: Seq<R>,
    y: &[Y],
    folds: Seq<FoldView>,
    measure: M,
) -> bool {
    exists|outs: Seq<Vec<Y>>|
        {
            &&& outs.len() == folds.len()
            &&& forall|k: int|
                0 <= k < folds.len() ==> answers(flow, rows, y, #[trigger] folds[k], outs[k])
                    && outs[k]@.len() == folds[k].test.len()
            &&& #[trigger] run_pairs(y@, folds, outs) == measure.observed()
        }
}

/// Whether a run over `folds` may have been given up: for some fold the
/// routine returned predictions that are not one per test row.
pub open spec fn run_refused<R, Y, F: Fn(Vec<(R, &Y)>, Vec<R>) -> Vec<Y>>(
    flow: F,
    rows: Seq<R>,
    y: &[Y],
    folds: Seq<FoldView>,
) -> bool {
    exists|k: int, out: Vec<Y>|
        0 <= k < folds.len() && #[trigger] answers(flow, rows, y, folds[k], out) && out@.len()
            != folds[k].test.len()
}

/// Whether the routine can only return predictions of the wrong number for `fold`.
pub open spec fn only_mismatches<R, Y, F: Fn(Vec<(R, &Y)>, Vec<R>) -> Vec<Y>>(
    flow: F,
    rows: Seq<R>,
    y: &[Y],
    fold: FoldView,
) -> bool {
    forall|out: Vec<Y>| #[trigger] answers(flow, rows, y, fold, out) ==> out@.len() != fold.test.len()
}

/// Whether the routine can only return predictions of the wrong number for some fold.
pub open spec fn must_mismatch<R, Y, F: Fn(Vec<(R, &Y)>, Vec<R>) -> Vec<Y>>(
    flow: F,
    rows: Seq<R>,
    y: &[Y],
    folds: Seq<FoldView>,
) -> bool {
    exists|k: int| 0 <= k < folds.len() && #[trigger] only_mismatches(flow, rows, y, folds[k])
}

/// One full pass over the folds of `procedure`, with `rows[i]` standing for
/// row `i` of the data. Each fold is merged into the measure before the routine
/// is called for the next one. The pass ends at the first fold for which the
/// predictions are not one per test row, and then reports no measure at all.
pub fn run_rows<R: Copy, Y, F: Fn(Vec<(R, &Y)>, Vec<R>) -> Vec<Y>, M: MeasureAccumulator<Y>>(
    rows: &[R],
    y: &[Y],
    procedure: &Procedure,
    flow: F,
) -> (outcome: Result<M, Error>)
    requires
        M::labels_ok(),
        rows@.len() == y@.len(),
        all_within(procedure@, y@.len()),
        test_total(procedure@) <= M::capacity(),
        forall|k: int| 0 <= k < procedure@.len() ==> accepts(flow, rows@, y, #[trigger] procedure@[k]),
    ensures
        match outcome {
            Ok(measure) => measure.wf() && run_completed(flow, rows@, y, procedure@, measure),
            Err(e) => e == Error::LengthMismatch && run_refused(flow, rows@, y, procedure@),
        },
        must_mismatch(flow, rows@, y, procedure@) ==> outcome is Err,
{
    let folds = procedure.iter();
    let mut measure = M::new();
    let ghost mut outs: Seq<Vec<Y>> = Seq::empty();
    let mut k: usize = 0;
    while k < folds.len()
        invariant
            k <= folds@.len(),
            folds@.len() == procedure@.len(),
            forall|j: int| 0 <= j < folds@.len() ==> (#[trigger] folds@[j])@ == procedure@[j],
            rows@.len() == y@.len(),
            all_within(procedure@, y@.len()),
            test_total(procedure@) <= M::capacity(),
            forall|j: int|
                0 <= j < procedure@.len() ==> accepts(flow, rows@, y, #[trigger] procedure@[j]),
            measure.wf(),
            outs.len() == k,
            forall|j: int|
                0 <= j < k ==> answers(flow, rows@, y, #[trigger] procedure@[j], outs[j])
                    && outs[j]@.len() == procedure@[j].test.len(),
            measure.observed() == run_pairs(y@, procedure@.take(k as int), outs),
            measure.observed().len() == test_total(procedure@.take(k as int)),
        decreases folds@.len() - k,
    {
        let fold = folds[k];
        let ghost done = procedure@.take(k as int);
        let ghost next = procedure@.take(k as int + 1);
        proof {
            assert(next.drop_last() =~= done);
            lemma_test_total_prefix(procedure@, k as int + 1);
        }
        let (train, test) = fold_inputs(rows, y, fold);
        let predictions = flow(train, test);
        assert(answers(flow, rows@, y, fold@, predictions));
        match merge_fold(&mut measure, y, fold, &predictions) {
            Err(e) => {
                return Err(e);
            },
            Ok(()) => {},
        }
        proof {
            let before = outs;
            outs = outs.push(predictions);
            assert(outs.drop_last() =~= before);
        }
        k = k + 1;
    }
    proof {
        assert(procedure@.take(k as int) =~= procedure@);
        if must_mismatch(flow, rows@, y, procedure@) {
            let bad = choose|bad: int|
                0 <= bad < procedure@.len() && #[trigger] only_mismatches(
                    flow,
                    rows@,
                    y,
                    procedure@[bad],
                );
        }
    }
    Ok(measure)
}

/// References to the rows of `x`, one per row and in order.
pub open spec fn refs_of<'a, X>(x: &'a [X]) -> Seq<&'a X> {
    Seq::new(x@.len(), |i: int| &x@[i])
}

/// Whether `rows` cuts the flat table `x` of `n_cols` columns into its rows:
/// row `i` is the part of `x` from `i * n_cols` up to `(i + 1) * n_cols`.
pub open spec fn flat_rows<X>(rows: Seq<&[X]>, x: Seq<X>, n_cols: nat) -> bool {
    forall|i: int|
        0 <= i < rows.len() ==> (#[trigger] rows[i])@ == x.subrange(i * n_cols, (i + 1) * n_cols)
}

/// A reference to each row of `x`.
fn rows_as_refs<'a, X>(x: &'a [X]) -> (rows: Vec<&'a X>)
    ensures
        rows@ == refs_of(x),
{
    let mut rows: Vec<&'a X> = Vec::new();
    let mut i: usize = 0;
    while i < x.len()
        invariant
            i <= x@.len(),
            rows@ == refs_of(x).take(i as int),
        decreases x@.len() - i,
    {
        rows.push(&x[i]);
        i = i + 1;
    }
    rows
}

/// The rows of the flat table `x` of `n_cols` columns, each as a slice of `x`.
fn rows_as_slices<'a, X>(x: &'a [X], n_cols: usize, n_rows: usize) -> (rows: Vec<&'a [X]>)
    requires
        x@.len() == n_rows * n_cols,
    ensures
        rows@.len() == n_rows,
        flat_rows(rows@, x@, n_cols as nat),
{
    let mut rows: Vec<&'a [X]> = Vec::new();
    let total = x.len();
    let mut i: usize = 0;
    while i < n_rows
        invariant
            i <= n_rows,
            x@.len() == n_rows * n_cols,
            total == x@.len(),
            rows@.len() == i,
            flat_rows(rows@, x@, n_cols as nat),
        decreases n_rows - i,
    {
        assert(i * n_cols <= (i + 1) * n_cols <= n_rows * n_cols) by (nonlinear_arith)
            requires
                i < n_rows,
        ;
        let row = &x[i * n_cols..(i + 1) * n_cols];
        rows.push(row);
        i = i + 1;
    }
    rows
}

/// Runs a routine that takes each row as one value of type `X`, whatever that
/// type holds: `x[i]` is row `i` of the features and `y[i]` its label.
pub fn run_static<X, Y, F: Fn(Vec<(&X, &Y)>, Vec<&X>) -> Vec<Y>, M: MeasureAccumulator<Y>>(
    x: &[X],
    y: &[Y],
    procedure: &Procedure,
    flow: F,
) -> (outcome: Result<M, Error>)
    requires
        M::labels_ok(),
        x@.len() == y@.len(),
        all_within(procedure@, y@.len()),
        test_total(procedure@) <= M::capacity(),
        forall|k: int|
            0 <= k < procedure@.len() ==> accepts(flow, refs_of(x), y, #[trigger] procedure@[k]),
    ensures
        match outcome {
            Ok(measure) => measure.wf() && run_completed(flow, refs_of(x), y, procedure@, measure),
            Err(e) => e == Error::LengthMismatch && run_refused(flow, refs_of(x), y, procedure@),
        },
        must_mismatch(flow, refs_of(x), y, procedure@) ==> outcome is Err,
{
    let rows = rows_as_refs(x);
    run_rows(rows.as_slice(), y, procedure, flow)
}

/// Runs a routine that takes each row as a slice of values of one type `X`:
/// `x` holds the features row after row, `n_cols` values per row, and `y[i]`
/// is the label of row `i`.
pub fn run<X, Y, F: Fn(Vec<(&[X], &Y)>, Vec<&[X]>) -> Vec<Y>, M: MeasureAccumulator<Y>>(
    x: &[X],
    n_cols: usize,
    y: &[Y],
    procedure: &Procedure,
    flow: F,
) -> (outcome: Result<M, Error>)
    requires
        M::labels_ok(),
        x@.len() == y@.len() * n_cols,
        all_within(procedure@, y@.len()),
        test_total(procedure@) <= M::capacity(),
        forall|rows: Seq<&[X]>, k: int|
            rows.len() == y@.len() && flat_rows(rows, x@, n_cols as nat) && 0 <= k
                < procedure@.len() ==> #[trigger] accepts(flow, rows, y, procedure@[k]),
    ensures
        exists|rows: Seq<&[X]>|
            {
                &&& rows.len() == y@.len()
                &&& #[trigger] flat_rows(rows, x@, n_cols as nat)
                &&& match outcome {
                    Ok(measure) => measure.wf() && run_completed(flow, rows, y, procedure@, measure),
                    Err(e) => e == Error::LengthMismatch && run_refused(flow, rows, y, procedure@),
                }
            },
        (forall|rows: Seq<&[X]>|
            rows.len() == y@.len() && #[trigger] flat_rows(rows, x@, n_cols as nat) ==> must_mismatch(
                flow,
                rows,
                y,
                procedure@,
            )) ==> outcome is Err,
{
    let rows = rows_as_slices(x, n_cols, y.len());
    run_rows(rows.as_slice(), y, procedure, flow)
}

/// A task: data, a procedure that says which rows to train and to test on,
/// and a name to know it by. Once built, a task does not change, and it can be
/// run any number of times.
pub trait Task {
    /// The id of the task on the platform.
    spec fn task_id(&self) -> Seq<char>;

    /// The name of the task.
    spec fn task_name(&self) -> Seq<char>;

    /// The folds of the task, in the order in which they are run.
    spec fn folds(&self) -> Seq<FoldView>;

    /// Get task ID.
    fn id(&self) -> (id: &str)
        ensures
            id@ == self.task_id(),
    ;

    /// Get task name.
    fn name(&self) -> (name: &str)
        ensures
            name@ == self.task_name(),
    ;

    /// Run task, with each row of the features as one value of type `X`. This
    /// allows to run models that take features of different types, or named
    /// features in form of structs.
    fn run_static<X, Y, F: Fn(Vec<(&X, &Y)>, Vec<&X>) -> Vec<Y>, M: MeasureAccumulator<Y>>(
        &self,
        x: &[X],
        y: &[Y],
        flow: F,
    ) -> (outcome: Result<M, Error>)
        requires
            M::labels_ok(),
            x@.len() == y@.len(),
            all_within(self.folds(), y@.len()),
            test_total(self.folds()) <= M::capacity(),
            forall|k: int|
                0 <= k < self.folds().len() ==> accepts(
                    flow,
                    refs_of(x),
                    y,
                    #[trigger] self.folds()[k],
                ),
        ensures
            match outcome {
                Ok(measure) => measure.wf() && run_completed(
                    flow,
                    refs_of(x),
                    y,
                    self.folds(),
                    measure,
                ),
                Err(e) => e == Error::LengthMismatch && run_refused(
                    flow,
                    refs_of(x),
                    y,
                    self.folds(),
                ),
            },
            must_mismatch(flow, refs_of(x), y, self.folds()) ==> outcome is Err,
    ;

    /// Run task, with each row of the features as a slice of values of one
    /// type `X`, `n_cols` of them. This allows to run models that expect every
    /// feature to have the same type.
    fn run<X, Y, F: Fn(Vec<(&[X], &Y)>, Vec<&[X]>) -> Vec<Y>, M: MeasureAccumulator<Y>>(
        &self,
        x: &[X],
        n_cols: usize,
        y: &[Y],
        flow: F,
    ) -> (outcome: Result<M, Error>)
        requires
            M::labels_ok(),
            x@.len() == y@.len() * n_cols,
            all_within(self.folds(), y@.len()),
            test_total(self.folds()) <= M::capacity(),
            forall|rows: Seq<&[X]>, k: int|
                rows.len() == y@.len() && flat_rows(rows, x@, n_cols as nat) && 0 <= k
                    < self.folds().len() ==> #[trigger] accepts(flow, rows, y, self.folds()[k]),
        ensures
            exists|rows: Seq<&[X]>|
                {
                    &&& rows.len() == y@.len()
                    &&& #[trigger] flat_rows(rows, x@, n_cols as nat)
                    &&& match outcome {
                        Ok(measure) => measure.wf() && run_completed(
                            flow,
                            rows,
                            y,
                            self.folds(),
                            measure,
                        ),
                        Err(e) => e == Error::LengthMismatch && run_refused(
                            flow,
                            rows,
                            y,
                            self.folds(),
                        ),
                    }
                },
            (forall|rows: Seq<&[X]>|
                rows.len() == y@.len() && #[trigger] flat_rows(rows, x@, n_cols as nat)
                    ==> must_mismatch(flow, rows, y, self.folds())) ==> outcome is Err,
    ;
}

} // verus!
