//! Cross-validation with splits that were computed beforehand.

use vstd::prelude::*;

use crate::error::Error;
use crate::openml_api::api_types::{CrossValItem, TrainTest};
use crate::openml_api::same_text;
use crate::procedures::{Fold, FoldView};

verus! {

/// Folds that are fixed in advance, indexed by repeat and then by fold.
#[derive(Debug)]
pub struct FrozenSets {
    pub folds: Vec<Vec<Fold>>,
}

impl View for FrozenSets {
    type V = Seq<Seq<FoldView>>;

    open spec fn view(&self) -> Seq<Seq<FoldView>> {
        Seq::new(
            self.folds@.len(),
            |r: int| Seq::new(self.folds@[r]@.len(), |f: int| self.folds@[r]@[f]@),
        )
    }
}

/// The number of repeats that `records` call for: one more than the largest
/// repeat index among them, and none where there is no record.
pub open spec fn repeat_count(records: Seq<CrossValItem>) -> nat
    decreases records.len(),
{
    if records.len() == 0 {
        0
    } else {
        let before = repeat_count(records.drop_last());
        if records.last().repeat + 1 > before {
            (records.last().repeat + 1) as nat
        } else {
            before
        }
    }
}

/// The number of folds that `records` call for in one repeat: one more than the
/// largest fold index among the records of that repeat.
pub open spec fn fold_count(records: Seq<CrossValItem>, repeat: int) -> nat
    decreases records.len(),
{
    if records.len() == 0 {
        0
    } else {
        let before = fold_count(records.drop_last(), repeat);
        if records.last().repeat == repeat && records.last().fold + 1 > before {
            (records.last().fold + 1) as nat
        } else {
            before
        }
    }
}

/// The rows that `records` assign to one purpose in one fold of one repeat, in
/// the order of the records.
pub open spec fn rows_of(
    records: Seq<CrossValItem>,
    purpose: TrainTest,
    repeat: int,
    fold: int,
) -> Seq<usize>
    decreases records.len(),
{
    if records.len() == 0 {
        Seq::empty()
    } else {
        let before = rows_of(records.drop_last(), purpose, repeat, fold);
        let last = records.last();
        if last.purpose == purpose && last.repeat == repeat && last.fold == fold {
            before.push(last.rowid)
        } else {
            before
        }
    }
}

/// The fold that `records` describe at one place of the table.
pub open spec fn fold_of(records: Seq<CrossValItem>, repeat: int, fold: int) -> FoldView {
    FoldView {
        train: rows_of(records, TrainTest::Train, repeat, fold),
        test: rows_of(records, TrainTest::Test, repeat, fold),
    }
}

/// The table of folds that a stream of split records describes.
pub open spec fn plan_of(records: Seq<CrossValItem>) -> Seq<Seq<FoldView>> {
    Seq::new(
        repeat_count(records),
        |r: int| Seq::new(fold_count(records, r), |f: int| fold_of(records, r, f)),
    )
}

/// No record names a repeat at or beyond the repeat count, so such a repeat has no fold.
pub proof fn lemma_no_folds_beyond_repeats(records: Seq<CrossValItem>, repeat: int)
    requires
        repeat >= repeat_count(records),
    ensures
        fold_count(records, repeat) == 0,
    decreases records.len(),
{
    if records.len() > 0 {
        lemma_no_folds_beyond_repeats(records.drop_last(), repeat);
    }
}

/// No record names a fold at or beyond the fold count of its repeat, so such a fold is empty.
pub proof fn lemma_no_rows_beyond_folds(
    records: Seq<CrossValItem>,
    purpose: TrainTest,
    repeat: int,
    fold: int,
)
    requires
        fold >= fold_count(records, repeat),
    ensures
        rows_of(records, purpose, repeat, fold) == Seq::<usize>::empty(),
    decreases records.len(),
{
    if records.len() > 0 {
        lemma_no_rows_beyond_folds(records.drop_last(), purpose, repeat, fold);
    }
}

/// Appends empty repeats until there are at least `wanted` of them.
fn grow_repeats(table: &mut Vec<Vec<Fold>>, wanted: usize)
    ensures
        final(table)@.len() == if wanted > old(table)@.len() {
            wanted as nat
        } else {
            old(table)@.len()
        },
        forall|r: int| 0 <= r < old(table)@.len() ==> final(table)@[r] == old(table)@[r],
        forall|r: int| old(table)@.len() <= r < final(table)@.len() ==> final(table)@[r]@.len() == 0,
{
    while table.len() < wanted
        invariant
            table@.len() >= old(table)@.len(),
            table@.len() <= wanted || table@.len() == old(table)@.len(),
            forall|r: int| 0 <= r < old(table)@.len() ==> table@[r] == old(table)@[r],
            forall|r: int| old(table)@.len() <= r < table@.len() ==> table@[r]@.len() == 0,
        decreases wanted - table.len(),
    {
        table.push(Vec::new());
    }
}

/// Appends empty folds until there are at least `wanted` of them.
fn grow_folds(repeat: &mut Vec<Fold>, wanted: usize)
    ensures
        final(repeat)@.len() == if wanted > old(repeat)@.len() {
            wanted as nat
        } else {
            old(repeat)@.len()
        },
        forall|f: int| 0 <= f < old(repeat)@.len() ==> final(repeat)@[f] == old(repeat)@[f],
        forall|f: int|
            old(repeat)@.len() <= f < final(repeat)@.len() ==> final(repeat)@[f]@
                == FoldView::empty(),
{
    while repeat.len() < wanted
        invariant
            repeat@.len() >= old(repeat)@.len(),
            repeat@.len() <= wanted || repeat@.len() == old(repeat)@.len(),
            forall|f: int| 0 <= f < old(repeat)@.len() ==> repeat@[f] == old(repeat)@[f],
            forall|f: int|
                old(repeat)@.len() <= f < repeat@.len() ==> repeat@[f]@ == FoldView::empty(),
        decreases wanted - repeat.len(),
    {
        repeat.push(Fold::new());
    }
}

impl FrozenSets {
    /// The folds in the order in which they are run: ascending by repeat, and
    /// within a repeat ascending by fold, each fold once.
    pub fn iter(&self) -> (folds: Vec<&Fold>)
        ensures
            folds@.len() == self@.flatten().len(),
            forall|k: int| 0 <= k < folds@.len() ==> (#[trigger] folds@[k])@ == self@.flatten()[k],
    {
        let mut out: Vec<&Fold> = Vec::new();
        let mut r: usize = 0;
        while r < self.folds.len()
            invariant
                r <= self.folds@.len(),
                out@.len() == self@.take(r as int).flatten().len(),
                forall|k: int|
                    0 <= k < out@.len() ==> (#[trigger] out@[k])@ == self@.take(r as int).flatten()[k],
            decreases self.folds@.len() - r,
        {
            let repeat = &self.folds[r];
            let ghost done = self@.take(r as int).flatten();
            let mut f: usize = 0;
            while f < repeat.len()
                invariant
                    f <= repeat@.len(),
                    r < self.folds@.len(),
                    repeat@ == self.folds@[r as int]@,
                    done == self@.take(r as int).flatten(),
                    out@.len() == done.len() + f,
                    forall|k: int| 0 <= k < done.len() ==> (#[trigger] out@[k])@ == done[k],
                    forall|k: int|
                        done.len() <= k < out@.len() ==> (#[trigger] out@[k])@ == self@[r as int][k
                            - done.len()],
                decreases repeat@.len() - f,
            {
                out.push(&repeat[f]);
                f = f + 1;
            }
            proof {
                broadcast use Seq::lemma_flatten_push;

                assert(self@.take(r as int + 1) == self@.take(r as int).push(self@[r as int]));
            }
            r = r + 1;
        }
        proof {
            assert(self@.take(r as int) == self@);
        }
        out
    }

    /// Builds the table of folds from split records. The table grows on demand:
    /// it has a repeat for every index up to the largest one named, each repeat
    /// has a fold for every index up to the largest one named in it, and each
    /// fold holds the rows assigned to it in the order of the records.
    pub fn from_records(records: &Vec<CrossValItem>) -> (plan: Self)
        requires
            forall|i: int|
                0 <= i < records@.len() ==> records@[i].repeat < usize::MAX && records@[i].fold
                    < usize::MAX,
        ensures
            plan@ == plan_of(records@),
    {
        let mut folds: Vec<Vec<Fold>> = Vec::new();
        let mut i: usize = 0;
        while i < records.len()
            invariant
                i <= records@.len(),
                forall|k: int|
                    0 <= k < records@.len() ==> records@[k].repeat < usize::MAX && records@[k].fold
                        < usize::MAX,
                folds@.len() == repeat_count(records@.take(i as int)),
                forall|r: int|
                    0 <= r < folds@.len() ==> #[trigger] folds@[r]@.len() == fold_count(
                        records@.take(i as int),
                        r,
                    ),
                forall|r: int, f: int|
                    0 <= r < folds@.len() && 0 <= f < folds@[r]@.len() ==> #[trigger] folds@[r]@[f]@
                        == fold_of(records@.take(i as int), r, f),
            decreases records@.len() - i,
        {
            let item = records[i];
            let ghost seen = records@.take(i as int);
            let ghost next = records@.take(i as int + 1);
            proof {
                assert(next.drop_last() == seen);
                assert forall|r: int| r >= folds@.len() implies fold_count(seen, r) == 0 by {
                    lemma_no_folds_beyond_repeats(seen, r);
                }
                assert forall|r: int, f: int, p: TrainTest| f >= fold_count(seen, r) implies rows_of(
                    seen,
                    p,
                    r,
                    f,
                ) == Seq::<usize>::empty() by {
                    lemma_no_rows_beyond_folds(seen, p, r, f);
                }
            }
            grow_repeats(&mut folds, item.repeat + 1);
            let mut repeat = Vec::new();
            std::mem::swap(&mut repeat, &mut folds[item.repeat]);
            grow_folds(&mut repeat, item.fold + 1);
            let mut fold = Fold::new();
            std::mem::swap(&mut fold, &mut repeat[item.fold]);
            let ghost was = fold@;
            match item.purpose {
                TrainTest::Train => fold.trainset.push(item.rowid),
                TrainTest::Test => fold.testset.push(item.rowid),
            }
            assert(was == fold_of(seen, item.repeat as int, item.fold as int));
            repeat.set(item.fold, fold);
            folds.set(item.repeat, repeat);
            i = i + 1;
            proof {
                assert forall|r: int| 0 <= r < folds@.len() implies #[trigger] folds@[r]@.len()
                    == fold_count(next, r) by {
                    assert(fold_count(next, r) == if item.repeat == r && item.fold + 1
                        > fold_count(seen, r) {
                        (item.fold + 1) as nat
                    } else {
                        fold_count(seen, r)
                    });
                }
                assert forall|r: int, f: int|
                    0 <= r < folds@.len() && 0 <= f < folds@[r]@.len() implies #[trigger] folds@[r]@[f]@
                    == fold_of(next, r, f) by {
                    assert(rows_of(next, TrainTest::Train, r, f) == if item.purpose
                        == TrainTest::Train && item.repeat == r && item.fold == f {
                        rows_of(seen, TrainTest::Train, r, f).push(item.rowid)
                    } else {
                        rows_of(seen, TrainTest::Train, r, f)
                    });
                    assert(rows_of(next, TrainTest::Test, r, f) == if item.purpose
                        == TrainTest::Test && item.repeat == r && item.fold == f {
                        rows_of(seen, TrainTest::Test, r, f).push(item.rowid)
                    } else {
                        rows_of(seen, TrainTest::Test, r, f)
                    });
                }
            }
        }
        proof {
            assert(records@.take(i as int) == records@);
        }
        let plan = FrozenSets { folds };
        assert(plan@ =~~= plan_of(records@));
        plan
    }
}

/// Rows as plain values.
pub open spec fn rows_view(rows: Seq<(String, usize, usize, usize)>) -> Seq<
    (Seq<char>, usize, usize, usize),
> {
    Seq::new(rows.len(), |i: int| (rows[i].0@, rows[i].1, rows[i].2, rows[i].3))
}

/// The record that a row of a split resource stands for: `TRAIN` and `TEST`
/// are the purposes there are, and the indices of repeat and fold have to be
/// less than the largest number of the machine.
pub open spec fn record_of(row: (Seq<char>, usize, usize, usize)) -> Option<CrossValItem> {
    if row.2 == usize::MAX || row.3 == usize::MAX {
        None
    } else if row.0 == "TRAIN"@ {
        Some(CrossValItem { purpose: TrainTest::Train, rowid: row.1, repeat: row.2, fold: row.3 })
    } else if row.0 == "TEST"@ {
        Some(CrossValItem { purpose: TrainTest::Test, rowid: row.1, repeat: row.2, fold: row.3 })
    } else {
        None
    }
}

/// The records that rows stand for, where each row stands for one.
pub open spec fn records_of(rows: Seq<(Seq<char>, usize, usize, usize)>) -> Option<
    Seq<CrossValItem>,
> {
    if forall|i: int| 0 <= i < rows.len() ==> record_of(#[trigger] rows[i]) is Some {
        Some(Seq::new(rows.len(), |i: int| record_of(rows[i])->0))
    } else {
        None
    }
}

/// The plan that the rows of a split resource describe, or why they describe none.
pub open spec fn plan_of_rows(rows: Seq<(Seq<char>, usize, usize, usize)>) -> Result<
    Seq<Seq<FoldView>>,
    Error,
> {
    match records_of(rows) {
        None => Err(Error::TabularFormatError),
        Some(records) => Ok(plan_of(records)),
    }
}

impl CrossValItem {
    /// The record that a row of a split resource stands for.
    pub fn from_row(purpose: &str, rowid: usize, repeat: usize, fold: usize) -> (item: Option<
        CrossValItem,
    >)
        ensures
            item == record_of((purpose@, rowid, repeat, fold)),
    {
        if repeat == usize::MAX || fold == usize::MAX {
            None
        } else if same_text(purpose, "TRAIN") {
            Some(CrossValItem { purpose: TrainTest::Train, rowid, repeat, fold })
        } else if same_text(purpose, "TEST") {
            Some(CrossValItem { purpose: TrainTest::Test, rowid, repeat, fold })
        } else {
            None
        }
    }
}

/// The records that rows stand for. Rows of which one stands for no record
/// are refused.
pub fn records_from_rows(rows: &Vec<(String, usize, usize, usize)>) -> (records: Result<
    Vec<CrossValItem>,
    Error,
>)
    ensures
        match records {
            Ok(records) => records_of(rows_view(rows@)) == Some(records@),
            Err(e) => e == Error::TabularFormatError && records_of(rows_view(rows@)) is None,
        },
{
    let mut records: Vec<CrossValItem> = Vec::new();
    let mut i: usize = 0;
    while i < rows.len()
        invariant
            i <= rows@.len(),
            records@.len() == i,
            forall|k: int|
                0 <= k < i ==> record_of(#[trigger] rows_view(rows@)[k]) == Some(records@[k]),
        decreases rows@.len() - i,
    {
        let row = &rows[i];
        match CrossValItem::from_row(row.0.as_str(), row.1, row.2, row.3) {
            Some(item) => {
                records.push(item);
            },
            None => {
                assert(record_of(rows_view(rows@)[i as int]) is None);
                return Err(Error::TabularFormatError);
            },
        }
        i = i + 1;
    }
    assert(records@ =~= Seq::new(
        rows_view(rows@).len(),
        |i: int| record_of(rows_view(rows@)[i])->0,
    ));
    Ok(records)
}

impl FrozenSets {
    /// Builds the table of folds from the rows of a split resource, each row
    /// as its four columns: type, row id, repeat and fold.
    pub fn from_rows(rows: &Vec<(String, usize, usize, usize)>) -> (plan: Result<FrozenSets, Error>)
        ensures
            match plan {
                Ok(plan) => plan_of_rows(rows_view(rows@)) == Ok::<Seq<Seq<FoldView>>, Error>(plan@),
                Err(e) => plan_of_rows(rows_view(rows@)) == Err::<Seq<Seq<FoldView>>, Error>(e),
            },
    {
        match records_from_rows(rows) {
            Err(e) => Err(e),
            Ok(records) => {
                Ok(FrozenSets::from_records(&records))
            },
        }
    }
}

} // verus!
