use openml::openml_api::api_types::{CrossValItem, TrainTest};
use openml::procedures::{Fold, FrozenSets, Procedure};

fn item(purpose: TrainTest, rowid: usize, repeat: usize, fold: usize) -> CrossValItem {
    CrossValItem { purpose, rowid, repeat, fold }
}

#[test]
fn new_fold_is_empty() {
    let fold = Fold::new();
    assert!(fold.trainset.is_empty());
    assert!(fold.testset.is_empty());
}

#[test]
fn plan_of_five_records() {
    let records = vec![
        item(TrainTest::Train, 0, 0, 0),
        item(TrainTest::Train, 1, 0, 0),
        item(TrainTest::Test, 2, 0, 0),
        item(TrainTest::Train, 3, 0, 1),
        item(TrainTest::Test, 4, 0, 1),
    ];
    let plan = FrozenSets::from_records(&records);
    assert_eq!(plan.folds.len(), 1);
    assert_eq!(plan.folds[0].len(), 2);
    assert_eq!(plan.folds[0][0].trainset, vec![0, 1]);
    assert_eq!(plan.folds[0][0].testset, vec![2]);
    assert_eq!(plan.folds[0][1].trainset, vec![3]);
    assert_eq!(plan.folds[0][1].testset, vec![4]);
}

#[test]
fn sparse_records_leave_empty_folds() {
    let records = vec![item(TrainTest::Test, 7, 2, 1), item(TrainTest::Train, 5, 0, 0)];
    let plan = FrozenSets::from_records(&records);
    assert_eq!(plan.folds.len(), 3);
    assert_eq!(plan.folds[0].len(), 1);
    assert_eq!(plan.folds[1].len(), 0);
    assert_eq!(plan.folds[2].len(), 2);
    assert!(plan.folds[2][0].trainset.is_empty());
    assert!(plan.folds[2][0].testset.is_empty());
    assert_eq!(plan.folds[2][1].testset, vec![7]);
    assert_eq!(plan.folds[0][0].trainset, vec![5]);
}

#[test]
fn no_records_no_repeats() {
    let plan = FrozenSets::from_records(&Vec::new());
    assert!(plan.folds.is_empty());
    assert!(Procedure::Frozen(plan).iter().is_empty());
}

#[test]
fn folds_are_walked_repeat_by_repeat() {
    let records = vec![
        item(TrainTest::Train, 10, 1, 0),
        item(TrainTest::Train, 20, 0, 1),
        item(TrainTest::Train, 30, 0, 0),
        item(TrainTest::Test, 40, 1, 1),
    ];
    let procedure = Procedure::Frozen(FrozenSets::from_records(&records));
    let folds = procedure.iter();
    assert_eq!(folds.len(), 4);
    assert_eq!(folds[0].trainset, vec![30]);
    assert_eq!(folds[1].trainset, vec![20]);
    assert_eq!(folds[2].trainset, vec![10]);
    assert_eq!(folds[3].testset, vec![40]);
    let again = procedure.iter();
    assert_eq!(again.len(), 4);
    assert!(procedure.within(41));
    assert!(!procedure.within(40));
}

#[test]
fn folds_that_train_and_test_on_one_row_are_found() {
    let apart = Fold { trainset: vec![0, 3, 1], testset: vec![2, 4, 2] };
    assert!(apart.within(5));
    assert!(apart.disjoint(5));
    let shared = Fold { trainset: vec![0, 3, 1], testset: vec![2, 3] };
    assert!(!shared.disjoint(5));
    assert!(Fold::new().disjoint(0));
    let records = vec![
        item(TrainTest::Train, 0, 0, 0),
        item(TrainTest::Test, 1, 0, 0),
        item(TrainTest::Train, 1, 0, 1),
        item(TrainTest::Test, 0, 0, 1),
    ];
    let procedure = Procedure::Frozen(FrozenSets::from_records(&records));
    assert!(procedure.disjoint(2));
    let mut records = records;
    records.push(item(TrainTest::Test, 1, 0, 1));
    let procedure = Procedure::Frozen(FrozenSets::from_records(&records));
    assert!(!procedure.disjoint(2));
}
