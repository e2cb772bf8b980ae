use openml::dataset::SourceData;
use openml::error::Error;
use openml::openml_api::api_types::{
    CrossValItem, DataSetDescription, GenericResponse, Measure, TaskDocument, TaskHeader, TaskInput,
    TaskInputKind, TaskKind, TrainTest,
};
use openml::openml_api::impls_from_json::task_kind;
use openml::openml_api::impls_from_openml::OpenML;
use openml::openml_api::web_access::RetryPolicy;
use openml::openml_api::{decimal_text, number_of, same_text, Id};
use openml::procedures::frozen_sets::records_from_rows;
use openml::procedures::{FrozenSets, Procedure};
use openml::tasks::{SupervisedClassification, SupervisedRegression, Task};

const TASK: &str = r#"{"task": {
    "task_id": "59",
    "task_name": "Task 59: iris (Supervised Classification)",
    "task_type_id": "1",
    "task_type": "Supervised Classification",
    "input": [
        {"name": "source_data", "data_set": {"data_set_id": "61", "target_feature": "class"}},
        {"name": "estimation_procedure", "estimation_procedure": {
            "type": "crossvalidation",
            "data_splits_url": "https://www.openml.org/api_splits/get/59/Task_59_splits.arff",
            "parameter": [{"name": "number_repeats", "value": "1"}]}},
        {"name": "cost_matrix", "cost_matrix": []},
        {"name": "evaluation_measures", "evaluation_measures": {"evaluation_measure": "predictive_accuracy"}}
    ]}}"#;

fn header_of(raw: &str) -> Result<TaskHeader, Error> {
    let response = GenericResponse::parse(raw)?;
    TaskHeader::from_document(&TaskDocument::read(&response))
}

fn input(name: &str) -> TaskInput {
    TaskInput {
        name: Some(name.to_string()),
        data_set_id: None,
        target_feature: None,
        procedure_type: None,
        data_splits_url: None,
        evaluation_measure: None,
        evaluation_measure_count: None,
        cost_matrix_len: None,
    }
}

fn document(kind: &str, inputs: Vec<TaskInput>) -> TaskDocument {
    TaskDocument {
        task_id: Some("7".to_string()),
        task_name: Some("seven".to_string()),
        task_type_id: Some(kind.to_string()),
        input: Some(inputs),
    }
}

fn source(id: &str) -> TaskInput {
    TaskInput { data_set_id: Some(id.to_string()), ..input("source_data") }
}

fn splits(url: &str) -> TaskInput {
    TaskInput { data_splits_url: Some(url.to_string()), ..input("estimation_procedure") }
}

fn error_of(document: &TaskDocument) -> Option<Error> {
    TaskHeader::from_document(document).err()
}

#[test]
fn ids_are_text_and_numbers() {
    assert_eq!(59u32.as_string(), "59");
    assert_eq!(0u32.as_string(), "0");
    assert_eq!(u32::MAX.as_string(), "4294967295");
    assert_eq!(59u32.as_u32(), 59);
    assert_eq!("146825".as_string(), "146825");
    assert_eq!("146825".as_u32(), 146825);
    assert_eq!("+12".as_u32(), 12);
    assert_eq!(String::from("007").as_u32(), 7);
    assert_eq!(String::from("007").as_string(), "007");
}

#[test]
fn numbers_are_read_from_digits_only() {
    assert_eq!(number_of("0"), Some(0));
    assert_eq!(number_of("4294967295"), Some(4294967295));
    assert_eq!(number_of("4294967296"), None);
    assert_eq!(number_of("99999999999"), None);
    assert_eq!(number_of(""), None);
    assert_eq!(number_of("+"), None);
    assert_eq!(number_of("-1"), None);
    assert_eq!(number_of("12a"), None);
    assert_eq!(number_of(" 12"), None);
    assert_eq!(number_of("+5"), Some(5));
    assert_eq!(decimal_text(0), "0");
    assert_eq!(decimal_text(10), "10");
    assert_eq!(decimal_text(18446744073709551615), "18446744073709551615");
    assert!(same_text("TRAIN", "TRAIN"));
    assert!(!same_text("TRAIN", "TRAIN "));
}

#[test]
fn the_platform_is_reached_with_bounded_patience() {
    let api = OpenML::new();
    assert_eq!(
        api.policy,
        RetryPolicy { max_attempts: 10, base_delay_ms: 50, max_delay_ms: 5000 }
    );
    assert_eq!(api.task_url(59u32), "https://www.openml.org/api/v1/json/task/59");
    assert_eq!(api.task_url("166850"), "https://www.openml.org/api/v1/json/task/166850");
    assert_eq!(api.data_set_url("61"), "https://www.openml.org/api/v1/json/data/61");
}

#[test]
fn responses_are_looked_up_by_pointer() {
    let response = GenericResponse::parse(TASK).unwrap();
    assert_eq!(response.text_at("/task/task_id"), Some("59".to_string()));
    assert_eq!(response.text_at("/task/input/0/name"), Some("source_data".to_string()));
    assert_eq!(response.text_at("/task/input"), None);
    assert_eq!(response.text_at("/task/nothing"), None);
    assert_eq!(response.len_at("/task/input"), Some(4));
    assert_eq!(response.len_at("/task/input/2/cost_matrix"), Some(0));
    assert_eq!(response.len_at("/task/task_id"), None);
    assert!(matches!(GenericResponse::parse("{\"task\": "), Err(Error::JsonError)));
    assert!(matches!(GenericResponse::parse(""), Err(Error::JsonError)));
}

#[test]
fn a_task_description_is_read() {
    let response = GenericResponse::parse(TASK).unwrap();
    let document = TaskDocument::read(&response);
    assert_eq!(document.task_type_id, Some("1".to_string()));
    let inputs = document.input.as_ref().unwrap();
    assert_eq!(inputs.len(), 4);
    assert_eq!(inputs[0].kind(), Some(TaskInputKind::SourceData));
    assert_eq!(inputs[0].data_set_id, Some("61".to_string()));
    assert_eq!(inputs[1].procedure_type, Some("crossvalidation".to_string()));
    assert_eq!(inputs[2].cost_matrix_len, Some(0));
    assert_eq!(inputs[3].measure(), Ok(Some(Measure::PredictiveAccuracy)));
    assert_eq!(TaskInput::read(&response, 4).name, None);

    let header = TaskHeader::from_document(&document).unwrap();
    assert_eq!(header.id, "59");
    assert_eq!(header.name, "Task 59: iris (Supervised Classification)");
    assert_eq!(header.kind, TaskKind::SupervisedClassification);
    assert_eq!(header.data_set_id, "61");
    assert_eq!(header.target_feature, Some("class".to_string()));
    assert_eq!(
        header.data_splits_url,
        "https://www.openml.org/api_splits/get/59/Task_59_splits.arff"
    );
    assert_eq!(header.measure, Measure::PredictiveAccuracy);
}

#[test]
fn more_than_ten_inputs_are_read() {
    let mut raw = String::from(r#"{"task": {"task_id": "1", "task_name": "n", "task_type_id": "2", "input": ["#);
    for _ in 0..11 {
        raw.push_str(r#"{"name": "other"},"#);
    }
    raw.push_str(r#"{"name": "source_data", "data_set": {"data_set_id": "3"}},"#);
    raw.push_str(r#"{"name": "estimation_procedure", "estimation_procedure": {"data_splits_url": "u"}},"#);
    raw.push_str(r#"{"name": "evaluation_measures", "evaluation_measures": {"evaluation_measure": "root_mean_squared_error"}}"#);
    raw.push_str("]}}");
    let header = header_of(&raw).unwrap();
    assert_eq!(header.kind, TaskKind::SupervisedRegression);
    assert_eq!(header.data_set_id, "3");
    assert_eq!(header.target_feature, None);
    assert_eq!(header.data_splits_url, "u");
    assert_eq!(header.measure, Measure::RootMeanSquaredError);
}

#[test]
fn task_types_are_one_and_two() {
    assert_eq!(task_kind(&"1".to_string()), Some(TaskKind::SupervisedClassification));
    assert_eq!(task_kind(&"2".to_string()), Some(TaskKind::SupervisedRegression));
    assert_eq!(task_kind(&"3".to_string()), None);
    assert_eq!(task_kind(&"".to_string()), None);
    assert_eq!(error_of(&document("5", vec![source("1"), splits("u")])), Some(Error::UnsupportedFeature));
    let mut untyped = document("1", vec![source("1"), splits("u")]);
    untyped.task_type_id = None;
    assert_eq!(error_of(&untyped), Some(Error::JsonError));
}

#[test]
fn a_classification_is_measured_by_accuracy_for_want_of_another() {
    let header = TaskHeader::from_document(&document("1", vec![source("1"), splits("u")])).unwrap();
    assert_eq!(header.measure, Measure::PredictiveAccuracy);
    let empty = TaskInput { evaluation_measure_count: Some(0), ..input("evaluation_measures") };
    let header =
        TaskHeader::from_document(&document("1", vec![source("1"), empty, splits("u")])).unwrap();
    assert_eq!(header.measure, Measure::PredictiveAccuracy);
    // a regression has no measure to fall back on
    assert_eq!(error_of(&document("2", vec![source("1"), splits("u")])), Some(Error::JsonError));
    let rmse = TaskInput {
        evaluation_measure: Some("root_mean_squared_error".to_string()),
        ..input("evaluation_measures")
    };
    let header =
        TaskHeader::from_document(&document("1", vec![rmse, source("1"), splits("u")])).unwrap();
    assert_eq!(header.measure, Measure::RootMeanSquaredError);
}

#[test]
fn what_is_not_supported_is_refused() {
    let unknown = TaskInput {
        evaluation_measure: Some("area_under_roc_curve".to_string()),
        ..input("evaluation_measures")
    };
    assert_eq!(unknown.check(), Some(Error::UnsupportedFeature));
    let listed = TaskInput { evaluation_measure_count: Some(2), ..input("evaluation_measures") };
    assert_eq!(listed.check(), Some(Error::UnsupportedFeature));
    let costly = TaskInput { cost_matrix_len: Some(1), ..input("cost_matrix") };
    assert_eq!(costly.check(), Some(Error::UnsupportedFeature));
    assert_eq!(
        error_of(&document("1", vec![source("1"), splits("u"), costly])),
        Some(Error::UnsupportedFeature)
    );
    let no_cost = TaskInput { cost_matrix_len: Some(0), ..input("cost_matrix") };
    assert_eq!(no_cost.check(), None);
    // an estimation procedure without splits to load is of no supported kind
    assert_eq!(input("estimation_procedure").check(), Some(Error::UnsupportedFeature));
    assert_eq!(
        error_of(&document("1", vec![source("1"), input("estimation_procedure")])),
        Some(Error::UnsupportedFeature)
    );
}

#[test]
fn what_is_missing_is_a_json_error() {
    assert_eq!(input("cost_matrix").check(), Some(Error::JsonError));
    assert_eq!(input("source_data").check(), Some(Error::JsonError));
    assert_eq!(input("whatever").check(), None);
    let nameless = TaskInput { name: None, ..input("") };
    assert_eq!(nameless.check(), Some(Error::JsonError));
    assert_eq!(nameless.kind(), None);
    assert_eq!(error_of(&document("1", vec![splits("u")])), Some(Error::JsonError));
    assert_eq!(error_of(&document("1", vec![source("1")])), Some(Error::JsonError));
    assert_eq!(error_of(&document("1", vec![])), Some(Error::JsonError));
    let mut unnamed = document("1", vec![source("1"), splits("u")]);
    unnamed.task_name = None;
    assert_eq!(error_of(&unnamed), Some(Error::JsonError));
    let mut without_inputs = document("1", vec![]);
    without_inputs.input = None;
    assert_eq!(error_of(&without_inputs), Some(Error::JsonError));
    assert!(matches!(header_of(r#"{"task": {}}"#), Err(Error::JsonError)));
    assert!(matches!(header_of("not json"), Err(Error::JsonError)));
}

#[test]
fn the_first_faulty_input_decides_and_the_last_of_a_kind_counts() {
    let costly = TaskInput { cost_matrix_len: Some(1), ..input("cost_matrix") };
    assert_eq!(
        error_of(&document("1", vec![costly, input("source_data")])),
        Some(Error::UnsupportedFeature)
    );
    let costly = TaskInput { cost_matrix_len: Some(1), ..input("cost_matrix") };
    assert_eq!(
        error_of(&document("1", vec![input("source_data"), costly])),
        Some(Error::JsonError)
    );
    let header = TaskHeader::from_document(&document(
        "1",
        vec![source("1"), splits("first"), source("2"), splits("second")],
    ))
    .unwrap();
    assert_eq!(header.data_set_id, "2");
    assert_eq!(header.data_splits_url, "second");
}

#[test]
fn a_data_set_description_is_read() {
    let raw = r#"{"data_set_description": {"id": "61", "default_target_attribute": "class",
        "url": "https://www.openml.org/data/v1/download/61/iris.arff"}}"#;
    let description = DataSetDescription::read(&GenericResponse::parse(raw).unwrap());
    assert_eq!(
        description.location(),
        Ok("https://www.openml.org/data/v1/download/61/iris.arff".to_string())
    );
    assert_eq!(description.target(&None), Some("class".to_string()));
    assert_eq!(description.target(&Some("other".to_string())), Some("other".to_string()));
    let bare = DataSetDescription::read(&GenericResponse::parse("{}").unwrap());
    assert_eq!(bare.location(), Err(Error::JsonError));
    assert_eq!(bare.target(&None), None);
    assert_eq!(bare.target(&Some("t".to_string())), Some("t".to_string()));
}

const SPLITS: &str = "@RELATION splits
@ATTRIBUTE type {TRAIN,TEST}
@ATTRIBUTE rowid NUMERIC
@ATTRIBUTE repeat NUMERIC
@ATTRIBUTE fold NUMERIC

@DATA
TRAIN,0,0,0
TRAIN,1,0,0
TEST,2,0,0
TRAIN,3,0,1
TEST,4,0,1
";

fn plan_of_text(raw: &str) -> Result<FrozenSets, Error> {
    match arff::from_str::<Vec<(String, usize, usize, usize)>>(raw) {
        Ok(rows) => FrozenSets::from_rows(&rows),
        Err(_) => Err(Error::TabularFormatError),
    }
}

#[test]
fn splits_are_read_from_text() {
    let plan = plan_of_text(SPLITS).unwrap();
    assert_eq!(plan.folds.len(), 1);
    assert_eq!(plan.folds[0].len(), 2);
    assert_eq!(plan.folds[0][0].trainset, vec![0, 1]);
    assert_eq!(plan.folds[0][0].testset, vec![2]);
    assert_eq!(plan.folds[0][1].trainset, vec![3]);
    assert_eq!(plan.folds[0][1].testset, vec![4]);
}

#[test]
fn malformed_splits_are_refused() {
    let odd = SPLITS.replace("TEST,4,0,1", "VALIDATE,4,0,1");
    assert!(matches!(plan_of_text(&odd), Err(Error::TabularFormatError)));
    let short = SPLITS.replace("TEST,4,0,1", "TEST,4,0");
    assert!(matches!(plan_of_text(&short), Err(Error::TabularFormatError)));
    let negative = SPLITS.replace("TEST,4,0,1", "TEST,-4,0,1");
    assert!(matches!(plan_of_text(&negative), Err(Error::TabularFormatError)));
    let rows = vec![("TRAIN".to_string(), 0, usize::MAX, 0)];
    assert!(matches!(FrozenSets::from_rows(&rows), Err(Error::TabularFormatError)));
}

#[test]
fn rows_become_records() {
    assert_eq!(
        CrossValItem::from_row("TRAIN", 5, 1, 2),
        Some(CrossValItem { purpose: TrainTest::Train, rowid: 5, repeat: 1, fold: 2 })
    );
    assert_eq!(
        CrossValItem::from_row("TEST", 0, 0, 0),
        Some(CrossValItem { purpose: TrainTest::Test, rowid: 0, repeat: 0, fold: 0 })
    );
    assert_eq!(CrossValItem::from_row("train", 5, 1, 2), None);
    assert_eq!(CrossValItem::from_row("TRAIN", 5, usize::MAX, 2), None);
    assert_eq!(CrossValItem::from_row("TRAIN", 5, 1, usize::MAX), None);
    let rows = vec![("TEST".to_string(), 9, 0, 0), ("TRAIN".to_string(), 8, 0, 0)];
    let records = records_from_rows(&rows).unwrap();
    assert_eq!(records.len(), 2);
    assert_eq!(records[0].purpose, TrainTest::Test);
    assert_eq!(records[1].rowid, 8);
    let bad = vec![("TEST".to_string(), 9, 0, 0), ("".to_string(), 8, 0, 0)];
    assert_eq!(records_from_rows(&bad), Err(Error::TabularFormatError));
}

const DATA: &str = "@RELATION tiny
@ATTRIBUTE a NUMERIC
@ATTRIBUTE class {x,y}
@ATTRIBUTE b NUMERIC

@DATA
1,x,2
3,y,4
5,x,6
";

fn source_data(target: Option<&str>) -> SourceData {
    SourceData {
        arff: arff::dynamic::DataSet::from_str(DATA).unwrap(),
        target: target.map(|t| t.to_string()),
    }
}

#[test]
fn data_is_split_at_the_target() {
    let data = source_data(Some("class"));
    assert_eq!(data.n_rows(), 3);
    assert_eq!(data.n_cols(), 3);
    let (features, labels) = data.clone_split().unwrap();
    assert_eq!(features.n_cols(), 2);
    assert_eq!(features.col_name(0), "a");
    assert_eq!(features.col_name(1), "b");
    assert_eq!(features.n_rows(), 3);
    assert_eq!(labels.n_cols(), 1);
    assert_eq!(labels.col_name(0), "class");
    assert_eq!(labels.n_rows(), 3);
    // the data set itself is left as it was
    assert_eq!(data.n_cols(), 3);
    let untargeted = source_data(None);
    assert!(untargeted.clone_split().is_none());
    let elsewhere = source_data(Some("nowhere"));
    let (features, labels) = elsewhere.clone_split().unwrap();
    assert_eq!(features.n_cols(), 3);
    assert_eq!(labels.n_cols(), 0);
}

#[test]
fn tasks_are_wired_from_their_parts() {
    let header = header_of(TASK).unwrap();
    let source = source_data(header.target_feature.as_deref());
    let procedure = Procedure::Frozen(plan_of_text(SPLITS).unwrap());
    let task = SupervisedClassification::from_header(header, source, procedure).unwrap();
    assert_eq!(task.id(), "59");
    assert_eq!(task.name(), "Task 59: iris (Supervised Classification)");
    assert_eq!(task.estimation_procedure.iter().len(), 2);
    assert_eq!(task.measure, Measure::PredictiveAccuracy);

    let header = header_of(TASK).unwrap();
    let procedure = Procedure::Frozen(plan_of_text(SPLITS).unwrap());
    assert!(matches!(
        SupervisedRegression::from_header(header, source_data(None), procedure),
        Err(Error::UnsupportedFeature)
    ));
}
