//! Plain values as the platform's resources hold them.

use vstd::prelude::*;

use crate::error::Error;
use crate::openml_api::json::{
    json_array_len_at, json_arrays, json_from_str, json_parses, json_string_at, json_strings,
};

verus! {

/// What a row of a split resource is used for.
#[derive(Clone, Copy, Debug, PartialEq, Eq, Structural)]
pub enum TrainTest {
    Train,
    Test,
}

/// A row in a split resource: one data row assigned to one fold of one repeat.
#[derive(Clone, Copy, Debug, PartialEq, Eq, Structural)]
pub struct CrossValItem {
    pub purpose: TrainTest,
    pub rowid: usize,
    pub repeat: usize,
    pub fold: usize,
}

/// The text of a string that may be there.
pub open spec fn text_of(found: Option<String>) -> Option<Seq<char>> {
    match found {
        Some(text) => Some(text@),
        None => None,
    }
}

/// What a table of strings holds at `pointer`.
pub open spec fn string_at(strings: Map<Seq<char>, Seq<char>>, pointer: Seq<char>) -> Option<
    Seq<char>,
> {
    if strings.contains_key(pointer) {
        Some(strings[pointer])
    } else {
        None
    }
}

/// What a table of lengths holds at `pointer`.
pub open spec fn len_at(arrays: Map<Seq<char>, nat>, pointer: Seq<char>) -> Option<nat> {
    if arrays.contains_key(pointer) {
        Some(arrays[pointer])
    } else {
        None
    }
}

/// The length that may be there, as a number without bound.
pub open spec fn count_of(found: Option<usize>) -> Option<nat> {
    match found {
        Some(len) => Some(len as nat),
        None => None,
    }
}

/// Generic JSON response as returned by the platform.
#[derive(Debug)]
pub struct GenericResponse(pub serde_json::Value);

impl GenericResponse {
    /// Reads a response. Text that is no JSON is refused.
    pub fn parse(raw: &str) -> (response: Result<GenericResponse, Error>)
        ensures
            response is Ok <==> json_parses(raw@),
            response is Err ==> response == Err::<GenericResponse, Error>(Error::JsonError),
    {
        match json_from_str(raw) {
            Some(value) => Ok(GenericResponse(value)),
            None => Err(Error::JsonError),
        }
    }

    /// The string to which a JSON pointer leads.
    pub fn text_at(&self, pointer: &str) -> (found: Option<String>)
        ensures
            text_of(found) == string_at(json_strings(self.0), pointer@),
    {
        json_string_at(&self.0, pointer)
    }

    /// The length of the array to which a JSON pointer leads.
    pub fn len_at(&self, pointer: &str) -> (found: Option<usize>)
        ensures
            count_of(found) == len_at(json_arrays(self.0), pointer@),
    {
        json_array_len_at(&self.0, pointer)
    }
}

/// The kinds of task that can be run.
#[derive(Clone, Copy, Debug, PartialEq, Eq, Structural)]
pub enum TaskKind {
    SupervisedClassification,
    SupervisedRegression,
}

/// The measures by which a run can be judged.
#[derive(Clone, Copy, Debug, PartialEq, Eq, Structural)]
pub enum Measure {
    PredictiveAccuracy,
    RootMeanSquaredError,
}

/// What an input of a task can be.
#[derive(Clone, Copy, Debug, PartialEq, Eq, Structural)]
pub enum TaskInputKind {
    SourceData,
    EstimationProcedure,
    EvaluationMeasures,
    CostMatrix,
    Other,
}

/// What a task's description says of one of its inputs. A field is empty
/// where the description has nothing of the expected form in its place.
#[derive(Debug)]
pub struct TaskInput {
    pub name: Option<String>,
    pub data_set_id: Option<String>,
    pub target_feature: Option<String>,
    pub procedure_type: Option<String>,
    pub data_splits_url: Option<String>,
    /// The measure, where one is named.
    pub evaluation_measure: Option<String>,
    /// The number of measures, where a list stands in the place of a name.
    pub evaluation_measure_count: Option<usize>,
    /// The number of entries of the cost matrix, where it is a list.
    pub cost_matrix_len: Option<usize>,
}

/// What a task's description says of the task.
#[derive(Debug)]
pub struct TaskDocument {
    pub task_id: Option<String>,
    pub task_name: Option<String>,
    pub task_type_id: Option<String>,
    pub input: Option<Vec<TaskInput>>,
}

/// A task as far as its description alone tells it: what it is, and where its
/// data and its splits are found.
#[derive(Debug)]
pub struct TaskHeader {
    pub id: String,
    pub name: String,
    pub kind: TaskKind,
    pub data_set_id: String,
    pub target_feature: Option<String>,
    pub data_splits_url: String,
    pub measure: Measure,
}

/// The mathematical content of a [`TaskHeader`].
pub struct TaskHeaderView {
    pub id: Seq<char>,
    pub name: Seq<char>,
    pub kind: TaskKind,
    pub data_set_id: Seq<char>,
    pub target_feature: Option<Seq<char>>,
    pub data_splits_url: Seq<char>,
    pub measure: Measure,
}

impl View for TaskHeader {
    type V = TaskHeaderView;

    open spec fn view(&self) -> TaskHeaderView {
        TaskHeaderView {
            id: self.id@,
            name: self.name@,
            kind: self.kind,
            data_set_id: self.data_set_id@,
            target_feature: text_of(self.target_feature),
            data_splits_url: self.data_splits_url@,
            measure: self.measure,
        }
    }
}

/// What the description of a data set says of it.
#[derive(Debug)]
pub struct DataSetDescription {
    /// The column to predict where a task names none.
    pub default_target_attribute: Option<String>,
    /// Where the data is served.
    pub url: Option<String>,
}

} // verus!
