//! Reading the platform's JSON responses into plain values, and deciding what
//! task they describe.

use vstd::prelude::*;
use vstd::string::StringExecFns;

use crate::error::Error;
use crate::openml_api::api_types::{
    count_of, len_at, string_at, text_of, DataSetDescription, GenericResponse, Measure,
    TaskDocument, TaskHeader,
    TaskHeaderView, TaskInput, TaskInputKind, TaskKind,
};
use crate::openml_api::json::{json_arrays, json_strings};
use crate::openml_api::{decimal, decimal_text, same_text};

verus! {

/// The JSON pointer to `field` of input `i` of a task.
pub open spec fn input_pointer(i: nat, field: Seq<char>) -> Seq<char> {
    "/task/input/"@ + decimal(i) + field
}

/// The JSON pointer to `field` of input `i` of a task.
fn input_pointer_text(i: usize, field: &str) -> (pointer: String)
    ensures
        pointer@ == input_pointer(i as nat, field@),
{
    let mut pointer = String::from_str("/task/input/");
    let index = decimal_text(i as u64);
    pointer.append(index.as_str());
    pointer.append(field);
    pointer
}

/// Whether `input` holds what a JSON value says of input `i` of its task.
pub open spec fn is_input_of(
    input: TaskInput,
    strings: Map<Seq<char>, Seq<char>>,
    arrays: Map<Seq<char>, nat>,
    i: nat,
) -> bool {
    &&& text_of(input.name) == string_at(strings, input_pointer(i, "/name"@))
    &&& text_of(input.data_set_id) == string_at(
        strings,
        input_pointer(i, "/data_set/data_set_id"@),
    )
    &&& text_of(input.target_feature) == string_at(
        strings,
        input_pointer(i, "/data_set/target_feature"@),
    )
    &&& text_of(input.procedure_type) == string_at(
        strings,
        input_pointer(i, "/estimation_procedure/type"@),
    )
    &&& text_of(input.data_splits_url) == string_at(
        strings,
        input_pointer(i, "/estimation_procedure/data_splits_url"@),
    )
    &&& text_of(input.evaluation_measure) == string_at(
        strings,
        input_pointer(i, "/evaluation_measures/evaluation_measure"@),
    )
    &&& count_of(input.evaluation_measure_count) == len_at(
        arrays,
        input_pointer(i, "/evaluation_measures/evaluation_measure"@),
    )
    &&& count_of(input.cost_matrix_len) == len_at(arrays, input_pointer(i, "/cost_matrix"@))
}

/// Whether `document` holds what a JSON value says of its task.
pub open spec fn is_document_of(
    document: TaskDocument,
    strings: Map<Seq<char>, Seq<char>>,
    arrays: Map<Seq<char>, nat>,
) -> bool {
    &&& text_of(document.task_id) == string_at(strings, "/task/task_id"@)
    &&& text_of(document.task_name) == string_at(strings, "/task/task_name"@)
    &&& text_of(document.task_type_id) == string_at(strings, "/task/task_type_id"@)
    &&& match len_at(arrays, "/task/input"@) {
        Some(n) => document.input matches Some(inputs) && inputs@.len() == n && forall|i: int|
            0 <= i < n ==> is_input_of(#[trigger] inputs@[i], strings, arrays, i as nat),
        None => document.input is None,
    }
}

impl TaskInput {
    /// Reads input `i` of the task of a response.
    pub fn read(response: &GenericResponse, i: usize) -> (input: TaskInput)
        ensures
            is_input_of(input, json_strings(response.0), json_arrays(response.0), i as nat),
    {
        let measure = input_pointer_text(i, "/evaluation_measures/evaluation_measure");
        TaskInput {
            name: response.text_at(input_pointer_text(i, "/name").as_str()),
            data_set_id: response.text_at(input_pointer_text(i, "/data_set/data_set_id").as_str()),
            target_feature: response.text_at(
                input_pointer_text(i, "/data_set/target_feature").as_str(),
            ),
            procedure_type: response.text_at(
                input_pointer_text(i, "/estimation_procedure/type").as_str(),
            ),
            data_splits_url: response.text_at(
                input_pointer_text(i, "/estimation_procedure/data_splits_url").as_str(),
            ),
            evaluation_measure: response.text_at(measure.as_str()),
            evaluation_measure_count: response.len_at(measure.as_str()),
            cost_matrix_len: response.len_at(input_pointer_text(i, "/cost_matrix").as_str()),
        }
    }
}

impl TaskDocument {
    /// Reads what a response says of its task.
    pub fn read(response: &GenericResponse) -> (document: TaskDocument)
        ensures
            is_document_of(document, json_strings(response.0), json_arrays(response.0)),
    {
        let input = match response.len_at("/task/input") {
            None => None,
            Some(n) => {
                let mut inputs: Vec<TaskInput> = Vec::new();
                let mut i: usize = 0;
                while i < n
                    invariant
                        i <= n,
                        inputs@.len() == i,
                        forall|k: int|
                            0 <= k < i ==> is_input_of(
                                #[trigger] inputs@[k],
                                json_strings(response.0),
                                json_arrays(response.0),
                                k as nat,
                            ),
                    decreases n - i,
                {
                    inputs.push(TaskInput::read(response, i));
                    i = i + 1;
                }
                Some(inputs)
            },
        };
        TaskDocument {
            task_id: response.text_at("/task/task_id"),
            task_name: response.text_at("/task/task_name"),
            task_type_id: response.text_at("/task/task_type_id"),
            input,
        }
    }
}

/// The kind of task that a task type id stands for: `1` for classification,
/// `2` for regression, and none for any other.
pub open spec fn kind_of(type_id: Seq<char>) -> Option<TaskKind> {
    if type_id == "1"@ {
        Some(TaskKind::SupervisedClassification)
    } else if type_id == "2"@ {
        Some(TaskKind::SupervisedRegression)
    } else {
        None
    }
}

/// What the name of an input says that the input is.
pub open spec fn input_kind(name: Seq<char>) -> TaskInputKind {
    if name == "source_data"@ {
        TaskInputKind::SourceData
    } else if name == "estimation_procedure"@ {
        TaskInputKind::EstimationProcedure
    } else if name == "evaluation_measures"@ {
        TaskInputKind::EvaluationMeasures
    } else if name == "cost_matrix"@ {
        TaskInputKind::CostMatrix
    } else {
        TaskInputKind::Other
    }
}

/// The measure that an input asks for: the one it names; none where it names
/// none or holds an empty list. An unknown name or a list that is not empty is
/// an error.
pub open spec fn measure_of(input: TaskInput) -> Result<Option<Measure>, Error> {
    match input.evaluation_measure {
        Some(name) => if name@ == "predictive_accuracy"@ {
            Ok(Some(Measure::PredictiveAccuracy))
        } else if name@ == "root_mean_squared_error"@ {
            Ok(Some(Measure::RootMeanSquaredError))
        } else {
            Err(Error::UnsupportedFeature)
        },
        None => match input.evaluation_measure_count {
            Some(n) => if n == 0 {
                Ok(None)
            } else {
                Err(Error::UnsupportedFeature)
            },
            None => Ok(None),
        },
    }
}

/// What is wrong with one input, if anything: an input needs a name; the
/// source data needs the id of a data set; the estimation procedure needs a
/// URL of splits, being of no supported kind without; the evaluation measure
/// has to be a known one; a cost matrix has to be a list, and an empty one.
pub open spec fn input_error(input: TaskInput) -> Option<Error> {
    match input.name {
        None => Some(Error::JsonError),
        Some(name) => match input_kind(name@) {
            TaskInputKind::SourceData => if input.data_set_id is None {
                Some(Error::JsonError)
            } else {
                None
            },
            TaskInputKind::EstimationProcedure => if input.data_splits_url is None {
                Some(Error::UnsupportedFeature)
            } else {
                None
            },
            TaskInputKind::EvaluationMeasures => match measure_of(input) {
                Ok(_) => None,
                Err(e) => Some(e),
            },
            TaskInputKind::CostMatrix => match input.cost_matrix_len {
                None => Some(Error::JsonError),
                Some(n) => if n == 0 {
                    None
                } else {
                    Some(Error::UnsupportedFeature)
                },
            },
            TaskInputKind::Other => None,
        },
    }
}

/// What is wrong with the first input with which anything is wrong.
pub open spec fn first_input_error(inputs: Seq<TaskInput>) -> Option<Error>
    decreases inputs.len(),
{
    if inputs.len() == 0 {
        None
    } else {
        match first_input_error(inputs.drop_last()) {
            Some(e) => Some(e),
            None => input_error(inputs.last()),
        }
    }
}

/// Whether `input` has a name that says it is of `kind`.
pub open spec fn is_of_kind(input: TaskInput, kind: TaskInputKind) -> bool {
    input.name matches Some(name) && input_kind(name@) == kind
}

/// The place of the last input of `kind`.
pub open spec fn last_of_kind(inputs: Seq<TaskInput>, kind: TaskInputKind) -> Option<int>
    decreases inputs.len(),
{
    if inputs.len() == 0 {
        None
    } else if is_of_kind(inputs.last(), kind) {
        Some(inputs.len() - 1)
    } else {
        last_of_kind(inputs.drop_last(), kind)
    }
}

/// The measure that the last input that asks for one asks for.
pub open spec fn asked_measure(inputs: Seq<TaskInput>) -> Option<Measure>
    decreases inputs.len(),
{
    if inputs.len() == 0 {
        None
    } else if is_of_kind(inputs.last(), TaskInputKind::EvaluationMeasures) {
        match measure_of(inputs.last()) {
            Ok(Some(measure)) => Some(measure),
            _ => asked_measure(inputs.drop_last()),
        }
    } else {
        asked_measure(inputs.drop_last())
    }
}

/// The measure of a task of `kind` that asks for `asked`: where none is asked
/// for, a classification is measured by its accuracy, and a regression has none.
pub open spec fn measure_for(kind: TaskKind, asked: Option<Measure>) -> Option<Measure> {
    match asked {
        Some(measure) => Some(measure),
        None => match kind {
            TaskKind::SupervisedClassification => Some(Measure::PredictiveAccuracy),
            TaskKind::SupervisedRegression => None,
        },
    }
}

/// Why a document describes no task that can be run, if it describes none.
///
/// The task type is looked at first: it has to be there and be a known one.
/// Then the inputs are, in their order. After that the task needs an id and a
/// name, source data, an estimation procedure, and a measure.
pub open spec fn document_error(document: TaskDocument) -> Option<Error> {
    match document.task_type_id {
        None => Some(Error::JsonError),
        Some(type_id) => match kind_of(type_id@) {
            None => Some(Error::UnsupportedFeature),
            Some(kind) => match document.input {
                None => Some(Error::JsonError),
                Some(inputs) => match first_input_error(inputs@) {
                    Some(e) => Some(e),
                    None => if document.task_id is None || document.task_name is None
                        || last_of_kind(inputs@, TaskInputKind::SourceData) is None
                        || last_of_kind(inputs@, TaskInputKind::EstimationProcedure) is None
                        || measure_for(kind, asked_measure(inputs@)) is None {
                        Some(Error::JsonError)
                    } else {
                        None
                    },
                },
            },
        },
    }
}

/// The task that a document without error describes. Where an input occurs
/// more than once, the last one counts.
pub open spec fn document_header(document: TaskDocument) -> TaskHeaderView {
    let inputs = document.input->0@;
    let kind = kind_of(document.task_type_id->0@)->0;
    let source = inputs[last_of_kind(inputs, TaskInputKind::SourceData)->0];
    let procedure = inputs[last_of_kind(inputs, TaskInputKind::EstimationProcedure)->0];
    TaskHeaderView {
        id: document.task_id->0@,
        name: document.task_name->0@,
        kind,
        data_set_id: source.data_set_id->0@,
        target_feature: text_of(source.target_feature),
        data_splits_url: procedure.data_splits_url->0@,
        measure: measure_for(kind, asked_measure(inputs))->0,
    }
}

/// The kind of task that a task type id stands for.
pub fn task_kind(type_id: &String) -> (kind: Option<TaskKind>)
    ensures
        kind == kind_of(type_id@),
{
    if same_text(type_id.as_str(), "1") {
        Some(TaskKind::SupervisedClassification)
    } else if same_text(type_id.as_str(), "2") {
        Some(TaskKind::SupervisedRegression)
    } else {
        None
    }
}

impl TaskInput {
    /// What the name of the input says that the input is; none without a name.
    pub fn kind(&self) -> (kind: Option<TaskInputKind>)
        ensures
            match self.name {
                Some(name) => kind == Some(input_kind(name@)),
                None => kind is None,
            },
    {
        match &self.name {
            None => None,
            Some(name) => if same_text(name.as_str(), "source_data") {
                Some(TaskInputKind::SourceData)
            } else if same_text(name.as_str(), "estimation_procedure") {
                Some(TaskInputKind::EstimationProcedure)
            } else if same_text(name.as_str(), "evaluation_measures") {
                Some(TaskInputKind::EvaluationMeasures)
            } else if same_text(name.as_str(), "cost_matrix") {
                Some(TaskInputKind::CostMatrix)
            } else {
                Some(TaskInputKind::Other)
            },
        }
    }

    /// The measure that the input asks for.
    pub fn measure(&self) -> (asked: Result<Option<Measure>, Error>)
        ensures
            asked == measure_of(*self),
    {
        match &self.evaluation_measure {
            Some(name) => if same_text(name.as_str(), "predictive_accuracy") {
                Ok(Some(Measure::PredictiveAccuracy))
            } else if same_text(name.as_str(), "root_mean_squared_error") {
                Ok(Some(Measure::RootMeanSquaredError))
            } else {
                Err(Error::UnsupportedFeature)
            },
            None => match self.evaluation_measure_count {
                Some(n) => if n == 0 {
                    Ok(None)
                } else {
                    Err(Error::UnsupportedFeature)
                },
                None => Ok(None),
            },
        }
    }

    /// What is wrong with the input, if anything.
    pub fn check(&self) -> (found: Option<Error>)
        ensures
            found == input_error(*self),
    {
        match self.kind() {
            None => Some(Error::JsonError),
            Some(TaskInputKind::SourceData) => if self.data_set_id.is_none() {
                Some(Error::JsonError)
            } else {
                None
            },
            Some(TaskInputKind::EstimationProcedure) => if self.data_splits_url.is_none() {
                Some(Error::UnsupportedFeature)
            } else {
                None
            },
            Some(TaskInputKind::EvaluationMeasures) => match self.measure() {
                Ok(_) => None,
                Err(e) => Some(e),
            },
            Some(TaskInputKind::CostMatrix) => match self.cost_matrix_len {
                None => Some(Error::JsonError),
                Some(n) => if n == 0 {
                    None
                } else {
                    Some(Error::UnsupportedFeature)
                },
            },
            Some(TaskInputKind::Other) => None,
        }
    }
}

impl TaskHeader {
    /// Decides what task a document describes, or why it describes none that
    /// can be run.
    pub fn from_document(document: &TaskDocument) -> (header: Result<TaskHeader, Error>)
        ensures
            match header {
                Ok(header) => document_error(*document) is None && header@ == document_header(
                    *document,
                ),
                Err(e) => document_error(*document) == Some(e),
            },
    {
        let kind = match &document.task_type_id {
            None => {
                return Err(Error::JsonError);
            },
            Some(type_id) => match task_kind(type_id) {
                None => {
                    return Err(Error::UnsupportedFeature);
                },
                Some(kind) => kind,
            },
        };
        let inputs = match &document.input {
            None => {
                return Err(Error::JsonError);
            },
            Some(inputs) => inputs,
        };
        let mut source: Option<usize> = None;
        let mut procedure: Option<usize> = None;
        let mut asked: Option<Measure> = None;
        let mut i: usize = 0;
        while i < inputs.len()
            invariant
                i <= inputs@.len(),
                document.task_type_id is Some,
                kind_of(document.task_type_id->0@) == Some(kind),
                document.input == Some(*inputs),
                first_input_error(inputs@.take(i as int)) is None,
                source matches Some(at) ==> at < i,
                procedure matches Some(at) ==> at < i,
                match source {
                    Some(at) => last_of_kind(inputs@.take(i as int), TaskInputKind::SourceData)
                        == Some(at as int),
                    None => last_of_kind(inputs@.take(i as int), TaskInputKind::SourceData)
                        is None,
                },
                match procedure {
                    Some(at) => last_of_kind(
                        inputs@.take(i as int),
                        TaskInputKind::EstimationProcedure,
                    ) == Some(at as int),
                    None => last_of_kind(
                        inputs@.take(i as int),
                        TaskInputKind::EstimationProcedure,
                    ) is None,
                },
                asked == asked_measure(inputs@.take(i as int)),
            ensures
                i == inputs@.len(),
            decreases inputs@.len() - i,
        {
            let input = &inputs[i];
            proof {
                assert(inputs@.take(i as int + 1).drop_last() =~= inputs@.take(i as int));
            }
            match input.check() {
                Some(e) => {
                    proof {
                        lemma_first_input_error_stays(inputs@, i as int + 1);
                    }
                    return Err(e);
                },
                None => {},
            }
            match input.kind() {
                Some(TaskInputKind::SourceData) => {
                    source = Some(i);
                },
                Some(TaskInputKind::EstimationProcedure) => {
                    procedure = Some(i);
                },
                Some(TaskInputKind::EvaluationMeasures) => {
                    match input.measure() {
                        Ok(Some(measure)) => {
                            asked = Some(measure);
                        },
                        _ => {},
                    }
                },
                _ => {},
            }
            i = i + 1;
        }
        proof {
            assert(inputs@.take(i as int) =~= inputs@);
        }
        let measure = match asked {
            Some(measure) => Some(measure),
            None => match kind {
                TaskKind::SupervisedClassification => Some(Measure::PredictiveAccuracy),
                TaskKind::SupervisedRegression => None,
            },
        };
        match (&document.task_id, &document.task_name, source, procedure, measure) {
            (Some(id), Some(name), Some(source), Some(procedure), Some(measure)) => {
                let data = &inputs[source];
                let splits = &inputs[procedure];
                proof {
                    lemma_last_of_kind_is_of_kind(inputs@, TaskInputKind::SourceData);
                    lemma_last_of_kind_is_of_kind(inputs@, TaskInputKind::EstimationProcedure);
                    lemma_no_input_error(inputs@, source as int);
                    lemma_no_input_error(inputs@, procedure as int);
                }
                match (&data.data_set_id, &splits.data_splits_url) {
                    (Some(data_set_id), Some(data_splits_url)) => Ok(
                        TaskHeader {
                            id: id.clone(),
                            name: name.clone(),
                            kind,
                            data_set_id: data_set_id.clone(),
                            target_feature: data.target_feature.clone(),
                            data_splits_url: data_splits_url.clone(),
                            measure,
                        },
                    ),
                    _ => Err(Error::JsonError),
                }
            },
            _ => Err(Error::JsonError),
        }
    }
}

/// An error among the first inputs is the first error among all of them.
pub proof fn lemma_first_input_error_stays(inputs: Seq<TaskInput>, k: int)
    requires
        0 <= k <= inputs.len(),
        first_input_error(inputs.take(k)) is Some,
    ensures
        first_input_error(inputs) == first_input_error(inputs.take(k)),
    decreases inputs.len() - k,
{
    if k < inputs.len() {
        assert(inputs.take(k + 1).drop_last() =~= inputs.take(k));
        lemma_first_input_error_stays(inputs, k + 1);
    } else {
        assert(inputs.take(k) =~= inputs);
    }
}

/// Where no input has an error, each one has none.
pub proof fn lemma_no_input_error(inputs: Seq<TaskInput>, k: int)
    requires
        0 <= k < inputs.len(),
        first_input_error(inputs) is None,
    ensures
        input_error(inputs[k]) is None,
    decreases inputs.len(),
{
    if k < inputs.len() - 1 {
        lemma_no_input_error(inputs.drop_last(), k);
    }
}

/// The last input of a kind is of that kind.
pub proof fn lemma_last_of_kind_is_of_kind(inputs: Seq<TaskInput>, kind: TaskInputKind)
    ensures
        last_of_kind(inputs, kind) matches Some(at) ==> 0 <= at < inputs.len() && is_of_kind(
            inputs[at],
            kind,
        ),
    decreases inputs.len(),
{
    if inputs.len() > 0 && !is_of_kind(inputs.last(), kind) {
        lemma_last_of_kind_is_of_kind(inputs.drop_last(), kind);
    }
}

/// The column to predict: the one that the task names, and else the one that
/// the data set names for want of another.
pub open spec fn target_of(default_target: Option<Seq<char>>, target_feature: Option<Seq<char>>) -> Option<
    Seq<char>,
> {
    match target_feature {
        Some(target) => Some(target),
        None => default_target,
    }
}

impl DataSetDescription {
    /// Reads what a response says of its data set.
    pub fn read(response: &GenericResponse) -> (description: DataSetDescription)
        ensures
            text_of(description.default_target_attribute) == string_at(
                json_strings(response.0),
                "/data_set_description/default_target_attribute"@,
            ),
            text_of(description.url) == string_at(
                json_strings(response.0),
                "/data_set_description/url"@,
            ),
    {
        DataSetDescription {
            default_target_attribute: response.text_at(
                "/data_set_description/default_target_attribute",
            ),
            url: response.text_at("/data_set_description/url"),
        }
    }

    /// Where the data is served. A description that does not say so is refused.
    pub fn location(&self) -> (url: Result<String, Error>)
        ensures
            match self.url {
                Some(there) => url matches Ok(u) && u@ == there@,
                None => url == Err::<String, Error>(Error::JsonError),
            },
    {
        match &self.url {
            Some(there) => Ok(there.clone()),
            None => Err(Error::JsonError),
        }
    }

    /// The column to predict for a task that names `target_feature`.
    pub fn target(&self, target_feature: &Option<String>) -> (target: Option<String>)
        ensures
            text_of(target) == target_of(
                text_of(self.default_target_attribute),
                text_of(*target_feature),
            ),
    {
        match target_feature {
            Some(target) => Some(target.clone()),
            None => self.default_target_attribute.clone(),
        }
    }
}

} // verus!
