//! Classification tasks.

use vstd::prelude::*;

use crate::dataset::SourceData;
use crate::error::Error;
use crate::measure_accumulator::MeasureAccumulator;
use crate::openml_api::api_types::{Measure, TaskHeader, TaskKind};
use crate::procedures::{FoldView, Procedure};
use crate::tasks::Task;

verus! {

/// Classification task.
pub struct SupervisedClassification {
    pub id: String,
    pub name: String,
    pub source_data: SourceData,
    pub estimation_procedure: Procedure,
    /// The measure by which the platform judges a run of the task.
    pub measure: Measure,
}

impl SupervisedClassification {
    /// Wires a task from its description, its data and its procedure. A
    /// description of another kind of task is refused.
    pub fn from_header(
        header: TaskHeader,
        source_data: SourceData,
        estimation_procedure: Procedure,
    ) -> (task: Result<Self, Error>)
        ensures
            match task {
                Ok(task) => {
                    &&& header.kind == TaskKind::SupervisedClassification
                    &&& task.id == header.id
                    &&& task.name == header.name
                    &&& task.source_data == source_data
                    &&& task.estimation_procedure == estimation_procedure
                    &&& task.measure == header.measure
                },
                Err(e) => e == Error::UnsupportedFeature && header.kind != TaskKind::SupervisedClassification,
            },
    {
        match header.kind {
            TaskKind::SupervisedClassification => Ok(
                SupervisedClassification {
                    id: header.id,
                    name: header.name,
                    source_data,
                    estimation_procedure,
                    measure: header.measure,
                },
            ),
            TaskKind::SupervisedRegression => Err(Error::UnsupportedFeature),
        }
    }
}

impl Task for SupervisedClassification {
    open spec fn task_id(&self) -> Seq<char> {
        self.id@
    }

    open spec fn task_name(&self) -> Seq<char> {
        self.name@
    }

    open spec fn folds(&self) -> Seq<FoldView> {
        self.estimation_procedure@
    }

    fn id(&self) -> (id: &str) {
        self.id.as_str()
    }

    fn name(&self) -> (name: &str) {
        self.name.as_str()
    }

    fn run_static<X, Y, F: Fn(Vec<(&X, &Y)>, Vec<&X>) -> Vec<Y>, M: MeasureAccumulator<Y>>(
        &self,
        x: &[X],
        y: &[Y],
        flow: F,
    ) -> (outcome: Result<M, Error>) {
        crate::tasks::run_static(x, y, &self.estimation_procedure, flow)
    }

    fn run<X, Y, F: Fn(Vec<(&[X], &Y)>, Vec<&[X]>) -> Vec<Y>, M: MeasureAccumulator<Y>>(
        &self,
        x: &[X],
        n_cols: usize,
        y: &[Y],
        flow: F,
    ) -> (outcome: Result<M, Error>) {
        crate::tasks::run(x, n_cols, y, &self.estimation_procedure, flow)
    }
}

} // verus!
