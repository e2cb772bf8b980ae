//! The data of a task, as the ARFF reader holds it. Reading it from text is
//! left to the caller.

use vstd::prelude::*;

verus! {

/// A data set of the `arff` crate. What is inside is known only through
/// [`column_names`] and [`row_count`].
#[verifier::external_type_specification]
#[verifier::external_body]
pub struct ExArffDataSet(arff::dynamic::DataSet);

/// The names of the columns of a data set, in the order of the columns.
pub uninterp spec fn column_names(data: arff::dynamic::DataSet) -> Seq<Seq<char>>;

/// The number of rows of a data set.
pub uninterp spec fn row_count(data: arff::dynamic::DataSet) -> nat;

/// The names among `names` that are not `column`, in their order.
pub open spec fn other_columns(names: Seq<Seq<char>>, column: Seq<char>) -> Seq<Seq<char>> {
    names.filter(|name: Seq<char>| name != column)
}

/// The names among `names` that are `column`.
pub open spec fn same_columns(names: Seq<Seq<char>>, column: Seq<char>) -> Seq<Seq<char>> {
    names.filter(|name: Seq<char>| name == column)
}

/// `DataSet::n_cols` of the `arff` crate: the number of columns.
#[verifier::external_body]
fn arff_n_cols(data: &arff::dynamic::DataSet) -> (n: usize)
    ensures
        n == column_names(*data).len(),
{
    data.n_cols()
}

/// `DataSet::n_rows` of the `arff` crate: the number of rows.
#[verifier::external_body]
fn arff_n_rows(data: &arff::dynamic::DataSet) -> (n: usize)
    ensures
        n == row_count(*data),
{
    data.n_rows()
}

/// `Clone::clone` followed by `DataSet::split_one` of the `arff` crate: the
/// columns named `column` go to the second data set and all others to the
/// first, each kind in its old order, and both keep the number of rows.
#[verifier::external_body]
fn arff_clone_split_one(data: &arff::dynamic::DataSet, column: &str) -> (parts: (
    arff::dynamic::DataSet,
    arff::dynamic::DataSet,
))
    ensures
        column_names(parts.0) == other_columns(column_names(*data), column@),
        column_names(parts.1) == same_columns(column_names(*data), column@),
        row_count(parts.0) == row_count(*data),
        row_count(parts.1) == row_count(*data),
{
    data.clone().split_one(column)
}

/// An arbitrary data set, and the name of the column that is to be predicted.
#[derive(Debug)]
pub struct SourceData {
    pub arff: arff::dynamic::DataSet,
    pub target: Option<String>,
}

impl SourceData {
    /// The number of rows.
    pub fn n_rows(&self) -> (n: usize)
        ensures
            n == row_count(self.arff),
    {
        arff_n_rows(&self.arff)
    }

    /// The number of columns, the target among them.
    pub fn n_cols(&self) -> (n: usize)
        ensures
            n == column_names(self.arff).len(),
    {
        arff_n_cols(&self.arff)
    }

    /// Two data sets, one with the features and the other with the target
    /// variable; none where no target is named.
    pub fn clone_split(&self) -> (parts: Option<(arff::dynamic::DataSet, arff::dynamic::DataSet)>)
        ensures
            parts is Some <==> self.target is Some,
            parts matches Some((features, labels)) ==> {
                let target = self.target->0@;
                &&& column_names(features) == other_columns(column_names(self.arff), target)
                &&& column_names(labels) == same_columns(column_names(self.arff), target)
                &&& row_count(features) == row_count(self.arff)
                &&& row_count(labels) == row_count(self.arff)
            },
    {
        match &self.target {
            None => None,
            Some(column) => Some(arff_clone_split_one(&self.arff, column.as_str())),
        }
    }
}

} // verus!
