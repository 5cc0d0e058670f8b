//! Tabular frames and their classification by schema.
//!
//! A frame is a `polars_core` data frame. Of its contents only the schema is
//! read here: the number of columns and the name of each.

use crate::kind::{Kind, UnsupportedFormat};
use polars_core::frame::column::Column;
use polars_core::frame::DataFrame;
use vstd::prelude::*;

verus! {

/// `polars_core::frame::DataFrame`, carried through as an opaque value.
#[verifier::external_type_specification]
#[verifier::external_body]
pub struct ExDataFrame(DataFrame);

/// `polars_core::frame::column::Column`, the type of a frame's columns.
#[verifier::external_type_specification]
#[verifier::external_body]
pub struct ExColumn(Column);

/// `polars_core::error::PolarsError`, the error type of column arithmetic.
#[verifier::external_type_specification]
#[verifier::external_body]
pub struct ExPolarsError(polars_core::error::PolarsError);

/// The names of the columns that a frame holds, in column order.
pub uninterp spec fn frame_columns(frame: DataFrame) -> Seq<Seq<char>>;

/// Index of the column whose name tells the kind of a frame.
pub const DISCRIMINANT_COLUMN: usize = 1;

/// `DataFrame::width`: the number of columns of the frame.
#[verifier::external_body]
pub(crate) fn frame_width(frame: &DataFrame) -> (width: usize)
    ensures
        width == frame_columns(*frame).len(),
{
    frame.width()
}

/// Indexing a `DataFrame` by position, then `Column::name`: the name of the
/// column at `index`. The index has to be within the frame's width, since
/// indexing past it panics.
#[verifier::external_body]
pub(crate) fn frame_column_name(frame: &DataFrame, index: usize) -> (name: &str)
    requires
        index < frame_columns(*frame).len(),
    ensures
        name@ == frame_columns(*frame)[index as int],
{
    frame[index].name().as_str()
}

/// `DataFrame::clone`: a second handle on the same columns, equal to the
/// frame in everything that can be read of it.
#[verifier::external_body]
pub(crate) fn frame_clone(frame: &DataFrame) -> (copy: DataFrame)
    ensures
        copy == *frame,
{
    frame.clone()
}

/// What a schema is classified as: the kind that the name of the
/// distinguishing column stands for.
pub open spec fn classify_columns(columns: Seq<Seq<char>>) -> Result<Kind, UnsupportedFormat>
    recommends
        columns.len() > DISCRIMINANT_COLUMN,
{
    Kind::classified(columns[DISCRIMINANT_COLUMN as int])
}

/// Classifies a frame of at least two columns by the name of its
/// distinguishing column.
pub fn classify(frame: &DataFrame) -> (result: Result<Kind, UnsupportedFormat>)
    requires
        frame_columns(*frame).len() > DISCRIMINANT_COLUMN,
    ensures
        result == classify_columns(frame_columns(*frame)),
{
    Kind::from_name(frame_column_name(frame, DISCRIMINANT_COLUMN))
}

/// Classifies a frame of any width: `None` for a frame too narrow to have a
/// distinguishing column, else what `classify` gives.
pub fn try_classify(frame: &DataFrame) -> (result: Option<Result<Kind, UnsupportedFormat>>)
    ensures
        result == if frame_columns(*frame).len() > DISCRIMINANT_COLUMN {
            Some(classify_columns(frame_columns(*frame)))
        } else {
            None
        },
{
    if frame_width(frame) > DISCRIMINANT_COLUMN {
        Some(classify(frame))
    } else {
        None
    }
}

} // verus!
