//! Borrowed access to the rows of a batch.

use crate::failure::{Error, FailureKind, OperationFailure};
use vstd::prelude::*;

verus! {

/// The entries of one borrowed map cell, in source order; null values are kept.
pub struct MapItem<'a> {
    /// Keys with their values.
    pub entries: Vec<(&'a str, Option<&'a str>)>,
}

/// Borrowed access to one column.
///
/// A cell gives the same value each time it is read. Reading does not copy the cell.
pub trait GetData {
    /// The text of a cell.
    closed spec fn text_at(&self, row: usize) -> Result<Option<&str>, Error> {
        arbitrary()
    }

    /// The 32-bit integer of a cell.
    closed spec fn int_at(&self, row: usize) -> Result<Option<i32>, Error> {
        arbitrary()
    }

    /// The 64-bit integer of a cell.
    closed spec fn long_at(&self, row: usize) -> Result<Option<i64>, Error> {
        arbitrary()
    }

    /// The number of elements of a list cell.
    closed spec fn list_at(&self, row: usize) -> Result<Option<usize>, Error> {
        arbitrary()
    }

    /// The entries of a map cell.
    closed spec fn map_at(&self, row: usize) -> Result<Option<MapItem<'_>>, Error> {
        arbitrary()
    }

    /// Reads a text cell.
    fn get_str(&self, row: usize, name: &str) -> (r: Result<Option<&str>, Error>)
        ensures
            r == self.text_at(row),
    ;

    /// Reads a 32-bit integer cell.
    fn get_int(&self, row: usize, name: &str) -> (r: Result<Option<i32>, Error>)
        ensures
            r == self.int_at(row),
    ;

    /// Reads a 64-bit integer cell.
    fn get_long(&self, row: usize, name: &str) -> (r: Result<Option<i64>, Error>)
        ensures
            r == self.long_at(row),
    ;

    /// Counts the elements of a list cell.
    fn get_list(&self, row: usize, name: &str) -> (r: Result<Option<usize>, Error>)
        ensures
            r == self.list_at(row),
    ;

    /// Borrows the entries of a map cell.
    fn get_map(&self, row: usize, name: &str) -> (r: Result<Option<MapItem<'_>>, Error>)
        ensures
            r == self.map_at(row),
    ;
}

/// The selected columns of a batch.
pub struct RowView<'a> {
    /// The number of rows.
    pub rows: usize,
    /// One accessor for each selected column.
    pub getters: Vec<&'a dyn GetData>,
}

/// The column of nulls.
impl GetData for () {
    open spec fn text_at(&self, row: usize) -> Result<Option<&str>, Error> {
        Ok(None)
    }

    open spec fn int_at(&self, row: usize) -> Result<Option<i32>, Error> {
        Ok(None)
    }

    open spec fn long_at(&self, row: usize) -> Result<Option<i64>, Error> {
        Ok(None)
    }

    open spec fn list_at(&self, row: usize) -> Result<Option<usize>, Error> {
        Ok(None)
    }

    open spec fn map_at(&self, row: usize) -> Result<Option<MapItem<'_>>, Error> {
        Ok(None)
    }

    fn get_str(&self, row: usize, name: &str) -> (r: Result<Option<&str>, Error>) {
        Ok(None)
    }

    fn get_int(&self, row: usize, name: &str) -> (r: Result<Option<i32>, Error>) {
        Ok(None)
    }

    fn get_long(&self, row: usize, name: &str) -> (r: Result<Option<i64>, Error>) {
        Ok(None)
    }

    fn get_list(&self, row: usize, name: &str) -> (r: Result<Option<usize>, Error>) {
        Ok(None)
    }

    fn get_map(&self, row: usize, name: &str) -> (r: Result<Option<MapItem<'_>>, Error>) {
        Ok(None)
    }
}

/// What a preflight says of a page.
pub enum Verdict {
    /// The page may be read.
    Pass,
    /// The page is outside the supported subset.
    Unsupported(Seq<char>),
    /// The page is refused.
    Refused(FailureKind),
}

/// Why a page could not be visited.
pub enum PageFault {
    /// The page has another shape.
    Shape(Seq<char>),
    /// A cell could not be read.
    Cell(Error),
}

impl PageFault {
    /// The error reports this fault.
    pub open spec fn reported(self, error: Error) -> bool {
        match self {
            PageFault::Shape(text) => error matches Error::Generic(message) && message@ == text,
            PageFault::Cell(cell) => error == cell,
        }
    }
}

/// The failure says that an input is outside the supported subset.
pub open spec fn unsupported(failure: OperationFailure, text: Seq<char>) -> bool {
    &&& failure.category() == FailureKind::Engine
    &&& failure.origin() matches Some(Error::Unsupported(message))
    &&& message@ == text
}

/// The failure carries an engine's error; a cancellation keeps its category.
pub open spec fn carries(failure: OperationFailure, error: Error) -> bool {
    &&& failure.category() == (if error.cancels() {
        FailureKind::Cancelled
    } else {
        FailureKind::Engine
    })
    &&& failure.origin() == Some(error)
}

impl PageFault {
    /// The failure carries the error that reports this fault.
    pub open spec fn carried(self, failure: OperationFailure) -> bool {
        failure.origin() matches Some(error) && self.reported(error) && carries(failure, error)
    }
}

impl Verdict {
    /// The failure delivers this verdict.
    pub open spec fn delivered(self, failure: Option<OperationFailure>) -> bool {
        match self {
            Verdict::Pass => failure is None,
            Verdict::Unsupported(text) => failure matches Some(failure) && unsupported(
                failure,
                text,
            ),
            Verdict::Refused(kind) => failure matches Some(failure) && failure.is_terminal(kind),
        }
    }
}

/// The failure of an input outside the supported subset.
pub fn outside(text: &str) -> (failure: OperationFailure)
    ensures
        unsupported(failure, text@),
{
    OperationFailure::engine(Error::unsupported(text))
}

} // verus!
