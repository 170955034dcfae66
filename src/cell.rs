use vstd::prelude::*;

use crate::value::{Date, DateTime, Float64};

verus! {

/// What a worksheet cell holds, as the workbook reader reports it.
#[derive(Debug)]
pub enum RawCell {
    Int(i64),
    Float(Float64),
    Str(String),
    Bool(bool),
    /// A date-time cell, as a calendar value where the reader can convert
    /// its serial number.
    DateTime(Option<DateTime>),
    /// A date, time or date-time written as ISO 8601 text.
    DateTimeIso(String),
    /// A duration written as ISO 8601 text.
    DurationIso(String),
    /// A cell that holds an error marker such as `#DIV/0!`.
    Error,
    Empty,
}

/// A cell together with the reader's conversions of it to each concrete
/// kind (`None` where the cell does not convert).
#[derive(Debug)]
pub struct Cell {
    pub raw: RawCell,
    pub as_int: Option<i64>,
    pub as_float: Option<Float64>,
    pub as_string: Option<String>,
    pub as_date: Option<Date>,
    pub as_datetime: Option<DateTime>,
}

impl Cell {
    /// The boolean a cell holds; only a boolean cell holds one.
    pub open spec fn bool_of(&self) -> Option<bool> {
        match self.raw {
            RawCell::Bool(b) => Some(b),
            _ => None,
        }
    }

    /// A cell with no value and no conversions.
    pub fn empty() -> (r: Cell)
        ensures
            r.raw is Empty,
            r.as_int is None && r.as_float is None && r.as_string is None,
            r.as_date is None && r.as_datetime is None,
    {
        Cell {
            raw: RawCell::Empty,
            as_int: None,
            as_float: None,
            as_string: None,
            as_date: None,
            as_datetime: None,
        }
    }
}

/// No value: a position outside the worksheet's cells, or an empty cell.
pub open spec fn is_blank(cell: Option<&Cell>) -> bool {
    match cell {
        None => true,
        Some(c) => c.raw is Empty,
    }
}

} // verus!
