use vstd::prelude::*;

use crate::cell::{is_blank, Cell, RawCell};
use crate::cell_addr::{decimal, push_char, push_decimal};
use crate::error::Error;
use crate::types::DType;
use crate::value::{CalamineData, Date, DateTime, Float64, NAN_BITS};

verus! {

/// How a concrete-kind decode settles.
pub enum Settled<T> {
    /// The cell's conversion to the kind.
    Value(T),
    /// The kind's default, for a lenient decode that has no value.
    Default,
    /// A strict decode of a blank cell.
    Blank,
    /// A strict decode of a cell that does not convert.
    Mismatch,
}

/// How a concrete-kind decode settles, given the cell's conversion to that
/// kind.
pub open spec fn settle<T>(cell: Option<&Cell>, conv: Option<T>, strict: bool) -> Settled<T> {
    if is_blank(cell) {
        if strict {
            Settled::Blank
        } else {
            Settled::Default
        }
    } else {
        match conv {
            Some(v) => Settled::Value(v),
            None => if strict {
                Settled::Mismatch
            } else {
                Settled::Default
            },
        }
    }
}

/// The text of an integer: a minus sign for a negative one, then its digits.
pub open spec fn int_text(v: int) -> Seq<char> {
    if v < 0 {
        seq!['-'] + decimal((-v) as nat)
    } else {
        decimal(v as nat)
    }
}

/// The value of a cell as text: text as it stands, integers in decimal,
/// booleans as "true" or "false", other values by their kind.
pub open spec fn raw_text(cell: Option<&Cell>) -> Seq<char> {
    match cell {
        None => Seq::empty(),
        Some(c) => match c.raw {
            RawCell::Int(v) => int_text(v as int),
            RawCell::Float(_) => seq!['f', 'l', 'o', 'a', 't'],
            RawCell::Str(s) => s@,
            RawCell::Bool(b) => if b {
                seq!['t', 'r', 'u', 'e']
            } else {
                seq!['f', 'a', 'l', 's', 'e']
            },
            RawCell::DateTime(_) => seq!['d', 'a', 't', 'e', '-', 't', 'i', 'm', 'e'],
            RawCell::DateTimeIso(s) => s@,
            RawCell::DurationIso(s) => s@,
            RawCell::Error => seq!['e', 'r', 'r', 'o', 'r'],
            RawCell::Empty => Seq::empty(),
        },
    }
}

/// `r` is the type-mismatch error of decoding `cell` as `kind`.
pub open spec fn is_mismatch<T>(r: Result<T, Error>, cell: Option<&Cell>, kind: DType) -> bool {
    r matches Err(Error::CellTypeMismatch(k, text)) && k == kind && text@ == raw_text(cell)
}

/// `r` is the outcome `s` of decoding `cell` as `kind`, where `is_default`
/// tells the kind's default.
pub open spec fn settled_as<T>(
    s: Settled<T>,
    r: Result<T, Error>,
    cell: Option<&Cell>,
    kind: DType,
    is_default: spec_fn(T) -> bool,
) -> bool {
    match s {
        Settled::Value(v) => r == Ok::<T, Error>(v),
        Settled::Default => r is Ok && is_default(r->Ok_0),
        Settled::Blank => r == Err::<T, Error>(Error::EmptyCell),
        Settled::Mismatch => is_mismatch(r, cell, kind),
    }
}

/// A concrete-kind decode fails exactly when it is strict and the cell is
/// blank or does not convert.
pub open spec fn settle_fails<T>(cell: Option<&Cell>, conv: Option<T>, strict: bool) -> bool {
    strict && (is_blank(cell) || conv is None)
}

/// A value that can be decoded from a single cell.
pub trait FromCell: Sized {
    /// Whether decoding `cell` fails.
    spec fn decode_fails(cell: Option<&Cell>, strict: bool) -> bool;

    /// Whether `r` is the outcome of decoding `cell`.
    spec fn decodes_to(cell: Option<&Cell>, strict: bool, r: Result<Self, Error>) -> bool;

    fn from_cell(cell: Option<&Cell>, strict: bool) -> (r: Result<Self, Error>)
        ensures
            r is Err <==> Self::decode_fails(cell, strict),
            Self::decodes_to(cell, strict, r),
    ;
}

pub open spec fn conv_int(cell: Option<&Cell>) -> Option<i64> {
    match cell {
        Some(c) => c.as_int,
        None => None,
    }
}

pub open spec fn conv_float(cell: Option<&Cell>) -> Option<Float64> {
    match cell {
        Some(c) => c.as_float,
        None => None,
    }
}

pub open spec fn conv_string(cell: Option<&Cell>) -> Option<String> {
    match cell {
        Some(c) => c.as_string,
        None => None,
    }
}

pub open spec fn conv_bool(cell: Option<&Cell>) -> Option<bool> {
    match cell {
        Some(c) => c.bool_of(),
        None => None,
    }
}

pub open spec fn conv_date(cell: Option<&Cell>) -> Option<Date> {
    match cell {
        Some(c) => c.as_date,
        None => None,
    }
}

pub open spec fn conv_datetime(cell: Option<&Cell>) -> Option<DateTime> {
    match cell {
        Some(c) => c.as_datetime,
        None => None,
    }
}

fn is_blank_exec(cell: Option<&Cell>) -> (r: bool)
    ensures
        r == is_blank(cell),
{
    match cell {
        None => true,
        Some(c) => match c.raw {
            RawCell::Empty => true,
            _ => false,
        },
    }
}

/// The value of a cell as text.
fn describe(cell: Option<&Cell>) -> (r: String)
    ensures
        r@ == raw_text(cell),
{
    let mut s = String::new();
    match cell {
        None => {},
        Some(c) => match &c.raw {
            RawCell::Int(v) => {
                if *v < 0 {
                    push_char(&mut s, '-');
                    push_decimal(&mut s, (-(*v as i128)) as u128);
                } else {
                    push_decimal(&mut s, *v as u128);
                }
            },
            RawCell::Float(_) => {
                s.append("float");
                proof {
                    reveal_strlit("float");
                }
            },
            RawCell::Str(t) => {
                s.append(t.as_str());
            },
            RawCell::Bool(b) => {
                if *b {
                    s.append("true");
                    proof {
                        reveal_strlit("true");
                    }
                } else {
                    s.append("false");
                    proof {
                        reveal_strlit("false");
                    }
                }
            },
            RawCell::DateTime(_) => {
                s.append("date-time");
                proof {
                    reveal_strlit("date-time");
                }
            },
            RawCell::DateTimeIso(t) => {
                s.append(t.as_str());
            },
            RawCell::DurationIso(t) => {
                s.append(t.as_str());
            },
            RawCell::Error => {
                s.append("error");
                proof {
                    reveal_strlit("error");
                }
            },
            RawCell::Empty => {},
        },
    }
    proof {
        assert(s@ =~= raw_text(cell));
    }
    s
}

/// Settles a decode from the cell's conversion, with `default` for a
/// lenient decode that has no value.
fn settle_exec<T>(cell: Option<&Cell>, conv: Option<T>, strict: bool, kind: DType, default: T) -> (r:
    Result<T, Error>)
    ensures
        match settle(cell, conv, strict) {
            Settled::Value(v) => r == Ok::<T, Error>(v),
            Settled::Default => r == Ok::<T, Error>(default),
            Settled::Blank => r == Err::<T, Error>(Error::EmptyCell),
            Settled::Mismatch => is_mismatch(r, cell, kind),
        },
{
    if is_blank_exec(cell) {
        if strict {
            Err(Error::EmptyCell)
        } else {
            Ok(default)
        }
    } else {
        match conv {
            Some(v) => Ok(v),
            None => if strict {
                Err(Error::CellTypeMismatch(kind, describe(cell)))
            } else {
                Ok(default)
            },
        }
    }
}

impl FromCell for i64 {
    open spec fn decode_fails(cell: Option<&Cell>, strict: bool) -> bool {
        settle_fails(cell, conv_int(cell), strict)
    }

    open spec fn decodes_to(cell: Option<&Cell>, strict: bool, r: Result<Self, Error>) -> bool {
        settled_as(settle(cell, conv_int(cell), strict), r, cell, DType::Int, |x: i64| x == 0)
    }

    fn from_cell(cell: Option<&Cell>, strict: bool) -> (r: Result<Self, Error>) {
        let conv = match cell {
            Some(c) => c.as_int,
            None => None,
        };
        settle_exec(cell, conv, strict, DType::Int, 0)
    }
}

impl FromCell for Float64 {
    open spec fn decode_fails(cell: Option<&Cell>, strict: bool) -> bool {
        settle_fails(cell, conv_float(cell), strict)
    }

    open spec fn decodes_to(cell: Option<&Cell>, strict: bool, r: Result<Self, Error>) -> bool {
        settled_as(settle(cell, conv_float(cell), strict), r, cell, DType::Float, |x: Float64| x == Float64 { bits: NAN_BITS })
    }

    fn from_cell(cell: Option<&Cell>, strict: bool) -> (r: Result<Self, Error>) {
        let conv = match cell {
            Some(c) => c.as_float,
            None => None,
        };
        settle_exec(cell, conv, strict, DType::Float, Float64::nan())
    }
}

impl FromCell for String {
    open spec fn decode_fails(cell: Option<&Cell>, strict: bool) -> bool {
        settle_fails(cell, conv_string(cell), strict)
    }

    open spec fn decodes_to(cell: Option<&Cell>, strict: bool, r: Result<Self, Error>) -> bool {
        settled_as(settle(cell, conv_string(cell), strict), r, cell, DType::Str, |x: String| x@ == Seq::<char>::empty())
    }

    fn from_cell(cell: Option<&Cell>, strict: bool) -> (r: Result<Self, Error>) {
        let conv = match cell {
            Some(c) => match &c.as_string {
                Some(s) => Some(s.clone()),
                None => None,
            },
            None => None,
        };
        settle_exec(cell, conv, strict, DType::Str, String::new())
    }
}

impl FromCell for bool {
    open spec fn decode_fails(cell: Option<&Cell>, strict: bool) -> bool {
        settle_fails(cell, conv_bool(cell), strict)
    }

    open spec fn decodes_to(cell: Option<&Cell>, strict: bool, r: Result<Self, Error>) -> bool {
        settled_as(settle(cell, conv_bool(cell), strict), r, cell, DType::Bool, |x: bool| x == false)
    }

    fn from_cell(cell: Option<&Cell>, strict: bool) -> (r: Result<Self, Error>) {
        let conv = match cell {
            Some(c) => match c.raw {
                RawCell::Bool(b) => Some(b),
                _ => None,
            },
            None => None,
        };
        settle_exec(cell, conv, strict, DType::Bool, false)
    }
}

impl FromCell for Date {
    open spec fn decode_fails(cell: Option<&Cell>, strict: bool) -> bool {
        settle_fails(cell, conv_date(cell), strict)
    }

    open spec fn decodes_to(cell: Option<&Cell>, strict: bool, r: Result<Self, Error>) -> bool {
        settled_as(settle(cell, conv_date(cell), strict), r, cell, DType::Date, |x: Date| x == Date::epoch_spec())
    }

    fn from_cell(cell: Option<&Cell>, strict: bool) -> (r: Result<Self, Error>) {
        let conv = match cell {
            Some(c) => c.as_date,
            None => None,
        };
        settle_exec(cell, conv, strict, DType::Date, Date::epoch())
    }
}

impl FromCell for DateTime {
    open spec fn decode_fails(cell: Option<&Cell>, strict: bool) -> bool {
        settle_fails(cell, conv_datetime(cell), strict)
    }

    open spec fn decodes_to(cell: Option<&Cell>, strict: bool, r: Result<Self, Error>) -> bool {
        settled_as(settle(cell, conv_datetime(cell), strict), r, cell, DType::DateTime, |x: DateTime| x == DateTime::epoch_spec())
    }

    fn from_cell(cell: Option<&Cell>, strict: bool) -> (r: Result<Self, Error>) {
        let conv = match cell {
            Some(c) => c.as_datetime,
            None => None,
        };
        settle_exec(cell, conv, strict, DType::DateTime, DateTime::epoch())
    }
}

/// The text that stands for a cell holding an error marker.
pub open spec fn error_text() -> Seq<char> {
    seq!['e', 'r', 'r', 'o', 'r']
}

/// `v` is the any-kind value of `cell`: each kind of cell maps to its own
/// variant; ISO text stays text; an error marker becomes the text "error";
/// a blank cell is empty.
pub open spec fn dynamic_of(cell: Option<&Cell>, v: CalamineData) -> bool {
    match cell {
        None => v is Empty,
        Some(c) => match c.raw {
            RawCell::Int(i) => v == CalamineData::Int(i),
            RawCell::Float(f) => v == CalamineData::Float(f),
            RawCell::Str(s) => v is Str && v->Str_0@ == s@,
            RawCell::Bool(b) => v == CalamineData::Bool(b),
            RawCell::DateTime(Some(d)) => v == CalamineData::DateTime(d),
            RawCell::DateTime(None) => v is Str && v->Str_0@ == error_text(),
            RawCell::DateTimeIso(s) => v is Str && v->Str_0@ == s@,
            RawCell::DurationIso(s) => v is Str && v->Str_0@ == s@,
            RawCell::Error => v is Str && v->Str_0@ == error_text(),
            RawCell::Empty => v is Empty,
        },
    }
}

fn error_string() -> (r: String)
    ensures
        r@ == error_text(),
{
    let mut s = String::new();
    s.append("error");
    proof {
        reveal_strlit("error");
        assert(s@ =~= error_text());
    }
    s
}

impl FromCell for CalamineData {
    open spec fn decode_fails(cell: Option<&Cell>, strict: bool) -> bool {
        false
    }

    open spec fn decodes_to(cell: Option<&Cell>, strict: bool, r: Result<Self, Error>) -> bool {
        r is Ok && dynamic_of(cell, r->Ok_0)
    }

    fn from_cell(cell: Option<&Cell>, strict: bool) -> (r: Result<Self, Error>) {
        let v = match cell {
            None => CalamineData::Empty,
            Some(c) => match &c.raw {
                RawCell::Int(i) => CalamineData::Int(*i),
                RawCell::Float(f) => CalamineData::Float(*f),
                RawCell::Str(s) => CalamineData::Str(s.clone()),
                RawCell::Bool(b) => CalamineData::Bool(*b),
                RawCell::DateTime(Some(d)) => CalamineData::DateTime(*d),
                RawCell::DateTime(None) => CalamineData::Str(error_string()),
                RawCell::DateTimeIso(s) => CalamineData::Str(s.clone()),
                RawCell::DurationIso(s) => CalamineData::Str(s.clone()),
                RawCell::Error => CalamineData::Str(error_string()),
                RawCell::Empty => CalamineData::Empty,
            },
        };
        Ok(v)
    }
}

/// A strict decode of a blank cell fails with `EmptyCell` for every
/// concrete kind; a lenient one gives the kind's default: 0, NaN, the empty
/// text, false, 1970-01-01 and 1970-01-01 00:00:00.
pub proof fn lemma_blank_cell_decode(cell: Option<&Cell>)
    requires
        is_blank(cell),
    ensures
        forall|r: Result<i64, Error>|
            <i64 as FromCell>::decodes_to(cell, true, r) <==> r == Err::<i64, Error>(Error::EmptyCell),
        forall|r: Result<Float64, Error>|
            <Float64 as FromCell>::decodes_to(cell, true, r) <==> r == Err::<Float64, Error>(
                Error::EmptyCell,
            ),
        forall|r: Result<String, Error>|
            <String as FromCell>::decodes_to(cell, true, r) <==> r == Err::<String, Error>(
                Error::EmptyCell,
            ),
        forall|r: Result<bool, Error>|
            <bool as FromCell>::decodes_to(cell, true, r) <==> r == Err::<bool, Error>(Error::EmptyCell),
        forall|r: Result<Date, Error>|
            <Date as FromCell>::decodes_to(cell, true, r) <==> r == Err::<Date, Error>(Error::EmptyCell),
        forall|r: Result<DateTime, Error>|
            <DateTime as FromCell>::decodes_to(cell, true, r) <==> r == Err::<DateTime, Error>(
                Error::EmptyCell,
            ),
        forall|r: Result<i64, Error>|
            <i64 as FromCell>::decodes_to(cell, false, r) <==> r == Ok::<i64, Error>(0),
        forall|r: Result<Float64, Error>|
            <Float64 as FromCell>::decodes_to(cell, false, r) <==> r == Ok::<Float64, Error>(
                Float64 { bits: NAN_BITS },
            ),
        forall|r: Result<String, Error>|
            <String as FromCell>::decodes_to(cell, false, r) <==> (r is Ok && r->Ok_0@ == Seq::<
                char,
            >::empty()),
        forall|r: Result<bool, Error>|
            <bool as FromCell>::decodes_to(cell, false, r) <==> r == Ok::<bool, Error>(false),
        forall|r: Result<Date, Error>|
            <Date as FromCell>::decodes_to(cell, false, r) <==> r == Ok::<Date, Error>(
                Date::epoch_spec(),
            ),
        forall|r: Result<DateTime, Error>|
            <DateTime as FromCell>::decodes_to(cell, false, r) <==> r == Ok::<DateTime, Error>(
                DateTime::epoch_spec(),
            ),
{
}

/// A text cell that does not read as an integer: a strict integer decode
/// fails with a type mismatch that carries the text, a lenient one gives 0.
pub proof fn lemma_text_cell_int_decode(c: &Cell)
    requires
        c.raw is Str,
        c.as_int is None,
    ensures
        forall|r: Result<i64, Error>|
            <i64 as FromCell>::decodes_to(Some(c), true, r) <==> (r matches Err(
                Error::CellTypeMismatch(k, text),
            ) && k == DType::Int && text@ == c.raw->Str_0@),
        forall|r: Result<i64, Error>|
            <i64 as FromCell>::decodes_to(Some(c), false, r) <==> r == Ok::<i64, Error>(0),
{
}

/// The any-kind decode of a boolean cell is that boolean, never an integer,
/// whether or not the decode is strict.
pub proof fn lemma_bool_cell_dynamic_decode(c: &Cell, strict: bool, r: Result<CalamineData, Error>)
    requires
        c.raw is Bool,
        <CalamineData as FromCell>::decodes_to(Some(c), strict, r),
    ensures
        r == Ok::<CalamineData, Error>(CalamineData::Bool(c.raw->Bool_0)),
{
}

} // verus!
