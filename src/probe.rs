use vstd::prelude::*;

use crate::containers::{ValueContainer, WrappedValue};
use crate::error::Error;
use crate::types::DType;
use crate::value::{CalamineData, Date, DateTime, Float64};

verus! {

/// What a single value handed in for writing yields when extracted as each
/// kind: `None` where it does not extract as that kind.
#[derive(Debug)]
pub struct HostScalar {
    pub is_none: bool,
    pub as_bool: Option<bool>,
    pub as_int: Option<i64>,
    pub as_float: Option<Float64>,
    pub as_str: Option<String>,
    pub as_datetime: Option<DateTime>,
    pub as_date: Option<Date>,
}

/// The any-kind value of a host scalar: nothing for none, otherwise the
/// first kind it extracts as, in the order bool, integer, float, text,
/// date-time, date.
pub open spec fn any_of(h: HostScalar) -> Result<CalamineData, Error> {
    if h.is_none {
        Ok(CalamineData::Empty)
    } else if h.as_bool is Some {
        Ok(CalamineData::Bool(h.as_bool->0))
    } else if h.as_int is Some {
        Ok(CalamineData::Int(h.as_int->0))
    } else if h.as_float is Some {
        Ok(CalamineData::Float(h.as_float->0))
    } else if h.as_str is Some {
        Ok(CalamineData::Str(h.as_str->0))
    } else if h.as_datetime is Some {
        Ok(CalamineData::DateTime(h.as_datetime->0))
    } else if h.as_date is Some {
        Ok(CalamineData::Date(h.as_date->0))
    } else {
        Err(Error::UnsupportedValueType)
    }
}

/// Extracts a host scalar as a value of any kind.
pub fn extract_any(h: &HostScalar) -> (r: Result<CalamineData, Error>)
    ensures
        r == any_of(*h),
{
    if h.is_none {
        return Ok(CalamineData::Empty);
    }
    if let Some(b) = h.as_bool {
        return Ok(CalamineData::Bool(b));
    }
    if let Some(v) = h.as_int {
        return Ok(CalamineData::Int(v));
    }
    if let Some(v) = h.as_float {
        return Ok(CalamineData::Float(v));
    }
    if let Some(s) = &h.as_str {
        return Ok(CalamineData::Str(s.clone()));
    }
    if let Some(d) = h.as_datetime {
        return Ok(CalamineData::DateTime(d));
    }
    if let Some(d) = h.as_date {
        return Ok(CalamineData::Date(d));
    }
    Err(Error::UnsupportedValueType)
}

/// Extracts every element of a list as a value of any kind; `None` if one
/// does not extract.
pub fn extract_any_list(items: &Vec<HostScalar>) -> (r: Option<Vec<CalamineData>>)
    ensures
        match r {
            Some(vs) => vs@.len() == items@.len() && forall|i: int|
                0 <= i < items@.len() ==> any_of(#[trigger] items@[i]) == Ok::<CalamineData, Error>(
                    vs@[i],
                ),
            None => exists|i: int| 0 <= i < items@.len() && (#[trigger] any_of(items@[i])) is Err,
        },
{
    let mut out: Vec<CalamineData> = Vec::new();
    let mut i: usize = 0;
    while i < items.len()
        invariant
            i <= items@.len(),
            out@.len() == i,
            forall|j: int| 0 <= j < i ==> any_of(#[trigger] items@[j]) == Ok::<CalamineData, Error>(out@[j]),
        decreases items@.len() - i,
    {
        match extract_any(&items[i]) {
            Ok(v) => out.push(v),
            Err(_) => {
                return None;
            },
        }
        i = i + 1;
    }
    Some(out)
}

/// What a value handed in for writing yields when extracted as each kind,
/// already in the container shape asked for.
#[derive(Debug)]
pub struct Extractions {
    pub as_bool: Option<ValueContainer<bool>>,
    pub as_int: Option<ValueContainer<i64>>,
    pub as_float: Option<ValueContainer<Float64>>,
    pub as_str: Option<ValueContainer<String>>,
    pub as_datetime: Option<ValueContainer<DateTime>>,
    pub as_date: Option<ValueContainer<Date>>,
    pub as_any: Option<ValueContainer<CalamineData>>,
}

/// The typed value of the extractions: of the kind asked for, or, with no
/// kind asked for, of the first kind that extracts, in the order bool,
/// integer, float, text, date-time, date, any.
pub open spec fn probe(ex: Extractions, dtype: Option<DType>) -> Result<WrappedValue, Error> {
    match dtype {
        Some(DType::Bool) => match ex.as_bool {
            Some(c) => Ok(WrappedValue::Bool(c)),
            None => Err(Error::UnsupportedValueType),
        },
        Some(DType::Int) => match ex.as_int {
            Some(c) => Ok(WrappedValue::Int(c)),
            None => Err(Error::UnsupportedValueType),
        },
        Some(DType::Float) => match ex.as_float {
            Some(c) => Ok(WrappedValue::Float(c)),
            None => Err(Error::UnsupportedValueType),
        },
        Some(DType::Str) => match ex.as_str {
            Some(c) => Ok(WrappedValue::Str(c)),
            None => Err(Error::UnsupportedValueType),
        },
        Some(DType::DateTime) => match ex.as_datetime {
            Some(c) => Ok(WrappedValue::DateTime(c)),
            None => Err(Error::UnsupportedValueType),
        },
        Some(DType::Date) => match ex.as_date {
            Some(c) => Ok(WrappedValue::Date(c)),
            None => Err(Error::UnsupportedValueType),
        },
        Some(DType::Any) => match ex.as_any {
            Some(c) => Ok(WrappedValue::Any(c)),
            None => Err(Error::UnsupportedValueType),
        },
        None => if ex.as_bool is Some {
            Ok(WrappedValue::Bool(ex.as_bool->0))
        } else if ex.as_int is Some {
            Ok(WrappedValue::Int(ex.as_int->0))
        } else if ex.as_float is Some {
            Ok(WrappedValue::Float(ex.as_float->0))
        } else if ex.as_str is Some {
            Ok(WrappedValue::Str(ex.as_str->0))
        } else if ex.as_datetime is Some {
            Ok(WrappedValue::DateTime(ex.as_datetime->0))
        } else if ex.as_date is Some {
            Ok(WrappedValue::Date(ex.as_date->0))
        } else if ex.as_any is Some {
            Ok(WrappedValue::Any(ex.as_any->0))
        } else {
            Err(Error::UnsupportedValueType)
        },
    }
}

/// Picks the typed value to write from the extractions.
pub fn extract_value(ex: Extractions, dtype: Option<DType>) -> (r: Result<WrappedValue, Error>)
    ensures
        r == probe(ex, dtype),
{
    match dtype {
        Some(DType::Bool) => match ex.as_bool {
            Some(c) => Ok(WrappedValue::Bool(c)),
            None => Err(Error::UnsupportedValueType),
        },
        Some(DType::Int) => match ex.as_int {
            Some(c) => Ok(WrappedValue::Int(c)),
            None => Err(Error::UnsupportedValueType),
        },
        Some(DType::Float) => match ex.as_float {
            Some(c) => Ok(WrappedValue::Float(c)),
            None => Err(Error::UnsupportedValueType),
        },
        Some(DType::Str) => match ex.as_str {
            Some(c) => Ok(WrappedValue::Str(c)),
            None => Err(Error::UnsupportedValueType),
        },
        Some(DType::DateTime) => match ex.as_datetime {
            Some(c) => Ok(WrappedValue::DateTime(c)),
            None => Err(Error::UnsupportedValueType),
        },
        Some(DType::Date) => match ex.as_date {
            Some(c) => Ok(WrappedValue::Date(c)),
            None => Err(Error::UnsupportedValueType),
        },
        Some(DType::Any) => match ex.as_any {
            Some(c) => Ok(WrappedValue::Any(c)),
            None => Err(Error::UnsupportedValueType),
        },
        None => {
            if let Some(c) = ex.as_bool {
                return Ok(WrappedValue::Bool(c));
            }
            if let Some(c) = ex.as_int {
                return Ok(WrappedValue::Int(c));
            }
            if let Some(c) = ex.as_float {
                return Ok(WrappedValue::Float(c));
            }
            if let Some(c) = ex.as_str {
                return Ok(WrappedValue::Str(c));
            }
            if let Some(c) = ex.as_datetime {
                return Ok(WrappedValue::DateTime(c));
            }
            if let Some(c) = ex.as_date {
                return Ok(WrappedValue::Date(c));
            }
            if let Some(c) = ex.as_any {
                return Ok(WrappedValue::Any(c));
            }
            Err(Error::UnsupportedValueType)
        },
    }
}

/// The extractions of a single host value: each kind as a scalar, and the
/// any-kind value where there is one.
pub fn scalar_extractions(h: &HostScalar) -> (r: Extractions)
    ensures
        r.as_bool == (match h.as_bool {
            Some(b) => Some(ValueContainer::Scalar(b)),
            None => None::<ValueContainer<bool>>,
        }),
        r.as_int == (match h.as_int {
            Some(v) => Some(ValueContainer::Scalar(v)),
            None => None::<ValueContainer<i64>>,
        }),
        r.as_float == (match h.as_float {
            Some(v) => Some(ValueContainer::Scalar(v)),
            None => None::<ValueContainer<Float64>>,
        }),
        r.as_str == (match h.as_str {
            Some(s) => Some(ValueContainer::Scalar(s)),
            None => None::<ValueContainer<String>>,
        }),
        r.as_datetime == (match h.as_datetime {
            Some(v) => Some(ValueContainer::Scalar(v)),
            None => None::<ValueContainer<DateTime>>,
        }),
        r.as_date == (match h.as_date {
            Some(v) => Some(ValueContainer::Scalar(v)),
            None => None::<ValueContainer<Date>>,
        }),
        r.as_any == (match any_of(*h) {
            Ok(v) => Some(ValueContainer::Scalar(v)),
            Err(_) => None::<ValueContainer<CalamineData>>,
        }),
{
    let as_str = match &h.as_str {
        Some(s) => Some(ValueContainer::Scalar(s.clone())),
        None => None,
    };
    let as_bool = match h.as_bool {
        Some(b) => Some(ValueContainer::Scalar(b)),
        None => None,
    };
    let as_int = match h.as_int {
        Some(v) => Some(ValueContainer::Scalar(v)),
        None => None,
    };
    let as_float = match h.as_float {
        Some(v) => Some(ValueContainer::Scalar(v)),
        None => None,
    };
    let as_datetime = match h.as_datetime {
        Some(v) => Some(ValueContainer::Scalar(v)),
        None => None,
    };
    let as_date = match h.as_date {
        Some(v) => Some(ValueContainer::Scalar(v)),
        None => None,
    };
    let as_any = match extract_any(h) {
        Ok(v) => Some(ValueContainer::Scalar(v)),
        Err(_) => None,
    };
    Extractions { as_bool, as_int, as_float, as_str, as_datetime, as_date, as_any }
}

/// With no kind asked for, a value that extracts as an integer is written
/// as one unless it extracts as a bool, even where it would also extract as
/// a float.
pub proof fn lemma_int_before_float(ex: Extractions)
    requires
        ex.as_bool is None,
        ex.as_int is Some,
    ensures
        probe(ex, None) == Ok::<WrappedValue, Error>(WrappedValue::Int(ex.as_int->0)),
{
}

/// A host value that is not none, not a bool and extracts as an integer is,
/// as a value of any kind, that integer, even where it would also extract
/// as a float.
pub proof fn lemma_any_int_before_float(h: HostScalar)
    requires
        !h.is_none,
        h.as_bool is None,
        h.as_int is Some,
    ensures
        any_of(h) == Ok::<CalamineData, Error>(CalamineData::Int(h.as_int->0)),
{
}

} // verus!
