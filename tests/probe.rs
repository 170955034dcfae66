use fastxlsx::containers::{ValueContainer, WrappedValue};
use fastxlsx::error::Error;
use fastxlsx::probe::{extract_any, extract_any_list, extract_value, scalar_extractions, HostScalar};
use fastxlsx::types::DType;
use fastxlsx::value::{CalamineData, Date, DateTime, Float64};

fn host_int(v: i64) -> HostScalar {
    HostScalar {
        is_none: false,
        as_bool: None,
        as_int: Some(v),
        as_float: Some(Float64::from_bits((v as f64).to_bits())),
        as_str: None,
        as_datetime: None,
        as_date: None,
    }
}

fn host_nothing() -> HostScalar {
    HostScalar {
        is_none: false,
        as_bool: None,
        as_int: None,
        as_float: None,
        as_str: None,
        as_datetime: None,
        as_date: None,
    }
}

#[test]
fn int_wins_over_float() {
    let ex = scalar_extractions(&host_int(3));
    assert!(matches!(extract_value(ex, None), Ok(WrappedValue::Int(ValueContainer::Scalar(3)))));
    assert!(matches!(extract_any(&host_int(3)), Ok(CalamineData::Int(3))));
    let ex = scalar_extractions(&host_int(3));
    match extract_value(ex, Some(DType::Float)) {
        Ok(WrappedValue::Float(ValueContainer::Scalar(f))) => assert_eq!(f64::from_bits(f.bits), 3.0),
        other => panic!("{other:?}"),
    }
}

#[test]
fn bool_first_then_datetime_before_date() {
    let mut h = host_int(1);
    h.as_bool = Some(true);
    assert!(matches!(extract_any(&h), Ok(CalamineData::Bool(true))));
    let d = Date { year: 2021, month: 3, day: 4 };
    let dt = DateTime { date: d, hour: 1, minute: 0, second: 0, nanosecond: 0 };
    let h = HostScalar { as_datetime: Some(dt), as_date: Some(d), ..host_nothing() };
    assert!(matches!(extract_any(&h), Ok(CalamineData::DateTime(x)) if x == dt));
    let ex = scalar_extractions(&h);
    assert!(matches!(extract_value(ex, None), Ok(WrappedValue::DateTime(ValueContainer::Scalar(x))) if x == dt));
}

#[test]
fn unsupported_values() {
    assert!(matches!(extract_any(&host_nothing()), Err(Error::UnsupportedValueType)));
    let ex = scalar_extractions(&host_nothing());
    assert!(matches!(extract_value(ex, None), Err(Error::UnsupportedValueType)));
    let ex = scalar_extractions(&host_int(1));
    assert!(matches!(extract_value(ex, Some(DType::Str)), Err(Error::UnsupportedValueType)));
    let none = HostScalar { is_none: true, ..host_nothing() };
    assert!(matches!(extract_any(&none), Ok(CalamineData::Empty)));
    let ex = scalar_extractions(&none);
    assert!(matches!(extract_value(ex, None), Ok(WrappedValue::Any(ValueContainer::Scalar(CalamineData::Empty)))));
}

#[test]
fn any_lists() {
    let s = HostScalar { as_str: Some("q".to_string()), ..host_nothing() };
    let vs = extract_any_list(&vec![host_int(1), s]).unwrap();
    assert!(matches!(vs[0], CalamineData::Int(1)));
    assert!(matches!(&vs[1], CalamineData::Str(x) if x == "q"));
    assert!(extract_any_list(&vec![host_int(1), host_nothing()]).is_none());
    assert!(extract_any_list(&vec![]).unwrap().is_empty());
}
