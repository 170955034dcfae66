use fastxlsx::cell::{Cell, RawCell};
use fastxlsx::containers::{ValueContainer, WrappedValue};
use fastxlsx::error::Error;
use fastxlsx::fromcell::FromCell;
use fastxlsx::read::{ReadOnlyWorkbook, ReadOnlyWorksheet};
use fastxlsx::types::{DShape, DType, IdxOrName, ListOrDict, RangeInfo};
use fastxlsx::value::{CalamineData, Date, DateTime, Float64, NAN_BITS};
use fastxlsx::cell_addr::CellAddr;

fn int_cell(v: i64) -> Cell {
    Cell {
        raw: RawCell::Int(v),
        as_int: Some(v),
        as_float: Some(Float64::from_bits((v as f64).to_bits())),
        as_string: Some(v.to_string()),
        as_date: None,
        as_datetime: None,
    }
}

fn text_cell(s: &str) -> Cell {
    Cell {
        raw: RawCell::Str(s.to_string()),
        as_int: s.parse::<i64>().ok(),
        as_float: s.parse::<f64>().ok().map(|f| Float64::from_bits(f.to_bits())),
        as_string: Some(s.to_string()),
        as_date: None,
        as_datetime: None,
    }
}

fn bool_cell(b: bool) -> Cell {
    Cell {
        raw: RawCell::Bool(b),
        as_int: Some(b as i64),
        as_float: Some(Float64::from_bits(if b { 1.0f64 } else { 0.0f64 }.to_bits())),
        as_string: None,
        as_date: None,
        as_datetime: None,
    }
}

fn error_cell() -> Cell {
    Cell {
        raw: RawCell::Error,
        as_int: None,
        as_float: None,
        as_string: None,
        as_date: None,
        as_datetime: None,
    }
}

fn sheet(n_rows: usize, n_cols: usize, cells: Vec<Cell>) -> ReadOnlyWorksheet {
    ReadOnlyWorksheet::new("S".to_string(), n_rows, n_cols, cells).unwrap()
}

fn ri(pos: (i32, i32), shape: DShape, dtype: DType, strict: bool) -> RangeInfo {
    RangeInfo::new(pos, shape, dtype, strict)
}

#[test]
fn blank_cell_strict_and_lenient() {
    let empty = Cell::empty();
    for cell in [None, Some(&empty)] {
        assert!(matches!(i64::from_cell(cell, true), Err(Error::EmptyCell)));
        assert!(matches!(Float64::from_cell(cell, true), Err(Error::EmptyCell)));
        assert!(matches!(String::from_cell(cell, true), Err(Error::EmptyCell)));
        assert!(matches!(bool::from_cell(cell, true), Err(Error::EmptyCell)));
        assert!(matches!(Date::from_cell(cell, true), Err(Error::EmptyCell)));
        assert!(matches!(DateTime::from_cell(cell, true), Err(Error::EmptyCell)));
        assert_eq!(i64::from_cell(cell, false).unwrap(), 0);
        let nan = Float64::from_cell(cell, false).unwrap();
        assert_eq!(nan.bits, NAN_BITS);
        assert!(f64::from_bits(nan.bits).is_nan());
        assert_eq!(String::from_cell(cell, false).unwrap(), "");
        assert_eq!(bool::from_cell(cell, false).unwrap(), false);
        assert_eq!(Date::from_cell(cell, false).unwrap(), Date { year: 1970, month: 1, day: 1 });
        assert_eq!(DateTime::from_cell(cell, false).unwrap(), DateTime::epoch());
        assert!(matches!(CalamineData::from_cell(cell, true), Ok(CalamineData::Empty)));
    }
}

#[test]
fn text_cell_as_int() {
    let c = text_cell("abc");
    match i64::from_cell(Some(&c), true) {
        Err(Error::CellTypeMismatch(DType::Int, text)) => assert_eq!(text, "abc"),
        other => panic!("{other:?}"),
    }
    assert_eq!(i64::from_cell(Some(&c), false).unwrap(), 0);
    let n = text_cell("42");
    assert_eq!(i64::from_cell(Some(&n), true).unwrap(), 42);
}

#[test]
fn bool_cell_any_kind() {
    for b in [true, false] {
        let c = bool_cell(b);
        for strict in [true, false] {
            match CalamineData::from_cell(Some(&c), strict) {
                Ok(CalamineData::Bool(x)) => assert_eq!(x, b),
                other => panic!("{other:?}"),
            }
        }
        assert_eq!(bool::from_cell(Some(&c), true).unwrap(), b);
        assert_eq!(i64::from_cell(Some(&c), true).unwrap(), b as i64);
    }
}

#[test]
fn bool_kind_rejects_int_cell() {
    let c = int_cell(1);
    match bool::from_cell(Some(&c), true) {
        Err(Error::CellTypeMismatch(DType::Bool, text)) => assert_eq!(text, "1"),
        other => panic!("{other:?}"),
    }
    let neg = int_cell(-305);
    match Date::from_cell(Some(&neg), true) {
        Err(Error::CellTypeMismatch(DType::Date, text)) => assert_eq!(text, "-305"),
        other => panic!("{other:?}"),
    }
    let t = bool_cell(true);
    match String::from_cell(Some(&t), true) {
        Err(Error::CellTypeMismatch(DType::Str, text)) => assert_eq!(text, "true"),
        other => panic!("{other:?}"),
    }
    match i64::from_cell(Some(&error_cell()), true) {
        Err(Error::CellTypeMismatch(DType::Int, text)) => assert_eq!(text, "error"),
        other => panic!("{other:?}"),
    }
    assert_eq!(bool::from_cell(Some(&c), false).unwrap(), false);
}

#[test]
fn any_kind_mapping() {
    let iso = Cell { raw: RawCell::DateTimeIso("2024-01-02T03:04:05".to_string()), ..Cell::empty() };
    let dur = Cell { raw: RawCell::DurationIso("PT1H".to_string()), ..Cell::empty() };
    let d = DateTime { date: Date { year: 2024, month: 2, day: 29 }, hour: 1, minute: 2, second: 3, nanosecond: 0 };
    let dt = Cell { raw: RawCell::DateTime(Some(d)), as_datetime: Some(d), ..Cell::empty() };
    let bad_dt = Cell { raw: RawCell::DateTime(None), ..Cell::empty() };
    let f = Cell { raw: RawCell::Float(Float64::from_bits(2.5f64.to_bits())), ..Cell::empty() };
    match CalamineData::from_cell(Some(&iso), true).unwrap() {
        CalamineData::Str(s) => assert_eq!(s, "2024-01-02T03:04:05"),
        other => panic!("{other:?}"),
    }
    match CalamineData::from_cell(Some(&dur), true).unwrap() {
        CalamineData::Str(s) => assert_eq!(s, "PT1H"),
        other => panic!("{other:?}"),
    }
    match CalamineData::from_cell(Some(&dt), true).unwrap() {
        CalamineData::DateTime(x) => assert_eq!(x, d),
        other => panic!("{other:?}"),
    }
    match CalamineData::from_cell(Some(&bad_dt), true).unwrap() {
        CalamineData::Str(s) => assert_eq!(s, "error"),
        other => panic!("{other:?}"),
    }
    match CalamineData::from_cell(Some(&f), true).unwrap() {
        CalamineData::Float(x) => assert_eq!(f64::from_bits(x.bits), 2.5),
        other => panic!("{other:?}"),
    }
    match CalamineData::from_cell(Some(&error_cell()), true).unwrap() {
        CalamineData::Str(s) => assert_eq!(s, "error"),
        other => panic!("{other:?}"),
    }
}

#[test]
fn row_with_error_marker_any() {
    let ws = sheet(1, 3, vec![int_cell(7), error_cell(), text_cell("x")]);
    let r = ws.read_value(&ri((0, 0), DShape::Row { n_cols: 3 }, DType::Any, true)).unwrap();
    match r {
        WrappedValue::Any(ValueContainer::Array1(a)) => {
            assert_eq!(a.len(), 3);
            assert!(matches!(a.value[0], CalamineData::Int(7)));
            assert!(matches!(&a.value[1], CalamineData::Str(s) if s == "error"));
            assert!(matches!(&a.value[2], CalamineData::Str(s) if s == "x"));
        }
        other => panic!("{other:?}"),
    }
}

#[test]
fn matrix_read_row_major() {
    let ws = sheet(3, 3, (1..=9).map(int_cell).collect());
    let r = ws.read_value(&ri((1, 1), DShape::Matrix { n_rows: 2, n_cols: 2 }, DType::Int, true)).unwrap();
    match r {
        WrappedValue::Int(ValueContainer::Array2(m)) => {
            assert_eq!((m.nrows(), m.ncols()), (2, 2));
            assert_eq!(m.value, vec![5, 6, 8, 9]);
        }
        other => panic!("{other:?}"),
    }
}

#[test]
fn column_and_negative_origin() {
    let ws = sheet(3, 2, (1..=6).map(int_cell).collect());
    let r = ws.read_value(&ri((-3, -1), DShape::Column { n_rows: 3 }, DType::Int, true)).unwrap();
    match r {
        WrappedValue::Int(ValueContainer::Array1(a)) => assert_eq!(a.value, vec![2, 4, 6]),
        other => panic!("{other:?}"),
    }
    let s = ws.read_value(&ri((-1, 0), DShape::Scalar {}, DType::Int, true)).unwrap();
    assert!(matches!(s, WrappedValue::Int(ValueContainer::Scalar(5))));
}

#[test]
fn out_of_range_read() {
    let ws = sheet(1, 2, vec![int_cell(1), int_cell(2)]);
    let strict = ws.read_value(&ri((0, 0), DShape::Row { n_cols: 3 }, DType::Int, true));
    assert!(matches!(strict, Err(Error::EmptyCell)));
    let lenient = ws.read_value(&ri((0, 0), DShape::Row { n_cols: 3 }, DType::Int, false)).unwrap();
    match lenient {
        WrappedValue::Int(ValueContainer::Array1(a)) => assert_eq!(a.value, vec![1, 2, 0]),
        other => panic!("{other:?}"),
    }
    let too_far_back = ws.read_value(&ri((-5, 0), DShape::Scalar {}, DType::Any, true)).unwrap();
    assert!(matches!(too_far_back, WrappedValue::Any(ValueContainer::Scalar(CalamineData::Empty))));
}

#[test]
fn first_failing_cell_decides() {
    let ws = sheet(1, 3, vec![int_cell(1), text_cell("a"), Cell::empty()]);
    let r = ws.read_value(&ri((0, 0), DShape::Row { n_cols: 3 }, DType::Int, true));
    assert!(matches!(r, Err(Error::CellTypeMismatch(DType::Int, ref s)) if s == "a"));
    let s = ws.read_value(&ri((0, 0), DShape::Row { n_cols: 3 }, DType::Str, true));
    assert!(matches!(s, Err(Error::EmptyCell)));
}

#[test]
fn read_values_list_and_dict() {
    let ws = sheet(1, 2, vec![int_cell(3), text_cell("t")]);
    let list = ListOrDict::List(vec![
        ri((0, 0), DShape::Scalar {}, DType::Int, true),
        ri((0, 1), DShape::Scalar {}, DType::Str, true),
    ]);
    match ws.read_values(&list).unwrap() {
        ListOrDict::List(v) => {
            assert_eq!(v.len(), 2);
            assert!(matches!(v[0], WrappedValue::Int(ValueContainer::Scalar(3))));
            assert!(matches!(&v[1], WrappedValue::Str(ValueContainer::Scalar(s)) if s == "t"));
        }
        other => panic!("{other:?}"),
    }
    let dict = ListOrDict::Dict(vec![
        ("b".to_string(), ri((0, 1), DShape::Scalar {}, DType::Any, true)),
        ("a".to_string(), ri((0, 0), DShape::Scalar {}, DType::Float, true)),
    ]);
    match ws.read_values(&dict).unwrap() {
        ListOrDict::Dict(v) => {
            assert_eq!(v[0].0, "b");
            assert_eq!(v[1].0, "a");
            assert!(matches!(&v[1].1, WrappedValue::Float(ValueContainer::Scalar(f)) if f64::from_bits(f.bits) == 3.0));
        }
        other => panic!("{other:?}"),
    }
    let failing = ListOrDict::List(vec![
        ri((0, 0), DShape::Scalar {}, DType::Int, true),
        ri((0, 1), DShape::Scalar {}, DType::Bool, true),
    ]);
    assert!(matches!(ws.read_values(&failing), Err(Error::CellTypeMismatch(DType::Bool, ref s)) if s == "t"));
}

#[test]
fn cell_value_by_address() {
    let ws = sheet(2, 2, (1..=4).map(int_cell).collect());
    let v = ws.cell_value(&CellAddr::Name("B2".to_string()), DType::Int, true).unwrap();
    assert!(matches!(v, WrappedValue::Int(ValueContainer::Scalar(4))));
    let bad = ws.cell_value(&CellAddr::Name("B0".to_string()), DType::Int, true);
    assert!(matches!(bad, Err(Error::InvalidAddress(_))));
    let far = ws.cell_value(&CellAddr::Idx((usize::MAX, 0)), DType::Int, true);
    assert!(matches!(far, Err(Error::IndexOutOfRange)));
}

#[test]
fn worksheet_shape_checked() {
    assert!(matches!(
        ReadOnlyWorksheet::new("S".to_string(), 2, 2, vec![int_cell(1)]),
        Err(Error::ShapeMismatch)
    ));
}

#[test]
fn workbook_sheet_lookup() {
    let wb = ReadOnlyWorkbook::new("book.xlsx".to_string(), vec!["A".to_string(), "B".to_string(), "A".to_string()]);
    assert_eq!(wb.n_sheets, 3);
    assert_eq!(wb.get(&IdxOrName::Idx(-1)).unwrap(), 2);
    assert_eq!(wb.get(&IdxOrName::Idx(1)).unwrap(), 1);
    assert!(matches!(wb.get(&IdxOrName::Idx(3)), Err(Error::WorksheetNotFound)));
    assert!(matches!(wb.get(&IdxOrName::Idx(-4)), Err(Error::WorksheetNotFound)));
    assert_eq!(wb.get(&IdxOrName::Name("A".to_string())).unwrap(), 0);
    assert!(matches!(wb.get(&IdxOrName::Name("C".to_string())), Err(Error::WorksheetNotFound)));
}

#[test]
fn range_info_accessors() {
    let r = ri((2, 3), DShape::Matrix { n_rows: 4, n_cols: 5 }, DType::Int, true);
    assert_eq!(r.shape(), (4, 5));
    assert_eq!(r.start(), (2, 3));
    assert_eq!(r.end(), (5, 7));
    assert_eq!(ri((0, 0), DShape::Scalar {}, DType::Any, true).end(), (0, 0));
    assert_eq!(ri((1, 1), DShape::Row { n_cols: 3 }, DType::Any, true).shape(), (1, 3));
    assert_eq!(ri((1, 1), DShape::Column { n_rows: 3 }, DType::Any, true).end(), (3, 1));
}

#[test]
fn dates_are_validated() {
    assert!(Date::from_ymd(2024, 2, 29).is_some());
    assert!(Date::from_ymd(2023, 2, 29).is_none());
    assert!(Date::from_ymd(1900, 2, 29).is_none());
    assert!(Date::from_ymd(2000, 2, 29).is_some());
    assert!(Date::from_ymd(2024, 4, 31).is_none());
    assert!(Date::from_ymd(2024, 13, 1).is_none());
    assert!(Date::from_ymd(2024, 12, 31).is_some());
}

#[test]
fn datetimes_are_validated() {
    let d = Date::from_ymd(2016, 12, 31).unwrap();
    assert!(DateTime::from_parts(d, 23, 59, 59, 999_999_999).is_some());
    assert!(DateTime::from_parts(d, 23, 59, 59, 1_500_000_000).is_some());
    assert!(DateTime::from_parts(d, 23, 59, 58, 1_500_000_000).is_none());
    assert!(DateTime::from_parts(d, 23, 59, 59, 2_000_000_000).is_none());
    assert!(DateTime::from_parts(d, 24, 0, 0, 0).is_none());
    assert!(DateTime::from_parts(d, 0, 60, 0, 0).is_none());
    assert!(DateTime::from_parts(d, 0, 0, 60, 0).is_none());
    let t = DateTime::from_parts(d, 12, 30, 15, 7).unwrap();
    assert_eq!((t.hour, t.minute, t.second, t.nanosecond), (12, 30, 15, 7));
    assert!(Date::from_ymd(262142, 12, 31).is_some());
    assert!(Date::from_ymd(262143, 1, 1).is_none());
    assert!(Date::from_ymd(-262143, 1, 1).is_some());
    assert!(Date::from_ymd(-262144, 12, 31).is_none());
}
