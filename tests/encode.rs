use fastxlsx::cell::{Cell, RawCell};
use fastxlsx::cell_addr::CellAddr;
use fastxlsx::containers::{Array1Container, Array2Container, ValueContainer, WrappedValue};
use fastxlsx::error::Error;
use fastxlsx::read::ReadOnlyWorksheet;
use fastxlsx::types::{DShape, DType, IdxOrName, RangeInfo};
use fastxlsx::value::{CalamineData, Date, DateTime, Float64};
use fastxlsx::write::{cell_writes, check_titles, plan_workbook, CellWrite, NumFormat, WriteOnlyWorkbook, WriteOnlyWorksheet};

fn positions(ws: &[CellWrite]) -> Vec<(u128, u128)> {
    ws.iter().map(|w| (w.row, w.col)).collect()
}

fn int_matrix(rows: Vec<Vec<i64>>) -> WrappedValue {
    WrappedValue::Int(ValueContainer::Array2(Array2Container::from_rows(rows).unwrap()))
}

#[test]
fn matrix_writes_row_major() {
    let ws = cell_writes(&int_matrix(vec![vec![1, 2], vec![3, 4]]), (5, 7), true);
    assert_eq!(positions(&ws), vec![(5, 7), (5, 8), (6, 7), (6, 8)]);
    let vals: Vec<i64> = ws.iter().map(|w| match w.value { CalamineData::Int(v) => v, _ => panic!() }).collect();
    assert_eq!(vals, vec![1, 2, 3, 4]);
    assert!(ws.iter().all(|w| w.format.is_none()));
}

#[test]
fn row_and_column_orientation() {
    let v = WrappedValue::Str(ValueContainer::Array1(Array1Container::new(vec!["a".to_string(), "b".to_string()])));
    assert_eq!(positions(&cell_writes(&v, (1, 1), false)), vec![(1, 1), (1, 2)]);
    assert_eq!(positions(&cell_writes(&v, (1, 1), true)), vec![(1, 1), (2, 1)]);
    let s = WrappedValue::Bool(ValueContainer::Scalar(true));
    let w = cell_writes(&s, (u32::MAX, u16::MAX), true);
    assert_eq!(positions(&w), vec![(u32::MAX as u128, u16::MAX as u128)]);
}

#[test]
fn date_formats_and_empty_any() {
    let d = Date { year: 2020, month: 5, day: 17 };
    let dt = DateTime { date: d, hour: 8, minute: 9, second: 10, nanosecond: 0 };
    let dates = WrappedValue::Date(ValueContainer::Array1(Array1Container::new(vec![d, d])));
    assert!(cell_writes(&dates, (0, 0), false).iter().all(|w| w.format == Some(NumFormat::Date)));
    let any = WrappedValue::Any(ValueContainer::Array1(Array1Container::new(vec![
        CalamineData::Int(1),
        CalamineData::Empty,
        CalamineData::DateTime(dt),
        CalamineData::Str("z".to_string()),
    ])));
    let ws = cell_writes(&any, (0, 0), false);
    assert_eq!(positions(&ws), vec![(0, 0), (0, 2), (0, 3)]);
    assert_eq!(ws[0].format, None);
    assert_eq!(ws[1].format, Some(NumFormat::DateTime));
    assert!(matches!(&ws[2].value, CalamineData::Str(s) if s == "z"));
}

#[test]
fn staging_checks() {
    let mut ws = WriteOnlyWorksheet::new("S".to_string());
    let scalar = || WrappedValue::Int(ValueContainer::Scalar(1));
    let row = || WrappedValue::Float(ValueContainer::Array1(Array1Container::new(vec![Float64::from_bits(0)])));
    assert!(ws.write_cell(&CellAddr::Name("B2".to_string()), scalar()).is_ok());
    assert!(matches!(ws.write_cell(&CellAddr::Name("2B".to_string()), scalar()), Err(Error::InvalidAddress(_))));
    assert!(matches!(ws.write_cell(&CellAddr::Idx((0, 0)), row()), Err(Error::ShapeMismatch)));
    assert!(matches!(ws.write_row(&CellAddr::Idx((0, 0)), scalar()), Err(Error::ShapeMismatch)));
    assert!(matches!(ws.write_matrix(&CellAddr::Idx((0, 0)), row()), Err(Error::ShapeMismatch)));
    assert!(ws.write_row(&CellAddr::Idx((0, 0)), row()).is_ok());
    assert!(ws.write_column(&CellAddr::Idx((3, 0)), row()).is_ok());
    assert!(ws.write_matrix(&CellAddr::Idx((3, 3)), int_matrix(vec![vec![1]])).is_ok());
    assert!(matches!(ws.write_cell(&CellAddr::Idx((1 << 33, 0)), scalar()), Err(Error::IndexOutOfRange)));
    assert!(matches!(ws.write_cell(&CellAddr::Idx((0, 70000)), scalar()), Err(Error::IndexOutOfRange)));
    assert_eq!(ws.data_to_write.len(), 4);
    assert_eq!(ws.data_to_write[0].pos, (1, 1));
    assert!(ws.data_to_write[2].is_column);
    let plan = ws.to_sheet();
    assert_eq!(plan.title, "S");
    assert_eq!(plan.writes.len(), 4);
    assert_eq!(positions(&plan.writes[2]), vec![(3, 0)]);
}

#[test]
fn duplicate_titles_refused() {
    let sheets = vec![WriteOnlyWorksheet::new("S".to_string()), WriteOnlyWorksheet::new("S".to_string())];
    match plan_workbook(&sheets) {
        Err(Error::DuplicateTitle(t)) => assert_eq!(t, "S"),
        other => panic!("{other:?}"),
    }
    let ok = vec![WriteOnlyWorksheet::new("A".to_string()), WriteOnlyWorksheet::new("B".to_string())];
    assert!(check_titles(&ok).is_ok());
    assert_eq!(plan_workbook(&ok).unwrap().len(), 2);
    let three = vec![
        WriteOnlyWorksheet::new("A".to_string()),
        WriteOnlyWorksheet::new("B".to_string()),
        WriteOnlyWorksheet::new("B".to_string()),
        WriteOnlyWorksheet::new("A".to_string()),
    ];
    assert!(matches!(check_titles(&three), Err(Error::DuplicateTitle(t)) if t == "B"));
}

#[test]
fn workbook_sessions() {
    let mut wb = WriteOnlyWorkbook::new();
    {
        let s = wb.create_sheet("One".to_string()).unwrap();
        s.write_cell(&CellAddr::Idx((0, 0)), WrappedValue::Int(ValueContainer::Scalar(5))).unwrap();
    }
    assert!(wb.create_sheet("Two".to_string()).is_ok());
    assert!(matches!(wb.create_sheet("One".to_string()), Err(Error::DuplicateTitle(t)) if t == "One"));
    assert_eq!(wb.sheetnames(), vec!["One".to_string(), "Two".to_string()]);
    assert_eq!(wb.get_sheetnames_string(), "[\"One\", \"Two\"]");
    assert_eq!(WriteOnlyWorkbook::new().get_sheetnames_string(), "[]");
    assert_eq!(wb.get(&IdxOrName::Idx(0)).unwrap().data_to_write.len(), 1);
    assert_eq!(wb.get(&IdxOrName::Name("Two".to_string())).unwrap().title, "Two");
    assert!(matches!(wb.get(&IdxOrName::Idx(-1)), Err(Error::WorksheetNotFound)));
    assert!(matches!(wb.get_by_idx(2), Err(Error::WorksheetNotFound)));
    assert!(matches!(wb.get_by_name(&"Three".to_string()), Err(Error::WorksheetNotFound)));
}

#[test]
fn int_matrix_round_trip() {
    let plan = cell_writes(&int_matrix(vec![vec![1, 2], vec![3, 4]]), (0, 0), false);
    let mut cells: Vec<Cell> = (0..4).map(|_| Cell::empty()).collect();
    for w in &plan {
        let v = match w.value { CalamineData::Int(v) => v, _ => panic!() };
        cells[(w.row * 2 + w.col) as usize] = Cell { raw: RawCell::Int(v), as_int: Some(v), ..Cell::empty() };
    }
    let sheet = ReadOnlyWorksheet::new("S".to_string(), 2, 2, cells).unwrap();
    let back = sheet
        .read_value(&RangeInfo::new((0, 0), DShape::Matrix { n_rows: 2, n_cols: 2 }, DType::Int, true))
        .unwrap();
    match back {
        WrappedValue::Int(ValueContainer::Array2(m)) => {
            assert_eq!((m.nrows(), m.ncols()), (2, 2));
            assert_eq!(m.value, vec![1, 2, 3, 4]);
        }
        other => panic!("{other:?}"),
    }
}

#[test]
fn containers_and_shapes() {
    assert!(matches!(Array2Container::from_rows(vec![vec![1, 2], vec![3]]), Err(Error::ShapeMismatch)));
    let empty = Array2Container::<i64>::from_rows(vec![]).unwrap();
    assert_eq!((empty.nrows(), empty.ncols(), empty.len()), (0, 0, 0));
    assert!(matches!(Array2Container::new(vec![1, 2, 3], 2, 2), Err(Error::ShapeMismatch)));
    let m = Array2Container::new(vec![1i64, 2, 3, 4, 5, 6], 2, 3).unwrap();
    let doubled = m.mapv(|x: &i64| x * 2);
    assert_eq!(doubled.value, vec![2, 4, 6, 8, 10, 12]);
    assert_eq!((doubled.nrows(), doubled.ncols()), (2, 3));
    let a = Array1Container::new(vec![1i64, 2]).mapv(|x: &i64| x.to_string());
    assert_eq!(a.value, vec!["1".to_string(), "2".to_string()]);
    let c = ValueContainer::Scalar(3i64).mapv(|x: &i64| x + 1);
    assert!(matches!(c, ValueContainer::Scalar(4)));
    let v = WrappedValue::Int(ValueContainer::Array2(m));
    assert_eq!(v.get_dtype(), DType::Int);
    assert_eq!(v.get_shape(true), DShape::Matrix { n_rows: 2, n_cols: 3 });
    let r = WrappedValue::Str(ValueContainer::Array1(Array1Container::new(vec!["a".to_string()])));
    assert_eq!(r.get_shape(true), DShape::Column { n_rows: 1 });
    assert_eq!(r.get_shape(false), DShape::Row { n_cols: 1 });
    assert_eq!(WrappedValue::Any(ValueContainer::Scalar(CalamineData::Empty)).get_shape(false), DShape::Scalar {});
}
