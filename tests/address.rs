use fastxlsx::cell_addr::{address_to_index, index_to_address, CellAddr};
use fastxlsx::error::Error;
use fastxlsx::utils::adjust_idx;
use fastxlsx::{addr_to_idx, idx_to_addr};

#[test]
fn address_scenarios() {
    assert_eq!(addr_to_idx("A1".to_string()).unwrap(), (0, 0));
    assert_eq!(addr_to_idx("B10".to_string()).unwrap(), (9, 1));
    assert_eq!(addr_to_idx("AA1".to_string()).unwrap(), (0, 26));
}

#[test]
fn address_more_columns() {
    assert_eq!(addr_to_idx("Z1".to_string()).unwrap(), (0, 25));
    assert_eq!(addr_to_idx("AZ3".to_string()).unwrap(), (2, 51));
    assert_eq!(addr_to_idx("ZZ1".to_string()).unwrap(), (0, 701));
    assert_eq!(addr_to_idx("AAA1".to_string()).unwrap(), (0, 702));
    assert_eq!(addr_to_idx("XFD1048576".to_string()).unwrap(), (1048575, 16383));
}

#[test]
fn index_to_address_values() {
    assert_eq!(idx_to_addr(0, 0), "A1");
    assert_eq!(idx_to_addr(9, 1), "B10");
    assert_eq!(idx_to_addr(0, 25), "Z1");
    assert_eq!(idx_to_addr(0, 26), "AA1");
    assert_eq!(idx_to_addr(0, 701), "ZZ1");
    assert_eq!(idx_to_addr(0, 702), "AAA1");
    assert_eq!(idx_to_addr(1048575, 16383), "XFD1048576");
    assert_eq!(idx_to_addr(usize::MAX, 0), format!("A{}", usize::MAX as u128 + 1));
}

#[test]
fn invalid_addresses() {
    for bad in ["", "A", "1", "A0", "a1", "A01", "A1B", "$A$1", "Ä1", "1A"] {
        match address_to_index(&bad.to_string()) {
            Err(Error::InvalidAddress(s)) => assert_eq!(s, bad),
            other => panic!("{bad}: {other:?}"),
        }
    }
}

#[test]
fn address_too_large() {
    let huge_row = format!("A{}", "9".repeat(30));
    assert!(matches!(address_to_index(&huge_row), Err(Error::InvalidAddress(_))));
    let huge_col = format!("{}1", "Z".repeat(30));
    assert!(matches!(address_to_index(&huge_col), Err(Error::InvalidAddress(_))));
}

#[test]
fn address_round_trips() {
    for (r, c) in [(0usize, 0usize), (9, 1), (0, 26), (99, 700), (12345, 16383), (7, 18277)] {
        let a = index_to_address(r, c);
        assert_eq!(address_to_index(&a).unwrap(), (r, c));
    }
    for text in ["A1", "B10", "AA1", "ZZ99", "XFD1048576", "AB12"] {
        let (r, c) = address_to_index(&text.to_string()).unwrap();
        assert_eq!(index_to_address(r, c), text);
    }
}

#[test]
fn cell_addr_forms() {
    assert_eq!(CellAddr::Idx((3, 4)).as_idx().unwrap(), (3, 4));
    assert_eq!(CellAddr::Name("C2".to_string()).as_idx().unwrap(), (1, 2));
    assert_eq!(CellAddr::Idx((1, 2)).as_addr(), "C2");
    assert_eq!(CellAddr::Name("whatever".to_string()).as_addr(), "whatever");
    assert!(CellAddr::Name("C0".to_string()).as_idx().is_err());
}

#[test]
fn resolve_relative_indices() {
    assert_eq!(adjust_idx(-1, 5), 4);
    assert_eq!(adjust_idx(-5, 5), 0);
    assert_eq!(adjust_idx(2, 5), 2);
    assert_eq!(adjust_idx(0, 0), 0);
    assert_eq!(adjust_idx(-2, 10), adjust_idx(8, 10));
    assert_eq!(adjust_idx(i32::MIN, 1usize << 40), (1usize << 40) - (1usize << 31));
}
