//! Typed bulk transfer of rectangular cell ranges between worksheets and
//! in-memory containers: cell addressing, the decoding of cells into typed
//! containers, the encoding of containers into cell writes, and the
//! preparation of whole workbooks.
use vstd::prelude::*;

pub mod cell;
pub mod cell_addr;
pub mod containers;
pub mod error;
pub mod fromcell;
pub mod probe;
pub mod read;
pub mod roundtrip;
pub mod types;
pub mod utils;
pub mod value;
pub mod write;

use crate::cell_addr::{address_of, address_to_index, index_of, index_to_address, is_representable_address};
use crate::error::Error;

verus! {

/// The 0-based (row, col) of a textual cell address such as "A1".
pub fn addr_to_idx(addr: String) -> (r: Result<(usize, usize), Error>)
    ensures
        match r {
            Ok((row, col)) => is_representable_address(addr@) && index_of(addr@) == (
                row as nat,
                col as nat,
            ),
            Err(e) => e is InvalidAddress && !is_representable_address(addr@),
        },
{
    address_to_index(&addr)
}

/// The textual cell address, such as "A1", of a 0-based (row, col).
pub fn idx_to_addr(row: usize, col: usize) -> (r: String)
    ensures
        r@ == address_of(row as nat, col as nat),
{
    index_to_address(row, col)
}

} // verus!
