use vstd::prelude::*;

use crate::cell::RawCell;
use crate::containers::{Array2Container, ValueContainer, WrappedValue};
use crate::error::Error;
use crate::fromcell::FromCell;
use crate::read::{cell_count, offset, range_decodes, ReadOnlyWorksheet};
use crate::types::{DShape, DType, RangeInfo};
use crate::value::{AnyView, ToAny};
use crate::write::{any_views, kept, write_offset, writes_of, CellWrite};

verus! {

/// `ws` holds every integer that `writes` wrote, where it was written, as
/// the reader reports an integer cell.
pub open spec fn holds_int_writes(ws: &ReadOnlyWorksheet, writes: Seq<CellWrite>) -> bool {
    forall|k: int|
        0 <= k < writes.len() ==> {
            let w = #[trigger] writes[k];
            match w.value@ {
                AnyView::Int(v) => match ws.cell_at(w.row as int, w.col as int) {
                    Some(c) => c.raw == RawCell::Int(v) && c.as_int == Some(v),
                    None => false,
                },
                _ => true,
            }
        }
}

proof fn lemma_kept_all(s: Seq<AnyView>, n: int)
    requires
        0 <= n <= s.len(),
        forall|k: int| 0 <= k < s.len() ==> !(#[trigger] s[k] is Empty),
    ensures
        kept(s, n) == n,
    decreases n,
{
    if n > 0 {
        lemma_kept_all(s, n - 1);
    }
}

/// Writing an integer matrix at a start and reading the same shape back as
/// integers, strictly, from a worksheet that holds what was written gives
/// the same values in the same order.
pub proof fn lemma_int_matrix_round_trip(
    m: Array2Container<i64>,
    start: (u32, u16),
    writes: Seq<CellWrite>,
    ws: &ReadOnlyWorksheet,
    r: Result<ValueContainer<i64>, Error>,
)
    requires
        m.wf(),
        m.n_rows > 0,
        m.n_cols > 0,
        start.0 <= i32::MAX,
        start.1 <= i32::MAX,
        writes_of(WrappedValue::Int(ValueContainer::Array2(m)), start, false, writes),
        ws.wf(),
        holds_int_writes(ws, writes),
        range_decodes::<i64>(
            ws,
            &RangeInfo {
                pos: (start.0 as i32, start.1 as i32),
                data_shape: DShape::Matrix { n_rows: m.n_rows, n_cols: m.n_cols },
                dtype: DType::Int,
                strict: true,
            },
            r,
        ),
    ensures
        r is Ok,
        r->Ok_0.elems() == m.value@,
{
    let ri = RangeInfo {
        pos: (start.0 as i32, start.1 as i32),
        data_shape: DShape::Matrix { n_rows: m.n_rows, n_cols: m.n_cols },
        dtype: DType::Int,
        strict: true,
    };
    let c = ValueContainer::Array2(m);
    let s = any_views(c.elems());
    assert forall|k: int| 0 <= k < s.len() implies !(#[trigger] s[k] is Empty) by {
        assert(s[k] == c.elems()[k].any_view());
    }
    lemma_kept_all(s, s.len() as int);
    assert(cell_count(ri.data_shape) == m.value@.len());
    assert forall|k: int| 0 <= k < m.value@.len() implies {
        &&& ws.range_cell(&ri, k) == ws.cell_at(writes[k].row as int, writes[k].col as int)
        &&& !<i64 as FromCell>::decode_fails(#[trigger] ws.range_cell(&ri, k), true)
        &&& <i64 as FromCell>::decodes_to(ws.range_cell(&ri, k), true, Ok(m.value@[k]))
    } by {
        lemma_kept_all(s, k);
        assert(s[k] == AnyView::Int(m.value@[k]));
        assert(offset(ri.data_shape, k) == write_offset(c, false, k));
        let w = writes[kept(s, k) as int];
        assert(w.value@ == AnyView::Int(m.value@[k]));
    }
    if r is Err {
        let k = choose|k: int|
            0 <= k < cell_count(ri.data_shape) && <i64 as FromCell>::decode_fails(
                #[trigger] ws.range_cell(&ri, k),
                ri.strict,
            );
        assert(!<i64 as FromCell>::decode_fails(ws.range_cell(&ri, k), true));
    }
    let out = r->Ok_0;
    assert forall|k: int| 0 <= k < m.value@.len() implies out.elems()[k] == m.value@[k] by {
        assert(<i64 as FromCell>::decodes_to(ws.range_cell(&ri, k), true, Ok(out.elems()[k])));
        assert(<i64 as FromCell>::decodes_to(ws.range_cell(&ri, k), true, Ok(m.value@[k])));
    }
    assert(out.elems() =~= m.value@);
}

} // verus!
