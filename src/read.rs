use vstd::prelude::*;

use crate::cell::Cell;
use crate::cell_addr::CellAddr;
use crate::containers::{shape_of, Array1Container, Array2Container, ValueContainer, WrappedValue};
use crate::error::Error;
use crate::fromcell::FromCell;
use crate::types::{extent, DShape, DType, IdxOrName, ListOrDict, RangeInfo};
use crate::utils::{adjust_idx, resolve_relative};
use crate::value::{CalamineData, Date, DateTime, Float64};

verus! {

/// Number of cells in a shape.
pub open spec fn cell_count(s: DShape) -> nat {
    extent(s).0 * extent(s).1
}

/// Where the `k`-th cell of a range lies relative to its origin: along the
/// row, down the column, or row-major through the matrix.
pub open spec fn offset(s: DShape, k: int) -> (int, int) {
    match s {
        DShape::Scalar {} => (0, 0),
        DShape::Row { .. } => (0, k),
        DShape::Column { .. } => (k, 0),
        DShape::Matrix { n_cols, .. } => (k / (n_cols as int), k % (n_cols as int)),
    }
}

/// A materialized worksheet: its cells in row-major order.
#[derive(Debug)]
pub struct ReadOnlyWorksheet {
    pub cells: Vec<Cell>,
    pub n_rows: usize,
    pub n_cols: usize,
    pub title: String,
}

/// What reading `ri` from `ws` as kind `T` gives: every cell of the range
/// decoded in order into a container of the range's shape, or the error of
/// the first cell that does not decode.
pub open spec fn range_decodes<T: FromCell>(
    ws: &ReadOnlyWorksheet,
    ri: &RangeInfo,
    r: Result<ValueContainer<T>, Error>,
) -> bool {
    let n = cell_count(ri.data_shape) as int;
    &&& r is Err <==> exists|k: int| 0 <= k < n && T::decode_fails(#[trigger] ws.range_cell(ri, k), ri.strict)
    &&& match r {
        Ok(c) => {
            &&& c.wf()
            &&& shape_of(c, ri.data_shape is Column) == ri.data_shape
            &&& c.elems().len() == n
            &&& forall|k: int|
                0 <= k < n ==> T::decodes_to(#[trigger] ws.range_cell(ri, k), ri.strict, Ok(c.elems()[k]))
        },
        Err(e) => exists|k: int|
            0 <= k < n && (forall|j: int| 0 <= j < k ==> !T::decode_fails(#[trigger] ws.range_cell(ri, j), ri.strict))
                && T::decodes_to(#[trigger] ws.range_cell(ri, k), ri.strict, Err(e)),
    }
}

/// What reading `ri` from `ws` gives, for the kind that `ri` names.
pub open spec fn reads_as(ws: &ReadOnlyWorksheet, ri: &RangeInfo, r: Result<WrappedValue, Error>) -> bool {
    match ri.dtype {
        DType::Int => match r {
            Ok(WrappedValue::Int(c)) => range_decodes::<i64>(ws, ri, Ok(c)),
            Ok(_) => false,
            Err(e) => range_decodes::<i64>(ws, ri, Err(e)),
        },
        DType::Float => match r {
            Ok(WrappedValue::Float(c)) => range_decodes::<Float64>(ws, ri, Ok(c)),
            Ok(_) => false,
            Err(e) => range_decodes::<Float64>(ws, ri, Err(e)),
        },
        DType::Str => match r {
            Ok(WrappedValue::Str(c)) => range_decodes::<String>(ws, ri, Ok(c)),
            Ok(_) => false,
            Err(e) => range_decodes::<String>(ws, ri, Err(e)),
        },
        DType::Bool => match r {
            Ok(WrappedValue::Bool(c)) => range_decodes::<bool>(ws, ri, Ok(c)),
            Ok(_) => false,
            Err(e) => range_decodes::<bool>(ws, ri, Err(e)),
        },
        DType::Date => match r {
            Ok(WrappedValue::Date(c)) => range_decodes::<Date>(ws, ri, Ok(c)),
            Ok(_) => false,
            Err(e) => range_decodes::<Date>(ws, ri, Err(e)),
        },
        DType::DateTime => match r {
            Ok(WrappedValue::DateTime(c)) => range_decodes::<DateTime>(ws, ri, Ok(c)),
            Ok(_) => false,
            Err(e) => range_decodes::<DateTime>(ws, ri, Err(e)),
        },
        DType::Any => match r {
            Ok(WrappedValue::Any(c)) => range_decodes::<CalamineData>(ws, ri, Ok(c)),
            Ok(_) => false,
            Err(e) => range_decodes::<CalamineData>(ws, ri, Err(e)),
        },
    }
}

impl ReadOnlyWorksheet {
    /// Holds one cell for each of its `n_rows * n_cols` positions.
    pub open spec fn wf(&self) -> bool {
        self.cells@.len() == self.n_rows * self.n_cols
    }

    /// The cell at (r, c), or `None` outside the worksheet.
    pub open spec fn cell_at(&self, r: int, c: int) -> Option<&Cell> {
        if 0 <= r < self.n_rows && 0 <= c < self.n_cols {
            Some(&self.cells@[r * self.n_cols + c])
        } else {
            None
        }
    }

    /// The origin of a range, its negative components counted from the end.
    pub open spec fn origin(&self, ri: &RangeInfo) -> (int, int) {
        (
            resolve_relative(ri.pos.0 as int, self.n_rows as int),
            resolve_relative(ri.pos.1 as int, self.n_cols as int),
        )
    }

    /// The `k`-th cell of a range.
    pub open spec fn range_cell(&self, ri: &RangeInfo, k: int) -> Option<&Cell> {
        self.cell_at(
            self.origin(ri).0 + offset(ri.data_shape, k).0,
            self.origin(ri).1 + offset(ri.data_shape, k).1,
        )
    }

    /// A worksheet of `n_rows` by `n_cols` cells, given in row-major order.
    pub fn new(title: String, n_rows: usize, n_cols: usize, cells: Vec<Cell>) -> (r: Result<
        Self,
        Error,
    >)
        ensures
            match r {
                Ok(ws) => ws.wf() && ws.title == title && ws.n_rows == n_rows && ws.n_cols
                    == n_cols && ws.cells@ == cells@,
                Err(e) => e is ShapeMismatch && cells@.len() != n_rows * n_cols,
            },
    {
        let len = cells.len();
        let ok = match n_rows.checked_mul(n_cols) {
            Some(p) => p == len,
            None => false,
        };
        if ok {
            Ok(ReadOnlyWorksheet { cells, n_rows, n_cols, title })
        } else {
            Err(Error::ShapeMismatch)
        }
    }

    /// The cell at (r, c), or `None` outside the worksheet.
    pub fn get(&self, r: i128, c: i128) -> (res: Option<&Cell>)
        requires
            self.wf(),
        ensures
            res == self.cell_at(r as int, c as int),
    {
        if 0 <= r && r < self.n_rows as i128 && 0 <= c && c < self.n_cols as i128 {
            let ru = r as usize;
            let cu = c as usize;
            let len = self.cells.len();
            proof {
                assert(ru * self.n_cols + cu < self.n_rows * self.n_cols) by (nonlinear_arith)
                    requires
                        ru < self.n_rows,
                        cu < self.n_cols,
                ;
                assert(ru * self.n_cols <= ru * self.n_cols + cu);
            }
            Some(&self.cells[ru * self.n_cols + cu])
        } else {
            None
        }
    }

    /// Reads the range `range_info` as kind `T`.
    pub fn get_value_rs<T: FromCell>(&self, range_info: &RangeInfo) -> (r: Result<
        ValueContainer<T>,
        Error,
    >)
        requires
            self.wf(),
            cell_count(range_info.data_shape) <= usize::MAX,
        ensures
            range_decodes(self, range_info, r),
    {
        let shape = range_info.data_shape;
        let strict = range_info.strict;
        let (h, w) = range_info.shape();
        let n: usize = match shape {
            DShape::Matrix { .. } => h * w,
            DShape::Row { .. } => w,
            DShape::Column { .. } => h,
            DShape::Scalar {  } => 1,
        };
        assert(n == cell_count(shape));
        let o0: i128 = if range_info.pos.0 < 0 {
            self.n_rows as i128 + range_info.pos.0 as i128
        } else {
            range_info.pos.0 as i128
        };
        let o1: i128 = if range_info.pos.1 < 0 {
            self.n_cols as i128 + range_info.pos.1 as i128
        } else {
            range_info.pos.1 as i128
        };
        let mut out: Vec<T> = Vec::new();
        let mut k: usize = 0;
        while k < n
            invariant
                self.wf(),
                n == cell_count(shape),
                shape == range_info.data_shape,
                strict == range_info.strict,
                (o0 as int, o1 as int) == self.origin(range_info),
                (h as nat, w as nat) == extent(shape),
                k <= n,
                out@.len() == k,
                forall|j: int|
                    0 <= j < k ==> T::decodes_to(#[trigger] self.range_cell(range_info, j), strict, Ok(out@[j])),
                forall|j: int|
                    0 <= j < k ==> !T::decode_fails(#[trigger] self.range_cell(range_info, j), strict),
            decreases n - k,
        {
            let (dr, dc): (usize, usize) = match shape {
                DShape::Scalar {  } => (0, 0),
                DShape::Row { .. } => (0, k),
                DShape::Column { .. } => (k, 0),
                DShape::Matrix { n_cols, .. } => {
                    proof {
                        assert(n_cols > 0) by (nonlinear_arith)
                            requires
                                k < h * w,
                                w == n_cols,
                        ;
                    }
                    (k / n_cols, k % n_cols)
                },
            };
            assert((dr as int, dc as int) == offset(shape, k as int));
            let cell = self.get(o0 + dr as i128, o1 + dc as i128);
            match T::from_cell(cell, strict) {
                Ok(v) => {
                    out.push(v);
                },
                Err(e) => {
                    proof {
                        assert(cell == self.range_cell(range_info, k as int));
                        assert(T::decode_fails(self.range_cell(range_info, k as int), strict));
                        assert(T::decodes_to(self.range_cell(range_info, k as int), strict, Err(e)));
                    }
                    return Err(e);
                },
            }
            k = k + 1;
        }
        match shape {
            DShape::Scalar {  } => {
                let mut out = out;
                let ghost before = out@;
                let v = out.pop().unwrap();
                let r = ValueContainer::Scalar(v);
                assert(r.elems() =~= before);
                Ok(r)
            },
            DShape::Row { .. } | DShape::Column { .. } => {
                Ok(ValueContainer::Array1(Array1Container { value: out }))
            },
            DShape::Matrix { n_rows, n_cols } => {
                Ok(ValueContainer::Array2(Array2Container { value: out, n_rows, n_cols }))
            },
        }
    }
}

/// Whether reading `ri` from `ws` as kind `T` fails.
pub open spec fn range_fails<T: FromCell>(ws: &ReadOnlyWorksheet, ri: &RangeInfo) -> bool {
    exists|k: int|
        0 <= k < cell_count(ri.data_shape) && T::decode_fails(#[trigger] ws.range_cell(ri, k), ri.strict)
}

/// Whether reading `ri` from `ws`, as the kind it names, fails.
pub open spec fn read_fails(ws: &ReadOnlyWorksheet, ri: &RangeInfo) -> bool {
    match ri.dtype {
        DType::Int => range_fails::<i64>(ws, ri),
        DType::Float => range_fails::<Float64>(ws, ri),
        DType::Str => range_fails::<String>(ws, ri),
        DType::Bool => range_fails::<bool>(ws, ri),
        DType::Date => range_fails::<Date>(ws, ri),
        DType::DateTime => range_fails::<DateTime>(ws, ri),
        DType::Any => range_fails::<CalamineData>(ws, ri),
    }
}

/// What reading a list of ranges gives: each range read in order, or the
/// error of the first range that fails.
pub open spec fn reads_all(ws: &ReadOnlyWorksheet, ris: Seq<RangeInfo>, r: Result<Seq<WrappedValue>, Error>) -> bool {
    &&& r is Err <==> exists|i: int| 0 <= i < ris.len() && read_fails(ws, &#[trigger] ris[i])
    &&& match r {
        Ok(vs) => vs.len() == ris.len() && forall|i: int|
            0 <= i < ris.len() ==> reads_as(ws, &#[trigger] ris[i], Ok(vs[i])),
        Err(e) => exists|i: int|
            0 <= i < ris.len() && (forall|j: int| 0 <= j < i ==> !read_fails(ws, &#[trigger] ris[j]))
                && reads_as(ws, &#[trigger] ris[i], Err(e)),
    }
}

/// Every range of the list has a cell count that fits in memory.
pub open spec fn counts_fit(ris: Seq<RangeInfo>) -> bool {
    forall|i: int| 0 <= i < ris.len() ==> cell_count((#[trigger] ris[i]).data_shape) <= usize::MAX
}

pub open spec fn dict_values<K, T>(v: Seq<(K, T)>) -> Seq<T> {
    Seq::new(v.len(), |i: int| v[i].1)
}

/// The ranges of a request, in order.
pub open spec fn request_ranges(req: &ListOrDict<String, RangeInfo>) -> Seq<RangeInfo> {
    match req {
        ListOrDict::List(v) => v@,
        ListOrDict::Dict(v) => dict_values(v@),
    }
}

/// The values of a result, in order.
pub open spec fn result_values(res: ListOrDict<String, WrappedValue>) -> Seq<WrappedValue> {
    match res {
        ListOrDict::List(v) => v@,
        ListOrDict::Dict(v) => Seq::new(v@.len(), |i: int| v@[i].1),
    }
}

/// A result mirrors a request: a list for a list, and the same keys in the
/// same order for keyed entries.
pub open spec fn mirrors(req: &ListOrDict<String, RangeInfo>, res: ListOrDict<String, WrappedValue>) -> bool {
    match (req, res) {
        (ListOrDict::List(a), ListOrDict::List(b)) => a@.len() == b@.len(),
        (ListOrDict::Dict(a), ListOrDict::Dict(b)) => a@.len() == b@.len() && forall|i: int|
            0 <= i < a@.len() ==> (#[trigger] a@[i]).0 == b@[i].0,
        _ => false,
    }
}

impl ReadOnlyWorksheet {
    /// Reads one range as the kind it names.
    pub fn read_value(&self, range_info: &RangeInfo) -> (r: Result<WrappedValue, Error>)
        requires
            self.wf(),
            cell_count(range_info.data_shape) <= usize::MAX,
        ensures
            reads_as(self, range_info, r),
            r is Err <==> read_fails(self, range_info),
    {
        match range_info.dtype {
            DType::Int => match self.get_value_rs::<i64>(range_info) {
                Ok(c) => Ok(WrappedValue::Int(c)),
                Err(e) => Err(e),
            },
            DType::Float => match self.get_value_rs::<Float64>(range_info) {
                Ok(c) => Ok(WrappedValue::Float(c)),
                Err(e) => Err(e),
            },
            DType::Str => match self.get_value_rs::<String>(range_info) {
                Ok(c) => Ok(WrappedValue::Str(c)),
                Err(e) => Err(e),
            },
            DType::Bool => match self.get_value_rs::<bool>(range_info) {
                Ok(c) => Ok(WrappedValue::Bool(c)),
                Err(e) => Err(e),
            },
            DType::Date => match self.get_value_rs::<Date>(range_info) {
                Ok(c) => Ok(WrappedValue::Date(c)),
                Err(e) => Err(e),
            },
            DType::DateTime => match self.get_value_rs::<DateTime>(range_info) {
                Ok(c) => Ok(WrappedValue::DateTime(c)),
                Err(e) => Err(e),
            },
            DType::Any => match self.get_value_rs::<CalamineData>(range_info) {
                Ok(c) => Ok(WrappedValue::Any(c)),
                Err(e) => Err(e),
            },
        }
    }

    /// Reads a list, or keyed entries, of ranges; the result has the same
    /// form and keys.
    pub fn read_values(&self, range_infos: &ListOrDict<String, RangeInfo>) -> (r: Result<
        ListOrDict<String, WrappedValue>,
        Error,
    >)
        requires
            self.wf(),
            counts_fit(request_ranges(range_infos)),
        ensures
            match r {
                Ok(res) => mirrors(range_infos, res) && reads_all(
                    self,
                    request_ranges(range_infos),
                    Ok(result_values(res)),
                ),
                Err(e) => reads_all(self, request_ranges(range_infos), Err(e)),
            },
    {
        let ghost ris = request_ranges(range_infos);
        match range_infos {
            ListOrDict::List(list) => {
                let mut out: Vec<WrappedValue> = Vec::new();
                let mut i: usize = 0;
                while i < list.len()
                    invariant
                        self.wf(),
                        ris == list@,
                        ris == request_ranges(range_infos),
                        counts_fit(ris),
                        i <= list@.len(),
                        out@.len() == i,
                        forall|j: int| 0 <= j < i ==> reads_as(self, &#[trigger] ris[j], Ok(out@[j])),
                        forall|j: int| 0 <= j < i ==> !read_fails(self, &#[trigger] ris[j]),
                    decreases list@.len() - i,
                {
                    assert(ris[i as int] == list@[i as int]);
                    match self.read_value(&list[i]) {
                        Ok(v) => {
                            out.push(v);
                        },
                        Err(e) => {
                            assert(read_fails(self, &ris[i as int]));
                            assert(reads_as(self, &ris[i as int], Err(e)));
                            assert(reads_all(self, ris, Err(e)));
                            return Err(e);
                        },
                    }
                    i = i + 1;
                }
                proof {
                    assert(result_values(ListOrDict::List(out)) == out@);
                }
                Ok(ListOrDict::List(out))
            },
            ListOrDict::Dict(dict) => {
                let mut out: Vec<(String, WrappedValue)> = Vec::new();
                let mut i: usize = 0;
                while i < dict.len()
                    invariant
                        self.wf(),
                        ris == dict_values(dict@),
                        ris == request_ranges(range_infos),
                        counts_fit(ris),
                        i <= dict@.len(),
                        out@.len() == i,
                        forall|j: int| 0 <= j < i ==> (#[trigger] out@[j]).0 == dict@[j].0,
                        forall|j: int| 0 <= j < i ==> reads_as(self, &#[trigger] ris[j], Ok(out@[j].1)),
                        forall|j: int| 0 <= j < i ==> !read_fails(self, &#[trigger] ris[j]),
                    decreases dict@.len() - i,
                {
                    assert(ris[i as int] == dict@[i as int].1);
                    let entry = &dict[i];
                    match self.read_value(&entry.1) {
                        Ok(v) => {
                            out.push((entry.0.clone(), v));
                        },
                        Err(e) => {
                            assert(read_fails(self, &ris[i as int]));
                            assert(reads_as(self, &ris[i as int], Err(e)));
                            assert(reads_all(self, ris, Err(e)));
                            return Err(e);
                        },
                    }
                    i = i + 1;
                }
                let res = ListOrDict::Dict(out);
                proof {
                    let vs = result_values(res);
                    assert(forall|j: int| 0 <= j < i ==> vs[j] == out@[j].1);
                }
                Ok(res)
            },
        }
    }

    /// Reads the single cell at `cell_addr` as kind `dtype`.
    pub fn cell_value(&self, cell_addr: &CellAddr, dtype: DType, strict: bool) -> (r: Result<
        WrappedValue,
        Error,
    >)
        requires
            self.wf(),
        ensures
            match cell_addr.as_idx_spec() {
                None => r matches Err(Error::InvalidAddress(_)),
                Some((row, col)) => if row > i32::MAX || col > i32::MAX {
                    r matches Err(Error::IndexOutOfRange)
                } else {
                    reads_as(
                        self,
                        &RangeInfo {
                            pos: (row as i32, col as i32),
                            data_shape: DShape::Scalar {  },
                            dtype,
                            strict,
                        },
                        r,
                    )
                },
            },
    {
        let (row, col) = match cell_addr.as_idx() {
            Ok(p) => p,
            Err(e) => {
                return Err(e);
            },
        };
        if row > i32::MAX as usize || col > i32::MAX as usize {
            return Err(Error::IndexOutOfRange);
        }
        let range_info = RangeInfo {
            pos: (row as i32, col as i32),
            data_shape: DShape::Scalar {  },
            dtype,
            strict,
        };
        assert(cell_count(range_info.data_shape) <= usize::MAX) by (nonlinear_arith)
            requires
                extent(range_info.data_shape) == (1nat, 1nat),
        ;
        self.read_value(&range_info)
    }
}

/// An open workbook: the titles of its worksheets, in order.
#[derive(Debug)]
pub struct ReadOnlyWorkbook {
    pub path: String,
    pub n_sheets: usize,
    pub sheetnames: Vec<String>,
}

impl ReadOnlyWorkbook {
    pub open spec fn wf(&self) -> bool {
        self.n_sheets == self.sheetnames@.len()
    }

    pub fn new(path: String, sheetnames: Vec<String>) -> (r: Self)
        ensures
            r.wf(),
            r.path == path,
            r.sheetnames@ == sheetnames@,
    {
        let n_sheets = sheetnames.len();
        ReadOnlyWorkbook { path, n_sheets, sheetnames }
    }

    /// The index of the worksheet titled `name`: the first with that title.
    pub fn get_by_name(&self, name: &String) -> (r: Result<usize, Error>)
        requires
            self.wf(),
        ensures
            match r {
                Ok(i) => i < self.n_sheets && self.sheetnames@[i as int]@ == name@ && forall|j: int|
                    0 <= j < i ==> (#[trigger] self.sheetnames@[j])@ != name@,
                Err(e) => e is WorksheetNotFound && forall|j: int|
                    0 <= j < self.n_sheets ==> (#[trigger] self.sheetnames@[j])@ != name@,
            },
    {
        let mut i: usize = 0;
        while i < self.sheetnames.len()
            invariant
                self.wf(),
                i <= self.n_sheets,
                forall|j: int| 0 <= j < i ==> (#[trigger] self.sheetnames@[j])@ != name@,
            decreases self.n_sheets - i,
        {
            if self.sheetnames[i] == *name {
                return Ok(i);
            }
            i = i + 1;
        }
        Err(Error::WorksheetNotFound)
    }

    /// `idx` if a worksheet stands at that index.
    pub fn get_by_idx(&self, idx: usize) -> (r: Result<usize, Error>)
        requires
            self.wf(),
        ensures
            match r {
                Ok(i) => i == idx && idx < self.n_sheets,
                Err(e) => e is WorksheetNotFound && idx >= self.n_sheets,
            },
    {
        if idx < self.n_sheets {
            Ok(idx)
        } else {
            Err(Error::WorksheetNotFound)
        }
    }

    /// The index of a worksheet given by index (negative counts from the
    /// end) or by title.
    pub fn get(&self, idx_or_name: &IdxOrName) -> (r: Result<usize, Error>)
        requires
            self.wf(),
        ensures
            match idx_or_name {
                IdxOrName::Idx(i) => {
                    let p = resolve_relative(*i as int, self.n_sheets as int);
                    match r {
                        Ok(k) => k == p && 0 <= p < self.n_sheets,
                        Err(e) => e is WorksheetNotFound && !(0 <= p < self.n_sheets),
                    }
                },
                IdxOrName::Name(name) => match r {
                    Ok(i) => i < self.n_sheets && self.sheetnames@[i as int]@ == name@,
                    Err(e) => e is WorksheetNotFound && forall|j: int|
                        0 <= j < self.n_sheets ==> (#[trigger] self.sheetnames@[j])@ != name@,
                },
            },
    {
        match idx_or_name {
            IdxOrName::Idx(i) => {
                if *i < 0 && (self.n_sheets as i128) + (*i as i128) < 0 {
                    return Err(Error::WorksheetNotFound);
                }
                let k = adjust_idx(*i, self.n_sheets);
                self.get_by_idx(k)
            },
            IdxOrName::Name(name) => self.get_by_name(name),
        }
    }
}

} // verus!
