use vstd::prelude::*;

use crate::cell_addr::CellAddr;
use crate::containers::{wrapped_shape, ValueContainer, WrappedValue};
use crate::error::Error;
use crate::types::{DShape, IdxOrName};
use crate::value::{AnyView, ToAny};

verus! {

/// The display format a written cell gets.
#[derive(Clone, Copy, Debug, PartialEq, Eq, Structural)]
pub enum NumFormat {
    /// "yyyy/mm/dd"
    Date,
    /// "yyyy/mm/dd hh:mm:ss"
    DateTime,
}

/// One cell write: a value, with the display format of dates, at a 0-based
/// position.
#[derive(Debug)]
pub struct CellWrite {
    pub row: u128,
    pub col: u128,
    pub value: crate::value::CalamineData,
    pub format: Option<NumFormat>,
}

/// Where the `k`-th value of a container lands relative to the start: along
/// the row, down the column, or row-major through the matrix.
pub open spec fn write_offset<T>(c: ValueContainer<T>, is_column: bool, k: int) -> (int, int) {
    match c {
        ValueContainer::Scalar(_) => (0, 0),
        ValueContainer::Array1(_) => if is_column {
            (k, 0)
        } else {
            (0, k)
        },
        ValueContainer::Array2(m) => (k / (m.n_cols as int), k % (m.n_cols as int)),
    }
}

/// The format a value is written with: dates and date-times get theirs.
pub open spec fn format_of(v: AnyView) -> Option<NumFormat> {
    match v {
        AnyView::Date(_) => Some(NumFormat::Date),
        AnyView::DateTime(_) => Some(NumFormat::DateTime),
        _ => None,
    }
}

pub open spec fn any_views<T: ToAny>(s: Seq<T>) -> Seq<AnyView> {
    s.map_values(|x: T| x.any_view())
}

/// How many of the first `n` values are not empty.
pub open spec fn kept(s: Seq<AnyView>, n: int) -> nat
    decreases n,
{
    if n <= 0 {
        0
    } else {
        kept(s, n - 1) + if s[n - 1] is Empty {
            0nat
        } else {
            1nat
        }
    }
}

/// `ws` are the writes of container `c` at `start`: one for each value that
/// is not empty, in order, at the value's offset, with its format.
pub open spec fn container_writes<T: ToAny>(
    c: ValueContainer<T>,
    start: (u32, u16),
    is_column: bool,
    ws: Seq<CellWrite>,
) -> bool {
    let s = any_views(c.elems());
    &&& ws.len() == kept(s, s.len() as int)
    &&& forall|k: int|
        0 <= k < s.len() && !(s[k] is Empty) ==> {
            let w = #[trigger] ws[kept(s, k) as int];
            &&& w.row == start.0 + write_offset(c, is_column, k).0
            &&& w.col == start.1 + write_offset(c, is_column, k).1
            &&& w.value@ == s[k]
            &&& w.format == format_of(s[k])
        }
}

/// `ws` are the writes of `value` at `start`.
pub open spec fn writes_of(value: WrappedValue, start: (u32, u16), is_column: bool, ws: Seq<CellWrite>) -> bool {
    match value {
        WrappedValue::Int(c) => container_writes(c, start, is_column, ws),
        WrappedValue::Float(c) => container_writes(c, start, is_column, ws),
        WrappedValue::Str(c) => container_writes(c, start, is_column, ws),
        WrappedValue::Bool(c) => container_writes(c, start, is_column, ws),
        WrappedValue::Date(c) => container_writes(c, start, is_column, ws),
        WrappedValue::DateTime(c) => container_writes(c, start, is_column, ws),
        WrappedValue::Any(c) => container_writes(c, start, is_column, ws),
    }
}

proof fn lemma_kept_step(s: Seq<AnyView>, n: int)
    requires
        0 <= n,
    ensures
        kept(s, n + 1) == kept(s, n) + if s[n] is Empty {
            0nat
        } else {
            1nat
        },
        kept(s, n) <= n,
    decreases n,
{
    if n > 0 {
        lemma_kept_step(s, n - 1);
    }
}

proof fn lemma_kept_mono(s: Seq<AnyView>, a: int, b: int)
    requires
        0 <= a <= b,
    ensures
        kept(s, a) <= kept(s, b),
    decreases b - a,
{
    if a < b {
        lemma_kept_mono(s, a, b - 1);
        lemma_kept_step(s, b - 1);
    }
}

fn elem_at<T>(c: &ValueContainer<T>, k: usize) -> (r: &T)
    requires
        k < c.elems().len(),
    ensures
        *r == c.elems()[k as int],
{
    match c {
        ValueContainer::Scalar(v) => v,
        ValueContainer::Array1(a) => &a.value[k],
        ValueContainer::Array2(m) => &m.value[k],
    }
}

fn elem_count<T>(c: &ValueContainer<T>) -> (r: usize)
    ensures
        r == c.elems().len(),
{
    match c {
        ValueContainer::Scalar(_) => 1,
        ValueContainer::Array1(a) => a.value.len(),
        ValueContainer::Array2(m) => m.value.len(),
    }
}

/// The writes of a container of any kind at `start`.
pub fn container_cell_writes<T: ToAny>(c: &ValueContainer<T>, start: (u32, u16), is_column: bool) -> (r:
    Vec<CellWrite>)
    requires
        c.wf(),
    ensures
        container_writes(*c, start, is_column, r@),
{
    let n = elem_count(c);
    let ghost s = any_views(c.elems());
    let mut out: Vec<CellWrite> = Vec::new();
    let mut k: usize = 0;
    while k < n
        invariant
            c.wf(),
            n == c.elems().len(),
            s == any_views(c.elems()),
            k <= n,
            out@.len() == kept(s, k as int),
            forall|j: int|
                0 <= j < k && !(s[j] is Empty) ==> {
                    let w = #[trigger] out@[kept(s, j) as int];
                    &&& w.row == start.0 + write_offset(*c, is_column, j).0
                    &&& w.col == start.1 + write_offset(*c, is_column, j).1
                    &&& w.value@ == s[j]
                    &&& w.format == format_of(s[j])
                },
        decreases n - k,
    {
        proof {
            lemma_kept_step(s, k as int);
        }
        let v = elem_at(c, k).to_any();
        let (dr, dc): (usize, usize) = match c {
            ValueContainer::Scalar(_) => (0, 0),
            ValueContainer::Array1(_) => if is_column {
                (k, 0)
            } else {
                (0, k)
            },
            ValueContainer::Array2(m) => {
                proof {
                    assert(m.n_cols > 0) by (nonlinear_arith)
                        requires
                            k < m.n_rows * m.n_cols,
                    ;
                }
                (k / m.n_cols, k % m.n_cols)
            },
        };
        assert((dr as int, dc as int) == write_offset(*c, is_column, k as int));
        let format = match &v {
            crate::value::CalamineData::Date(_) => Some(NumFormat::Date),
            crate::value::CalamineData::DateTime(_) => Some(NumFormat::DateTime),
            _ => None,
        };
        let empty = match &v {
            crate::value::CalamineData::Empty => true,
            _ => false,
        };
        proof {
            assert(v@ == s[k as int]);
            assert forall|j: int| 0 <= j < k && !(s[j] is Empty) implies kept(s, j) < kept(s, k as int) by {
                lemma_kept_step(s, j);
                lemma_kept_mono(s, j + 1, k as int);
            }
        }
        let ghost before = out@;
        if !empty {
            out.push(
                CellWrite {
                    row: start.0 as u128 + dr as u128,
                    col: start.1 as u128 + dc as u128,
                    value: v,
                    format,
                },
            );
        }
        proof {
            assert forall|j: int| 0 <= j < k && !(s[j] is Empty) implies out@[kept(s, j) as int] == before[kept(s, j) as int] by {
                lemma_kept_step(s, j);
                lemma_kept_mono(s, j + 1, k as int);
            }
        }
        k = k + 1;
    }
    out
}

/// The writes of a typed value at `start`.
pub fn cell_writes(value: &WrappedValue, start: (u32, u16), is_column: bool) -> (r: Vec<CellWrite>)
    requires
        value.wf(),
    ensures
        writes_of(*value, start, is_column, r@),
{
    match value {
        WrappedValue::Int(c) => container_cell_writes(c, start, is_column),
        WrappedValue::Float(c) => container_cell_writes(c, start, is_column),
        WrappedValue::Str(c) => container_cell_writes(c, start, is_column),
        WrappedValue::Bool(c) => container_cell_writes(c, start, is_column),
        WrappedValue::Date(c) => container_cell_writes(c, start, is_column),
        WrappedValue::DateTime(c) => container_cell_writes(c, start, is_column),
        WrappedValue::Any(c) => container_cell_writes(c, start, is_column),
    }
}

/// A value that can be laid out as cell writes from a start cell.
pub trait WriteToSheet {
    spec fn sheet_wf(&self) -> bool;

    /// Whether `ws` are the cell writes of this value at `start`.
    spec fn written_as(&self, start: (u32, u16), is_column: bool, ws: Seq<CellWrite>) -> bool;

    fn write_to_sheet(&self, start: (u32, u16), is_column: bool) -> (r: Vec<CellWrite>)
        requires
            self.sheet_wf(),
        ensures
            self.written_as(start, is_column, r@),
    ;
}

impl<T: ToAny> WriteToSheet for ValueContainer<T> {
    open spec fn sheet_wf(&self) -> bool {
        self.wf()
    }

    open spec fn written_as(&self, start: (u32, u16), is_column: bool, ws: Seq<CellWrite>) -> bool {
        container_writes(*self, start, is_column, ws)
    }

    fn write_to_sheet(&self, start: (u32, u16), is_column: bool) -> (r: Vec<CellWrite>) {
        container_cell_writes(self, start, is_column)
    }
}

impl WriteToSheet for WrappedValue {
    open spec fn sheet_wf(&self) -> bool {
        self.wf()
    }

    open spec fn written_as(&self, start: (u32, u16), is_column: bool, ws: Seq<CellWrite>) -> bool {
        writes_of(*self, start, is_column, ws)
    }

    fn write_to_sheet(&self, start: (u32, u16), is_column: bool) -> (r: Vec<CellWrite>) {
        cell_writes(self, start, is_column)
    }
}

/// A value staged for writing: where it starts, and whether a
/// one-dimensional value runs down a column.
#[derive(Debug)]
pub struct StagedWrite {
    pub pos: (u32, u16),
    pub value: WrappedValue,
    pub is_column: bool,
}

/// A worksheet being built: its title and its staged writes, in the order
/// they were made.
#[derive(Debug)]
pub struct WriteOnlyWorksheet {
    pub title: String,
    pub data_to_write: Vec<StagedWrite>,
}

/// The writes that make up one worksheet: its title and, for each staged
/// write in order, its cell writes.
#[derive(Debug)]
pub struct SheetPlan {
    pub title: String,
    pub writes: Vec<Vec<CellWrite>>,
}

/// `p` writes out worksheet `ws`.
pub open spec fn plans_sheet(ws: &WriteOnlyWorksheet, p: SheetPlan) -> bool {
    &&& p.title@ == ws.title@
    &&& p.writes@.len() == ws.data_to_write@.len()
    &&& forall|i: int|
        0 <= i < p.writes@.len() ==> {
            let sw = #[trigger] ws.data_to_write@[i];
            writes_of(sw.value, sw.pos, sw.is_column, p.writes@[i]@)
        }
}

impl WriteOnlyWorksheet {
    /// Every staged value is well formed.
    pub open spec fn wf(&self) -> bool {
        forall|i: int| 0 <= i < self.data_to_write@.len() ==> (#[trigger] self.data_to_write@[i]).value.wf()
    }

    /// An empty worksheet titled `title`.
    pub fn new(title: String) -> (r: Self)
        ensures
            r.wf(),
            r.title == title,
            r.data_to_write@.len() == 0,
    {
        WriteOnlyWorksheet { title, data_to_write: Vec::new() }
    }

    /// Stages `value` at (row, col); a position beyond what a worksheet can
    /// address is refused.
    pub fn write_to_self(&mut self, row: usize, col: usize, value: WrappedValue, is_column: bool) -> (r:
        Result<(), Error>)
        requires
            old(self).wf(),
            value.wf(),
        ensures
            final(self).wf(),
            final(self).title == old(self).title,
            match r {
                Ok(_) => row <= u32::MAX && col <= u16::MAX && final(self).data_to_write@ == old(
                    self,
                ).data_to_write@.push(
                    StagedWrite { pos: (row as u32, col as u16), value, is_column },
                ),
                Err(e) => e is IndexOutOfRange && (row > u32::MAX || col > u16::MAX)
                    && final(self).data_to_write@ == old(self).data_to_write@,
            },
    {
        if row > u32::MAX as usize || col > u16::MAX as usize {
            return Err(Error::IndexOutOfRange);
        }
        self.data_to_write.push(StagedWrite { pos: (row as u32, col as u16), value, is_column });
        Ok(())
    }

    /// Stages a single value at `cell_addr`.
    pub fn write_cell(&mut self, cell_addr: &CellAddr, value: WrappedValue) -> (r: Result<(), Error>)
        requires
            old(self).wf(),
            value.wf(),
        ensures
            final(self).wf(),
            final(self).title == old(self).title,
            staged(
                old(self).data_to_write@,
                final(self).data_to_write@,
                cell_addr,
                value,
                wrapped_shape(value, false) is Scalar,
                false,
                r,
            ),
    {
        let (row, col) = match cell_addr.as_idx() {
            Ok(p) => p,
            Err(e) => {
                return Err(e);
            },
        };
        match value.get_shape(false) {
            DShape::Scalar {  } => {},
            _ => {
                return Err(Error::ShapeMismatch);
            },
        }
        self.write_to_self(row, col, value, false)
    }

    /// Stages a one-dimensional value along the row that starts at
    /// `cell_addr`.
    pub fn write_row(&mut self, cell_addr: &CellAddr, value: WrappedValue) -> (r: Result<(), Error>)
        requires
            old(self).wf(),
            value.wf(),
        ensures
            final(self).wf(),
            final(self).title == old(self).title,
            staged(
                old(self).data_to_write@,
                final(self).data_to_write@,
                cell_addr,
                value,
                wrapped_shape(value, false) is Row,
                false,
                r,
            ),
    {
        let (row, col) = match cell_addr.as_idx() {
            Ok(p) => p,
            Err(e) => {
                return Err(e);
            },
        };
        match value.get_shape(false) {
            DShape::Row { .. } => {},
            _ => {
                return Err(Error::ShapeMismatch);
            },
        }
        self.write_to_self(row, col, value, false)
    }

    /// Stages a one-dimensional value down the column that starts at
    /// `cell_addr`.
    pub fn write_column(&mut self, cell_addr: &CellAddr, value: WrappedValue) -> (r: Result<(), Error>)
        requires
            old(self).wf(),
            value.wf(),
        ensures
            final(self).wf(),
            final(self).title == old(self).title,
            staged(
                old(self).data_to_write@,
                final(self).data_to_write@,
                cell_addr,
                value,
                wrapped_shape(value, true) is Column,
                true,
                r,
            ),
    {
        let (row, col) = match cell_addr.as_idx() {
            Ok(p) => p,
            Err(e) => {
                return Err(e);
            },
        };
        match value.get_shape(true) {
            DShape::Column { .. } => {},
            _ => {
                return Err(Error::ShapeMismatch);
            },
        }
        self.write_to_self(row, col, value, true)
    }

    /// Stages a matrix whose top-left cell is `cell_addr`.
    pub fn write_matrix(&mut self, cell_addr: &CellAddr, value: WrappedValue) -> (r: Result<(), Error>)
        requires
            old(self).wf(),
            value.wf(),
        ensures
            final(self).wf(),
            final(self).title == old(self).title,
            staged(
                old(self).data_to_write@,
                final(self).data_to_write@,
                cell_addr,
                value,
                wrapped_shape(value, false) is Matrix,
                false,
                r,
            ),
    {
        let (row, col) = match cell_addr.as_idx() {
            Ok(p) => p,
            Err(e) => {
                return Err(e);
            },
        };
        match value.get_shape(false) {
            DShape::Matrix { .. } => {},
            _ => {
                return Err(Error::ShapeMismatch);
            },
        }
        self.write_to_self(row, col, value, false)
    }

    /// The cell writes of this worksheet, staged write by staged write.
    pub fn to_sheet(&self) -> (r: SheetPlan)
        requires
            self.wf(),
        ensures
            plans_sheet(self, r),
    {
        let mut writes: Vec<Vec<CellWrite>> = Vec::new();
        let mut i: usize = 0;
        while i < self.data_to_write.len()
            invariant
                self.wf(),
                i <= self.data_to_write@.len(),
                writes@.len() == i,
                forall|j: int|
                    0 <= j < i ==> {
                        let sw = #[trigger] self.data_to_write@[j];
                        writes_of(sw.value, sw.pos, sw.is_column, writes@[j]@)
                    },
            decreases self.data_to_write@.len() - i,
        {
            let sw = &self.data_to_write[i];
            assert(sw.value.wf());
            writes.push(cell_writes(&sw.value, sw.pos, sw.is_column));
            i = i + 1;
        }
        SheetPlan { title: self.title.clone(), writes }
    }
}

/// The outcome of staging `value` at `addr`: an invalid address or a value
/// of the wrong shape is refused, in that order; so is a position beyond
/// what a worksheet can address; otherwise the value is appended.
pub open spec fn staged(
    before: Seq<StagedWrite>,
    after: Seq<StagedWrite>,
    addr: &CellAddr,
    value: WrappedValue,
    shape_ok: bool,
    is_column: bool,
    r: Result<(), Error>,
) -> bool {
    match addr.as_idx_spec() {
        None => r matches Err(Error::InvalidAddress(_)) && after == before,
        Some((row, col)) => if !shape_ok {
            r matches Err(Error::ShapeMismatch) && after == before
        } else if row > u32::MAX || col > u16::MAX {
            r matches Err(Error::IndexOutOfRange) && after == before
        } else {
            r is Ok && after == before.push(
                StagedWrite { pos: (row as u32, col as u16), value, is_column },
            )
        },
    }
}

/// The first worksheet whose title repeats an earlier one's, if any.
pub open spec fn first_duplicate(sheets: Seq<WriteOnlyWorksheet>, i: int) -> bool {
    &&& 0 <= i < sheets.len()
    &&& exists|j: int| 0 <= j < i && (#[trigger] sheets[j]).title@ == sheets[i].title@
    &&& forall|a: int, b: int|
        0 <= a < b < i ==> (#[trigger] sheets[a]).title@ != (#[trigger] sheets[b]).title@
}

/// No two worksheets share a title.
pub open spec fn titles_distinct(sheets: Seq<WriteOnlyWorksheet>) -> bool {
    forall|a: int, b: int|
        0 <= a < b < sheets.len() ==> (#[trigger] sheets[a]).title@ != (#[trigger] sheets[b]).title@
}

/// Checks that no two worksheets share a title; the error names the title
/// of the first worksheet that repeats one.
pub fn check_titles(sheets: &Vec<WriteOnlyWorksheet>) -> (r: Result<(), Error>)
    ensures
        match r {
            Ok(_) => titles_distinct(sheets@),
            Err(e) => exists|i: int|
                first_duplicate(sheets@, i) && (e matches Error::DuplicateTitle(t) && t@
                    == sheets@[i].title@),
        },
{
    let mut i: usize = 0;
    while i < sheets.len()
        invariant
            i <= sheets@.len(),
            titles_distinct(sheets@.subrange(0, i as int)),
        decreases sheets@.len() - i,
    {
        let mut j: usize = 0;
        while j < i
            invariant
                i < sheets@.len(),
                j <= i,
                titles_distinct(sheets@.subrange(0, i as int)),
                forall|a: int| 0 <= a < j ==> (#[trigger] sheets@[a]).title@ != sheets@[i as int].title@,
            decreases i - j,
        {
            if sheets[j].title == sheets[i].title {
                proof {
                    assert forall|a: int, b: int|
                        0 <= a < b < i implies (#[trigger] sheets@[a]).title@ != (#[trigger] sheets@[b]).title@ by {
                        assert(sheets@.subrange(0, i as int)[a] == sheets@[a]);
                        assert(sheets@.subrange(0, i as int)[b] == sheets@[b]);
                    }
                    assert(first_duplicate(sheets@, i as int));
                }
                return Err(Error::DuplicateTitle(sheets[i].title.clone()));
            }
            j = j + 1;
        }
        proof {
            let s = sheets@.subrange(0, i as int + 1);
            assert forall|a: int, b: int|
                0 <= a < b < s.len() implies (#[trigger] s[a]).title@ != (#[trigger] s[b]).title@ by {
                assert(s[a] == sheets@[a]);
                assert(s[b] == sheets@[b]);
                if b < i {
                    assert(sheets@.subrange(0, i as int)[a] == sheets@[a]);
                    assert(sheets@.subrange(0, i as int)[b] == sheets@[b]);
                }
            }
        }
        i = i + 1;
    }
    proof {
        assert(sheets@.subrange(0, i as int) =~= sheets@);
    }
    Ok(())
}

/// The plan of a whole workbook: refused if two worksheets share a title,
/// before any worksheet is planned; otherwise each worksheet in order.
pub fn plan_workbook(sheets: &Vec<WriteOnlyWorksheet>) -> (r: Result<Vec<SheetPlan>, Error>)
    requires
        forall|i: int| 0 <= i < sheets@.len() ==> (#[trigger] sheets@[i]).wf(),
    ensures
        match r {
            Ok(plans) => titles_distinct(sheets@) && plans@.len() == sheets@.len() && forall|i: int|
                0 <= i < sheets@.len() ==> plans_sheet(&sheets@[i], #[trigger] plans@[i]),
            Err(e) => exists|i: int|
                first_duplicate(sheets@, i) && (e matches Error::DuplicateTitle(t) && t@
                    == sheets@[i].title@),
        },
{
    match check_titles(sheets) {
        Ok(_) => {},
        Err(e) => {
            return Err(e);
        },
    }
    let mut plans: Vec<SheetPlan> = Vec::new();
    let mut i: usize = 0;
    while i < sheets.len()
        invariant
            forall|i: int| 0 <= i < sheets@.len() ==> (#[trigger] sheets@[i]).wf(),
            i <= sheets@.len(),
            plans@.len() == i,
            forall|j: int| 0 <= j < i ==> plans_sheet(&sheets@[j], #[trigger] plans@[j]),
        decreases sheets@.len() - i,
    {
        plans.push(sheets[i].to_sheet());
        i = i + 1;
    }
    Ok(plans)
}

/// A workbook built one worksheet at a time; a title is refused at once if
/// another worksheet already has it.
#[derive(Debug)]
pub struct WriteOnlyWorkbook {
    pub worksheets: Vec<WriteOnlyWorksheet>,
}

impl WriteOnlyWorkbook {
    pub open spec fn wf(&self) -> bool {
        forall|i: int| 0 <= i < self.worksheets@.len() ==> (#[trigger] self.worksheets@[i]).wf()
    }

    pub open spec fn has_title(&self, title: Seq<char>) -> bool {
        exists|i: int| 0 <= i < self.worksheets@.len() && (#[trigger] self.worksheets@[i]).title@ == title
    }

    pub fn new() -> (r: Self)
        ensures
            r.wf(),
            r.worksheets@.len() == 0,
    {
        WriteOnlyWorkbook { worksheets: Vec::new() }
    }

    /// The index of the first worksheet titled `name`.
    fn index_of_title(&self, name: &String) -> (r: Option<usize>)
        ensures
            match r {
                Some(i) => i < self.worksheets@.len() && self.worksheets@[i as int].title@ == name@
                    && forall|j: int| 0 <= j < i ==> (#[trigger] self.worksheets@[j]).title@ != name@,
                None => !self.has_title(name@),
            },
    {
        let mut i: usize = 0;
        while i < self.worksheets.len()
            invariant
                i <= self.worksheets@.len(),
                forall|j: int| 0 <= j < i ==> (#[trigger] self.worksheets@[j]).title@ != name@,
            decreases self.worksheets@.len() - i,
        {
            if self.worksheets[i].title == *name {
                return Some(i);
            }
            i = i + 1;
        }
        None
    }

    /// Adds an empty worksheet titled `title` and hands it out for writing.
    pub fn create_sheet(&mut self, title: String) -> (r: Result<&mut WriteOnlyWorksheet, Error>)
        requires
            old(self).wf(),
        ensures
            match r {
                Ok(ws) => {
                    &&& !old(self).has_title(title@)
                    &&& ws.title == title
                    &&& ws.data_to_write@.len() == 0
                    &&& final(self).worksheets@ == old(self).worksheets@.push(*final(ws))
                },
                Err(e) => {
                    &&& old(self).has_title(title@)
                    &&& e matches Error::DuplicateTitle(t) && t@ == title@
                    &&& *final(self) == *old(self)
                },
            },
    {
        match self.index_of_title(&title) {
            Some(_) => {
                return Err(Error::DuplicateTitle(title));
            },
            None => {},
        }
        self.worksheets.push(WriteOnlyWorksheet::new(title));
        let n = self.worksheets.len();
        Ok(&mut self.worksheets[n - 1])
    }

    /// The worksheet at index `idx`.
    pub fn get_by_idx(&self, idx: usize) -> (r: Result<&WriteOnlyWorksheet, Error>)
        ensures
            match r {
                Ok(ws) => idx < self.worksheets@.len() && *ws == self.worksheets@[idx as int],
                Err(e) => e is WorksheetNotFound && idx >= self.worksheets@.len(),
            },
    {
        if idx < self.worksheets.len() {
            Ok(&self.worksheets[idx])
        } else {
            Err(Error::WorksheetNotFound)
        }
    }

    /// The first worksheet titled `name`.
    pub fn get_by_name(&self, name: &String) -> (r: Result<&WriteOnlyWorksheet, Error>)
        ensures
            match r {
                Ok(ws) => exists|i: int|
                    0 <= i < self.worksheets@.len() && *ws == self.worksheets@[i] && ws.title@
                        == name@ && forall|j: int|
                        0 <= j < i ==> (#[trigger] self.worksheets@[j]).title@ != name@,
                Err(e) => e is WorksheetNotFound && !self.has_title(name@),
            },
    {
        match self.index_of_title(name) {
            Some(i) => Ok(&self.worksheets[i]),
            None => Err(Error::WorksheetNotFound),
        }
    }

    /// The worksheet at a non-negative index, or with a title.
    pub fn get(&self, idx_or_title: &IdxOrName) -> (r: Result<&WriteOnlyWorksheet, Error>)
        ensures
            match idx_or_title {
                IdxOrName::Idx(i) => match r {
                    Ok(ws) => 0 <= *i < self.worksheets@.len() && *ws == self.worksheets@[*i as int],
                    Err(e) => e is WorksheetNotFound && !(0 <= *i < self.worksheets@.len()),
                },
                IdxOrName::Name(name) => match r {
                    Ok(ws) => ws.title@ == name@ && exists|i: int|
                        0 <= i < self.worksheets@.len() && *ws == self.worksheets@[i],
                    Err(e) => e is WorksheetNotFound && !self.has_title(name@),
                },
            },
    {
        match idx_or_title {
            IdxOrName::Idx(i) => {
                if *i < 0 {
                    Err(Error::WorksheetNotFound)
                } else {
                    self.get_by_idx(*i as usize)
                }
            },
            IdxOrName::Name(name) => self.get_by_name(name),
        }
    }

    /// The titles of the worksheets, in order.
    pub fn sheetnames(&self) -> (r: Vec<String>)
        ensures
            r@.len() == self.worksheets@.len(),
            forall|i: int| 0 <= i < r@.len() ==> (#[trigger] r@[i])@ == self.worksheets@[i].title@,
    {
        let mut r: Vec<String> = Vec::new();
        let mut i: usize = 0;
        while i < self.worksheets.len()
            invariant
                i <= self.worksheets@.len(),
                r@.len() == i,
                forall|j: int| 0 <= j < i ==> (#[trigger] r@[j])@ == self.worksheets@[j].title@,
            decreases self.worksheets@.len() - i,
        {
            r.push(self.worksheets[i].title.clone());
            i = i + 1;
        }
        r
    }

    /// The titles as a bracketed list of quoted names: `["a", "b"]`.
    pub fn get_sheetnames_string(&self) -> (r: String)
        ensures
            r@ == names_text(Seq::new(self.worksheets@.len(), |i: int| self.worksheets@[i].title@)),
    {
        let ghost ts = Seq::new(self.worksheets@.len(), |i: int| self.worksheets@[i].title@);
        let mut s = String::new();
        s.append("[");
        proof {
            reveal_strlit("[");
        }
        let mut i: usize = 0;
        while i < self.worksheets.len()
            invariant
                i <= self.worksheets@.len(),
                ts == Seq::new(self.worksheets@.len(), |i: int| self.worksheets@[i].title@),
                s@ == seq!['['] + joined(ts.subrange(0, i as int)),
            decreases self.worksheets@.len() - i,
        {
            let ghost before = s@;
            if i > 0 {
                s.append(", ");
                proof {
                    reveal_strlit(", ");
                }
            }
            s.append("\"");
            s.append(self.worksheets[i].title.as_str());
            s.append("\"");
            proof {
                reveal_strlit("\"");
                let p = ts.subrange(0, i as int + 1);
                assert(p.drop_last() =~= ts.subrange(0, i as int));
                assert(p.last() == ts[i as int]);
                if i == 0 {
                    assert(s@ =~= seq!['['] + joined(p));
                } else {
                    assert(s@ =~= seq!['['] + joined(p));
                }
            }
            i = i + 1;
        }
        s.append("]");
        proof {
            reveal_strlit("]");
            assert(ts.subrange(0, i as int) =~= ts);
            assert(s@ =~= names_text(ts));
        }
        s
    }
}

/// A title in double quotes.
pub open spec fn quoted(t: Seq<char>) -> Seq<char> {
    seq!['"'] + t + seq!['"']
}

/// Quoted titles separated by ", ".
pub open spec fn joined(ts: Seq<Seq<char>>) -> Seq<char>
    decreases ts.len(),
{
    if ts.len() == 0 {
        Seq::empty()
    } else if ts.len() == 1 {
        quoted(ts[0])
    } else {
        joined(ts.drop_last()) + seq![',', ' '] + quoted(ts.last())
    }
}

/// Quoted titles in brackets.
pub open spec fn names_text(ts: Seq<Seq<char>>) -> Seq<char> {
    seq!['['] + joined(ts) + seq![']']
}

} // verus!
