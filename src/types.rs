use vstd::prelude::*;

verus! {

/// The scalar kind a range is decoded into or a value is written as.
#[derive(Clone, Copy, Debug, PartialEq, Eq, Structural)]
pub enum DType {
    Int,
    Float,
    Str,
    Bool,
    Date,
    DateTime,
    Any,
}

/// The shape of a range: one cell, a row, a column or a matrix.
#[derive(Clone, Copy, Debug, PartialEq, Eq, Structural)]
pub enum DShape {
    Scalar {},
    Row { n_cols: usize },
    Column { n_rows: usize },
    Matrix { n_rows: usize, n_cols: usize },
}

/// (height, width) of a shape.
pub open spec fn extent(s: DShape) -> (nat, nat) {
    match s {
        DShape::Scalar {} => (1, 1),
        DShape::Row { n_cols } => (1, n_cols as nat),
        DShape::Column { n_rows } => (n_rows as nat, 1),
        DShape::Matrix { n_rows, n_cols } => (n_rows as nat, n_cols as nat),
    }
}

/// A rectangular region to read: its origin (negative components count
/// from the end of the worksheet), its shape, the kind its cells are read
/// as, and whether a cell that does not convert is an error.
#[derive(Debug)]
pub struct RangeInfo {
    pub pos: (i32, i32),
    pub data_shape: DShape,
    pub dtype: DType,
    pub strict: bool,
}

impl RangeInfo {
    pub fn new(pos: (i32, i32), data_shape: DShape, dtype: DType, strict: bool) -> (r: Self)
        ensures
            r.pos == pos,
            r.data_shape == data_shape,
            r.dtype == dtype,
            r.strict == strict,
    {
        RangeInfo { pos, data_shape, dtype, strict }
    }

    /// The (height, width) of the range.
    pub fn shape(&self) -> (r: (usize, usize))
        ensures
            (r.0 as nat, r.1 as nat) == extent(self.data_shape),
    {
        match self.data_shape {
            DShape::Scalar {} => (1, 1),
            DShape::Row { n_cols } => (1, n_cols),
            DShape::Column { n_rows } => (n_rows, 1),
            DShape::Matrix { n_rows, n_cols } => (n_rows, n_cols),
        }
    }

    /// The origin of the range.
    pub fn start(&self) -> (r: (i32, i32))
        ensures
            r == self.pos,
    {
        self.pos
    }

    /// The last cell of the range: origin + extent - 1 in both components.
    pub fn end(&self) -> (r: (i32, i32))
        requires
            i32::MIN <= self.pos.0 + extent(self.data_shape).0 - 1 <= i32::MAX,
            i32::MIN <= self.pos.1 + extent(self.data_shape).1 - 1 <= i32::MAX,
        ensures
            r.0 == self.pos.0 + extent(self.data_shape).0 - 1,
            r.1 == self.pos.1 + extent(self.data_shape).1 - 1,
    {
        let (n_rows, n_cols) = self.shape();
        let r0 = (self.pos.0 as i64 + n_rows as i64 - 1) as i32;
        let r1 = (self.pos.1 as i64 + n_cols as i64 - 1) as i32;
        (r0, r1)
    }
}

/// A worksheet given by its 0-based index (negative counts from the end) or
/// by its title.
#[derive(Debug)]
pub enum IdxOrName {
    Idx(i32),
    Name(String),
}

/// Requests or results, either as a list or as keyed entries in order.
#[derive(Debug)]
pub enum ListOrDict<K, T> {
    List(Vec<T>),
    Dict(Vec<(K, T)>),
}

} // verus!
