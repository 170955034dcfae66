use vstd::prelude::*;

use crate::error::Error;
use crate::types::{DShape, DType};
use crate::value::{CalamineData, Date, DateTime, Float64};

verus! {

/// A one-dimensional container: a row or a column of values.
#[derive(Debug)]
pub struct Array1Container<T> {
    pub value: Vec<T>,
}

impl<T> Array1Container<T> {
    pub fn new(value: Vec<T>) -> (r: Self)
        ensures
            r.value@ == value@,
    {
        Array1Container { value }
    }

    pub fn len(&self) -> (r: usize)
        ensures
            r == self.value@.len(),
    {
        self.value.len()
    }

    /// The container of `f` applied to each value.
    pub fn mapv<U, F: Fn(&T) -> U>(&self, f: F) -> (r: Array1Container<U>)
        requires
            forall|i: int| 0 <= i < self.value@.len() ==> f.requires((&self.value@[i],)),
        ensures
            r.value@.len() == self.value@.len(),
            forall|i: int| 0 <= i < self.value@.len() ==> f.ensures((&self.value@[i],), #[trigger] r.value@[i]),
    {
        Array1Container { value: map_vec(&self.value, f) }
    }
}

/// `f` applied to each element of `v`, in order.
fn map_vec<T, U, F: Fn(&T) -> U>(v: &Vec<T>, f: F) -> (r: Vec<U>)
    requires
        forall|i: int| 0 <= i < v@.len() ==> f.requires((&v@[i],)),
    ensures
        r@.len() == v@.len(),
        forall|i: int| 0 <= i < v@.len() ==> f.ensures((&v@[i],), #[trigger] r@[i]),
{
    let mut out: Vec<U> = Vec::new();
    let mut i: usize = 0;
    while i < v.len()
        invariant
            i <= v@.len(),
            out@.len() == i,
            forall|j: int| 0 <= j < v@.len() ==> f.requires((&v@[j],)),
            forall|j: int| 0 <= j < i ==> f.ensures((&v@[j],), #[trigger] out@[j]),
        decreases v@.len() - i,
    {
        out.push(f(&v[i]));
        i = i + 1;
    }
    out
}

/// A two-dimensional container, its values in row-major order.
#[derive(Debug)]
pub struct Array2Container<T> {
    pub value: Vec<T>,
    pub n_rows: usize,
    pub n_cols: usize,
}

impl<T> Array2Container<T> {
    /// Holds exactly `n_rows * n_cols` values.
    pub open spec fn wf(&self) -> bool {
        self.value@.len() == self.n_rows * self.n_cols
    }

    /// A matrix of the given height and width over `value`, which must hold
    /// exactly `n_rows * n_cols` values.
    pub fn new(value: Vec<T>, n_rows: usize, n_cols: usize) -> (r: Result<Self, Error>)
        ensures
            match r {
                Ok(m) => m.wf() && m.value@ == value@ && m.n_rows == n_rows && m.n_cols
                    == n_cols,
                Err(e) => e is ShapeMismatch && value@.len() != n_rows * n_cols,
            },
    {
        let len = value.len();
        let ok = match n_rows.checked_mul(n_cols) {
            Some(p) => p == len,
            None => false,
        };
        if ok {
            Ok(Array2Container { value, n_rows, n_cols })
        } else {
            Err(Error::ShapeMismatch)
        }
    }

    /// Number of values.
    pub fn len(&self) -> (r: usize)
        ensures
            r == self.value@.len(),
    {
        self.value.len()
    }

    pub fn nrows(&self) -> (r: usize)
        ensures
            r == self.n_rows,
    {
        self.n_rows
    }

    pub fn ncols(&self) -> (r: usize)
        ensures
            r == self.n_cols,
    {
        self.n_cols
    }

    /// The matrix of `f` applied to each value.
    pub fn mapv<U, F: Fn(&T) -> U>(&self, f: F) -> (r: Array2Container<U>)
        requires
            forall|i: int| 0 <= i < self.value@.len() ==> f.requires((&self.value@[i],)),
        ensures
            r.n_rows == self.n_rows,
            r.n_cols == self.n_cols,
            r.value@.len() == self.value@.len(),
            forall|i: int| 0 <= i < self.value@.len() ==> f.ensures((&self.value@[i],), #[trigger] r.value@[i]),
    {
        Array2Container { value: map_vec(&self.value, f), n_rows: self.n_rows, n_cols: self.n_cols }
    }

    /// A matrix from its rows, which must all be as long as the first; no
    /// rows make an empty matrix.
    pub fn from_rows(rows: Vec<Vec<T>>) -> (r: Result<Self, Error>)
        ensures
            match r {
                Ok(m) => {
                    &&& m.wf()
                    &&& m.n_rows == rows@.len()
                    &&& m.n_cols == (if rows@.len() == 0 {
                        0
                    } else {
                        rows@[0]@.len()
                    })
                    &&& forall|i: int|
                        0 <= i < rows@.len() ==> (#[trigger] rows@[i])@.len() == m.n_cols
                    &&& forall|i: int, j: int|
                        #![trigger rows@[i]@[j]]
                        0 <= i < m.n_rows && 0 <= j < m.n_cols ==> m.value@[i * m.n_cols + j]
                            == rows@[i]@[j]
                },
                Err(e) => e is ShapeMismatch && exists|i: int|
                    0 <= i < rows@.len() && (#[trigger] rows@[i])@.len() != rows@[0]@.len(),
            },
    {
        let n_rows = rows.len();
        if n_rows == 0 {
            return Ok(Array2Container { value: Vec::new(), n_rows: 0, n_cols: 0 });
        }
        let n_cols = rows[0].len();
        let mut i: usize = 0;
        while i < n_rows
            invariant
                n_rows == rows@.len(),
                n_cols == rows@[0]@.len(),
                i <= n_rows,
                forall|j: int| 0 <= j < i ==> (#[trigger] rows@[j])@.len() == n_cols,
            decreases n_rows - i,
        {
            if rows[i].len() != n_cols {
                return Err(Error::ShapeMismatch);
            }
            i = i + 1;
        }
        let ghost orig = rows@;
        let mut rows = rows;
        let mut value: Vec<T> = Vec::new();
        let mut k: usize = 0;
        while k < n_rows
            invariant
                n_rows == orig.len(),
                n_cols == orig[0]@.len(),
                forall|j: int| 0 <= j < n_rows ==> (#[trigger] orig[j])@.len() == n_cols,
                k <= n_rows,
                rows@.len() == n_rows - k,
                forall|j: int| 0 <= j < rows@.len() ==> #[trigger] rows@[j] == orig[j + k],
                value@.len() == k * n_cols,
                forall|a: int, b: int|
                    #![trigger orig[a]@[b]]
                    0 <= a < k && 0 <= b < n_cols ==> value@[a * n_cols + b] == orig[a]@[b],
            decreases n_rows - k,
        {
            let mut row = rows.remove(0);
            let ghost before = value@;
            assert(row == orig[k as int]);
            value.append(&mut row);
            proof {
                assert(value@.len() == (k + 1) * n_cols) by (nonlinear_arith)
                    requires
                        value@.len() == k * n_cols + n_cols,
                ;
                assert forall|a: int, b: int|
                    #![trigger orig[a]@[b]]
                    0 <= a < k + 1 && 0 <= b < n_cols implies value@[a * n_cols + b] == orig[a]@[b] by {
                    if a < k {
                        assert(a * n_cols + b < k * n_cols) by (nonlinear_arith)
                            requires
                                a < k,
                                b < n_cols,
                        ;
                    } else {
                        assert(a * n_cols + b == k * n_cols + b) by (nonlinear_arith)
                            requires
                                a == k,
                        ;
                    }
                }
            }
            k = k + 1;
        }
        proof {
            assert(value@.len() == n_rows * n_cols);
        }
        Ok(Array2Container { value, n_rows, n_cols })
    }
}

/// A typed value: one scalar, a row or column, or a matrix.
#[derive(Debug)]
pub enum ValueContainer<T> {
    Scalar(T),
    Array1(Array1Container<T>),
    Array2(Array2Container<T>),
}

/// The shape a container has when written as a column (`is_column`) or a
/// row.
pub open spec fn shape_of<T>(c: ValueContainer<T>, is_column: bool) -> DShape {
    match c {
        ValueContainer::Scalar(_) => DShape::Scalar {  },
        ValueContainer::Array1(a) => if is_column {
            DShape::Column { n_rows: a.value@.len() as usize }
        } else {
            DShape::Row { n_cols: a.value@.len() as usize }
        },
        ValueContainer::Array2(m) => DShape::Matrix { n_rows: m.n_rows, n_cols: m.n_cols },
    }
}

impl<T> ValueContainer<T> {
    /// The container of `f` applied to each value, in the same shape.
    pub fn mapv<U, F: Fn(&T) -> U>(&self, f: F) -> (r: ValueContainer<U>)
        requires
            forall|i: int| 0 <= i < self.elems().len() ==> f.requires((&self.elems()[i],)),
        ensures
            r.elems().len() == self.elems().len(),
            forall|i: int| 0 <= i < self.elems().len() ==> f.ensures((&self.elems()[i],), #[trigger] r.elems()[i]),
            r is Scalar <==> self is Scalar,
            r is Array1 <==> self is Array1,
            r is Array2 <==> self is Array2,
            self.wf() ==> r.wf(),
    {
        match self {
            ValueContainer::Scalar(v) => {
                assert(self.elems()[0] == *v);
                assert(f.requires((&self.elems()[0],)));
                let u = f(v);
                let r = ValueContainer::Scalar(u);
                assert(r.elems()[0] == u);
                r
            },
            ValueContainer::Array1(a) => {
                assert(self.elems() == a.value@);
                assert(forall|i: int| 0 <= i < a.value@.len() ==> f.requires((&a.value@[i],)));
                ValueContainer::Array1(a.mapv(f))
            },
            ValueContainer::Array2(m) => {
                assert(self.elems() == m.value@);
                assert(forall|i: int| 0 <= i < m.value@.len() ==> f.requires((&m.value@[i],)));
                ValueContainer::Array2(m.mapv(f))
            },
        }
    }

    /// The values in order: row-major for a matrix.
    pub open spec fn elems(&self) -> Seq<T> {
        match self {
            ValueContainer::Scalar(v) => seq![*v],
            ValueContainer::Array1(a) => a.value@,
            ValueContainer::Array2(m) => m.value@,
        }
    }

    pub open spec fn wf(&self) -> bool {
        match self {
            ValueContainer::Array2(m) => m.wf(),
            _ => true,
        }
    }

    pub fn get_shape(&self, is_column: bool) -> (r: DShape)
        ensures
            r == shape_of(*self, is_column),
    {
        match self {
            ValueContainer::Scalar(_) => DShape::Scalar {  },
            ValueContainer::Array1(a) => if is_column {
                DShape::Column { n_rows: a.len() }
            } else {
                DShape::Row { n_cols: a.len() }
            },
            ValueContainer::Array2(m) => DShape::Matrix { n_rows: m.nrows(), n_cols: m.ncols() },
        }
    }
}

/// A container tagged with its kind.
#[derive(Debug)]
pub enum WrappedValue {
    Bool(ValueContainer<bool>),
    Int(ValueContainer<i64>),
    Float(ValueContainer<Float64>),
    Str(ValueContainer<String>),
    Date(ValueContainer<Date>),
    DateTime(ValueContainer<DateTime>),
    Any(ValueContainer<CalamineData>),
}

pub open spec fn dtype_of(v: WrappedValue) -> DType {
    match v {
        WrappedValue::Int(_) => DType::Int,
        WrappedValue::Float(_) => DType::Float,
        WrappedValue::Str(_) => DType::Str,
        WrappedValue::Bool(_) => DType::Bool,
        WrappedValue::Date(_) => DType::Date,
        WrappedValue::DateTime(_) => DType::DateTime,
        WrappedValue::Any(_) => DType::Any,
    }
}

pub open spec fn wrapped_shape(v: WrappedValue, is_column: bool) -> DShape {
    match v {
        WrappedValue::Int(c) => shape_of(c, is_column),
        WrappedValue::Float(c) => shape_of(c, is_column),
        WrappedValue::Str(c) => shape_of(c, is_column),
        WrappedValue::Bool(c) => shape_of(c, is_column),
        WrappedValue::Date(c) => shape_of(c, is_column),
        WrappedValue::DateTime(c) => shape_of(c, is_column),
        WrappedValue::Any(c) => shape_of(c, is_column),
    }
}

impl WrappedValue {
    pub open spec fn wf(&self) -> bool {
        match self {
            WrappedValue::Int(c) => c.wf(),
            WrappedValue::Float(c) => c.wf(),
            WrappedValue::Str(c) => c.wf(),
            WrappedValue::Bool(c) => c.wf(),
            WrappedValue::Date(c) => c.wf(),
            WrappedValue::DateTime(c) => c.wf(),
            WrappedValue::Any(c) => c.wf(),
        }
    }

    pub fn get_dtype(&self) -> (r: DType)
        ensures
            r == dtype_of(*self),
    {
        match self {
            WrappedValue::Int(_) => DType::Int,
            WrappedValue::Float(_) => DType::Float,
            WrappedValue::Str(_) => DType::Str,
            WrappedValue::Bool(_) => DType::Bool,
            WrappedValue::Date(_) => DType::Date,
            WrappedValue::DateTime(_) => DType::DateTime,
            WrappedValue::Any(_) => DType::Any,
        }
    }

    pub fn get_shape(&self, is_column: bool) -> (r: DShape)
        ensures
            r == wrapped_shape(*self, is_column),
    {
        match self {
            WrappedValue::Int(c) => c.get_shape(is_column),
            WrappedValue::Float(c) => c.get_shape(is_column),
            WrappedValue::Str(c) => c.get_shape(is_column),
            WrappedValue::Bool(c) => c.get_shape(is_column),
            WrappedValue::Date(c) => c.get_shape(is_column),
            WrappedValue::DateTime(c) => c.get_shape(is_column),
            WrappedValue::Any(c) => c.get_shape(is_column),
        }
    }
}

} // verus!
