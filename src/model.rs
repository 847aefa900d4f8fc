//! Mathematical model of matrices: a matrix is viewed as a sequence of rows,
//! and every operation of the library is described here as a function on
//! such sequences.
use crate::element::Real;
use vstd::prelude::*;

verus! {

/// The entry-wise binary operations.
#[derive(Debug, Clone, Copy, PartialEq, Eq, Structural)]
pub enum ElementOp {
    Add,
    Sub,
    Mul,
    Div,
}

impl ElementOp {
    /// The value of the operation on two entries.
    pub open spec fn apply<T: Real>(self, x: T, y: T) -> T {
        match self {
            ElementOp::Add => T::add_spec(x, y),
            ElementOp::Sub => T::sub_spec(x, y),
            ElementOp::Mul => T::mul_spec(x, y),
            ElementOp::Div => T::div_spec(x, y),
        }
    }

    /// Computes the operation on two entries.
    pub fn eval<T: Real>(&self, x: &T, y: &T) -> (r: T)
        ensures
            r == self.apply(*x, *y),
    {
        match self {
            ElementOp::Add => x.plus(y),
            ElementOp::Sub => x.minus(y),
            ElementOp::Mul => x.times(y),
            ElementOp::Div => x.divided_by(y),
        }
    }
}

/// The number of columns, read from the first row.
pub open spec fn width<T>(a: Seq<Seq<T>>) -> int {
    a[0].len() as int
}

/// A non-degenerate rectangular grid: at least one row and one column, and
/// every row as long as the first.
pub open spec fn is_matrix<T>(a: Seq<Seq<T>>) -> bool {
    &&& a.len() > 0
    &&& width(a) > 0
    &&& forall|i: int| 0 <= i < a.len() ==> #[trigger] a[i].len() == width(a)
}

/// Equal row and column counts.
pub open spec fn same_shape<T>(a: Seq<Seq<T>>, b: Seq<Seq<T>>) -> bool {
    a.len() == b.len() && width(a) == width(b)
}

/// A `rows` by `cols` grid holding `v` everywhere.
pub open spec fn filled<T>(rows: nat, cols: nat, v: T) -> Seq<Seq<T>> {
    Seq::new(rows, |i: int| Seq::new(cols, |j: int| v))
}

/// A `rows` by `cols` grid filled row by row from `v`: entry `(i, j)` is
/// `v[i * cols + j]`.
pub open spec fn placed<T>(rows: nat, cols: nat, v: Seq<T>) -> Seq<Seq<T>> {
    Seq::new(rows, |i: int| Seq::new(cols, |j: int| v[i * cols + j]))
}

/// Every entry lies in `[-1, 1)`.
pub open spec fn all_in_unit_range<T: Real>(a: Seq<Seq<T>>) -> bool {
    forall|i: int, j: int| 0 <= i < a.len() && 0 <= j < a[i].len() ==> T::in_unit_range(#[trigger] a[i][j])
}

/// The column matrix whose `i`-th row is `[v[i]]`.
pub open spec fn column<T>(v: Seq<T>) -> Seq<Seq<T>> {
    Seq::new(v.len(), |i: int| seq![v[i]])
}

/// Rows and columns exchanged: entry `(j, i)` of the result is entry `(i, j)` of `a`.
pub open spec fn transposed<T>(a: Seq<Seq<T>>) -> Seq<Seq<T>> {
    Seq::new(width(a) as nat, |j: int| Seq::new(a.len(), |i: int| a[i][j]))
}

/// `op` applied position by position to `a` and `b`.
pub open spec fn combined<T: Real>(a: Seq<Seq<T>>, b: Seq<Seq<T>>, op: ElementOp) -> Seq<Seq<T>> {
    Seq::new(a.len(), |i: int| Seq::new(a[i].len(), |j: int| op.apply(a[i][j], b[i][j])))
}

/// `op` applied to every entry of `a`, with `n` on the right.
pub open spec fn with_scalar<T: Real>(a: Seq<Seq<T>>, n: T, op: ElementOp) -> Seq<Seq<T>> {
    Seq::new(a.len(), |i: int| Seq::new(a[i].len(), |j: int| op.apply(a[i][j], n)))
}

/// The logistic function applied to every entry.
pub open spec fn activated<T: Real>(a: Seq<Seq<T>>) -> Seq<Seq<T>> {
    Seq::new(a.len(), |i: int| Seq::new(a[i].len(), |j: int| T::logistic_spec(a[i][j])))
}

/// The slope of the logistic function, written in terms of its output `y`:
/// `y * (1 - y)`.
pub open spec fn sigmoid_slope<T: Real>(y: T) -> T {
    T::mul_spec(y, T::sub_spec(T::one_spec(), y))
}

/// `sigmoid_slope` applied to every entry.
pub open spec fn slopes<T: Real>(a: Seq<Seq<T>>) -> Seq<Seq<T>> {
    Seq::new(a.len(), |i: int| Seq::new(a[i].len(), |j: int| sigmoid_slope(a[i][j])))
}

/// The running sum `((0 + a[i][0] * b[0][j]) + a[i][1] * b[1][j]) + ...` over
/// the first `k` terms, accumulated from the left.
pub open spec fn dot_prefix<T: Real>(a: Seq<Seq<T>>, b: Seq<Seq<T>>, i: int, j: int, k: int) -> T
    decreases k,
{
    if k <= 0 {
        T::zero_spec()
    } else {
        T::add_spec(dot_prefix(a, b, i, j, k - 1), T::mul_spec(a[i][k - 1], b[k - 1][j]))
    }
}

/// The matrix product: entry `(i, j)` is the full running sum of row `i` of
/// `a` against column `j` of `b`.
pub open spec fn product<T: Real>(a: Seq<Seq<T>>, b: Seq<Seq<T>>) -> Seq<Seq<T>> {
    Seq::new(a.len(), |i: int| Seq::new(width(b) as nat, |j: int| dot_prefix(a, b, i, j, width(a))))
}

/// Position `(i, j)` of a `rows` by `cols` grid, read row by row, lies inside
/// the grid's `rows * cols` values.
pub proof fn lemma_row_major_index(rows: int, cols: int, i: int, j: int)
    requires
        0 <= i < rows,
        0 <= j < cols,
    ensures
        0 <= i * cols + j < rows * cols,
{
    assert(0 <= i * cols + j < rows * cols) by (nonlinear_arith)
        requires
            0 <= i < rows,
            0 <= j < cols,
    ;
}

/// A grid placed from values that all lie in `[-1, 1)` has all its entries
/// in `[-1, 1)`.
pub proof fn lemma_placed_in_unit_range<T: Real>(rows: nat, cols: nat, v: Seq<T>)
    requires
        v.len() >= rows * cols,
        forall|k: int| 0 <= k < v.len() ==> T::in_unit_range(#[trigger] v[k]),
    ensures
        all_in_unit_range(placed(rows, cols, v)),
{
    assert forall|i: int, j: int|
        0 <= i < placed(rows, cols, v).len() && 0 <= j < placed(rows, cols, v)[i].len() implies T::in_unit_range(
        #[trigger] placed(rows, cols, v)[i][j],
    ) by {
        lemma_row_major_index(rows as int, cols as int, i, j);
    }
}

} // verus!
