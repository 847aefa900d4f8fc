//! The dense matrix.
use crate::element::Real;
use crate::model::{
    all_in_unit_range, column, combined, dot_prefix, filled, is_matrix, lemma_placed_in_unit_range,
    lemma_row_major_index, placed, product, same_shape, transposed, width, with_scalar, ElementOp,
};
use rand::rngs::StdRng;
use vstd::prelude::*;

verus! {

/// Why a matrix operation did not run.
#[derive(Debug, Clone, Copy, PartialEq, Eq, Structural)]
pub enum MatrixError {
    /// The operands' shapes do not fit the operation.
    ShapeMismatch,
    /// A constructor was asked for an empty or ragged matrix.
    InvalidConstruction,
}

/// A dense matrix, stored row by row.
pub struct Matrix<T> {
    data: Vec<Vec<T>>,
}

/// The rows of a nested vector, as sequences.
pub open spec fn grid<T>(d: Seq<Vec<T>>) -> Seq<Seq<T>> {
    d.map_values(|r: Vec<T>| r@)
}

proof fn lemma_grid<T>(d: Seq<Vec<T>>)
    ensures
        grid(d).len() == d.len(),
        forall|i: int| 0 <= i < d.len() ==> #[trigger] grid(d)[i] == d[i]@,
{
}

impl<T> View for Matrix<T> {
    type V = Seq<Seq<T>>;

    closed spec fn view(&self) -> Seq<Seq<T>> {
        grid(self.data@)
    }
}

/// Builds a `rows` by `cols` grid whose entry `(i, j)` is what `f(i, j)` returns.
fn build<T, F: Fn(usize, usize) -> T>(rows: usize, cols: usize, f: F) -> (r: Vec<Vec<T>>)
    requires
        forall|i: usize, j: usize| i < rows && j < cols ==> #[trigger] f.requires((i, j)),
    ensures
        r@.len() == rows,
        forall|i: int| 0 <= i < rows ==> (#[trigger] r@[i]).len() == cols,
        forall|i: int, j: int|
            0 <= i < rows && 0 <= j < cols ==> f.ensures((i as usize, j as usize), #[trigger] r@[i]@[j]),
{
    let mut data: Vec<Vec<T>> = Vec::new();
    let mut x: usize = 0;
    while x < rows
        invariant
            x <= rows,
            data@.len() == x,
            forall|i: usize, j: usize| i < rows && j < cols ==> #[trigger] f.requires((i, j)),
            forall|i: int| 0 <= i < x ==> (#[trigger] data@[i]).len() == cols,
            forall|i: int, j: int|
                0 <= i < x && 0 <= j < cols ==> f.ensures((i as usize, j as usize), #[trigger] data@[i]@[j]),
        decreases rows - x,
    {
        let mut row: Vec<T> = Vec::new();
        let mut y: usize = 0;
        while y < cols
            invariant
                x < rows,
                y <= cols,
                row@.len() == y,
                forall|i: usize, j: usize| i < rows && j < cols ==> #[trigger] f.requires((i, j)),
                forall|j: int| 0 <= j < y ==> f.ensures((x, j as usize), #[trigger] row@[j]),
            decreases cols - y,
        {
            let v = f(x, y);
            row.push(v);
            y += 1;
        }
        data.push(row);
        x += 1;
    }
    data
}

/// Appends `rows * cols` draws from [`Real::sample_symmetric`] to `out`,
/// row by row.
pub(crate) fn draw_grid<T: Real>(rows: usize, cols: usize, rng: &mut StdRng, out: &mut Vec<T>)
    ensures
        final(out)@.len() == old(out)@.len() + rows * cols,
        forall|k: int| 0 <= k < old(out)@.len() ==> #[trigger] final(out)@[k] == old(out)@[k],
        forall|k: int|
            old(out)@.len() <= k < final(out)@.len() ==> T::in_unit_range(#[trigger] final(out)@[k]),
{
    let ghost start = out@.len();
    let ghost first = out@;
    let mut x: usize = 0;
    while x < rows
        invariant
            x <= rows,
            out@.len() == start + x * cols,
            forall|k: int| 0 <= k < start ==> #[trigger] out@[k] == first[k],
            forall|k: int| start <= k < out@.len() ==> T::in_unit_range(#[trigger] out@[k]),
        decreases rows - x,
    {
        let mut y: usize = 0;
        while y < cols
            invariant
                x < rows,
                y <= cols,
                out@.len() == start + x * cols + y,
                forall|k: int| 0 <= k < start ==> #[trigger] out@[k] == first[k],
                forall|k: int| start <= k < out@.len() ==> T::in_unit_range(#[trigger] out@[k]),
            decreases cols - y,
        {
            out.push(T::sample_symmetric(rng));
            y += 1;
        }
        assert((x + 1) * cols == x * cols + cols) by (nonlinear_arith);
        x += 1;
    }
}

impl<T: Real> Matrix<T> {
    /// The invariant every matrix value keeps.
    pub open spec fn wf(&self) -> bool {
        is_matrix(self@)
    }

    /// The number of rows.
    pub fn rows(&self) -> (r: usize)
        requires
            self.wf(),
        ensures
            r == self@.len(),
    {
        proof {
            lemma_grid(self.data@);
        }
        self.data.len()
    }

    /// The number of columns.
    pub fn cols(&self) -> (r: usize)
        requires
            self.wf(),
        ensures
            r == width(self@),
    {
        proof {
            lemma_grid(self.data@);
        }
        self.data[0].len()
    }

    /// The entry in row `i`, column `j`.
    pub fn get(&self, i: usize, j: usize) -> (r: T)
        requires
            self.wf(),
            i < self@.len(),
            j < width(self@),
        ensures
            r == self@[i as int][j as int],
    {
        proof {
            lemma_grid(self.data@);
            assert(self@[i as int].len() == width(self@));
        }
        self.data[i][j]
    }

    /// A `r` by `c` matrix of zeros.
    pub fn new(r: i32, c: i32) -> (res: Result<Matrix<T>, MatrixError>)
        ensures
            match res {
                Ok(m) => r > 0 && c > 0 && m.wf() && m@ == filled(r as nat, c as nat, T::zero_spec()),
                Err(e) => !(r > 0 && c > 0) && e == MatrixError::InvalidConstruction,
            },
    {
        if r <= 0 || c <= 0 {
            return Err(MatrixError::InvalidConstruction);
        }
        let rows = r as usize;
        let cols = c as usize;
        let data = build(rows, cols, |i: usize, j: usize| -> (v: T)
            ensures
                v == T::zero_spec(),
            { T::zero() });
        let m = Matrix { data };
        assert(m@ =~~= filled(r as nat, c as nat, T::zero_spec()));
        Ok(m)
    }

    /// A `r` by `c` matrix whose entries are drawn one by one, row by row,
    /// with [`Real::sample_symmetric`], and placed with
    /// [`Matrix::from_row_major`].
    pub fn r_new(r: i32, c: i32, rng: &mut StdRng) -> (res: Result<Matrix<T>, MatrixError>)
        ensures
            match res {
                Ok(m) => r > 0 && c > 0 && m.wf() && m@.len() == r && width(m@) == c && all_in_unit_range(m@),
                Err(e) => !(r > 0 && c > 0) && e == MatrixError::InvalidConstruction,
            },
    {
        if r <= 0 || c <= 0 {
            return Err(MatrixError::InvalidConstruction);
        }
        let rows = r as usize;
        let cols = c as usize;
        let mut values: Vec<T> = Vec::new();
        draw_grid(rows, cols, rng, &mut values);
        let m = Self::place(rows, cols, &values, 0);
        proof {
            assert(values@.subrange(0, rows * cols) =~= values@);
            lemma_placed_in_unit_range(rows as nat, cols as nat, values@);
        }
        Ok(m)
    }

    /// Replaces every entry with a fresh draw from [`Real::sample_symmetric`],
    /// drawn row by row. The shape is kept.
    pub fn randomize(&mut self, rng: &mut StdRng)
        requires
            old(self).wf(),
        ensures
            final(self).wf(),
            final(self)@.len() == old(self)@.len(),
            width(final(self)@) == width(old(self)@),
            all_in_unit_range(final(self)@),
    {
        let rows = self.rows();
        let cols = self.cols();
        let mut values: Vec<T> = Vec::new();
        draw_grid(rows, cols, rng, &mut values);
        *self = Self::place(rows, cols, &values, 0);
        proof {
            assert(values@.subrange(0, rows * cols) =~= values@);
            lemma_placed_in_unit_range(rows as nat, cols as nat, values@);
        }
    }

    /// The `rows` by `cols` grid filled row by row from the values of
    /// `values` starting at `start`.
    pub(crate) fn place(rows: usize, cols: usize, values: &Vec<T>, start: usize) -> (m: Matrix<T>)
        requires
            rows > 0,
            cols > 0,
            start + rows * cols <= values@.len(),
        ensures
            m.wf(),
            m@ == placed(rows as nat, cols as nat, values@.subrange(start as int, start + rows * cols)),
    {
        let n = values.len();
        let data = build(rows, cols, |i: usize, j: usize| -> (v: T)
            requires
                i < rows,
                j < cols,
                n == values@.len(),
                start + rows * cols <= n,
            ensures
                v == values@[start + i * cols + j],
            {
                proof {
                    lemma_row_major_index(rows as int, cols as int, i as int, j as int);
                }
                values[start + i * cols + j]
            });
        let m = Matrix { data };
        proof {
            lemma_grid(data@);
            let v = values@.subrange(start as int, start + rows * cols);
            assert forall|i: int, j: int| 0 <= i < rows && 0 <= j < cols implies #[trigger] m@[i][j]
                == placed(rows as nat, cols as nat, v)[i][j] by {
                lemma_row_major_index(rows as int, cols as int, i, j);
            }
            assert(m@ =~~= placed(rows as nat, cols as nat, v));
        }
        m
    }

    /// The `rows` by `cols` matrix filled row by row from `values`: entry
    /// `(i, j)` is `values[i * cols + j]`. There must be exactly
    /// `rows * cols` values, with neither count zero.
    pub fn from_row_major(rows: usize, cols: usize, values: &Vec<T>) -> (res: Result<Matrix<T>, MatrixError>)
        ensures
            match res {
                Ok(m) => rows > 0 && cols > 0 && values@.len() == rows * cols && m.wf() && m@ == placed(
                    rows as nat,
                    cols as nat,
                    values@,
                ),
                Err(e) => !(rows > 0 && cols > 0 && values@.len() == rows * cols) && e
                    == MatrixError::InvalidConstruction,
            },
    {
        let n = values.len();
        if rows == 0 || cols == 0 {
            return Err(MatrixError::InvalidConstruction);
        }
        match rows.checked_mul(cols) {
            Some(total) => {
                if total != n {
                    return Err(MatrixError::InvalidConstruction);
                }
            },
            None => {
                return Err(MatrixError::InvalidConstruction);
            },
        }
        let m = Self::place(rows, cols, values, 0);
        assert(values@.subrange(0, rows * cols) =~= values@);
        Ok(m)
    }

    /// The column matrix holding `d`, one value per row.
    pub fn from_vector_new(d: &[T]) -> (res: Result<Matrix<T>, MatrixError>)
        ensures
            match res {
                Ok(m) => d@.len() > 0 && m.wf() && m@ == column(d@),
                Err(e) => d@.len() == 0 && e == MatrixError::InvalidConstruction,
            },
    {
        if d.len() == 0 {
            return Err(MatrixError::InvalidConstruction);
        }
        let data = build(d.len(), 1, |i: usize, j: usize| -> (v: T)
            requires
                i < d@.len(),
            ensures
                v == d@[i as int],
            { d[i] });
        let m = Matrix { data };
        proof {
            lemma_grid(data@);
            assert(m@ =~~= column(d@));
        }
        Ok(m)
    }

    /// The matrix whose rows are `rows`, provided they form a non-empty
    /// rectangle.
    pub fn from_rows(rows: Vec<Vec<T>>) -> (res: Result<Matrix<T>, MatrixError>)
        ensures
            match res {
                Ok(m) => is_matrix(grid(rows@)) && m.wf() && m@ == grid(rows@),
                Err(e) => !is_matrix(grid(rows@)) && e == MatrixError::InvalidConstruction,
            },
    {
        proof {
            lemma_grid(rows@);
        }
        if rows.len() == 0 || rows[0].len() == 0 {
            return Err(MatrixError::InvalidConstruction);
        }
        let cols = rows[0].len();
        let mut x: usize = 0;
        while x < rows.len()
            invariant
                0 < rows@.len(),
                cols == rows@[0].len(),
                grid(rows@).len() == rows@.len(),
                forall|i: int| 0 <= i < rows@.len() ==> #[trigger] grid(rows@)[i] == rows@[i]@,
                x <= rows@.len(),
                forall|i: int| 0 <= i < x ==> (#[trigger] rows@[i]).len() == cols,
            decreases rows@.len() - x,
        {
            if rows[x].len() != cols {
                assert(grid(rows@)[x as int].len() != width(grid(rows@)));
                return Err(MatrixError::InvalidConstruction);
            }
            x += 1;
        }
        assert(is_matrix(grid(rows@))) by {
            assert forall|i: int| 0 <= i < grid(rows@).len() implies #[trigger] grid(rows@)[i].len()
                == width(grid(rows@)) by {
                assert(rows@[i].len() == cols);
            }
        }
        Ok(Matrix { data: rows })
    }

    /// A new matrix: `op` applied position by position to `self` and `m`.
    fn combine(&self, m: &Matrix<T>, op: ElementOp) -> (r: Matrix<T>)
        requires
            self.wf(),
            m.wf(),
            same_shape(self@, m@),
        ensures
            r.wf(),
            r@ == combined(self@, m@, op),
    {
        let rows = self.rows();
        let cols = self.cols();
        let data = build(rows, cols, |i: usize, j: usize| -> (v: T)
            requires
                self.wf(),
                m.wf(),
                same_shape(self@, m@),
                i < self@.len(),
                j < width(self@),
            ensures
                v == op.apply(self@[i as int][j as int], m@[i as int][j as int]),
            { op.eval(&self.get(i, j), &m.get(i, j)) });
        let r = Matrix { data };
        proof {
            lemma_grid(data@);
            assert(r@ =~~= combined(self@, m@, op));
        }
        r
    }

    /// A new matrix: `op` applied to every entry of `self`, with `n` on the right.
    fn combine_scalar(&self, n: T, op: ElementOp) -> (r: Matrix<T>)
        requires
            self.wf(),
        ensures
            r.wf(),
            r@ == with_scalar(self@, n, op),
    {
        let rows = self.rows();
        let cols = self.cols();
        let data = build(rows, cols, |i: usize, j: usize| -> (v: T)
            requires
                self.wf(),
                i < self@.len(),
                j < width(self@),
            ensures
                v == op.apply(self@[i as int][j as int], n),
            { op.eval(&self.get(i, j), &n) });
        let r = Matrix { data };
        proof {
            lemma_grid(data@);
            assert(r@ =~~= with_scalar(self@, n, op));
        }
        r
    }

    /// Adds `n` to every entry.
    pub fn s_add(&mut self, n: T)
        requires
            old(self).wf(),
        ensures
            final(self).wf(),
            final(self)@ == with_scalar(old(self)@, n, ElementOp::Add),
    {
        *self = self.combine_scalar(n, ElementOp::Add);
    }

    /// Multiplies every entry by `n`.
    pub fn s_mult(&mut self, n: T)
        requires
            old(self).wf(),
        ensures
            final(self).wf(),
            final(self)@ == with_scalar(old(self)@, n, ElementOp::Mul),
    {
        *self = self.combine_scalar(n, ElementOp::Mul);
    }

    /// Applies `op` position by position with `m` on the right, when the two
    /// shapes are equal; otherwise leaves `self` as it was.
    pub fn elementwise(&mut self, m: &Matrix<T>, op: ElementOp) -> (res: Result<(), MatrixError>)
        requires
            old(self).wf(),
            m.wf(),
        ensures
            final(self).wf(),
            match res {
                Ok(_) => same_shape(old(self)@, m@) && final(self)@ == combined(old(self)@, m@, op),
                Err(e) => !same_shape(old(self)@, m@) && e == MatrixError::ShapeMismatch
                    && final(self)@ == old(self)@,
            },
    {
        if self.rows() != m.rows() || self.cols() != m.cols() {
            return Err(MatrixError::ShapeMismatch);
        }
        *self = self.combine(m, op);
        Ok(())
    }

    /// Adds `m` entry by entry.
    pub fn e_add(&mut self, m: &Matrix<T>) -> (res: Result<(), MatrixError>)
        requires
            old(self).wf(),
            m.wf(),
        ensures
            final(self).wf(),
            match res {
                Ok(_) => same_shape(old(self)@, m@) && final(self)@ == combined(old(self)@, m@, ElementOp::Add),
                Err(e) => !same_shape(old(self)@, m@) && e == MatrixError::ShapeMismatch
                    && final(self)@ == old(self)@,
            },
    {
        self.elementwise(m, ElementOp::Add)
    }

    /// Subtracts `m` entry by entry.
    pub fn e_sub(&mut self, m: &Matrix<T>) -> (res: Result<(), MatrixError>)
        requires
            old(self).wf(),
            m.wf(),
        ensures
            final(self).wf(),
            match res {
                Ok(_) => same_shape(old(self)@, m@) && final(self)@ == combined(old(self)@, m@, ElementOp::Sub),
                Err(e) => !same_shape(old(self)@, m@) && e == MatrixError::ShapeMismatch
                    && final(self)@ == old(self)@,
            },
    {
        self.elementwise(m, ElementOp::Sub)
    }

    /// Multiplies by `m` entry by entry.
    pub fn e_mult(&mut self, m: &Matrix<T>) -> (res: Result<(), MatrixError>)
        requires
            old(self).wf(),
            m.wf(),
        ensures
            final(self).wf(),
            match res {
                Ok(_) => same_shape(old(self)@, m@) && final(self)@ == combined(old(self)@, m@, ElementOp::Mul),
                Err(e) => !same_shape(old(self)@, m@) && e == MatrixError::ShapeMismatch
                    && final(self)@ == old(self)@,
            },
    {
        self.elementwise(m, ElementOp::Mul)
    }

    /// Divides by `m` entry by entry; a zero divisor is not treated apart.
    pub fn e_div(&mut self, m: &Matrix<T>) -> (res: Result<(), MatrixError>)
        requires
            old(self).wf(),
            m.wf(),
        ensures
            final(self).wf(),
            match res {
                Ok(_) => same_shape(old(self)@, m@) && final(self)@ == combined(old(self)@, m@, ElementOp::Div),
                Err(e) => !same_shape(old(self)@, m@) && e == MatrixError::ShapeMismatch
                    && final(self)@ == old(self)@,
            },
    {
        self.elementwise(m, ElementOp::Div)
    }

    /// Row `i` of `self` against column `j` of `m`, summed from the first
    /// term to the last.
    fn dot_entry(&self, m: &Matrix<T>, i: usize, j: usize) -> (r: T)
        requires
            self.wf(),
            m.wf(),
            width(self@) == m@.len(),
            i < self@.len(),
            j < width(m@),
        ensures
            r == dot_prefix(self@, m@, i as int, j as int, width(self@)),
    {
        let n = self.cols();
        let mut sum = T::zero();
        let mut k: usize = 0;
        while k < n
            invariant
                self.wf(),
                m.wf(),
                n == width(self@),
                n == m@.len(),
                i < self@.len(),
                j < width(m@),
                k <= n,
                sum == dot_prefix(self@, m@, i as int, j as int, k as int),
            decreases n - k,
        {
            let term = self.get(i, k).times(&m.get(k, j));
            sum = sum.plus(&term);
            k += 1;
        }
        sum
    }

    /// The matrix product `self · m`, when the column count of `self` equals
    /// the row count of `m`.
    pub fn dot_product(&self, m: &Matrix<T>) -> (res: Result<Matrix<T>, MatrixError>)
        requires
            self.wf(),
            m.wf(),
        ensures
            match res {
                Ok(p) => width(self@) == m@.len() && p.wf() && p@ == product(self@, m@),
                Err(e) => width(self@) != m@.len() && e == MatrixError::ShapeMismatch,
            },
    {
        if self.cols() != m.rows() {
            return Err(MatrixError::ShapeMismatch);
        }
        let rows = self.rows();
        let cols = m.cols();
        let data = build(rows, cols, |i: usize, j: usize| -> (v: T)
            requires
                self.wf(),
                m.wf(),
                width(self@) == m@.len(),
                i < self@.len(),
                j < width(m@),
            ensures
                v == dot_prefix(self@, m@, i as int, j as int, width(self@)),
            { self.dot_entry(m, i, j) });
        let r = Matrix { data };
        proof {
            lemma_grid(data@);
            assert(r@ =~~= product(self@, m@));
        }
        Ok(r)
    }

    /// A new matrix with rows and columns exchanged; `self` is not changed.
    pub fn transpose(&self) -> (r: Matrix<T>)
        requires
            self.wf(),
        ensures
            r.wf(),
            r@ == transposed(self@),
    {
        let rows = self.rows();
        let cols = self.cols();
        let data = build(cols, rows, |i: usize, j: usize| -> (v: T)
            requires
                self.wf(),
                i < width(self@),
                j < self@.len(),
            ensures
                v == self@[j as int][i as int],
            { self.get(j, i) });
        let r = Matrix { data };
        proof {
            lemma_grid(data@);
            assert(r@ =~~= transposed(self@));
        }
        r
    }

    /// Replaces every entry `x` with `func(x)`.
    pub fn map_to_function<F: Fn(T) -> T>(&mut self, func: F)
        requires
            old(self).wf(),
            forall|x: T| #[trigger] func.requires((x,)),
        ensures
            final(self).wf(),
            same_shape(final(self)@, old(self)@),
            forall|i: int, j: int|
                0 <= i < old(self)@.len() && 0 <= j < width(old(self)@) ==> func.ensures(
                    (old(self)@[i][j],),
                    #[trigger] final(self)@[i][j],
                ),
    {
        *self = Self::static_map_to_function(self, func);
    }

    /// A new matrix whose entry `(i, j)` is `func` of entry `(i, j)` of `m`.
    pub fn static_map_to_function<F: Fn(T) -> T>(m: &Matrix<T>, func: F) -> (r: Matrix<T>)
        requires
            m.wf(),
            forall|x: T| #[trigger] func.requires((x,)),
        ensures
            r.wf(),
            same_shape(r@, m@),
            forall|i: int, j: int|
                0 <= i < m@.len() && 0 <= j < width(m@) ==> func.ensures((m@[i][j],), #[trigger] r@[i][j]),
    {
        let rows = m.rows();
        let cols = m.cols();
        let data = build(rows, cols, |i: usize, j: usize| -> (v: T)
            requires
                m.wf(),
                forall|x: T| #[trigger] func.requires((x,)),
                i < m@.len(),
                j < width(m@),
            ensures
                func.ensures((m@[i as int][j as int],), v),
            { func(m.get(i, j)) });
        let r = Matrix { data };
        proof {
            lemma_grid(data@);
            assert forall|i: int, j: int|
                0 <= i < m@.len() && 0 <= j < width(m@) implies func.ensures(
                (m@[i][j],),
                #[trigger] r@[i][j],
            ) by {
                assert(r@[i] == data@[i]@);
            }
        }
        r
    }

    /// The entries read out row by row.
    pub fn to_vector(&self) -> (r: Vec<T>)
        requires
            self.wf(),
        ensures
            r@ == self@.flatten(),
    {
        let rows = self.rows();
        let cols = self.cols();
        let mut out: Vec<T> = Vec::new();
        let mut x: usize = 0;
        while x < rows
            invariant
                self.wf(),
                rows == self@.len(),
                cols == width(self@),
                x <= rows,
                out@ == self@.take(x as int).flatten(),
            decreases rows - x,
        {
            let mut y: usize = 0;
            while y < cols
                invariant
                    self.wf(),
                    rows == self@.len(),
                    cols == width(self@),
                    x < rows,
                    y <= cols,
                    out@ == self@.take(x as int).flatten() + self@[x as int].take(y as int),
                decreases cols - y,
            {
                out.push(self.get(x, y));
                assert(self@[x as int].take(y + 1) =~= self@[x as int].take(y as int).push(
                    self@[x as int][y as int],
                ));
                y += 1;
            }
            proof {
                assert(self@[x as int].take(cols as int) =~= self@[x as int]);
                assert(self@.take(x + 1) =~= self@.take(x as int).push(self@[x as int]));
                self@.take(x as int).lemma_flatten_push(self@[x as int]);
            }
            x += 1;
        }
        assert(self@.take(rows as int) =~= self@);
        out
    }
}

} // verus!
