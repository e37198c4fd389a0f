//! The shared container contract and its two implementers, `Matrix` and
//! `Vector`.
use vstd::prelude::*;
use crate::enums::{MatrixifyErr, Ops, Sign};
use crate::num::Num;
use crate::pair::Pair;
use crate::grid::{cofactor, deep, det, is_identity_grid, is_square, lemma_equal_rows_det_two, lemma_identity_det, lemma_zero_row_det, minor, without};

verus! {

/// `a (+|-) b` according to `sign`.
pub open spec fn combine<T: Num>(sign: Sign, a: T, b: T) -> T {
    match sign {
        Sign::Plus => T::add_s(a, b),
        Sign::Minus => T::sub_s(a, b),
    }
}

/// `a op b`.
pub open spec fn apply_op<T: Num>(op: Ops, a: T, b: T) -> T {
    match op {
        Ops::Add => T::add_s(a, b),
        Ops::Sub => T::sub_s(a, b),
        Ops::Mul => T::mul_s(a, b),
        Ops::Div => T::div_s(a, b),
    }
}

/// `x` holds `op` applied to each element of `y` and `num`, with the flag of
/// `y`; a cached determinant is kept as it was, stale or not.
pub open spec fn is_scalar_update<T: Num, A: Matrixified<T>>(y: &A, op: Ops, num: T, x: &A) -> bool {
    &&& x.wf()
    &&& x.dims() == y.dims()
    &&& x.flag() == y.flag()
    &&& x.cache() == y.cache()
    &&& forall|r: int, c: int|
        0 <= r < y.dims().y && 0 <= c < y.dims().x ==> #[trigger] x.at(r, c) == apply_op(op, y.at(r, c), num)
}

/// Applies `op` with `num` to every element of `x`, in place.
fn update_all<T: Num, A: Matrixified<T>>(x: &mut A, num: T, op: Ops)
    requires
        old(x).wf(),
        op == Ops::Div ==> num != T::zero_s(),
    ensures
        is_scalar_update(old(x), op, num, final(x)),
{
    let size = x.size();
    let ghost orig = *x;
    let mut row: usize = 0;
    while row < size.y
        invariant
            x.wf(),
            orig.wf(),
            size == orig.dims(),
            x.dims() == size,
            x.flag() == orig.flag(),
            x.cache() == orig.cache(),
            op == Ops::Div ==> num != T::zero_s(),
            row <= size.y,
            forall|i: int, j: int|
                0 <= i < size.y && 0 <= j < size.x ==> #[trigger] x.at(i, j) == if i < row {
                    apply_op(op, orig.at(i, j), num)
                } else {
                    orig.at(i, j)
                },
        decreases size.y - row,
    {
        let mut col: usize = 0;
        while col < size.x
            invariant
                x.wf(),
                orig.wf(),
                size == orig.dims(),
                x.dims() == size,
                x.flag() == orig.flag(),
                x.cache() == orig.cache(),
                op == Ops::Div ==> num != T::zero_s(),
                row < size.y,
                col <= size.x,
                forall|i: int, j: int|
                    0 <= i < size.y && 0 <= j < size.x ==> #[trigger] x.at(i, j) == if i < row || (i == row && j < col) {
                        apply_op(op, orig.at(i, j), num)
                    } else {
                        orig.at(i, j)
                    },
            decreases size.x - col,
        {
            let e = x.elem(row, col);
            let v = match op {
                Ops::Add => e.add(num),
                Ops::Sub => e.sub(num),
                Ops::Mul => e.mul(num),
                Ops::Div => e.div(num),
            };
            x.set_elem(row, col, v);
            col += 1;
        }
        row += 1;
    }
}

/// The dot product of row `r` of `a` and column `c` of `b`, over the first
/// `k` positions, summed from zero in order.
pub open spec fn dot<T: Num, A: Matrixified<T>, B: Matrixified<T>>(a: &A, b: &B, r: int, c: int, k: int) -> T
    decreases k,
{
    if k <= 0 {
        T::zero_s()
    } else {
        T::add_s(dot(a, b, r, c, k - 1), T::mul_s(a.at(r, k - 1), b.at(k - 1, c)))
    }
}

/// `p` is the element-wise sum or difference of `a` and `b`: a new,
/// untransposed matrix with no cached determinant.
pub open spec fn is_sum_of<T: Num, A: Matrixified<T>, B: Matrixified<T>>(a: &A, b: &B, sign: Sign, p: &Matrix<T>) -> bool {
    &&& p.wf()
    &&& !p.transposed()
    &&& p.cached() is None
    &&& p.dims() == a.dims()
    &&& forall|r: int, c: int|
        0 <= r < a.dims().y && 0 <= c < a.dims().x ==> #[trigger] p.at(r, c) == combine(sign, a.at(r, c), b.at(r, c))
}

/// `p` is the matrix product of `a` and `b`: a new, untransposed matrix with
/// no cached determinant.
pub open spec fn is_product_of<T: Num, A: Matrixified<T>, B: Matrixified<T>>(a: &A, b: &B, p: &Matrix<T>) -> bool {
    &&& p.wf()
    &&& !p.transposed()
    &&& p.cached() is None
    &&& p.dims() == (Pair { x: b.dims().x, y: a.dims().y })
    &&& forall|r: int, c: int|
        0 <= r < a.dims().y && 0 <= c < b.dims().x ==> #[trigger] p.at(r, c) == dot(a, b, r, c, a.dims().x as int)
}

/// The capabilities shared by matrices and vectors: construction, sizing,
/// logical element access and lazy transposition. The dimension-checked
/// arithmetic over any two of them is `m_add` and `m_mul`.
pub trait Matrixified<T: Num>: Sized {
    /// The internal invariant.
    spec fn wf(&self) -> bool;

    /// The logical size, after transposition.
    spec fn dims(&self) -> Pair;

    /// The logical element at `(r, c)`.
    spec fn at(&self, r: int, c: int) -> T;

    /// The transposed flag: whether the storage is read with rows and
    /// columns exchanged.
    spec fn flag(&self) -> bool;

    /// What is cached beside the elements: a matrix's determinant, once
    /// computed; nothing for a vector.
    spec fn cache(&self) -> Option<T>;

    /// `self` stores the same elements, in the same physical layout, as
    /// `other`.
    spec fn same_storage(&self, other: &Self) -> bool;

    /// A container of the given size filled with zeros.
    fn zeros(size: Pair) -> (r: Self)
        requires
            Self::shape_ok(size),
        ensures
            r.wf(),
            r.dims() == size,
            !r.flag(),
            r.cache() is None,
            forall|i: int, j: int| 0 <= i < size.y && 0 <= j < size.x ==> #[trigger] r.at(i, j) == T::zero_s(),
    ;

    /// A container of the given size filled with `with`.
    fn fill_with(size: Pair, with: T) -> (r: Self)
        requires
            Self::shape_ok(size),
        ensures
            r.wf(),
            r.dims() == size,
            !r.flag(),
            r.cache() is None,
            forall|i: int, j: int| 0 <= i < size.y && 0 <= j < size.x ==> #[trigger] r.at(i, j) == with,
    ;

    /// The sizes a container of this kind can be built with.
    spec fn shape_ok(size: Pair) -> bool;

    fn size(&self) -> (r: Pair)
        requires
            self.wf(),
        ensures
            r == self.dims(),
    ;

    /// Flips the logical view without touching the storage.
    fn transpose(&mut self)
        requires
            old(self).wf(),
        ensures
            final(self).wf(),
            final(self).dims() == old(self).dims().swapped(),
            final(self).flag() == !old(self).flag(),
            final(self).same_storage(old(self)),
            final(self).cache() == old(self).cache(),
            forall|r: int, c: int| #[trigger] final(self).at(r, c) == old(self).at(c, r),
    ;

    fn elem(&self, r: usize, c: usize) -> (e: T)
        requires
            self.wf(),
            r < self.dims().y,
            c < self.dims().x,
        ensures
            e == self.at(r as int, c as int),
    ;

    /// Writes `v` at the logical position `(r, c)`.
    fn set_elem(&mut self, r: usize, c: usize, v: T)
        requires
            old(self).wf(),
            r < old(self).dims().y,
            c < old(self).dims().x,
        ensures
            final(self).wf(),
            final(self).dims() == old(self).dims(),
            final(self).flag() == old(self).flag(),
            final(self).cache() == old(self).cache(),
            final(self).at(r as int, c as int) == v,
            forall|i: int, j: int|
                0 <= i < old(self).dims().y && 0 <= j < old(self).dims().x && (i != r || j != c)
                    ==> #[trigger] final(self).at(i, j) == old(self).at(i, j),
    ;
}


/// Whether the sizes allow element-wise addition.
pub fn allow_add<T: Num, A: Matrixified<T>, M: Matrixified<T>>(lhs: &A, rhs: &M) -> (r: Result<(), MatrixifyErr>)
    requires
        lhs.wf(),
        rhs.wf(),
    ensures
        r is Ok <==> lhs.dims() == rhs.dims(),
        r is Err ==> r == Err::<(), MatrixifyErr>(MatrixifyErr::InappropriateSizes),
{
    let a = lhs.size();
    let b = rhs.size();
    if a.x == b.x && a.y == b.y {
        Ok(())
    } else {
        Err(MatrixifyErr::InappropriateSizes)
    }
}

/// Whether the sizes allow the product `lhs * rhs`.
pub fn allow_mul<T: Num, A: Matrixified<T>, M: Matrixified<T>>(lhs: &A, rhs: &M) -> (r: Result<(), MatrixifyErr>)
    requires
        lhs.wf(),
        rhs.wf(),
    ensures
        r is Ok <==> lhs.dims().x == rhs.dims().y,
        r is Err ==> r == Err::<(), MatrixifyErr>(MatrixifyErr::InappropriateSizes),
{
    if lhs.size().x == rhs.size().y {
        Ok(())
    } else {
        Err(MatrixifyErr::InappropriateSizes)
    }
}

/// The element-wise sum (or difference) of two containers of one size.
pub fn m_add<T: Num, A: Matrixified<T>, M: Matrixified<T>>(lhs: &A, rhs: &M, sign: Sign) -> (r: Result<Matrix<T>, MatrixifyErr>)
    requires
        lhs.wf(),
        rhs.wf(),
    ensures
        match r {
            Ok(p) => lhs.dims() == rhs.dims() && is_sum_of(lhs, rhs, sign, &p),
            Err(e) => lhs.dims() != rhs.dims() && e == MatrixifyErr::InappropriateSizes,
        },
{
    if let Err(e) = allow_add(lhs, rhs) {
        return Err(e);
    }
    let size = lhs.size();
    let mut out = Matrix::<T>::zeros(size);
    let mut row: usize = 0;
    while row < size.y
        invariant
            lhs.wf(),
            rhs.wf(),
            size == lhs.dims(),
            size == rhs.dims(),
            out.wf(),
            !out.transposed(),
            out.cached() is None,
            out.dims() == size,
            row <= size.y,
            forall|i: int, j: int|
                0 <= i < row && 0 <= j < size.x ==> #[trigger] out.at(i, j) == combine(sign, lhs.at(i, j), rhs.at(i, j)),
        decreases size.y - row,
    {
        let mut col: usize = 0;
        while col < size.x
            invariant
                lhs.wf(),
                rhs.wf(),
                size == lhs.dims(),
                size == rhs.dims(),
                out.wf(),
                !out.transposed(),
                out.cached() is None,
                out.dims() == size,
                row < size.y,
                col <= size.x,
                forall|i: int, j: int|
                    0 <= i < size.y && 0 <= j < size.x && (i < row || (i == row && j < col))
                        ==> #[trigger] out.at(i, j) == combine(sign, lhs.at(i, j), rhs.at(i, j)),
            decreases size.x - col,
        {
            let a = lhs.elem(row, col);
            let b = rhs.elem(row, col);
            let v = match sign {
                Sign::Plus => a.add(b),
                Sign::Minus => a.sub(b),
            };
            out.set_elem(row, col, v);
            col += 1;
        }
        row += 1;
    }
    Ok(out)
}

/// The matrix product `lhs * rhs`.
pub fn m_mul<T: Num, A: Matrixified<T>, M: Matrixified<T>>(lhs: &A, rhs: &M) -> (r: Result<Matrix<T>, MatrixifyErr>)
    requires
        lhs.wf(),
        rhs.wf(),
    ensures
        match r {
            Ok(p) => lhs.dims().x == rhs.dims().y && is_product_of(lhs, rhs, &p),
            Err(e) => lhs.dims().x != rhs.dims().y && e == MatrixifyErr::InappropriateSizes,
        },
{
    if let Err(e) = allow_mul(lhs, rhs) {
        return Err(e);
    }
    let n = lhs.size().x;
    let size = Pair::new(rhs.size().x, lhs.size().y);
    let mut out = Matrix::<T>::zeros(size);
    let mut row: usize = 0;
    while row < size.y
        invariant
            lhs.wf(),
            rhs.wf(),
            n == lhs.dims().x,
            n == rhs.dims().y,
            size == (Pair { x: rhs.dims().x, y: lhs.dims().y }),
            out.wf(),
            !out.transposed(),
            out.cached() is None,
            out.dims() == size,
            row <= size.y,
            forall|i: int, j: int|
                0 <= i < row && 0 <= j < size.x ==> #[trigger] out.at(i, j) == dot(lhs, rhs, i, j, n as int),
        decreases size.y - row,
    {
        let mut col: usize = 0;
        while col < size.x
            invariant
                lhs.wf(),
                rhs.wf(),
                n == lhs.dims().x,
                n == rhs.dims().y,
                size == (Pair { x: rhs.dims().x, y: lhs.dims().y }),
                out.wf(),
                !out.transposed(),
                out.cached() is None,
                out.dims() == size,
                row < size.y,
                col <= size.x,
                forall|i: int, j: int|
                    0 <= i < size.y && 0 <= j < size.x && (i < row || (i == row && j < col))
                        ==> #[trigger] out.at(i, j) == dot(lhs, rhs, i, j, n as int),
            decreases size.x - col,
        {
            let mut acc = T::zero();
            let mut k: usize = 0;
            while k < n
                invariant
                    lhs.wf(),
                    rhs.wf(),
                    n == lhs.dims().x,
                    n == rhs.dims().y,
                    size == (Pair { x: rhs.dims().x, y: lhs.dims().y }),
                    row < size.y,
                    col < size.x,
                    k <= n,
                    acc == dot(lhs, rhs, row as int, col as int, k as int),
                decreases n - k,
            {
                acc = acc.add(lhs.elem(row, k).mul(rhs.elem(k, col)));
                k += 1;
            }
            out.set_elem(row, col, acc);
            col += 1;
        }
        row += 1;
    }
    Ok(out)
}

/// A dense matrix. Elements are stored once, in the orientation the matrix
/// was built with; `transpose` only flips a flag and swaps the reported size.
#[derive(Clone, Debug)]
pub struct Matrix<T> {
    inner: Vec<Vec<T>>,
    transposed: bool,
    /// The cached determinant of the storage, once computed.
    pub determinant: Option<T>,
    initial_size: Pair,
    /// The logical size.
    pub actual_size: Pair,
}

impl<T> Matrix<T> {
    /// The rows of the physical storage.
    pub closed spec fn storage(&self) -> Seq<Seq<T>> {
        deep(self.inner@)
    }

    pub closed spec fn transposed(&self) -> bool {
        self.transposed
    }

    /// The cached determinant.
    pub closed spec fn cached(&self) -> Option<T> {
        self.determinant
    }

    pub closed spec fn initial(&self) -> Pair {
        self.initial_size
    }
}

/// Builds a grid of `y` rows of `x` copies of `v`.
fn filled<T: Copy>(x: usize, y: usize, v: T) -> (r: Vec<Vec<T>>)
    ensures
        r.len() == y,
        forall|i: int| 0 <= i < y ==> #[trigger] r@[i].len() == x,
        forall|i: int, j: int| 0 <= i < y && 0 <= j < x ==> #[trigger] r@[i]@[j] == v,
{
    let mut out: Vec<Vec<T>> = Vec::new();
    let mut i: usize = 0;
    while i < y
        invariant
            i <= y,
            out.len() == i,
            forall|k: int| 0 <= k < i ==> #[trigger] out@[k].len() == x,
            forall|k: int, j: int| 0 <= k < i && 0 <= j < x ==> #[trigger] out@[k]@[j] == v,
        decreases y - i,
    {
        let mut row: Vec<T> = Vec::new();
        let mut j: usize = 0;
        while j < x
            invariant
                j <= x,
                row.len() == j,
                forall|k: int| 0 <= k < j ==> #[trigger] row@[k] == v,
            decreases x - j,
        {
            row.push(v);
            j += 1;
        }
        out.push(row);
        i += 1;
    }
    out
}

impl<T: Num> Matrixified<T> for Matrix<T> {
    closed spec fn wf(&self) -> bool {
        &&& self.inner.len() == self.initial_size.y
        &&& forall|i: int| 0 <= i < self.inner.len() ==> #[trigger] self.inner@[i].len() == self.initial_size.x
        &&& self.actual_size == if self.transposed { self.initial_size.swapped() } else { self.initial_size }
    }

    closed spec fn dims(&self) -> Pair {
        self.actual_size
    }

    closed spec fn at(&self, r: int, c: int) -> T {
        if self.transposed {
            self.inner@[c]@[r]
        } else {
            self.inner@[r]@[c]
        }
    }

    closed spec fn flag(&self) -> bool {
        self.transposed
    }

    closed spec fn cache(&self) -> Option<T> {
        self.determinant
    }

    closed spec fn same_storage(&self, other: &Self) -> bool {
        self.storage() == other.storage() && self.initial() == other.initial()
    }

    open spec fn shape_ok(size: Pair) -> bool {
        true
    }

    fn zeros(size: Pair) -> (r: Self) {
        Matrix::fill_with(size, T::zero())
    }

    fn fill_with(size: Pair, with: T) -> (r: Self) {
        Matrix::new_filled(size, with)
    }

    fn size(&self) -> (r: Pair) {
        self.actual_size
    }

    fn transpose(&mut self) {
        self.transposed = !self.transposed;
        self.actual_size.transpose();
    }

    fn elem(&self, r: usize, c: usize) -> (e: T) {
        if self.transposed {
            assert(self.inner@[c as int].len() == self.initial_size.x);
            self.inner[c][r]
        } else {
            assert(self.inner@[r as int].len() == self.initial_size.x);
            self.inner[r][c]
        }
    }

    fn set_elem(&mut self, r: usize, c: usize, v: T) {
        let (i, j) = if self.transposed { (c, r) } else { (r, c) };
        assert(self.inner@[i as int].len() == self.initial_size.x);
        self.inner[i][j] = v;
        assert(forall|k: int| 0 <= k < self.inner.len() && k != i ==> self.inner@[k] == old(self).inner@[k]);
    }
}


/// `m` is the identity matrix of size `size`.
pub open spec fn is_identity_of<T: Num>(m: &Matrix<T>, size: Pair) -> bool {
    &&& m.wf()
    &&& m.dims() == size
    &&& forall|i: int, j: int|
        0 <= i < size.y && 0 <= j < size.x ==> #[trigger] m.at(i, j) == if i == j {
            T::one_s()
        } else {
            T::zero_s()
        }
}

/// `inv` holds, in the orientation of `m`, the adjugate of `m`'s storage
/// divided by `d`: its storage at `(i, j)` is the cofactor of `(j, i)` in
/// `m`'s storage, divided by `d`.
pub open spec fn is_inverse_by<T: Num>(m: &Matrix<T>, d: T, inv: &Matrix<T>) -> bool {
    &&& inv.wf()
    &&& inv.initial() == m.initial()
    &&& inv.dims() == m.dims()
    &&& inv.transposed() == m.transposed()
    &&& inv.cached() is None
    &&& forall|i: int, j: int|
        0 <= i < m.initial().y && 0 <= j < m.initial().x ==> #[trigger] inv.storage()[i][j] == T::div_s(
            cofactor(m.storage(), j, i),
            d,
        )
}

/// How a well-formed matrix's logical elements and size read its storage.
pub proof fn lemma_matrix_view<T: Num>(m: &Matrix<T>)
    requires
        m.wf(),
    ensures
        m.flag() == m.transposed(),
        m.cache() == m.cached(),
        m.dims() == if m.transposed() { m.initial().swapped() } else { m.initial() },
        m.storage().len() == m.initial().y,
        forall|i: int| 0 <= i < m.initial().y ==> #[trigger] m.storage()[i].len() == m.initial().x,
        forall|r: int, c: int|
            0 <= r < m.dims().y && 0 <= c < m.dims().x ==> #[trigger] m.at(r, c) == if m.transposed() {
                m.storage()[c][r]
            } else {
                m.storage()[r][c]
            },
{
    assert forall|i: int| 0 <= i < m.initial().y implies #[trigger] m.storage()[i].len() == m.initial().x by {
        assert(m.storage()[i] == m.inner@[i]@);
        assert(m.inner@[i].len() == m.initial().x);
    }
}

/// What it means for two matrices to share their storage.
pub proof fn lemma_matrix_same<T: Num>(a: &Matrix<T>, b: &Matrix<T>)
    ensures
        a.same_storage(b) == (a.storage() == b.storage() && a.initial() == b.initial()),

{
}

/// The rows of a well-formed square matrix's storage form a square grid.
proof fn lemma_square_storage<T: Num>(m: &Matrix<T>)
    requires
        m.wf(),
        m.initial().x == m.initial().y,
    ensures
        is_square(m.storage()),
        m.storage().len() == m.initial().y,
{
    assert forall|i: int| 0 <= i < m.storage().len() implies #[trigger] m.storage()[i].len() == m.storage().len() by {
        assert(m.storage()[i] == m.inner@[i]@);
        assert(m.inner@[i].len() == m.initial().x);
    }
}

impl<T: Num> Matrix<T> {
    /// An untransposed matrix of the given size filled with `with`, with no
    /// cached determinant.
    fn new_filled(size: Pair, with: T) -> (r: Self)
        ensures
            r.wf(),
            r.dims() == size,
            r.initial() == size,
            !r.transposed(),
            r.cached() is None,
            forall|i: int, j: int| 0 <= i < size.y && 0 <= j < size.x ==> #[trigger] r.at(i, j) == with,
    {
        Matrix {
            inner: filled(size.x, size.y, with),
            transposed: false,
            determinant: None,
            initial_size: size,
            actual_size: size,
        }
    }

    /// Writes `v` at `(i, j)` of the storage, ignoring the orientation.
    fn set_raw(&mut self, i: usize, j: usize, v: T)
        requires
            old(self).wf(),
            i < old(self).initial().y,
            j < old(self).initial().x,
        ensures
            final(self).wf(),
            final(self).transposed() == old(self).transposed(),
            final(self).initial() == old(self).initial(),
            final(self).dims() == old(self).dims(),
            final(self).cached() == old(self).cached(),
            final(self).inner@[i as int]@[j as int] == v,
            forall|a: int, b: int|
                0 <= a < old(self).initial().y && 0 <= b < old(self).initial().x && (a != i || b != j)
                    ==> #[trigger] final(self).inner@[a]@[b] == old(self).inner@[a]@[b],
    {
        assert(self.inner@[i as int].len() == self.initial_size.x);
        self.inner[i][j] = v;
        assert(forall|k: int| 0 <= k < self.inner.len() && k != i ==> self.inner@[k] == old(self).inner@[k]);
    }

    /// A matrix with the given rows; fails with `InappropriateSizes` unless
    /// every row is as long as the first.
    pub fn from_rows(rows: Vec<Vec<T>>) -> (r: Result<Self, MatrixifyErr>)
        ensures
            match r {
                Ok(m) => (forall|i: int| 0 <= i < rows@.len() ==> #[trigger] rows@[i].len() == rows@[0].len()) && m.wf()
                    && !m.transposed() && m.cached() is None && m.storage() == deep(rows@)
                    && m.dims() == (Pair { x: if rows@.len() == 0 { 0 } else { rows[0].len() }, y: rows.len() }),
                Err(e) => (exists|i: int| 0 <= i < rows@.len() && #[trigger] rows@[i].len() != rows@[0].len())
                    && e == MatrixifyErr::InappropriateSizes,
            },
    {
        let n = rows.len();
        let width = if n == 0 { 0 } else { rows[0].len() };
        let mut i: usize = 0;
        while i < n
            invariant
                n == rows.len(),
                i <= n,
                n > 0 ==> width == rows@[0].len(),
                forall|j: int| 0 <= j < i ==> #[trigger] rows@[j].len() == width,
            decreases n - i,
        {
            if rows[i].len() != width {
                return Err(MatrixifyErr::InappropriateSizes);
            }
            i += 1;
        }
        let size = Pair::new(width, n);
        Ok(Matrix { inner: rows, transposed: false, determinant: None, initial_size: size, actual_size: size })
    }

    /// The identity matrix of a square size, with its determinant (one)
    /// already known.
    pub fn identity(initial_size: Pair) -> (r: Result<Self, MatrixifyErr>)
        ensures
            match r {
                Ok(m) => initial_size.x == initial_size.y && is_identity_of(&m, initial_size)
                    && m.cached() == Some(T::one_s()) && !m.transposed() && m.initial() == initial_size
                    && m.cached() == Some(det(m.storage())),
                Err(e) => initial_size.x != initial_size.y && e == MatrixifyErr::NonSquareMatrix,
            },
    {
        if initial_size.x != initial_size.y {
            return Err(MatrixifyErr::NonSquareMatrix);
        }
        let mut m = Matrix::new_filled(initial_size, T::zero());
        let mut d: usize = 0;
        while d < initial_size.y
            invariant
                m.wf(),
                m.dims() == initial_size,
                !m.transposed(),
                m.initial() == initial_size,
                m.cached() is None,
                initial_size.x == initial_size.y,
                d <= initial_size.y,
                forall|i: int, j: int|
                    0 <= i < initial_size.y && 0 <= j < initial_size.x ==> #[trigger] m.at(i, j) == if i == j && i < d {
                        T::one_s()
                    } else {
                        T::zero_s()
                    },
            decreases initial_size.y - d,
        {
            let ghost before = m;
            m.set_raw(d, d, T::one());
            assert forall|i: int, j: int| 0 <= i < initial_size.y && 0 <= j < initial_size.x implies #[trigger] m.at(i, j) == if i == j && i < d + 1 {
                T::one_s()
            } else {
                T::zero_s()
            } by {
                assert(m.at(i, j) == m.inner@[i]@[j]);
                assert(before.at(i, j) == before.inner@[i]@[j]);
            }
            d += 1;
        }
        let ghost before = m;
        m.determinant = Some(T::one());
        assert forall|i: int, j: int| 0 <= i < initial_size.y && 0 <= j < initial_size.x implies #[trigger] m.at(i, j) == if i == j {
            T::one_s()
        } else {
            T::zero_s()
        } by {
            assert(m.at(i, j) == before.at(i, j));
        }
        proof {
            lemma_square_storage(&m);
            assert(is_identity_grid(m.storage())) by {
                assert forall|i: int, j: int| 0 <= i < m.storage().len() && 0 <= j < m.storage().len() implies #[trigger] m.storage()[i][j] == if i == j {
                    T::one_s()
                } else {
                    T::zero_s()
                } by {
                    assert(m.at(i, j) == m.storage()[i][j]);
                }
            }
            lemma_identity_det(m.storage());
        }
        Ok(m)
    }

    /// Whether the matrix is seen transposed.
    pub fn is_transposed(&self) -> (r: bool)
        ensures
            r == self.transposed(),
            r == self.flag(),
    {
        self.transposed
    }

    /// Computes and caches the determinant of the storage (in the orientation
    /// the matrix was built with), unless one is cached already.
    pub fn comp_determ(&mut self) -> (r: Result<(), MatrixifyErr>)
        requires
            old(self).wf(),
        ensures
            final(self).wf(),
            final(self).storage() == old(self).storage(),
            final(self).transposed() == old(self).transposed(),
            final(self).initial() == old(self).initial(),
            final(self).dims() == old(self).dims(),
            old(self).initial().x != old(self).initial().y ==> r == Err::<(), MatrixifyErr>(MatrixifyErr::NonSquareMatrix)
                && final(self).cached() == old(self).cached(),
            old(self).initial().x == old(self).initial().y ==> r == Ok::<(), MatrixifyErr>(())
                && final(self).cached() == if old(self).cached() is Some {
                    old(self).cached()
                } else {
                    Some(det(old(self).storage()))
                },
    {
        if self.initial_size.x != self.initial_size.y {
            return Err(MatrixifyErr::NonSquareMatrix);
        }
        if self.determinant.is_none() {
            proof {
                lemma_square_storage(self);
            }
            let d = minor(&self.inner);
            self.determinant = Some(d);
        }
        Ok(())
    }

    /// The inverse, from the cached determinant and the adjugate of the
    /// storage, returned in the same orientation as `self`.
    pub fn inverse(&self) -> (r: Result<Self, MatrixifyErr>)
        requires
            self.wf(),
        ensures
            self.initial().x != self.initial().y ==> r == Err::<Self, MatrixifyErr>(MatrixifyErr::NonSquareMatrix),
            self.initial().x == self.initial().y && self.cached() is None
                ==> r == Err::<Self, MatrixifyErr>(MatrixifyErr::UnknownDeterminant),
            self.initial().x == self.initial().y && self.cached() == Some(T::zero_s())
                ==> r == Err::<Self, MatrixifyErr>(MatrixifyErr::ZeroDeterminant),
            self.initial().x == self.initial().y && self.cached() is Some && self.cached() != Some(T::zero_s())
                ==> r is Ok && is_inverse_by(self, self.cached()->Some_0, &r->Ok_0),
    {
        if self.initial_size.x != self.initial_size.y {
            return Err(MatrixifyErr::NonSquareMatrix);
        }
        let det = match self.determinant {
            Some(d) => d,
            None => {
                return Err(MatrixifyErr::UnknownDeterminant);
            },
        };
        if det.is_zero() {
            return Err(MatrixifyErr::ZeroDeterminant);
        }
        let n = self.initial_size.x;
        let ghost st = deep(self.inner@);
        proof {
            lemma_square_storage(self);
        }
        let mut out: Vec<Vec<T>> = Vec::new();
        let mut row: usize = 0;
        while row < n
            invariant
                self.wf(),
                n == self.initial_size.x,
                n == self.initial_size.y,
                st == deep(self.inner@),
                is_square(st),
                det == self.cached()->Some_0,
                det != T::zero_s(),
                row <= n,
                out.len() == row,
                forall|i: int| 0 <= i < row ==> #[trigger] out@[i].len() == n,
                forall|i: int, j: int| 0 <= i < row && 0 <= j < n ==> #[trigger] out@[i]@[j] == T::div_s(cofactor(st, j, i), det),
            decreases n - row,
        {
            let mut line: Vec<T> = Vec::new();
            let mut col: usize = 0;
            while col < n
                invariant
                    self.wf(),
                    n == self.initial_size.x,
                    n == self.initial_size.y,
                    st == deep(self.inner@),
                    is_square(st),
                    det != T::zero_s(),
                    row < n,
                    col <= n,
                    line.len() == col,
                    forall|j: int| 0 <= j < col ==> #[trigger] line@[j] == T::div_s(cofactor(st, j, row as int), det),
                decreases n - col,
            {
                let sub = without(&self.inner, col, row);
                assert(is_square(deep(sub@)));
                let m = minor(&sub);
                let signed = if row % 2 == col % 2 { m } else { m.neg() };
                assert((row % 2 == col % 2) == ((col + row) % 2 == 0));
                line.push(signed.div(det));
                col += 1;
            }
            out.push(line);
            row += 1;
        }
        let ghost out_view = out;
        let mut inv = Matrix {
            inner: out,
            transposed: false,
            determinant: None,
            initial_size: self.initial_size,
            actual_size: self.initial_size,
        };
        if self.transposed {
            inv.transposed = true;
            inv.actual_size.transpose();
        }
        assert(deep(inv.inner@) == deep(out_view@)) by {
            assert(deep(inv.inner@) =~= deep(out_view@));
        }
        Ok(inv)
    }

    /// The single row or column of a degenerate matrix, read in row-major
    /// order, as a row vector.
    pub fn as_vector(self) -> (r: Result<Vector<T>, MatrixifyErr>)
        requires
            self.wf(),
        ensures
            match r {
                Ok(v) => (self.dims().x == 1 || self.dims().y == 1) && v.wf() && !v.transposed()
                    && v.dims() == (if self.dims().y == 1 { self.dims() } else { self.dims().swapped() })
                    && forall|k: int| 0 <= k < v.elems().len() ==> #[trigger] v.elems()[k] == if self.dims().y == 1 {
                        self.at(0, k)
                    } else {
                        self.at(k, 0)
                    },
                Err(e) => self.dims().x != 1 && self.dims().y != 1 && e == MatrixifyErr::NotAVector,
            },
    {
        let mut m = self;
        if m.actual_size.y != 1 && m.actual_size.x != 1 {
            return Err(MatrixifyErr::NotAVector);
        }
        if m.actual_size.y != 1 {
            m.transpose();
        }
        let len = m.actual_size.x;
        let mut inner: Vec<T> = Vec::new();
        let mut k: usize = 0;
        while k < len
            invariant
                m.wf(),
                self.wf(),
                m.dims().y == 1,
                len == m.dims().x,
                self.dims().y == 1 ==> m == self,
                self.dims().y != 1 ==> m.dims() == self.dims().swapped()
                    && forall|r: int, c: int| #[trigger] m.at(r, c) == self.at(c, r),
                k <= len,
                inner.len() == k,
                forall|j: int| 0 <= j < k ==> #[trigger] inner@[j] == m.at(0, j),
            decreases len - k,
        {
            inner.push(m.elem(0, k));
            k += 1;
        }
        Ok(Vector { inner, transposed: false, length: len, actual_size: Pair { x: len, y: 1 } })
    }

    /// `self + rhs`, element-wise.
    pub fn add<M: Matrixified<T>>(&self, rhs: &M) -> (r: Result<Matrix<T>, MatrixifyErr>)
        requires
            self.wf(),
            rhs.wf(),
        ensures
            match r {
                Ok(p) => self.dims() == rhs.dims() && is_sum_of(self, rhs, Sign::Plus, &p),
                Err(e) => self.dims() != rhs.dims() && e == MatrixifyErr::InappropriateSizes,
            },
    {
        m_add(self, rhs, Sign::Plus)
    }

    /// `self - rhs`, element-wise.
    pub fn sub<M: Matrixified<T>>(&self, rhs: &M) -> (r: Result<Matrix<T>, MatrixifyErr>)
        requires
            self.wf(),
            rhs.wf(),
        ensures
            match r {
                Ok(p) => self.dims() == rhs.dims() && is_sum_of(self, rhs, Sign::Minus, &p),
                Err(e) => self.dims() != rhs.dims() && e == MatrixifyErr::InappropriateSizes,
            },
    {
        m_add(self, rhs, Sign::Minus)
    }

    /// The matrix product `self * rhs`.
    pub fn mul<M: Matrixified<T>>(&self, rhs: &M) -> (r: Result<Matrix<T>, MatrixifyErr>)
        requires
            self.wf(),
            rhs.wf(),
        ensures
            match r {
                Ok(p) => self.dims().x == rhs.dims().y && is_product_of(self, rhs, &p),
                Err(e) => self.dims().x != rhs.dims().y && e == MatrixifyErr::InappropriateSizes,
            },
    {
        m_mul(self, rhs)
    }

    /// `self` times the inverse of `rhs`; fails as `rhs.inverse()` does, or
    /// on sizes that do not allow the product.
    pub fn div(&self, rhs: &Matrix<T>) -> (r: Result<Matrix<T>, MatrixifyErr>)
        requires
            self.wf(),
            rhs.wf(),
        ensures
            rhs.initial().x != rhs.initial().y ==> r == Err::<Self, MatrixifyErr>(MatrixifyErr::NonSquareMatrix),
            rhs.initial().x == rhs.initial().y && rhs.cached() is None
                ==> r == Err::<Self, MatrixifyErr>(MatrixifyErr::UnknownDeterminant),
            rhs.initial().x == rhs.initial().y && rhs.cached() == Some(T::zero_s())
                ==> r == Err::<Self, MatrixifyErr>(MatrixifyErr::ZeroDeterminant),
            rhs.initial().x == rhs.initial().y && rhs.cached() is Some && rhs.cached() != Some(T::zero_s())
                ==> match r {
                    Ok(p) => self.dims().x == rhs.dims().y && exists|inv: Matrix<T>|
                        is_inverse_by(rhs, rhs.cached()->Some_0, &inv) && #[trigger] is_product_of(self, &inv, &p),
                    Err(e) => self.dims().x != rhs.dims().y && e == MatrixifyErr::InappropriateSizes,
                },
    {
        let inv = match rhs.inverse() {
            Ok(i) => i,
            Err(e) => {
                return Err(e);
            },
        };
        m_mul(self, &inv)
    }

    /// Adds `num` to every element.
    pub fn a(&mut self, num: T)
        requires
            old(self).wf(),
        ensures
            is_scalar_update(old(self), Ops::Add, num, final(self)),
    {
        update_all(self, num, Ops::Add)
    }

    /// Subtracts `num` from every element.
    pub fn s(&mut self, num: T)
        requires
            old(self).wf(),
        ensures
            is_scalar_update(old(self), Ops::Sub, num, final(self)),
    {
        update_all(self, num, Ops::Sub)
    }

    /// Multiplies every element by `num`.
    pub fn m(&mut self, num: T)
        requires
            old(self).wf(),
        ensures
            is_scalar_update(old(self), Ops::Mul, num, final(self)),
    {
        update_all(self, num, Ops::Mul)
    }

    /// Divides every element by `num`, which must not be zero.
    pub fn d(&mut self, num: T)
        requires
            old(self).wf(),
            num != T::zero_s(),
        ensures
            is_scalar_update(old(self), Ops::Div, num, final(self)),
    {
        update_all(self, num, Ops::Div)
    }

    /// The matrix with every element multiplied by minus one.
    pub fn neg(self) -> (r: Self)
        requires
            self.wf(),
        ensures
            is_scalar_update(&self, Ops::Mul, T::neg_s(T::one_s()), &r),
    {
        let mut out = self;
        out.m(T::one().neg());
        out
    }
}

/// A dense vector: a row, or after `transpose` a column, of `length`
/// elements.
#[derive(Clone, Debug)]
pub struct Vector<T> {
    inner: Vec<T>,
    transposed: bool,
    length: usize,
    actual_size: Pair,
}

impl<T> Vector<T> {
    /// The elements, in order.
    pub closed spec fn elems(&self) -> Seq<T> {
        self.inner@
    }

    /// Whether the vector is seen as a column.
    pub closed spec fn transposed(&self) -> bool {
        self.transposed
    }
}

impl<T: Num> Matrixified<T> for Vector<T> {
    closed spec fn wf(&self) -> bool {
        &&& self.inner.len() == self.length
        &&& self.actual_size == if self.transposed {
            Pair { x: 1, y: self.length }
        } else {
            Pair { x: self.length, y: 1 }
        }
    }

    closed spec fn dims(&self) -> Pair {
        self.actual_size
    }

    closed spec fn at(&self, r: int, c: int) -> T {
        if self.transposed {
            self.inner@[r]
        } else {
            self.inner@[c]
        }
    }

    closed spec fn flag(&self) -> bool {
        self.transposed
    }

    open spec fn cache(&self) -> Option<T> {
        None
    }

    closed spec fn same_storage(&self, other: &Self) -> bool {
        self.elems() == other.elems()
    }

    /// A vector is always built as a single row.
    open spec fn shape_ok(size: Pair) -> bool {
        size.y == 1
    }

    fn zeros(size: Pair) -> (r: Self) {
        Vector::fill_with(size, T::zero())
    }

    fn fill_with(size: Pair, with: T) -> (r: Self) {
        let mut inner: Vec<T> = Vec::new();
        let mut j: usize = 0;
        while j < size.x
            invariant
                j <= size.x,
                inner.len() == j,
                forall|k: int| 0 <= k < j ==> #[trigger] inner@[k] == with,
            decreases size.x - j,
        {
            inner.push(with);
            j += 1;
        }
        Vector { inner, transposed: false, length: size.x, actual_size: size }
    }

    fn size(&self) -> (r: Pair) {
        self.actual_size
    }

    fn transpose(&mut self) {
        self.transposed = !self.transposed;
        self.actual_size.transpose();
    }

    fn elem(&self, r: usize, c: usize) -> (e: T) {
        if self.transposed {
            self.inner[r]
        } else {
            self.inner[c]
        }
    }

    fn set_elem(&mut self, r: usize, c: usize, v: T) {
        if self.transposed {
            self.inner.set(r, v);
        } else {
            self.inner.set(c, v);
        }
    }
}

/// How a well-formed vector's logical elements and size read its elements.
pub proof fn lemma_vector_view<T: Num>(v: &Vector<T>)
    requires
        v.wf(),
    ensures
        v.flag() == v.transposed(),
        v.elems().len() <= usize::MAX,
        forall|o: Vector<T>| #[trigger] v.same_storage(&o) == (v.elems() == o.elems()),
        v.dims() == if v.transposed() {
            Pair { x: 1, y: v.elems().len() as usize }
        } else {
            Pair { x: v.elems().len() as usize, y: 1 }
        },
        forall|r: int, c: int| #[trigger] v.at(r, c) == if v.transposed() { v.elems()[r] } else { v.elems()[c] },
{
}

impl<T: Num> Vector<T> {
    /// Whether the vector is seen as a column.
    pub fn is_transposed(&self) -> (r: bool)
        ensures
            r == self.transposed(),
            r == self.flag(),
    {
        self.transposed
    }

    /// The number of elements.
    pub fn len(&self) -> (r: usize)
        requires
            self.wf(),
        ensures
            r == self.elems().len(),
    {
        self.length
    }

    /// The element of `rhs` that lines up with element `k` of `self`.
    pub open spec fn partner<M: Matrixified<T>>(&self, rhs: &M, k: int) -> T {
        if self.transposed() {
            rhs.at(k, 0)
        } else {
            rhs.at(0, k)
        }
    }

    /// `self (+|-) rhs`, element-wise, folded back into a row vector.
    pub fn m_add_vector<M: Matrixified<T>>(&self, rhs: &M, sign: Sign) -> (r: Result<Vector<T>, MatrixifyErr>)
        requires
            self.wf(),
            rhs.wf(),
        ensures
            match r {
                Ok(v) => self.dims() == rhs.dims() && v.wf() && !v.transposed() && v.elems().len() == self.elems().len()
                    && forall|k: int| 0 <= k < self.elems().len() ==> #[trigger] v.elems()[k] == combine(
                        sign,
                        self.elems()[k],
                        self.partner(rhs, k),
                    ),
                Err(e) => self.dims() != rhs.dims() && e == MatrixifyErr::InappropriateSizes,
            },
    {
        let p = match m_add(self, rhs, sign) {
            Ok(p) => p,
            Err(e) => {
                return Err(e);
            },
        };
        let ghost pv = p;
        let r = p.as_vector();
        match r {
            Ok(v) => {
                assert forall|k: int| 0 <= k < self.elems().len() implies #[trigger] v.elems()[k] == combine(
                    sign,
                    self.elems()[k],
                    self.partner(rhs, k),
                ) by {
                    if self.transposed {
                        if self.length == 1 {
                            assert(v.elems()[k] == pv.at(0, 0));
                        } else {
                            assert(v.elems()[k] == pv.at(k, 0));
                        }
                        assert(self.at(k, 0) == self.elems()[k]);
                    } else {
                        assert(v.elems()[k] == pv.at(0, k));
                        assert(self.at(0, k) == self.elems()[k]);
                    }
                }
                Ok(v)
            },
            Err(e) => Err(e),
        }
    }

    /// `self + rhs`, element-wise, as a row vector.
    pub fn add<M: Matrixified<T>>(&self, rhs: &M) -> (r: Result<Vector<T>, MatrixifyErr>)
        requires
            self.wf(),
            rhs.wf(),
        ensures
            match r {
                Ok(v) => self.dims() == rhs.dims() && v.wf() && !v.transposed() && v.elems().len() == self.elems().len()
                    && forall|k: int| 0 <= k < self.elems().len() ==> #[trigger] v.elems()[k] == T::add_s(
                        self.elems()[k],
                        self.partner(rhs, k),
                    ),
                Err(e) => self.dims() != rhs.dims() && e == MatrixifyErr::InappropriateSizes,
            },
    {
        self.m_add_vector(rhs, Sign::Plus)
    }

    /// `self - rhs`, element-wise, as a row vector.
    pub fn sub<M: Matrixified<T>>(&self, rhs: &M) -> (r: Result<Vector<T>, MatrixifyErr>)
        requires
            self.wf(),
            rhs.wf(),
        ensures
            match r {
                Ok(v) => self.dims() == rhs.dims() && v.wf() && !v.transposed() && v.elems().len() == self.elems().len()
                    && forall|k: int| 0 <= k < self.elems().len() ==> #[trigger] v.elems()[k] == T::sub_s(
                        self.elems()[k],
                        self.partner(rhs, k),
                    ),
                Err(e) => self.dims() != rhs.dims() && e == MatrixifyErr::InappropriateSizes,
            },
    {
        self.m_add_vector(rhs, Sign::Minus)
    }

    /// The matrix product `self * rhs`; the result stays a matrix.
    pub fn mul<M: Matrixified<T>>(&self, rhs: &M) -> (r: Result<Matrix<T>, MatrixifyErr>)
        requires
            self.wf(),
            rhs.wf(),
        ensures
            match r {
                Ok(p) => self.dims().x == rhs.dims().y && is_product_of(self, rhs, &p),
                Err(e) => self.dims().x != rhs.dims().y && e == MatrixifyErr::InappropriateSizes,
            },
    {
        m_mul(self, rhs)
    }

    /// The vector itself: it is already a vector.
    pub fn as_vector(self) -> (r: Result<Vector<T>, MatrixifyErr>)
        ensures
            r == Ok::<Vector<T>, MatrixifyErr>(self),
    {
        Ok(self)
    }

    /// Adds `num` to every element.
    pub fn a(&mut self, num: T)
        requires
            old(self).wf(),
        ensures
            is_scalar_update(old(self), Ops::Add, num, final(self)),
    {
        update_all(self, num, Ops::Add)
    }

    /// Subtracts `num` from every element.
    pub fn s(&mut self, num: T)
        requires
            old(self).wf(),
        ensures
            is_scalar_update(old(self), Ops::Sub, num, final(self)),
    {
        update_all(self, num, Ops::Sub)
    }

    /// Multiplies every element by `num`.
    pub fn m(&mut self, num: T)
        requires
            old(self).wf(),
        ensures
            is_scalar_update(old(self), Ops::Mul, num, final(self)),
    {
        update_all(self, num, Ops::Mul)
    }

    /// Divides every element by `num`, which must not be zero.
    pub fn d(&mut self, num: T)
        requires
            old(self).wf(),
            num != T::zero_s(),
        ensures
            is_scalar_update(old(self), Ops::Div, num, final(self)),
    {
        update_all(self, num, Ops::Div)
    }

    /// The vector with every element multiplied by minus one.
    pub fn neg(self) -> (r: Self)
        requires
            self.wf(),
        ensures
            is_scalar_update(&self, Ops::Mul, T::neg_s(T::one_s()), &r),
    {
        let mut out = self;
        out.m(T::one().neg());
        out
    }
}


/// Transposing twice restores the logical size, every logical element, the
/// flag and the cache.
pub proof fn lemma_transpose_involution<T: Num, A: Matrixified<T>>(x: A, once: A, twice: A)
    requires
        x.wf(),
        once.dims() == x.dims().swapped(),
        once.flag() == !x.flag(),
        once.cache() == x.cache(),
        forall|r: int, c: int| #[trigger] once.at(r, c) == x.at(c, r),
        twice.dims() == once.dims().swapped(),
        twice.flag() == !once.flag(),
        twice.cache() == once.cache(),
        forall|r: int, c: int| #[trigger] twice.at(r, c) == once.at(c, r),
    ensures
        twice.dims() == x.dims(),
        twice.flag() == x.flag(),
        twice.cache() == x.cache(),
        forall|r: int, c: int| #[trigger] twice.at(r, c) == x.at(r, c),
{
    assert forall|r: int, c: int| #[trigger] twice.at(r, c) == x.at(r, c) by {
        assert(twice.at(r, c) == once.at(c, r));
    }
}

/// The first `k` terms of row `r` of the identity against column `c` of `m`
/// sum to `m`'s element once position `r` has been passed, and to zero
/// before.
proof fn lemma_dot_identity_left<T: Num, M: Matrixified<T>>(id: &Matrix<T>, m: &M, r: int, c: int, k: int)
    requires
        is_identity_of(id, Pair { x: m.dims().y, y: m.dims().y }),
        0 <= r < m.dims().y,
        0 <= c < m.dims().x,
        0 <= k <= m.dims().y,
    ensures
        dot(id, m, r, c, k) == if r < k { m.at(r, c) } else { T::zero_s() },
    decreases k,
{
    if k > 0 {
        lemma_dot_identity_left(id, m, r, c, k - 1);
        T::lemma_identities(m.at(k - 1, c));
        T::lemma_identities(T::zero_s());
        T::lemma_identities(m.at(r, c));
        assert(id.at(r, k - 1) == if r == k - 1 { T::one_s() } else { T::zero_s() });
    }
}

/// The first `k` terms of row `r` of `m` against column `c` of the identity
/// sum to `m`'s element once position `c` has been passed, and to zero
/// before.
proof fn lemma_dot_identity_right<T: Num, M: Matrixified<T>>(m: &M, id: &Matrix<T>, r: int, c: int, k: int)
    requires
        is_identity_of(id, Pair { x: m.dims().x, y: m.dims().x }),
        0 <= r < m.dims().y,
        0 <= c < m.dims().x,
        0 <= k <= m.dims().x,
    ensures
        dot(m, id, r, c, k) == if c < k { m.at(r, c) } else { T::zero_s() },
    decreases k,
{
    if k > 0 {
        lemma_dot_identity_right(m, id, r, c, k - 1);
        T::lemma_identities(m.at(r, k - 1));
        T::lemma_identities(T::zero_s());
        T::lemma_identities(m.at(r, c));
        assert(id.at(k - 1, c) == if k - 1 == c { T::one_s() } else { T::zero_s() });
    }
}

/// The identity on the left of a product leaves the other factor unchanged.
pub proof fn lemma_identity_mul_left<T: Num, M: Matrixified<T>>(id: Matrix<T>, m: M, p: Matrix<T>)
    requires
        m.wf(),
        is_identity_of(&id, Pair { x: m.dims().y, y: m.dims().y }),
        is_product_of(&id, &m, &p),
    ensures
        p.dims() == m.dims(),
        forall|r: int, c: int| 0 <= r < m.dims().y && 0 <= c < m.dims().x ==> #[trigger] p.at(r, c) == m.at(r, c),
{
    assert forall|r: int, c: int| 0 <= r < m.dims().y && 0 <= c < m.dims().x implies #[trigger] p.at(r, c) == m.at(r, c) by {
        lemma_dot_identity_left(&id, &m, r, c, m.dims().y as int);
    }
}

/// The identity on the right of a product leaves the other factor unchanged.
pub proof fn lemma_identity_mul_right<T: Num, M: Matrixified<T>>(m: M, id: Matrix<T>, p: Matrix<T>)
    requires
        m.wf(),
        is_identity_of(&id, Pair { x: m.dims().x, y: m.dims().x }),
        is_product_of(&m, &id, &p),
    ensures
        p.dims() == m.dims(),
        forall|r: int, c: int| 0 <= r < m.dims().y && 0 <= c < m.dims().x ==> #[trigger] p.at(r, c) == m.at(r, c),
{
    assert forall|r: int, c: int| 0 <= r < m.dims().y && 0 <= c < m.dims().x implies #[trigger] p.at(r, c) == m.at(r, c) by {
        lemma_dot_identity_right(&m, &id, r, c, m.dims().x as int);
    }
}


/// A matrix whose storage has a row of zeros has, once its determinant is
/// computed, the zero determinant; `inverse` then fails with
/// `ZeroDeterminant`.
pub proof fn lemma_zero_row_singular<T: Num>(m: Matrix<T>, i: int)
    requires
        m.wf(),
        m.initial().x == m.initial().y,
        m.cached() == Some(det(m.storage())),
        0 <= i < m.initial().y,
        forall|j: int| 0 <= j < m.initial().x ==> #[trigger] m.storage()[i][j] == T::zero_s(),
    ensures
        m.cached() == Some(T::zero_s()),
{
    lemma_square_storage(&m);
    lemma_zero_row_det(m.storage(), i);
}


/// A two-by-two matrix whose two storage rows are equal has, once its
/// determinant is computed, the zero determinant; `inverse` then fails with
/// `ZeroDeterminant`.
pub proof fn lemma_equal_rows_singular_two<T: Num>(m: Matrix<T>)
    requires
        m.wf(),
        m.initial() == (Pair { x: 2, y: 2 }),
        m.cached() == Some(det(m.storage())),
        m.storage()[0] == m.storage()[1],
    ensures
        m.cached() == Some(T::zero_s()),
{
    lemma_square_storage(&m);
    lemma_equal_rows_det_two(m.storage());
}

} // verus!
