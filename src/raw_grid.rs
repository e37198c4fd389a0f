//! Row- and column-oriented storage of rectangular data, with a validity
//! check and a lazy transposition flag.
use vstd::prelude::*;
use crate::enums::{GridErr, ReErr};
use crate::grid::deep;
use vstd::std_specs::cmp::PartialEqSpec;

verus! {

/// Row `i` is the first row whose length differs from the first row's.
pub open spec fn curve_at<T>(s: Seq<Seq<T>>, i: int) -> bool {
    &&& 0 < i < s.len()
    &&& s[i].len() != s[0].len()
    &&& forall|j: int| 0 < j < i ==> #[trigger] s[j].len() == s[0].len()
}

/// Every row has the length of the first, and the grid holds an element.
pub open spec fn is_rect<T>(s: Seq<Seq<T>>) -> bool {
    &&& s.len() > 0
    &&& s[0].len() > 0
    &&& forall|i: int| 0 <= i < s.len() ==> #[trigger] s[i].len() == s[0].len()
}

/// The verdict on a list of rows: empty, crooked at its first odd row, or
/// valid.
pub open spec fn check_rows<T>(s: Seq<Seq<T>>) -> Result<(), ReErr> {
    if s.len() == 0 {
        Err(ReErr::GridErr(GridErr::IsEmpty))
    } else if exists|i: int| curve_at(s, i) {
        Err(ReErr::GridErr(GridErr::CurveSides((choose|i: int| curve_at(s, i)) as usize)))
    } else if s[0].len() == 0 {
        Err(ReErr::GridErr(GridErr::IsEmpty))
    } else {
        Ok(())
    }
}

/// Checks a list of rows, as `check_rows` describes.
fn check_rows_exec<T>(v: &Vec<Vec<T>>) -> (r: Result<(), ReErr>)
    ensures
        r == check_rows(deep(v@)),
        r is Ok <==> is_rect(deep(v@)),
{
    let ghost s = deep(v@);
    if v.len() == 0 {
        return Err(ReErr::GridErr(GridErr::IsEmpty));
    }
    let first = v[0].len();
    let mut i: usize = 1;
    while i < v.len()
        invariant
            s == deep(v@),
            v.len() > 0,
            first == s[0].len(),
            1 <= i <= v.len(),
            forall|j: int| 0 < j < i ==> #[trigger] s[j].len() == s[0].len(),
        decreases v.len() - i,
    {
        if v[i].len() != first {
            assert(curve_at(s, i as int));
            assert forall|k: int| curve_at(s, k) implies k == i by {
                if k < i {
                    assert(s[k].len() == s[0].len());
                } else if k > i {
                    assert(s[i as int].len() == s[0].len());
                }
            }
            return Err(ReErr::GridErr(GridErr::CurveSides(i)));
        }
        i += 1;
    }
    assert(!exists|k: int| curve_at(s, k));
    if first == 0 {
        Err(ReErr::GridErr(GridErr::IsEmpty))
    } else {
        Ok(())
    }
}

/// Elements held either as one row or as a list of rows.
#[derive(Debug)]
pub enum VecWrapper<T> {
    Single(Vec<T>),
    Double(Vec<Vec<T>>),
}

impl<T> VecWrapper<T> {
    /// The contents as a list of rows: a single row is one row.
    pub open spec fn rows_view(&self) -> Seq<Seq<T>> {
        match self {
            VecWrapper::Single(v) => seq![v@],
            VecWrapper::Double(v) => deep(v@),
        }
    }

    /// Whether the contents are held as one row.
    pub fn is_single(&self) -> (r: bool)
        ensures
            r == (self is Single),
    {
        match self {
            VecWrapper::Single(_) => true,
            VecWrapper::Double(_) => false,
        }
    }

    /// Whether the contents are held as a list of rows.
    pub fn is_double(&self) -> (r: bool)
        ensures
            r == (self is Double),
    {
        match self {
            VecWrapper::Single(_) => false,
            VecWrapper::Double(_) => true,
        }
    }

    /// Whether the contents are non-empty and rectangular; otherwise which
    /// of the two is wrong.
    pub fn is_valid(&self) -> (r: Result<(), ReErr>)
        ensures
            r == check_rows(self.rows_view()),
            r is Ok <==> is_rect(self.rows_view()),
    {
        match self {
            VecWrapper::Single(v) => {
                if v.len() == 0 {
                    Err(ReErr::GridErr(GridErr::IsEmpty))
                } else {
                    let ghost s = self.rows_view();
                    assert(!exists|k: int| curve_at(s, k));
                    Ok(())
                }
            },
            VecWrapper::Double(v) => check_rows_exec(v),
        }
    }

    /// The number of rows.
    pub fn rows(&self) -> (r: usize)
        ensures
            r == self.rows_view().len(),
    {
        match self {
            VecWrapper::Single(_) => 1,
            VecWrapper::Double(v) => v.len(),
        }
    }

    /// The number of columns, read from the first row.
    pub fn cols(&self) -> (r: usize)
        requires
            self.rows_view().len() > 0,
        ensures
            r == self.rows_view()[0].len(),
    {
        match self {
            VecWrapper::Single(v) => v.len(),
            VecWrapper::Double(v) => v[0].len(),
        }
    }

    /// The element at `(r, c)`.
    pub fn att(&self, r: usize, c: usize) -> (e: &T)
        requires
            r < self.rows_view().len(),
            c < self.rows_view()[r as int].len(),
        ensures
            *e == self.rows_view()[r as int][c as int],
    {
        match self {
            VecWrapper::Single(v) => &v[c],
            VecWrapper::Double(v) => &v[r][c],
        }
    }
}

/// Valid rectangular storage, read as it is or, once transposed, with rows
/// and columns exchanged.
#[derive(Debug)]
pub struct RawGrid<T> {
    inner: Vec<Vec<T>>,
    transposed: bool,
}

impl<T> RawGrid<T> {
    /// The storage is non-empty and rectangular.
    #[verifier::type_invariant]
    closed spec fn inv(&self) -> bool {
        is_rect(deep(self.inner@))
    }

    /// The rows of the storage, in the orientation it was built with.
    pub closed spec fn storage(&self) -> Seq<Seq<T>> {
        deep(self.inner@)
    }

    pub closed spec fn transposed(&self) -> bool {
        self.transposed
    }

    /// The storage is non-empty and rectangular; every grid is.
    pub open spec fn wf(&self) -> bool {
        is_rect(self.storage())
    }

    /// The number of rows, of the storage if `raw`, else of the logical view.
    pub open spec fn rows_s(&self, raw: bool) -> int {
        if raw || !self.transposed() {
            self.storage().len() as int
        } else {
            self.storage()[0].len() as int
        }
    }

    /// The number of columns, of the storage if `raw`, else of the logical
    /// view.
    pub open spec fn cols_s(&self, raw: bool) -> int {
        if raw || !self.transposed() {
            self.storage()[0].len() as int
        } else {
            self.storage().len() as int
        }
    }

    /// The element at `(r, c)`, of the storage if `raw`, else of the logical
    /// view.
    pub open spec fn at_s(&self, r: int, c: int, raw: bool) -> T {
        if raw || !self.transposed() {
            self.storage()[r][c]
        } else {
            self.storage()[c][r]
        }
    }

    /// A grid of one row; fails on an empty row.
    pub fn from_single(v: Vec<T>) -> (r: Result<RawGrid<T>, ReErr>)
        ensures
            match r {
                Ok(g) => v@.len() > 0 && g.wf() && !g.transposed() && g.storage() == seq![v@],
                Err(e) => v@.len() == 0 && e == ReErr::GridErr(GridErr::IsEmpty),
            },
    {
        if v.len() == 0 {
            return Err(ReErr::GridErr(GridErr::IsEmpty));
        }
        let ghost vv = v@;
        let mut inner: Vec<Vec<T>> = Vec::new();
        inner.push(v);
        let g = RawGrid { inner, transposed: false };
        assert(g.storage() =~= seq![vv]);
        Ok(g)
    }

    /// A grid of the given rows; fails as `check_rows` says.
    pub fn from_double(v: Vec<Vec<T>>) -> (r: Result<RawGrid<T>, ReErr>)
        ensures
            match r {
                Ok(g) => is_rect(deep(v@)) && g.wf() && !g.transposed() && g.storage() == deep(v@),
                Err(e) => !is_rect(deep(v@)) && Err::<(), ReErr>(e) == check_rows(deep(v@)),
            },
    {
        match check_rows_exec(&v) {
            Ok(()) => Ok(RawGrid { inner: v, transposed: false }),
            Err(e) => Err(e),
        }
    }

    /// The same storage with the orientation flipped.
    pub fn transpose(self) -> (r: Self)
        ensures
            r.storage() == self.storage(),
            r.transposed() == !self.transposed(),
    {
        proof {
            use_type_invariant(&self);
        }
        RawGrid { inner: self.inner, transposed: !self.transposed }
    }

    /// Whether the grid is read transposed.
    pub fn is_transposed(&self) -> (r: bool)
        ensures
            r == self.transposed(),
    {
        self.transposed
    }

    /// The number of rows, of the storage if `raw`, else of the logical view.
    pub fn rows(&self, raw: bool) -> (r: usize)
        ensures
            r == self.rows_s(raw),
    {
        proof {
            use_type_invariant(self);
        }
        if raw || !self.transposed {
            self.inner.len()
        } else {
            self.inner[0].len()
        }
    }

    /// The number of columns, of the storage if `raw`, else of the logical
    /// view.
    pub fn cols(&self, raw: bool) -> (r: usize)
        ensures
            r == self.cols_s(raw),
    {
        proof {
            use_type_invariant(self);
        }
        if raw || !self.transposed {
            self.inner[0].len()
        } else {
            self.inner.len()
        }
    }

    /// The element at `(r, c)`, of the storage if `raw`, else of the logical
    /// view.
    pub fn att(&self, r: usize, c: usize, raw: bool) -> (e: &T)
        requires
            r < self.rows_s(raw),
            c < self.cols_s(raw),
        ensures
            *e == self.at_s(r as int, c as int, raw),
    {
        proof {
            use_type_invariant(self);
        }
        if raw || !self.transposed {
            assert(self.storage()[r as int].len() == self.storage()[0].len());
            &self.inner[r][c]
        } else {
            assert(self.storage()[c as int].len() == self.storage()[0].len());
            &self.inner[c][r]
        }
    }
}


impl<T: PartialEq> RawGrid<T> {
    /// Both grids have the same logical size and equal elements at every
    /// logical position.
    pub open spec fn same_as(&self, other: &Self) -> bool {
        &&& self.rows_s(false) == other.rows_s(false)
        &&& self.cols_s(false) == other.cols_s(false)
        &&& forall|r: int, c: int|
            0 <= r < self.rows_s(false) && 0 <= c < self.cols_s(false) ==> #[trigger] self.at_s(r, c, false).eq_spec(
                &other.at_s(r, c, false),
            )
    }
}

impl<T> RawGrid<T> {
    /// Whether both grids have the same logical size and `pred` holds of the
    /// elements at every logical position, compared row by row.
    pub fn eqp<F: Fn(&T, &T) -> bool>(&self, rhs: &Self, pred: F) -> (r: bool)
        requires
            forall|a: &T, b: &T| #[trigger] pred.requires((a, b)),
        ensures
            r ==> self.rows_s(false) == rhs.rows_s(false) && self.cols_s(false) == rhs.cols_s(false)
                && forall|i: int, j: int|
                0 <= i < self.rows_s(false) && 0 <= j < self.cols_s(false) ==> #[trigger] pred.ensures(
                    (&self.at_s(i, j, false), &rhs.at_s(i, j, false)),
                    true,
                ),
            !r ==> self.rows_s(false) != rhs.rows_s(false) || self.cols_s(false) != rhs.cols_s(false)
                || exists|i: int, j: int|
                0 <= i < self.rows_s(false) && 0 <= j < self.cols_s(false) && #[trigger] pred.ensures(
                    (&self.at_s(i, j, false), &rhs.at_s(i, j, false)),
                    false,
                ),
    {
        let rows = self.rows(false);
        let cols = self.cols(false);
        if rows != rhs.rows(false) || cols != rhs.cols(false) {
            return false;
        }
        let mut i: usize = 0;
        while i < rows
            invariant
                rows == self.rows_s(false),
                cols == self.cols_s(false),
                rows == rhs.rows_s(false),
                cols == rhs.cols_s(false),
                forall|a: &T, b: &T| #[trigger] pred.requires((a, b)),
                i <= rows,
                forall|a: int, b: int|
                    0 <= a < i && 0 <= b < cols ==> #[trigger] pred.ensures(
                        (&self.at_s(a, b, false), &rhs.at_s(a, b, false)),
                        true,
                    ),
            decreases rows - i,
        {
            let mut j: usize = 0;
            while j < cols
                invariant
                    rows == self.rows_s(false),
                    cols == self.cols_s(false),
                    rows == rhs.rows_s(false),
                    cols == rhs.cols_s(false),
                    forall|a: &T, b: &T| #[trigger] pred.requires((a, b)),
                    i < rows,
                    j <= cols,
                    forall|a: int, b: int|
                        0 <= b < cols && (a < i || (a == i && b < j)) && 0 <= a ==> #[trigger] pred.ensures(
                            (&self.at_s(a, b, false), &rhs.at_s(a, b, false)),
                            true,
                        ),
                decreases cols - j,
            {
                if !pred(self.att(i, j, false), rhs.att(i, j, false)) {
                    return false;
                }
                j += 1;
            }
            i += 1;
        }
        true
    }
}

impl<T: PartialEq> PartialEq for RawGrid<T> {
    fn eq(&self, other: &Self) -> (r: bool) {
        let rows = self.rows(false);
        let cols = self.cols(false);
        if rows != other.rows(false) || cols != other.cols(false) {
            return false;
        }
        let mut i: usize = 0;
        while i < rows
            invariant
                rows == self.rows_s(false),
                cols == self.cols_s(false),
                rows == other.rows_s(false),
                cols == other.cols_s(false),
                i <= rows,
                T::obeys_eq_spec() ==> forall|a: int, b: int|
                    0 <= a < i && 0 <= b < cols ==> #[trigger] self.at_s(a, b, false).eq_spec(&other.at_s(a, b, false)),
            decreases rows - i,
        {
            let mut j: usize = 0;
            while j < cols
                invariant
                    rows == self.rows_s(false),
                    cols == self.cols_s(false),
                    rows == other.rows_s(false),
                    cols == other.cols_s(false),
                    i < rows,
                    j <= cols,
                    T::obeys_eq_spec() ==> forall|a: int, b: int|
                        0 <= b < cols && (a < i || (a == i && b < j)) && 0 <= a
                            ==> #[trigger] self.at_s(a, b, false).eq_spec(&other.at_s(a, b, false)),
                decreases cols - j,
            {
                if !self.att(i, j, false).eq(other.att(i, j, false)) {
                    return false;
                }
                j += 1;
            }
            i += 1;
        }
        true
    }
}

impl<T: PartialEq> vstd::std_specs::cmp::PartialEqSpecImpl for RawGrid<T> {
    open spec fn obeys_eq_spec() -> bool {
        <T as PartialEqSpec>::obeys_eq_spec()
    }

    open spec fn eq_spec(&self, other: &RawGrid<T>) -> bool {
        self.same_as(other)
    }
}

} // verus!
