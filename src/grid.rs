//! Square grids as sequences of rows: minors and the cofactor-expansion
//! determinant.
use vstd::prelude::*;
use crate::num::Num;

verus! {

/// The rows of a vector of vectors, as sequences.
pub open spec fn deep<T>(s: Seq<Vec<T>>) -> Seq<Seq<T>> {
    Seq::new(s.len(), |i: int| s[i]@)
}

/// Every row of `s` has as many elements as `s` has rows.
pub open spec fn is_square<T>(s: Seq<Seq<T>>) -> bool {
    forall|i: int| 0 <= i < s.len() ==> #[trigger] s[i].len() == s.len()
}

/// `s` without row `i` and without column `j`.
pub open spec fn minus_row_col<T>(s: Seq<Seq<T>>, i: int, j: int) -> Seq<Seq<T>> {
    Seq::new((s.len() - 1) as nat, |a: int| if a < i { s[a].remove(j) } else { s[a + 1].remove(j) })
}

/// The determinant of a square grid, by expansion along its first row; the
/// empty grid has determinant one.
pub open spec fn det<T: Num>(s: Seq<Seq<T>>) -> T
    decreases s.len(), 1int,
{
    if s.len() == 0 {
        T::one_s()
    } else {
        laplace(s, s.len() as int)
    }
}

/// The sum of the first `k` signed terms of the first-row expansion of `s`:
/// the term of column `j` is `s[0][j]` times the determinant of the minor of
/// `(0, j)`, added for an even `j` and subtracted for an odd one.
pub open spec fn laplace<T: Num>(s: Seq<Seq<T>>, k: int) -> T
    decreases s.len(), 0int, k,
{
    if k <= 0 || s.len() == 0 {
        T::zero_s()
    } else {
        let acc = laplace(s, k - 1);
        let p = T::mul_s(s[0][k - 1], det(minus_row_col(s, 0, k - 1)));
        if (k - 1) % 2 == 0 {
            T::add_s(acc, p)
        } else {
            T::sub_s(acc, p)
        }
    }
}

/// The signed cofactor of `(i, j)` in `s`.
pub open spec fn cofactor<T: Num>(s: Seq<Seq<T>>, i: int, j: int) -> T {
    let m = det(minus_row_col(s, i, j));
    if (i + j) % 2 == 0 {
        m
    } else {
        T::neg_s(m)
    }
}

/// A copy of `s` without row `i` and column `j`.
pub fn without<T: Copy>(s: &Vec<Vec<T>>, i: usize, j: usize) -> (r: Vec<Vec<T>>)
    requires
        i < s.len(),
        is_square(deep(s@)),
        j < s.len(),
    ensures
        deep(r@) == minus_row_col(deep(s@), i as int, j as int),
{
    let ghost d = deep(s@);
    let n = s.len();
    let mut out: Vec<Vec<T>> = Vec::new();
    let mut a: usize = 0;
    while a < n
        invariant
            n == s.len(),
            d == deep(s@),
            is_square(d),
            i < n,
            j < n,
            a <= n,
            out.len() == if a <= i { a as int } else { a - 1 },
            forall|b: int|
                0 <= b < out.len() ==> #[trigger] out@[b]@ == (if b < i { d[b].remove(j as int) } else { d[b + 1].remove(j as int) }),
        decreases n - a,
    {
        if a != i {
            let mut row: Vec<T> = Vec::new();
            let mut b: usize = 0;
            while b < n
                invariant
                    n == s.len(),
                    d == deep(s@),
                    is_square(d),
                    a < n,
                    j < n,
                    b <= n,
                    row@ == (if b <= j {
                        d[a as int].subrange(0, b as int)
                    } else {
                        d[a as int].subrange(0, b as int).remove(j as int)
                    }),
                decreases n - b,
            {
                if b != j {
                    row.push(s[a][b]);
                }
                proof {
                    assert(d[a as int].subrange(0, b + 1) =~= d[a as int].subrange(0, b as int).push(d[a as int][b as int]));
                    if b > j {
                        assert(d[a as int].subrange(0, b + 1).remove(j as int) =~= d[a as int].subrange(0, b as int).remove(j as int).push(d[a as int][b as int]));
                    }
                }
                b += 1;
            }
            assert(d[a as int].subrange(0, n as int) =~= d[a as int]);
            out.push(row);
        }
        a += 1;
    }
    proof {
        assert(deep(out@) =~= minus_row_col(d, i as int, j as int));
    }
    out
}

/// The determinant of the square grid `s`, by recursive expansion along the
/// first row.
pub fn minor<T: Num>(s: &Vec<Vec<T>>) -> (r: T)
    requires
        is_square(deep(s@)),
    ensures
        r == det(deep(s@)),
    decreases s.len(),
{
    let ghost d = deep(s@);
    let n = s.len();
    if n == 0 {
        return T::one();
    }
    let mut acc = T::zero();
    let mut k: usize = 0;
    while k < n
        invariant
            n == s.len(),
            n > 0,
            d == deep(s@),
            is_square(d),
            k <= n,
            acc == laplace(d, k as int),
        decreases n - k,
    {
        let sub = without(s, 0, k);
        assert(is_square(deep(sub@)));
        assert(deep(sub@).len() == sub@.len());
        let m = minor(&sub);
        let p = s[0][k].mul(m);
        if k % 2 == 0 {
            acc = acc.add(p);
        } else {
            acc = acc.sub(p);
        }
        k += 1;
    }
    acc
}


/// A square grid with a row of zeros has determinant zero.
pub proof fn lemma_zero_row_det<T: Num>(s: Seq<Seq<T>>, i: int)
    requires
        is_square(s),
        0 <= i < s.len(),
        forall|j: int| 0 <= j < s.len() ==> #[trigger] s[i][j] == T::zero_s(),
    ensures
        det(s) == T::zero_s(),
    decreases s.len(), 1int,
{
    lemma_laplace_zero_row(s, i, s.len() as int);
}

/// Every partial first-row expansion of a grid with a row of zeros is zero.
proof fn lemma_laplace_zero_row<T: Num>(s: Seq<Seq<T>>, i: int, k: int)
    requires
        is_square(s),
        0 <= i < s.len(),
        forall|j: int| 0 <= j < s.len() ==> #[trigger] s[i][j] == T::zero_s(),
        0 <= k <= s.len(),
    ensures
        laplace(s, k) == T::zero_s(),
    decreases s.len(), 0int, k,
{
    if k > 0 {
        lemma_laplace_zero_row(s, i, k - 1);
        let sub = minus_row_col(s, 0, k - 1);
        T::lemma_identities(T::zero_s());
        if i == 0 {
            T::lemma_identities(det(sub));
        } else {
            assert(is_square(sub));
            assert forall|j: int| 0 <= j < sub.len() implies #[trigger] sub[i - 1][j] == T::zero_s() by {
                assert(sub[i - 1] == s[i].remove(k - 1));
                if j < k - 1 {
                    assert(sub[i - 1][j] == s[i][j]);
                } else {
                    assert(sub[i - 1][j] == s[i][j + 1]);
                }
            }
            lemma_zero_row_det(sub, i - 1);
            T::lemma_identities(s[0][k - 1]);
        }
    }
}


/// `s` is the identity grid: ones on the diagonal, zeros elsewhere.
pub open spec fn is_identity_grid<T: Num>(s: Seq<Seq<T>>) -> bool {
    &&& is_square(s)
    &&& forall|i: int, j: int|
        0 <= i < s.len() && 0 <= j < s.len() ==> #[trigger] s[i][j] == if i == j {
            T::one_s()
        } else {
            T::zero_s()
        }
}

/// The identity grid has determinant one.
pub proof fn lemma_identity_det<T: Num>(s: Seq<Seq<T>>)
    requires
        is_identity_grid(s),
    ensures
        det(s) == T::one_s(),
    decreases s.len(), 1int,
{
    if s.len() > 0 {
        lemma_laplace_identity(s, s.len() as int);
    }
}

/// Past the first column, the first-row expansion of the identity grid is
/// one.
proof fn lemma_laplace_identity<T: Num>(s: Seq<Seq<T>>, k: int)
    requires
        is_identity_grid(s),
        1 <= k <= s.len(),
    ensures
        laplace(s, k) == T::one_s(),
    decreases s.len(), 0int, k,
{
    T::lemma_identities(T::zero_s());
    T::lemma_identities(T::one_s());
    let sub = minus_row_col(s, 0, k - 1);
    if k == 1 {
        assert(is_identity_grid(sub)) by {
            assert forall|a: int, b: int| 0 <= a < sub.len() && 0 <= b < sub.len() implies #[trigger] sub[a][b] == if a == b {
                T::one_s()
            } else {
                T::zero_s()
            } by {
                assert(sub[a][b] == s[a + 1][b + 1]);
            }
        }
        lemma_identity_det(sub);
        assert(laplace(s, 0) == T::zero_s());
    } else {
        lemma_laplace_identity(s, k - 1);
        T::lemma_identities(det(sub));
        assert(s[0][k - 1] == T::zero_s());
    }
}


/// A two-by-two grid whose two rows are equal has determinant zero.
pub proof fn lemma_equal_rows_det_two<T: Num>(s: Seq<Seq<T>>)
    requires
        is_square(s),
        s.len() == 2,
        s[0] == s[1],
    ensures
        det(s) == T::zero_s(),
{
    let a = s[0][0];
    let b = s[0][1];
    T::lemma_identities(a);
    T::lemma_identities(b);
    T::lemma_identities(T::mul_s(a, b));
    T::lemma_commute(a, b);
    T::lemma_commute(T::mul_s(a, b), T::mul_s(a, b));
    let m0 = minus_row_col(s, 0, 0);
    let m1 = minus_row_col(s, 0, 1);
    assert(m0[0] =~= seq![b]);
    assert(m1[0] =~= seq![a]);
    let e0 = minus_row_col(m0, 0, 0);
    let e1 = minus_row_col(m1, 0, 0);
    assert(e0 =~= Seq::<Seq<T>>::empty());
    assert(e1 =~= Seq::<Seq<T>>::empty());
    assert(det(e0) == T::one_s());
    assert(det(e1) == T::one_s());
    assert(laplace(m0, 0) == T::zero_s());
    assert(laplace(m1, 0) == T::zero_s());
    assert(det(m0) == laplace(m0, 1));
    assert(det(m0) == b);
    assert(det(m1) == a);
    assert(laplace(s, 0) == T::zero_s());
    assert(laplace(s, 1) == T::mul_s(a, b));
    assert(laplace(s, 2) == T::sub_s(T::mul_s(a, b), T::mul_s(b, a)));
}

} // verus!
