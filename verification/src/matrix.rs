//! Dense integer matrices and the diffusion accumulator.
//!
//! The engine scales the adjacency matrix by the rational factor
//! `q = 1 / lambda_max` and sums its first `T` powers.  With every
//! rational written over a common denominator, that whole computation
//! is integer arithmetic: a scaled matrix is an `i128` numerator matrix
//! together with one denominator, and after `t` steps the accumulator's
//! denominator is `p^t`.  Each executable operation here returns `None`
//! exactly when some intermediate value leaves the `i128` range, which
//! the engine reports as a numeric error.

use vstd::prelude::*;

verus! {

/// The mathematical row a sequence of `i128` stands for.
pub open spec fn row_view(r: Seq<i128>) -> Seq<int> {
    Seq::new(r.len(), |j: int| r[j] as int)
}

/// The mathematical matrix a vector of `i128` rows stands for.
pub open spec fn mat_view(m: Seq<Vec<i128>>) -> Seq<Seq<int>> {
    Seq::new(m.len(), |i: int| row_view(m[i]@))
}

/// An `n` by `n` matrix of unbounded integers.
pub open spec fn mat_wf(m: Seq<Seq<int>>, n: nat) -> bool {
    m.len() == n && forall|i: int| 0 <= i < n ==> (#[trigger] m[i]).len() == n
}

/// Partial dot product of row `i` of `a` with column `j` of `b`:
/// the sum over `t < k` of `a[i][t] * b[t][j]`.
pub open spec fn mm_part(a: Seq<Seq<int>>, b: Seq<Seq<int>>, i: int, j: int, k: int) -> int
    decreases k,
{
    if k <= 0 {
        0
    } else {
        mm_part(a, b, i, j, k - 1) + a[i][k - 1] * b[k - 1][j]
    }
}

/// One summand of the dot product: `a[i][k] * b[k][j]`.
pub open spec fn prod_at(a: Seq<Seq<int>>, b: Seq<Seq<int>>, i: int, j: int, k: int) -> int {
    a[i][k] * b[k][j]
}

/// The matrix product of two `n` by `n` matrices.
pub open spec fn mat_mul_s(a: Seq<Seq<int>>, b: Seq<Seq<int>>, n: nat) -> Seq<Seq<int>> {
    Seq::new(n, |i: int| Seq::new(n, |j: int| mm_part(a, b, i, j, n as int)))
}

/// `m` with `c` added to every diagonal entry.
pub open spec fn add_diag_s(m: Seq<Seq<int>>, c: int, n: nat) -> Seq<Seq<int>> {
    Seq::new(n, |i: int| Seq::new(n, |j: int| if i == j { m[i][j] + c } else { m[i][j] }))
}

/// The `n` by `n` zero matrix.
pub open spec fn zero_mat_s(n: nat) -> Seq<Seq<int>> {
    Seq::new(n, |i: int| Seq::new(n, |j: int| 0))
}

/// `p` raised to the power `t`.
pub open spec fn pow_int(p: int, t: nat) -> int
    decreases t,
{
    if t == 0 {
        1
    } else {
        p * pow_int(p, (t - 1) as nat)
    }
}

/// Partial row sum: the sum of the first `k` entries of `r`.
pub open spec fn row_sum_part(r: Seq<int>, k: int) -> int
    decreases k,
{
    if k <= 0 {
        0
    } else {
        row_sum_part(r, k - 1) + r[k - 1]
    }
}

/// Whether an unbounded integer fits in `i128`.
pub open spec fn in_i128(x: int) -> bool {
    i128::MIN <= x <= i128::MAX
}

/// A diagonal entry of `m` shifted by `c`.
pub open spec fn diag_shift(m: Seq<Seq<int>>, c: int, i: int) -> int {
    m[i][i] + c
}

/// Every intermediate value of the product `a * b` — each summand and
/// each partial dot product — fits in `i128`.
pub open spec fn mm_fits(a: Seq<Seq<int>>, b: Seq<Seq<int>>, n: nat) -> bool {
    &&& forall|i: int, j: int, k: int|
        0 <= i < n && 0 <= j < n && 0 <= k < n ==> in_i128(#[trigger] prod_at(a, b, i, j, k))
    &&& forall|i: int, j: int, k: int|
        0 <= i < n && 0 <= j < n && 1 <= k <= n ==> in_i128(#[trigger] mm_part(a, b, i, j, k))
}

/// Every shifted diagonal entry fits in `i128`.
pub open spec fn add_diag_fits(m: Seq<Seq<int>>, c: int, n: nat) -> bool {
    forall|i: int| 0 <= i < n ==> in_i128(#[trigger] diag_shift(m, c, i))
}

/// Every partial sum of the first `n` entries of row `r` fits in `i128`.
pub open spec fn row_fits(r: Seq<int>, n: nat) -> bool {
    forall|k: int| 1 <= k <= n ==> in_i128(#[trigger] row_sum_part(r, k))
}

/// Every partial row sum of `m` fits in `i128`.
pub open spec fn rows_fit(m: Seq<Seq<int>>, n: nat) -> bool {
    forall|i: int| 0 <= i < n ==> row_fits(#[trigger] m[i], n)
}

/// The diffusion accumulator after `t` steps, as numerators over the
/// common denominator `p^t`: with `B = b / p` the scaled adjacency,
/// `acc_s(b, p, n, t) / p^t` equals the sum of `B^1` through `B^t`.
/// It obeys `acc_t = b * (acc_{t-1} + p^{t-1} * I)`.
pub open spec fn acc_s(b: Seq<Seq<int>>, p: int, n: nat, t: nat) -> Seq<Seq<int>>
    decreases t,
{
    if t == 0 {
        zero_mat_s(n)
    } else {
        mat_mul_s(
            b,
            add_diag_s(acc_s(b, p, n, (t - 1) as nat), pow_int(p, (t - 1) as nat), n),
            n,
        )
    }
}

/// Every intermediate value of the first `t` accumulator steps fits in
/// `i128`: each diagonal shift, each product entry, and each power of
/// the common denominator.
pub open spec fn acc_fits(b: Seq<Seq<int>>, p: int, n: nat, t: nat) -> bool {
    forall|s: nat|
        s < t ==> {
            &&& add_diag_fits(#[trigger] acc_s(b, p, n, s), pow_int(p, s), n)
            &&& mm_fits(b, add_diag_s(acc_s(b, p, n, s), pow_int(p, s), n), n)
            &&& in_i128(pow_int(p, (s + 1) as nat))
        }
}

/// The `n` by `n` zero matrix, as executable data.
pub fn zero_mat(n: usize) -> (r: Vec<Vec<i128>>)
    ensures
        mat_view(r@) == zero_mat_s(n as nat),
        mat_wf(mat_view(r@), n as nat),
{
    let mut m: Vec<Vec<i128>> = Vec::new();
    for i in 0..n
        invariant
            m.len() == i,
            forall|a: int, b: int|
                0 <= a < i && 0 <= b < n ==> (#[trigger] m@[a]@[b]) == 0i128,
            forall|a: int| 0 <= a < i ==> (#[trigger] m@[a])@.len() == n,
    {
        let mut row: Vec<i128> = Vec::new();
        for j in 0..n
            invariant
                row.len() == j,
                forall|b: int| 0 <= b < j ==> (#[trigger] row@[b]) == 0i128,
        {
            row.push(0);
        }
        m.push(row);
    }
    assert forall|i: int| 0 <= i < n implies (#[trigger] mat_view(m@)[i]) =~= zero_mat_s(
        n as nat,
    )[i] by {
        assert(forall|b: int| 0 <= b < n ==> (#[trigger] row_view(m@[i]@)[b]) == m@[i]@[b] as int);
    }
    assert(mat_view(m@) =~= zero_mat_s(n as nat));
    m
}

/// The matrix product `a * b`, or `None` exactly when some summand or
/// partial dot product leaves the `i128` range.
pub fn mat_mul(a: &Vec<Vec<i128>>, b: &Vec<Vec<i128>>, n: usize) -> (r: Option<Vec<Vec<i128>>>)
    requires
        mat_wf(mat_view(a@), n as nat),
        mat_wf(mat_view(b@), n as nat),
    ensures
        match r {
            Some(c) => {
                &&& mat_view(c@) == mat_mul_s(mat_view(a@), mat_view(b@), n as nat)
                &&& mat_wf(mat_view(c@), n as nat)
                &&& mm_fits(mat_view(a@), mat_view(b@), n as nat)
            },
            None => !mm_fits(mat_view(a@), mat_view(b@), n as nat),
        },
{
    let ghost av = mat_view(a@);
    let ghost bv = mat_view(b@);
    let mut c: Vec<Vec<i128>> = Vec::new();
    for i in 0..n
        invariant
            mat_wf(av, n as nat),
            mat_wf(bv, n as nat),
            av == mat_view(a@),
            bv == mat_view(b@),
            c.len() == i,
            forall|x: int| 0 <= x < i ==> (#[trigger] c@[x])@.len() == n,
            forall|x: int, y: int|
                0 <= x < i && 0 <= y < n ==> c@[x]@[y] as int == #[trigger] mm_part(
                    av,
                    bv,
                    x,
                    y,
                    n as int,
                ),
            forall|x: int, y: int, k: int|
                0 <= x < i && 0 <= y < n && 0 <= k < n ==> in_i128(
                    #[trigger] prod_at(av, bv, x, y, k),
                ),
            forall|x: int, y: int, k: int|
                0 <= x < i && 0 <= y < n && 1 <= k <= n ==> in_i128(
                    #[trigger] mm_part(av, bv, x, y, k),
                ),
    {
        let mut row: Vec<i128> = Vec::new();
        for j in 0..n
            invariant
                mat_wf(av, n as nat),
                mat_wf(bv, n as nat),
                av == mat_view(a@),
                bv == mat_view(b@),
                0 <= i < n,
                row.len() == j,
                forall|y: int|
                    0 <= y < j ==> row@[y] as int == #[trigger] mm_part(av, bv, i as int, y, n as int),
                forall|y: int, k: int|
                    0 <= y < j && 0 <= k < n ==> in_i128(#[trigger] prod_at(av, bv, i as int, y, k)),
                forall|y: int, k: int|
                    0 <= y < j && 1 <= k <= n ==> in_i128(#[trigger] mm_part(av, bv, i as int, y, k)),
        {
            let mut acc: i128 = 0;
            let mut k: usize = 0;
            while k < n
                invariant
                    mat_wf(av, n as nat),
                    mat_wf(bv, n as nat),
                    av == mat_view(a@),
                    bv == mat_view(b@),
                    0 <= i < n,
                    0 <= j < n,
                    k <= n,
                    acc == mm_part(av, bv, i as int, j as int, k as int),
                    forall|t: int|
                        0 <= t < k ==> in_i128(#[trigger] prod_at(av, bv, i as int, j as int, t)),
                    forall|t: int|
                        1 <= t <= k ==> in_i128(#[trigger] mm_part(av, bv, i as int, j as int, t)),
                decreases n - k,
            {
                assert(av[i as int] == row_view(a@[i as int]@));
                assert(bv[k as int] == row_view(b@[k as int]@));
                assert(av[i as int][k as int] == a@[i as int]@[k as int] as int);
                assert(bv[k as int][j as int] == b@[k as int]@[j as int] as int);
                let prod = match a[i][k].checked_mul(b[k][j]) {
                    Some(v) => v,
                    None => {
                        assert(!in_i128(prod_at(av, bv, i as int, j as int, k as int)));
                        return None;
                    },
                };
                let next = match acc.checked_add(prod) {
                    Some(v) => v,
                    None => {
                        assert(!in_i128(mm_part(av, bv, i as int, j as int, k as int + 1)));
                        return None;
                    },
                };
                acc = next;
                k = k + 1;
            }
            row.push(acc);
        }
        c.push(row);
    }
    assert forall|x: int| 0 <= x < n implies (#[trigger] mat_view(c@)[x]) =~= mat_mul_s(
        av,
        bv,
        n as nat,
    )[x] by {
        assert(forall|y: int| 0 <= y < n ==> (#[trigger] row_view(c@[x]@)[y]) == c@[x]@[y] as int);
    }
    assert(mat_view(c@) =~= mat_mul_s(av, bv, n as nat));
    Some(c)
}

/// `m` with `c` added to every diagonal entry, or `None` exactly when
/// some shifted diagonal entry leaves the `i128` range.
pub fn add_diag(m: &Vec<Vec<i128>>, c: i128, n: usize) -> (r: Option<Vec<Vec<i128>>>)
    requires
        mat_wf(mat_view(m@), n as nat),
    ensures
        match r {
            Some(d) => {
                &&& mat_view(d@) == add_diag_s(mat_view(m@), c as int, n as nat)
                &&& mat_wf(mat_view(d@), n as nat)
                &&& add_diag_fits(mat_view(m@), c as int, n as nat)
            },
            None => !add_diag_fits(mat_view(m@), c as int, n as nat),
        },
{
    let ghost mv = mat_view(m@);
    let mut d: Vec<Vec<i128>> = Vec::new();
    for i in 0..n
        invariant
            mat_wf(mv, n as nat),
            mv == mat_view(m@),
            d.len() == i,
            forall|x: int| 0 <= x < i ==> (#[trigger] d@[x])@.len() == n,
            forall|x: int, y: int|
                0 <= x < i && 0 <= y < n && x != y ==> d@[x]@[y] as int == mv[x][y],
            forall|x: int|
                0 <= x < i ==> d@[x]@[x] as int == #[trigger] diag_shift(mv, c as int, x),
            forall|x: int| 0 <= x < i ==> in_i128(#[trigger] diag_shift(mv, c as int, x)),
    {
        let mut row: Vec<i128> = Vec::new();
        for j in 0..n
            invariant
                mat_wf(mv, n as nat),
                mv == mat_view(m@),
                0 <= i < n,
                row.len() == j,
                forall|y: int| 0 <= y < j && y != i ==> row@[y] as int == mv[i as int][y],
                j > i ==> row@[i as int] as int == diag_shift(mv, c as int, i as int),
                j > i ==> in_i128(diag_shift(mv, c as int, i as int)),
        {
            assert(mv[i as int] == row_view(m@[i as int]@));
            assert(mv[i as int][j as int] == m@[i as int]@[j as int] as int);
            if i == j {
                let shifted = match m[i][j].checked_add(c) {
                    Some(v) => v,
                    None => {
                        assert(!in_i128(diag_shift(mv, c as int, i as int)));
                        return None;
                    },
                };
                row.push(shifted);
            } else {
                row.push(m[i][j]);
            }
        }
        d.push(row);
    }
    assert forall|x: int| 0 <= x < n implies (#[trigger] mat_view(d@)[x]) =~= add_diag_s(
        mv,
        c as int,
        n as nat,
    )[x] by {
        assert(forall|y: int| 0 <= y < n ==> (#[trigger] row_view(d@[x]@)[y]) == d@[x]@[y] as int);
        assert(d@[x]@[x] as int == diag_shift(mv, c as int, x));
        assert(forall|y: int| 0 <= y < n && y != x ==> #[trigger] d@[x]@[y] as int == mv[x][y]);
        assert(forall|y: int|
            0 <= y < n ==> (#[trigger] add_diag_s(mv, c as int, n as nat)[x][y]) == if x == y {
                mv[x][y] + c
            } else {
                mv[x][y]
            });
    }
    assert(mat_view(d@) =~= add_diag_s(mv, c as int, n as nat));
    Some(d)
}

/// The sum of each of the `n` rows of `m`, or `None` exactly when some
/// partial row sum leaves the `i128` range.
pub fn row_sums(m: &Vec<Vec<i128>>, n: usize) -> (r: Option<Vec<i128>>)
    requires
        mat_wf(mat_view(m@), n as nat),
    ensures
        match r {
            Some(s) => {
                &&& s.len() == n
                &&& forall|i: int|
                    0 <= i < n ==> s@[i] as int == #[trigger] row_sum_part(mat_view(m@)[i], n as int)
                &&& rows_fit(mat_view(m@), n as nat)
            },
            None => !rows_fit(mat_view(m@), n as nat),
        },
{
    let ghost mv = mat_view(m@);
    let mut s: Vec<i128> = Vec::new();
    for i in 0..n
        invariant
            mat_wf(mv, n as nat),
            mv == mat_view(m@),
            s.len() == i,
            forall|x: int| 0 <= x < i ==> s@[x] as int == #[trigger] row_sum_part(mv[x], n as int),
            forall|x: int| 0 <= x < i ==> row_fits(#[trigger] mv[x], n as nat),
    {
        let mut acc: i128 = 0;
        let mut k: usize = 0;
        while k < n
            invariant
                mat_wf(mv, n as nat),
                mv == mat_view(m@),
                0 <= i < n,
                k <= n,
                acc == row_sum_part(mv[i as int], k as int),
                forall|t: int| 1 <= t <= k ==> in_i128(#[trigger] row_sum_part(mv[i as int], t)),
            decreases n - k,
        {
            assert(mv[i as int] == row_view(m@[i as int]@));
            assert(mv[i as int][k as int] == m@[i as int]@[k as int] as int);
            let next = match acc.checked_add(m[i][k]) {
                Some(v) => v,
                None => {
                    assert(!in_i128(row_sum_part(mv[i as int], k as int + 1)));
                    assert(!row_fits(mv[i as int], n as nat));
                    return None;
                },
            };
            acc = next;
            k = k + 1;
        }
        s.push(acc);
    }
    Some(s)
}

} // verus!
