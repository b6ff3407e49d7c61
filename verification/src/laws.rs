//! The laws of the score table, proved once and for all.
//!
//! Each public proof function here states a property that relates the
//! engine's contracts to each other: the shape of the result as a
//! nested node-to-node mapping, how a row's off-diagonal mass sums up,
//! what a single diffusion step yields, and how the table reacts to a
//! uniform scaling of the eigenvalue spectrum.

use vstd::prelude::*;

use crate::engine::{
    common_den, h_matrix, lam_max_s, q_of, scaled_nums, AdjacencyMatrix, CentralityResult,
};
use crate::matrix::{
    acc_s, add_diag_s, mat_mul_s, mat_wf, mm_part, pow_int, row_sum_part, zero_mat_s,
};
use crate::rational::{frac_add, frac_eq, frac_lt, frac_mul, Frac};

verus! {

/// The table as a nested mapping: outer key a node identifier, inner
/// mapping from node identifier to score.
pub open spec fn result_map(r: CentralityResult) -> Map<Seq<char>, Map<Seq<char>, Frac>> {
    Map::new(
        |k: Seq<char>| r.ids.deep_view().contains(k),
        |k: Seq<char>| result_inner_map(r, r.ids.deep_view().index_of(k)),
    )
}

/// The inner mapping of row `i`: each node identifier to the score
/// from node `i` to it.
pub open spec fn result_inner_map(r: CentralityResult, i: int) -> Map<Seq<char>, Frac> {
    Map::new(
        |k: Seq<char>| r.ids.deep_view().contains(k),
        |k: Seq<char>| r.scores@[i]@[r.ids.deep_view().index_of(k)]@,
    )
}

/// Law: a well-formed `n`-node table, read as a nested mapping, has
/// exactly `n` outer keys — the node identifiers — and each inner
/// mapping has exactly those same `n` keys.
pub proof fn lemma_result_key_counts(r: CentralityResult, n: nat)
    requires
        r.wf(n),
        r.ids.deep_view().no_duplicates(),
    ensures
        result_map(r).dom().finite(),
        result_map(r).dom().len() == n,
        result_map(r).dom() == r.ids.deep_view().to_set(),
        forall|k: Seq<char>|
            result_map(r).dom().contains(k) ==> (#[trigger] result_map(r)[k]).dom()
                == r.ids.deep_view().to_set(),
{
    broadcast use vstd::seq_lib::seq_to_set_is_finite;

    let ids = r.ids.deep_view();
    assert(result_map(r).dom() =~= ids.to_set());
    ids.unique_seq_to_set();
    assert forall|k: Seq<char>| result_map(r).dom().contains(k) implies (#[trigger] result_map(
        r,
    )[k]).dom() == ids.to_set() by {
        assert(result_map(r)[k] == result_inner_map(r, ids.index_of(k)));
        assert(result_map(r)[k].dom() =~= ids.to_set());
    }
}

/// The sum of the first `k` entries of `row`, skipping index `d`.
pub open spec fn off_diag_sum(row: Seq<int>, d: int, k: int) -> int
    decreases k,
{
    if k <= 0 {
        0
    } else {
        off_diag_sum(row, d, k - 1) + if k - 1 == d {
            0
        } else {
            row[k - 1]
        }
    }
}

/// The two partial sums differ exactly by the diagonal entry, once the
/// sum has passed it.
proof fn lemma_off_diag_sum_part(row: Seq<int>, d: int, k: int)
    requires
        0 <= d < row.len(),
        0 <= k <= row.len(),
    ensures
        off_diag_sum(row, d, k) == row_sum_part(row, k) - if d < k {
            row[d]
        } else {
            0
        },
    decreases k,
{
    if k > 0 {
        lemma_off_diag_sum_part(row, d, k - 1);
    }
}

/// The exact rational sum of the fractions `row[j] / den` over
/// `j < k`: the raw rational row sum of a common-denominator row.
pub open spec fn frac_row_sum(row: Seq<int>, den: int, k: int) -> Frac
    decreases k,
{
    if k <= 0 {
        Frac { num: 0, den: 1 }
    } else {
        frac_add(frac_row_sum(row, den, k - 1), Frac { num: row[k - 1], den })
    }
}

/// The exact rational sum of the fractions `row[j] / den` over
/// `j < k` skipping `j == d`: the sum of a row's off-diagonal scores
/// when `den` is the row sum.
pub open spec fn frac_off_diag_sum(row: Seq<int>, d: int, den: int, k: int) -> Frac
    decreases k,
{
    if k <= 0 {
        Frac { num: 0, den: 1 }
    } else if k - 1 == d {
        frac_off_diag_sum(row, d, den, k - 1)
    } else {
        frac_add(frac_off_diag_sum(row, d, den, k - 1), Frac { num: row[k - 1], den })
    }
}

/// Adding one more fraction with the common denominator keeps the
/// accumulated sum equal in value to its summed numerators.
proof fn lemma_frac_fold_step(s: Frac, partial: int, x: int, den: int)
    requires
        s.den != 0,
        den != 0,
        frac_eq(s, Frac { num: partial, den }),
    ensures
        frac_add(s, Frac { num: x, den }).den != 0,
        frac_eq(frac_add(s, Frac { num: x, den }), Frac { num: partial + x, den }),
{
    assert(s.den * den != 0) by (nonlinear_arith)
        requires
            s.den != 0,
            den != 0,
    ;
    assert((s.num * den + x * s.den) * den == (partial + x) * (s.den * den)) by (nonlinear_arith)
        requires
            s.num * den == partial * s.den,
    ;
}

/// Law: the raw rational sum of a common-denominator row equals the
/// single fraction of its summed numerators — in particular, the
/// diagonal score `rowsum_num / p^T` is exactly the raw row sum of
/// the diffusion matrix's rational entries.
pub proof fn lemma_diagonal_is_raw_row_sum(row: Seq<int>, den: int, n: int)
    requires
        den != 0,
        0 <= n <= row.len(),
    ensures
        frac_row_sum(row, den, n).den != 0,
        frac_eq(frac_row_sum(row, den, n), Frac { num: row_sum_part(row, n), den }),
    decreases n,
{
    if n <= 0 {
        assert(frac_eq(Frac { num: 0, den: 1 }, Frac { num: 0, den }));
    } else {
        lemma_diagonal_is_raw_row_sum(row, den, n - 1);
        lemma_frac_fold_step(
            frac_row_sum(row, den, n - 1),
            row_sum_part(row, n - 1),
            row[n - 1],
            den,
        );
    }
}

/// The skipping sum, likewise, equals the fraction of its skipped
/// numerator sum.
proof fn lemma_frac_off_diag_sum(row: Seq<int>, d: int, den: int, k: int)
    requires
        den != 0,
        0 <= k <= row.len(),
    ensures
        frac_off_diag_sum(row, d, den, k).den != 0,
        frac_eq(frac_off_diag_sum(row, d, den, k), Frac { num: off_diag_sum(row, d, k), den }),
    decreases k,
{
    if k <= 0 {
        assert(frac_eq(Frac { num: 0, den: 1 }, Frac { num: 0, den }));
    } else {
        lemma_frac_off_diag_sum(row, d, den, k - 1);
        if k - 1 != d {
            lemma_frac_fold_step(
                frac_off_diag_sum(row, d, den, k - 1),
                off_diag_sum(row, d, k - 1),
                row[k - 1],
                den,
            );
        }
    }
}

/// Law: in row `d` of the table, the normalized off-diagonal scores
/// sum to `(rowsum - H[d][d]) / rowsum`.  Every off-diagonal score of
/// the row is the fraction `H[d][j] / rowsum`, so their exact rational
/// sum has the summed numerators over `rowsum`, and that numerator is
/// the row sum minus the diagonal entry of the diffusion matrix.
pub proof fn lemma_off_diagonal_row_mass(row: Seq<int>, d: int, n: int, rs: int)
    requires
        0 <= d < n <= row.len(),
        rs == row_sum_part(row, n),
        rs != 0,
    ensures
        off_diag_sum(row, d, n) == rs - row[d],
        frac_eq(frac_off_diag_sum(row, d, rs, n), Frac { num: rs - row[d], den: rs }),
{
    lemma_off_diag_sum_part(row, d, n);
    lemma_frac_off_diag_sum(row, d, rs, n);
}

/// Multiplying by the identity matrix leaves each entry in place: the
/// partial dot product against the identity column `j` is `b[i][j]`
/// once it has passed index `j`, and zero before.
proof fn lemma_mm_identity_part(b: Seq<Seq<int>>, n: nat, i: int, j: int, k: int)
    requires
        mat_wf(b, n),
        0 <= i < n,
        0 <= j < n,
        0 <= k <= n,
    ensures
        mm_part(b, add_diag_s(zero_mat_s(n), 1, n), i, j, k) == if j < k {
            b[i][j]
        } else {
            0
        },
    decreases k,
{
    if k > 0 {
        lemma_mm_identity_part(b, n, i, j, k - 1);
        let ident = add_diag_s(zero_mat_s(n), 1, n);
        assert(zero_mat_s(n)[k - 1][j] == 0);
        if k - 1 == j {
            assert(ident[k - 1][j] == zero_mat_s(n)[k - 1][j] + 1);
            assert(b[i][k - 1] * ident[k - 1][j] == b[i][j]);
            assert(mm_part(b, ident, i, j, k) == mm_part(b, ident, i, j, k - 1) + b[i][j]);
        } else {
            assert(ident[k - 1][j] == 0);
            assert(b[i][k - 1] * ident[k - 1][j] == 0);
            assert(mm_part(b, ident, i, j, k) == mm_part(b, ident, i, j, k - 1));
        }
    }
}

/// One accumulator step is the scaled matrix itself: `acc_1 = b`.
pub proof fn lemma_depth_one(b: Seq<Seq<int>>, p: int, n: nat)
    requires
        mat_wf(b, n),
    ensures
        forall|i: int, j: int|
            0 <= i < n && 0 <= j < n ==> #[trigger] acc_s(b, p, n, 1)[i][j] == b[i][j],
{
    assert forall|i: int, j: int| 0 <= i < n && 0 <= j < n implies #[trigger] acc_s(
        b,
        p,
        n,
        1,
    )[i][j] == b[i][j] by {
        lemma_mm_identity_part(b, n, i, j, n as int);
        assert(acc_s(b, p, n, 0) == zero_mat_s(n));
        assert(pow_int(p, 0) == 1);
        assert(acc_s(b, p, n, 1) == mat_mul_s(b, add_diag_s(zero_mat_s(n), 1, n), n));
        assert(mat_mul_s(b, add_diag_s(zero_mat_s(n), 1, n), n)[i][j] == mm_part(
            b,
            add_diag_s(zero_mat_s(n), 1, n),
            i,
            j,
            n as int,
        ));
    }
}

/// Law: at depth `T = 1` the diffusion matrix is exactly one step of
/// diffusion, `H = q * adjacency`: each rational entry of `H` is the
/// scaling factor times the matching adjacency weight.
pub proof fn lemma_depth_one_is_scaled_adjacency(adj: AdjacencyMatrix, eigs: Seq<Frac>, n: nat)
    requires
        adj.wf(),
        adj.size == n,
    ensures
        forall|i: int, j: int|
            0 <= i < n && 0 <= j < n ==> (Frac {
                num: #[trigger] h_matrix(adj, eigs, n, 1)[i][j],
                den: common_den(adj, eigs),
            }) == frac_mul(
                q_of(lam_max_s(eigs)),
                Frac { num: adj.nums()[i][j], den: adj.den as int },
            ),
{
    let b = scaled_nums(adj, eigs);
    assert(mat_wf(b, n)) by {
        assert(forall|i: int| 0 <= i < n ==> (#[trigger] b[i]).len() == n);
    }
    lemma_depth_one(b, common_den(adj, eigs), n);
    assert forall|i: int, j: int| 0 <= i < n && 0 <= j < n implies (Frac {
        num: #[trigger] h_matrix(adj, eigs, n, 1)[i][j],
        den: common_den(adj, eigs),
    }) == frac_mul(
        q_of(lam_max_s(eigs)),
        Frac { num: adj.nums()[i][j], den: adj.den as int },
    ) by {
        assert(h_matrix(adj, eigs, n, 1)[i][j] == b[i][j]);
        assert(b[i][j] == q_of(lam_max_s(eigs)).num * adj.nums()[i][j]);
    }
}

/// The spectrum with every eigenvalue doubled.
pub open spec fn doubled(eigs: Seq<Frac>) -> Seq<Frac> {
    eigs.map(|i: int, e: Frac| Frac { num: 2 * e.num, den: e.den })
}

/// Doubling every eigenvalue doubles the largest one.
pub proof fn lemma_lam_max_doubled(eigs: Seq<Frac>)
    requires
        eigs.len() > 0,
    ensures
        lam_max_s(doubled(eigs)) == (Frac {
            num: 2 * lam_max_s(eigs).num,
            den: lam_max_s(eigs).den,
        }),
    decreases eigs.len(),
{
    if eigs.len() == 1 {
        assert(doubled(eigs).len() == 1);
        assert(doubled(eigs)[0] == Frac { num: 2 * eigs[0].num, den: eigs[0].den });
    } else {
        lemma_lam_max_doubled(eigs.drop_last());
        assert(doubled(eigs).drop_last() =~= doubled(eigs.drop_last()));
        assert(doubled(eigs).last() == Frac { num: 2 * eigs.last().num, den: eigs.last().den });
        let r = lam_max_s(eigs.drop_last());
        let l = eigs.last();
        assert((2 * l.num) * r.den == 2 * (l.num * r.den)) by (nonlinear_arith);
        assert((2 * r.num) * l.den == 2 * (r.num * l.den)) by (nonlinear_arith);
        assert(frac_lt(
            Frac { num: 2 * l.num, den: l.den },
            Frac { num: 2 * r.num, den: r.den },
        ) <==> frac_lt(l, r));
    }
}

/// Law (at depth `T = 1`): doubling every eigenvalue halves the
/// scaling factor `q`, which halves every entry of the diffusion
/// matrix before normalization; the normalized off-diagonal scores are
/// unchanged, and the raw-row-sum diagonal scores halve.  At greater
/// depths the powers of `q * adjacency` scale by different factors, so
/// the property holds of a single diffusion step.
pub proof fn lemma_eigenvalue_scaling_depth_one(adj: AdjacencyMatrix, eigs: Seq<Frac>, n: nat)
    requires
        adj.wf(),
        adj.size == n,
        eigs.len() > 0,
        lam_max_s(eigs).num != 0,
    ensures
        q_of(lam_max_s(doubled(eigs))) == (Frac {
            num: q_of(lam_max_s(eigs)).num,
            den: 2 * q_of(lam_max_s(eigs)).den,
        }),
        forall|i: int, j: int|
            0 <= i < n && 0 <= j < n ==> (Frac {
                num: #[trigger] h_matrix(adj, doubled(eigs), n, 1)[i][j],
                den: common_den(adj, doubled(eigs)),
            }) == frac_mul(
                Frac { num: 1, den: 2 },
                Frac { num: h_matrix(adj, eigs, n, 1)[i][j], den: common_den(adj, eigs) },
            ),
        forall|i: int, j: int|
            0 <= i < n && 0 <= j < n && i != j ==> (Frac {
                num: #[trigger] h_matrix(adj, doubled(eigs), n, 1)[i][j],
                den: row_sum_part(h_matrix(adj, doubled(eigs), n, 1)[i], n as int),
            }) == (Frac {
                num: h_matrix(adj, eigs, n, 1)[i][j],
                den: row_sum_part(h_matrix(adj, eigs, n, 1)[i], n as int),
            }),
        forall|i: int|
            0 <= i < n ==> (Frac {
                num: row_sum_part(#[trigger] h_matrix(adj, doubled(eigs), n, 1)[i], n as int),
                den: pow_int(common_den(adj, doubled(eigs)), 1),
            }) == frac_mul(
                Frac { num: 1, den: 2 },
                Frac {
                    num: row_sum_part(h_matrix(adj, eigs, n, 1)[i], n as int),
                    den: pow_int(common_den(adj, eigs), 1),
                },
            ),
{
    lemma_lam_max_doubled(eigs);
    let l = lam_max_s(eigs);
    let l2 = lam_max_s(doubled(eigs));
    let q = q_of(l);
    let q2 = q_of(l2);
    assert(q2 == Frac { num: q.num, den: 2 * q.den });
    let b = scaled_nums(adj, eigs);
    let b2 = scaled_nums(adj, doubled(eigs));
    assert(b2 == b);
    assert(common_den(adj, doubled(eigs)) == 2 * common_den(adj, eigs)) by {
        assert((2 * q.den) * adj.den as int == 2 * (q.den * adj.den as int)) by (nonlinear_arith);
    }
    let p = common_den(adj, eigs);
    let p2 = common_den(adj, doubled(eigs));
    assert(acc_s(b, p, n, 0) == zero_mat_s(n));
    assert(acc_s(b, p2, n, 0) == zero_mat_s(n));
    assert(pow_int(p, 0) == 1);
    assert(pow_int(p2, 0) == 1);
    assert(h_matrix(adj, doubled(eigs), n, 1) == mat_mul_s(
        b,
        add_diag_s(zero_mat_s(n), 1, n),
        n,
    ));
    assert(h_matrix(adj, eigs, n, 1) == mat_mul_s(b, add_diag_s(zero_mat_s(n), 1, n), n));
    assert(h_matrix(adj, doubled(eigs), n, 1) == h_matrix(adj, eigs, n, 1));
    assert(pow_int(common_den(adj, doubled(eigs)), 1) == common_den(adj, doubled(eigs)) * 1);
    assert(pow_int(common_den(adj, eigs), 1) == common_den(adj, eigs) * 1);
}

} // verus!
