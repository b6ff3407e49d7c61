//! The diffusion-centrality engine.
//!
//! `diffusion_centrality` consumes a weighted adjacency matrix, an
//! index/node-id mapping, the configured diffusion depth `T` and the
//! matrix's eigenvalue spectrum, and produces the full table of
//! per-node scores: with `q = 1 / lambda_max` and
//! `H = sum of (q * adjacency)^t for t = 1 .. T`, the score from node
//! `i` to node `j != i` is `H[i][j] / rowsum_i`, and the diagonal entry
//! is the raw row sum `rowsum_i` itself, the node's total diffusive
//! reach.  Every failure — a bad depth option, mismatched dimensions, a
//! zero largest eigenvalue, a zero row sum, or an intermediate value
//! outside the `i128` range — is reported as an explicit error, never
//! as a partial or meaningless table.

use vstd::prelude::*;

use crate::matrix::{
    acc_fits, acc_s, add_diag, add_diag_fits, add_diag_s, in_i128, mat_mul, mat_view, mat_wf,
    mm_fits, pow_int, row_sum_part, row_sums, rows_fit, zero_mat,
};
use crate::rational::{frac_lt, Frac, Rat, Score};

verus! {

/// How a centrality computation can fail.
#[derive(Clone, Copy, Debug, PartialEq, Eq, Structural)]
pub enum CentralityError {
    /// The diffusion depth option is present but zero.
    Configuration,
    /// The adjacency matrix, the index mapping and the eigenvalue
    /// spectrum do not agree on the node count.
    Dimension,
    /// The largest eigenvalue is zero, or some row of the diffusion
    /// matrix sums to zero, so normalization is undefined.
    DegenerateGraph,
    /// An intermediate value left the `i128` range.
    Numeric,
}

/// The configuration mapping of the engine's numeric options.  The one
/// recognized option is the diffusion depth `T`: a positive number of
/// diffusion steps, 5 when absent.
#[derive(Clone, Copy, Debug, PartialEq, Eq, Structural)]
pub struct Parameters {
    /// The diffusion depth option `T`, if set.
    pub t: Option<u32>,
}

impl Parameters {
    /// The depth option is valid when absent or positive.
    pub open spec fn depth_ok(self) -> bool {
        self.t != Some(0u32)
    }

    /// The diffusion depth the engine uses: `T`, or 5 when absent.
    pub open spec fn depth_of(self) -> nat {
        match self.t {
            None => 5,
            Some(v) => v as nat,
        }
    }
}

/// Resolves the diffusion depth from the configuration: the value of
/// `T` (5 when absent), or a configuration error when `T` is present
/// but not positive.
pub fn resolve_depth(params: &Parameters) -> (r: Result<u32, CentralityError>)
    ensures
        (r is Err) <==> !params.depth_ok(),
        r is Err ==> r == Err::<u32, CentralityError>(CentralityError::Configuration),
        r matches Ok(v) ==> v as nat == params.depth_of() && v >= 1,
{
    match params.t {
        None => Ok(5),
        Some(0) => Err(CentralityError::Configuration),
        Some(v) => Ok(v),
    }
}

/// The dense integer range `[0, n)` paired off with the node
/// identifiers of a snapshot: index `i` names node `ids[i]`.
#[derive(Clone, Debug)]
pub struct IndexMapping {
    /// The node identifier of each index, in index order.
    pub ids: Vec<String>,
}

/// The weighted adjacency matrix of a snapshot, as exact rationals over
/// a common denominator: the edge weight from node `i` to node `j` is
/// `entries[i][j] / den`.
#[derive(Clone, Debug)]
pub struct AdjacencyMatrix {
    /// The node count `n`.
    pub size: usize,
    /// The `n` by `n` weight numerators.
    pub entries: Vec<Vec<i64>>,
    /// The positive common denominator of all weights.
    pub den: i64,
}

/// The mathematical matrix a vector of `i64` rows stands for.
pub open spec fn mat_view_i64(m: Seq<Vec<i64>>) -> Seq<Seq<int>> {
    Seq::new(m.len(), |i: int| Seq::new(m[i]@.len(), |j: int| m[i]@[j] as int))
}

impl AdjacencyMatrix {
    /// Well-formed: square of side `size`, with a positive denominator.
    pub open spec fn wf(self) -> bool {
        &&& self.den >= 1
        &&& self.entries.len() == self.size
        &&& forall|i: int| 0 <= i < self.size ==> (#[trigger] self.entries@[i])@.len() == self.size
    }

    /// The weight numerators as unbounded integers.
    pub open spec fn nums(self) -> Seq<Seq<int>> {
        mat_view_i64(self.entries@)
    }

    /// Builds a matrix after validating that the rows form a square of
    /// the given side and that the denominator is positive.
    pub fn new(entries: Vec<Vec<i64>>, den: i64) -> (r: Option<AdjacencyMatrix>)
        ensures
            match r {
                Some(m) => {
                    &&& m.wf()
                    &&& m.size == entries.len()
                    &&& m.entries == entries
                    &&& m.den == den
                },
                None => !(den >= 1 && forall|i: int|
                    0 <= i < entries.len() ==> (#[trigger] entries@[i])@.len() == entries.len()),
            },
    {
        if den < 1 {
            return None;
        }
        let n = entries.len();
        for i in 0..n
            invariant
                n == entries.len(),
                forall|x: int| 0 <= x < i ==> (#[trigger] entries@[x])@.len() == n,
        {
            if entries[i].len() != n {
                return None;
            }
        }
        Some(AdjacencyMatrix { size: n, entries, den })
    }
}

/// The largest eigenvalue of a spectrum, by rational value; the last of
/// equal maxima.  An empty spectrum falls back to one, the engine's
/// documented default for a degenerate or trivial graph.
pub open spec fn lam_max_s(eigs: Seq<Frac>) -> Frac
    decreases eigs.len(),
{
    if eigs.len() == 0 {
        Frac { num: 1, den: 1 }
    } else if eigs.len() == 1 {
        eigs[0]
    } else {
        let rest = lam_max_s(eigs.drop_last());
        let last = eigs.last();
        if frac_lt(last, rest) {
            rest
        } else {
            last
        }
    }
}

/// The scaling factor `q = 1 / lam`, with its denominator kept
/// positive.  Meaningful when `lam.num != 0` and `lam.den > 0`.
pub open spec fn q_of(lam: Frac) -> Frac {
    if lam.num > 0 {
        Frac { num: lam.den, den: lam.num }
    } else {
        Frac { num: -lam.den, den: -lam.num }
    }
}

/// `a` with every entry multiplied by `f`.
pub open spec fn scale_s(a: Seq<Seq<int>>, f: int, n: nat) -> Seq<Seq<int>> {
    Seq::new(n, |i: int| Seq::new(n, |j: int| f * a[i][j]))
}

/// The numerators of the scaled adjacency matrix `q * adjacency`.
pub open spec fn scaled_nums(adj: AdjacencyMatrix, eigs: Seq<Frac>) -> Seq<Seq<int>> {
    scale_s(adj.nums(), q_of(lam_max_s(eigs)).num, adj.size as nat)
}

/// The common denominator of the scaled adjacency matrix.
pub open spec fn common_den(adj: AdjacencyMatrix, eigs: Seq<Frac>) -> int {
    q_of(lam_max_s(eigs)).den * adj.den
}

/// The numerators of the diffusion matrix `H` after `t` steps, over the
/// common denominator `common_den ^ t`.
pub open spec fn h_matrix(adj: AdjacencyMatrix, eigs: Seq<Frac>, n: nat, t: nat) -> Seq<Seq<int>> {
    acc_s(scaled_nums(adj, eigs), common_den(adj, eigs), n, t)
}

/// Every intermediate value of the whole computation fits in `i128`.
pub open spec fn engine_fits(adj: AdjacencyMatrix, eigs: Seq<Frac>, n: nat, t: nat) -> bool {
    &&& acc_fits(scaled_nums(adj, eigs), common_den(adj, eigs), n, t)
    &&& rows_fit(h_matrix(adj, eigs, n, t), n)
}

/// Some row of the diffusion matrix sums to zero, so that row cannot be
/// normalized.
pub open spec fn degenerate_row(adj: AdjacencyMatrix, eigs: Seq<Frac>, n: nat, t: nat) -> bool {
    exists|i: int|
        0 <= i < n && row_sum_part(#[trigger] h_matrix(adj, eigs, n, t)[i], n as int) == 0
}

/// The adjacency matrix, the index mapping and the eigenvalue count all
/// agree on the node count `n`, which is at least one.  An empty
/// spectrum is also accepted: it falls back to a largest eigenvalue of
/// one.
pub open spec fn dims_ok(
    adj: AdjacencyMatrix,
    mapping: IndexMapping,
    eigs: Seq<Frac>,
    n: int,
) -> bool {
    &&& n >= 1
    &&& adj.size == n
    &&& mapping.ids.len() == n
    &&& (eigs.len() == n || eigs.len() == 0)
}

/// The computed table of scores: `ids` names the nodes in index order,
/// and `scores[i][j]` is the score from node `ids[i]` to node `ids[j]`.
#[derive(Clone, Debug)]
pub struct CentralityResult {
    /// The node identifier of each index, in index order.
    pub ids: Vec<String>,
    /// The `n` by `n` table of scores.
    pub scores: Vec<Vec<Score>>,
}

impl CentralityResult {
    /// An `n` by `n` table with one identifier per index.
    pub open spec fn wf(self, n: nat) -> bool {
        &&& self.ids.len() == n
        &&& self.scores.len() == n
        &&& forall|i: int| 0 <= i < n ==> (#[trigger] self.scores@[i])@.len() == n
    }

    /// The number of nodes the table covers.
    pub fn node_count(&self) -> (r: usize)
        ensures
            r == self.ids.len(),
    {
        self.ids.len()
    }

    /// The score from the node indexed `i` to the node indexed `j`.
    pub fn score_at(&self, i: usize, j: usize) -> (r: Score)
        requires
            i < self.scores.len(),
            j < self.scores@[i as int]@.len(),
        ensures
            r == self.scores@[i as int]@[j as int],
    {
        self.scores[i][j]
    }
}

/// The product of two `i64`-range values always fits in `i128`.
proof fn lemma_i64_prod_in_i128(x: int, y: int)
    requires
        i64::MIN <= x <= i64::MAX,
        i64::MIN <= y <= i64::MAX,
    ensures
        in_i128(x * y),
{
    assert(i128::MIN <= x * y <= i128::MAX) by (nonlinear_arith)
        requires
            i64::MIN <= x <= i64::MAX,
            i64::MIN <= y <= i64::MAX,
    ;
}

/// A power of a positive base is positive.
proof fn lemma_pow_pos(p: int, t: nat)
    requires
        p >= 1,
    ensures
        pow_int(p, t) >= 1,
    decreases t,
{
    if t > 0 {
        lemma_pow_pos(p, (t - 1) as nat);
        assert(p * pow_int(p, (t - 1) as nat) >= 1) by (nonlinear_arith)
            requires
                p >= 1,
                pow_int(p, (t - 1) as nat) >= 1,
        ;
    }
}

/// The largest eigenvalue of the spectrum (the last of equal maxima),
/// or one when the spectrum is empty.
pub fn lambda_max(eigs: &Vec<Rat>) -> (r: Rat)
    requires
        forall|i: int| 0 <= i < eigs.len() ==> (#[trigger] eigs@[i]).wf(),
    ensures
        r.wf(),
        r@ == lam_max_s(eigs.deep_view()),
{
    let ghost dv = eigs.deep_view();
    if eigs.len() == 0 {
        return Rat::one();
    }
    let mut cur: Rat = eigs[0];
    let mut i: usize = 1;
    assert(dv.take(1) =~= seq![dv[0]]);
    while i < eigs.len()
        invariant
            forall|x: int| 0 <= x < eigs.len() ==> (#[trigger] eigs@[x]).wf(),
            dv == eigs.deep_view(),
            1 <= i <= eigs.len(),
            cur.wf(),
            cur@ == lam_max_s(dv.take(i as int)),
        decreases eigs.len() - i,
    {
        let e = eigs[i];
        proof {
            lemma_i64_prod_in_i128(e.num as int, cur.den as int);
            lemma_i64_prod_in_i128(cur.num as int, e.den as int);
            assert(dv.take(i as int + 1).drop_last() =~= dv.take(i as int));
            assert(dv.take(i as int + 1).last() == dv[i as int]);
            assert(dv[i as int] == eigs@[i as int]@);
        }
        if (e.num as i128) * (cur.den as i128) >= (cur.num as i128) * (e.den as i128) {
            cur = e;
        }
        i = i + 1;
    }
    assert(dv.take(eigs.len() as int) =~= dv);
    cur
}

/// `entries` with every numerator multiplied by the scale numerator
/// `f`; exact, since a product of `i64` values always fits in `i128`.
fn scale_matrix(entries: &Vec<Vec<i64>>, f: i64, n: usize) -> (r: Vec<Vec<i128>>)
    requires
        entries.len() == n,
        forall|i: int| 0 <= i < n ==> (#[trigger] entries@[i])@.len() == n,
    ensures
        mat_view(r@) == scale_s(mat_view_i64(entries@), f as int, n as nat),
        mat_wf(mat_view(r@), n as nat),
{
    let ghost av = mat_view_i64(entries@);
    let mut m: Vec<Vec<i128>> = Vec::new();
    for i in 0..n
        invariant
            entries.len() == n,
            forall|x: int| 0 <= x < n ==> (#[trigger] entries@[x])@.len() == n,
            av == mat_view_i64(entries@),
            m.len() == i,
            forall|x: int| 0 <= x < i ==> (#[trigger] m@[x])@.len() == n,
            forall|x: int, y: int|
                0 <= x < i && 0 <= y < n ==> (#[trigger] m@[x]@[y]) as int == f as int * av[x][y],
    {
        let mut row: Vec<i128> = Vec::new();
        for j in 0..n
            invariant
                entries.len() == n,
                forall|x: int| 0 <= x < n ==> (#[trigger] entries@[x])@.len() == n,
                av == mat_view_i64(entries@),
                0 <= i < n,
                row.len() == j,
                forall|y: int|
                    0 <= y < j ==> (#[trigger] row@[y]) as int == f as int * av[i as int][y],
        {
            proof {
                lemma_i64_prod_in_i128(f as int, entries@[i as int]@[j as int] as int);
                assert(av[i as int][j as int] == entries@[i as int]@[j as int] as int);
            }
            row.push((f as i128) * (entries[i][j] as i128));
        }
        m.push(row);
    }
    assert forall|x: int| 0 <= x < n implies (#[trigger] mat_view(m@)[x]) =~= scale_s(
        av,
        f as int,
        n as nat,
    )[x] by {
        assert(forall|y: int|
            0 <= y < n ==> (#[trigger] crate::matrix::row_view(m@[x]@)[y]) == m@[x]@[y] as int);
    }
    assert(mat_view(m@) =~= scale_s(av, f as int, n as nat));
    m
}

/// Computes the diffusion centrality of each node in the graph: how
/// much information the node diffuses to every other node in `T` steps
/// of the spectrally scaled adjacency matrix.
///
/// With `q = 1 / lambda_max` (falling back to `lambda_max = 1` for an
/// empty spectrum) and `H` the sum of the first `T` powers of
/// `q * adjacency`, the returned table holds, for row `i`: the raw row
/// sum of `H` at the diagonal, and `H[i][j] / rowsum_i` off it.  The
/// result is exact: every score is a fraction whose numerator and
/// denominator are pinned down by the clauses below.
///
/// Errors, each if and only if its condition holds, checked in this
/// order: `Configuration` (depth option present but zero), `Dimension`
/// (matrix, mapping or spectrum size disagreeing with `n`, or `n == 0`),
/// `DegenerateGraph` (zero largest eigenvalue, or some row of `H`
/// summing to zero), `Numeric` (an intermediate value outside `i128`).
pub fn diffusion_centrality(
    adjacency: &AdjacencyMatrix,
    index_mapping: IndexMapping,
    params: &Parameters,
    eigenvalues: Vec<Rat>,
    n: usize,
) -> (r: Result<CentralityResult, CentralityError>)
    requires
        adjacency.wf(),
        forall|i: int| 0 <= i < eigenvalues.len() ==> (#[trigger] eigenvalues@[i]).wf(),
    ensures
        (r == Err::<CentralityResult, CentralityError>(CentralityError::Configuration)) <==> !params.depth_ok(),
        params.depth_ok() ==> ((r == Err::<CentralityResult, CentralityError>(
            CentralityError::Dimension,
        )) <==> !dims_ok(*adjacency, index_mapping, eigenvalues.deep_view(), n as int)),
        params.depth_ok() && dims_ok(*adjacency, index_mapping, eigenvalues.deep_view(), n as int)
            ==> ((r == Err::<CentralityResult, CentralityError>(CentralityError::DegenerateGraph))
            <==> (lam_max_s(eigenvalues.deep_view()).num == 0 || (engine_fits(
            *adjacency,
            eigenvalues.deep_view(),
            n as nat,
            params.depth_of(),
        ) && degenerate_row(*adjacency, eigenvalues.deep_view(), n as nat, params.depth_of())))),
        params.depth_ok() && dims_ok(*adjacency, index_mapping, eigenvalues.deep_view(), n as int)
            && lam_max_s(eigenvalues.deep_view()).num != 0 ==> ((r == Err::<
            CentralityResult,
            CentralityError,
        >(CentralityError::Numeric)) <==> !engine_fits(
            *adjacency,
            eigenvalues.deep_view(),
            n as nat,
            params.depth_of(),
        )),
        (r is Ok) <==> (params.depth_ok() && dims_ok(
            *adjacency,
            index_mapping,
            eigenvalues.deep_view(),
            n as int,
        ) && lam_max_s(eigenvalues.deep_view()).num != 0 && engine_fits(
            *adjacency,
            eigenvalues.deep_view(),
            n as nat,
            params.depth_of(),
        ) && !degenerate_row(*adjacency, eigenvalues.deep_view(), n as nat, params.depth_of())),
        r matches Ok(res) ==> {
            let h = h_matrix(*adjacency, eigenvalues.deep_view(), n as nat, params.depth_of());
            let p = common_den(*adjacency, eigenvalues.deep_view());
            &&& res.wf(n as nat)
            &&& res.ids == index_mapping.ids
            &&& forall|i: int|
                0 <= i < n ==> (#[trigger] res.scores@[i]@[i])@ == (Frac {
                    num: row_sum_part(h[i], n as int),
                    den: pow_int(p, params.depth_of()),
                })
            &&& forall|i: int, j: int|
                0 <= i < n && 0 <= j < n && i != j ==> (#[trigger] res.scores@[i]@[j])@ == (Frac {
                    num: h[i][j],
                    den: row_sum_part(h[i], n as int),
                })
            &&& forall|i: int, j: int|
                0 <= i < n && 0 <= j < n ==> (#[trigger] res.scores@[i]@[j]).wf()
        },
{
    let ghost ev = eigenvalues.deep_view();
    let ghost t_spec = params.depth_of();
    let t = match resolve_depth(params) {
        Ok(v) => v,
        Err(e) => {
            return Err(e);
        },
    };
    if !(n >= 1 && adjacency.size == n && index_mapping.ids.len() == n && (eigenvalues.len() == n
        || eigenvalues.len() == 0)) {
        return Err(CentralityError::Dimension);
    }
    let lam = lambda_max(&eigenvalues);
    if lam.num == 0 {
        return Err(CentralityError::DegenerateGraph);
    }
    // q = 1 / lambda_max, with its denominator kept positive
    let qn: i64 = if lam.num > 0 {
        lam.den
    } else {
        -lam.den
    };
    let qd: i64 = if lam.num > 0 {
        lam.num
    } else {
        -lam.num
    };
    assert(qn as int == q_of(lam_max_s(ev)).num);
    assert(qd as int == q_of(lam_max_s(ev)).den);
    assert(qd >= 1);
    let b = scale_matrix(&adjacency.entries, qn, n);
    let ghost bv = scaled_nums(*adjacency, ev);
    assert(mat_view(b@) == bv);
    proof {
        lemma_i64_prod_in_i128(qd as int, adjacency.den as int);
    }
    let p: i128 = (qd as i128) * (adjacency.den as i128);
    let ghost pv = common_den(*adjacency, ev);
    assert(p as int == pv);
    assert(p >= 1) by (nonlinear_arith)
        requires
            p as int == qd as int * adjacency.den as int,
            qd >= 1,
            adjacency.den >= 1,
    ;
    let mut acc = zero_mat(n);
    let mut cp: i128 = 1;
    let mut step: u32 = 0;
    while step < t
        invariant
            params.depth_ok(),
            dims_ok(*adjacency, index_mapping, ev, n as int),
            lam_max_s(ev).num != 0,
            ev == eigenvalues.deep_view(),
            t_spec == params.depth_of(),
            bv == scaled_nums(*adjacency, ev),
            pv == common_den(*adjacency, ev),
            p as int == pv,
            mat_wf(bv, n as nat),
            mat_wf(mat_view(acc@), n as nat),
            bv == mat_view(b@),
            step <= t,
            mat_view(acc@) == acc_s(bv, pv, n as nat, step as nat),
            cp as int == pow_int(pv, step as nat),
            acc_fits(bv, pv, n as nat, step as nat),
            t as nat == t_spec,
        decreases t - step,
    {
        let ghost pre = step as nat;
        let shifted = match add_diag(&acc, cp, n) {
            Some(v) => v,
            None => {
                assert(!acc_fits(bv, pv, n as nat, t_spec));
                return Err(CentralityError::Numeric);
            },
        };
        let next = match mat_mul(&b, &shifted, n) {
            Some(v) => v,
            None => {
                assert(!acc_fits(bv, pv, n as nat, t_spec));
                return Err(CentralityError::Numeric);
            },
        };
        let ncp = match cp.checked_mul(p) {
            Some(v) => v,
            None => {
                assert(pow_int(pv, (pre + 1) as nat) == pv * pow_int(pv, pre));
                assert(cp as int * p as int == pv * pow_int(pv, pre)) by (nonlinear_arith)
                    requires
                        cp as int == pow_int(pv, pre),
                        p as int == pv,
                ;
                assert(!in_i128(pow_int(pv, (pre + 1) as nat)));
                assert(!acc_fits(bv, pv, n as nat, t_spec));
                return Err(CentralityError::Numeric);
            },
        };
        acc = next;
        cp = ncp;
        step = step + 1;
        proof {
            assert(pow_int(pv, (pre + 1) as nat) == pv * pow_int(pv, pre));
            assert(cp as int == pv * pow_int(pv, pre)) by (nonlinear_arith)
                requires
                    cp as int == pow_int(pv, pre) * pv,
            ;
            assert(mat_view(acc@) == acc_s(bv, pv, n as nat, (pre + 1) as nat));
            assert forall|s: nat| s < pre + 1 implies {
                &&& add_diag_fits(#[trigger] acc_s(bv, pv, n as nat, s), pow_int(pv, s), n as nat)
                &&& mm_fits(
                    bv,
                    add_diag_s(acc_s(bv, pv, n as nat, s), pow_int(pv, s), n as nat),
                    n as nat,
                )
                &&& in_i128(pow_int(pv, (s + 1) as nat))
            } by {
                if s < pre {
                    assert(acc_fits(bv, pv, n as nat, pre));
                } else {
                    assert(s == pre);
                    assert(add_diag_fits(acc_s(bv, pv, n as nat, pre), pow_int(pv, pre), n as nat));
                    assert(mm_fits(
                        bv,
                        add_diag_s(acc_s(bv, pv, n as nat, pre), pow_int(pv, pre), n as nat),
                        n as nat,
                    ));
                    assert(in_i128(pow_int(pv, (pre + 1) as nat)));
                }
            }
            assert(acc_fits(bv, pv, n as nat, (pre + 1) as nat));
        }
    }
    let h = acc;
    let ghost hv = h_matrix(*adjacency, ev, n as nat, t_spec);
    assert(mat_view(h@) == hv);
    let p_t = cp;
    let sums = match row_sums(&h, n) {
        Some(v) => v,
        None => {
            return Err(CentralityError::Numeric);
        },
    };
    let mut i: usize = 0;
    while i < n
        invariant
            params.depth_ok(),
            dims_ok(*adjacency, index_mapping, ev, n as int),
            lam_max_s(ev).num != 0,
            ev == eigenvalues.deep_view(),
            t_spec == params.depth_of(),
            engine_fits(*adjacency, ev, n as nat, t_spec),
            hv == h_matrix(*adjacency, ev, n as nat, t_spec),
            mat_wf(hv, n as nat),
            n <= sums.len(),
            forall|x: int| 0 <= x < i ==> (#[trigger] sums@[x]) != 0i128,
            i <= n,
            forall|x: int|
                0 <= x < n ==> sums@[x] as int == #[trigger] row_sum_part(hv[x], n as int),
        decreases n - i,
    {
        if sums[i] == 0 {
            assert(row_sum_part(hv[i as int], n as int) == 0);
            assert(degenerate_row(*adjacency, ev, n as nat, t_spec));
            return Err(CentralityError::DegenerateGraph);
        }
        i = i + 1;
    }
    assert(!degenerate_row(*adjacency, ev, n as nat, t_spec));
    proof {
        lemma_pow_pos(pv, t_spec);
    }
    let mut scores: Vec<Vec<Score>> = Vec::new();
    for i in 0..n
        invariant
            params.depth_ok(),
            dims_ok(*adjacency, index_mapping, ev, n as int),
            lam_max_s(ev).num != 0,
            ev == eigenvalues.deep_view(),
            t_spec == params.depth_of(),
            engine_fits(*adjacency, ev, n as nat, t_spec),
            !degenerate_row(*adjacency, ev, n as nat, t_spec),
            hv == h_matrix(*adjacency, ev, n as nat, t_spec),
            mat_wf(hv, n as nat),
            n <= sums.len(),
            n == h.len(),
            mat_wf(mat_view(h@), n as nat),
            mat_view(h@) == hv,
            cp as int == pow_int(pv, t_spec),
            p_t == cp,
            forall|x: int| 0 <= x < n ==> (#[trigger] sums@[x]) != 0i128,
            forall|x: int|
                0 <= x < n ==> sums@[x] as int == #[trigger] row_sum_part(hv[x], n as int),
            pow_int(pv, t_spec) >= 1,
            scores.len() == i,
            forall|x: int| 0 <= x < i ==> (#[trigger] scores@[x])@.len() == n,
            forall|x: int|
                0 <= x < i ==> (#[trigger] scores@[x]@[x])@ == (Frac {
                    num: row_sum_part(hv[x], n as int),
                    den: pow_int(pv, t_spec),
                }),
            forall|x: int, y: int|
                0 <= x < i && 0 <= y < n && x != y ==> (#[trigger] scores@[x]@[y])@ == (Frac {
                    num: hv[x][y],
                    den: row_sum_part(hv[x], n as int),
                }),
            forall|x: int, y: int|
                0 <= x < i && 0 <= y < n ==> (#[trigger] scores@[x]@[y]).wf(),
    {
        let mut row: Vec<Score> = Vec::new();
        for j in 0..n
            invariant
                hv == h_matrix(*adjacency, ev, n as nat, t_spec),
                mat_wf(hv, n as nat),
                n <= sums.len(),
                n == h.len(),
                mat_wf(mat_view(h@), n as nat),
                mat_view(h@) == hv,
                cp as int == pow_int(pv, t_spec),
                p_t == cp,
                0 <= i < n,
                forall|x: int| 0 <= x < n ==> (#[trigger] sums@[x]) != 0i128,
                forall|x: int|
                    0 <= x < n ==> sums@[x] as int == #[trigger] row_sum_part(hv[x], n as int),
                pow_int(pv, t_spec) >= 1,
                row.len() == j,
                j > i ==> row@[i as int]@ == (Frac {
                    num: row_sum_part(hv[i as int], n as int),
                    den: pow_int(pv, t_spec),
                }),
                forall|y: int|
                    0 <= y < j && y != i ==> (#[trigger] row@[y])@ == (Frac {
                        num: hv[i as int][y],
                        den: row_sum_part(hv[i as int], n as int),
                    }),
                forall|y: int| 0 <= y < j ==> (#[trigger] row@[y]).wf(),
        {
            assert(mat_view(h@)[i as int] == crate::matrix::row_view(h@[i as int]@));
            assert(hv[i as int][j as int] == h@[i as int]@[j as int] as int);
            if i == j {
                row.push(Score { num: sums[i], den: p_t });
            } else {
                row.push(Score { num: h[i][j], den: sums[i] });
            }
        }
        scores.push(row);
    }
    Ok(CentralityResult { ids: index_mapping.ids, scores })
}

} // verus!
