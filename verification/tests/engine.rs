use mesh_analytics::{
    diffusion_centrality, AdjacencyMatrix, CentralityError, IndexMapping, Parameters, Rat, Score,
};

fn ids3() -> IndexMapping {
    IndexMapping {
        ids: vec!["a".to_string(), "b".to_string(), "c".to_string()],
    }
}

fn complete3() -> AdjacencyMatrix {
    AdjacencyMatrix::new(vec![vec![0, 1, 1], vec![1, 0, 1], vec![1, 1, 0]], 1).unwrap()
}

#[test]
fn three_node_complete_graph_depth_one() {
    // Fully connected unweighted 3-node graph, largest eigenvalue 2,
    // T = 1: q = 1/2, H = adjacency / 2, every row sum is 1.0, every
    // diagonal entry 1.0, every off-diagonal entry 0.5.
    let adjacency = complete3();
    let eigenvalues = vec![Rat::new(2, 1), Rat::new(-1, 1), Rat::new(-1, 1)];
    let params = Parameters { t: Some(1) };
    let result = diffusion_centrality(&adjacency, ids3(), &params, eigenvalues, 3).unwrap();
    assert_eq!(result.node_count(), 3);
    assert_eq!(result.ids, vec!["a", "b", "c"]);
    for i in 0..3 {
        for j in 0..3 {
            let s = result.score_at(i, j);
            let value = s.num as f64 / s.den as f64;
            if i == j {
                assert_eq!(s, Score { num: 2, den: 2 });
                assert_eq!(value, 1.0);
            } else {
                assert_eq!(s, Score { num: 1, den: 2 });
                assert_eq!(value, 0.5);
            }
        }
    }
}

#[test]
fn three_node_complete_graph_default_depth() {
    // With T absent the depth defaults to 5.  For the complete 3-node
    // graph with q = 1/2, the integer accumulator gives H * 32 with
    // diagonal 46 and off-diagonal 57; each row sum is 160/32 = 5.0.
    let adjacency = complete3();
    let eigenvalues = vec![Rat::new(2, 1), Rat::new(-1, 1), Rat::new(-1, 1)];
    let params = Parameters { t: None };
    let result = diffusion_centrality(&adjacency, ids3(), &params, eigenvalues, 3).unwrap();
    for i in 0..3 {
        for j in 0..3 {
            let s = result.score_at(i, j);
            if i == j {
                assert_eq!(s, Score { num: 160, den: 32 });
                assert_eq!(s.num as f64 / s.den as f64, 5.0);
            } else {
                assert_eq!(s, Score { num: 57, den: 160 });
            }
        }
    }
}

#[test]
fn doubling_eigenvalues_halves_diagonal_keeps_off_diagonal() {
    // Doubling every eigenvalue halves q and, at T = 1, halves every
    // entry of H: the raw-row-sum diagonal scores halve while the
    // normalized off-diagonal scores are unchanged.
    let params = Parameters { t: Some(1) };
    let base = diffusion_centrality(
        &complete3(),
        ids3(),
        &params,
        vec![Rat::new(2, 1), Rat::new(-1, 1), Rat::new(-1, 1)],
        3,
    )
    .unwrap();
    let scaled = diffusion_centrality(
        &complete3(),
        ids3(),
        &params,
        vec![Rat::new(4, 1), Rat::new(-2, 1), Rat::new(-2, 1)],
        3,
    )
    .unwrap();
    for i in 0..3 {
        for j in 0..3 {
            let b = base.score_at(i, j);
            let s = scaled.score_at(i, j);
            let bv = b.num as f64 / b.den as f64;
            let sv = s.num as f64 / s.den as f64;
            if i == j {
                assert_eq!(sv, bv / 2.0);
            } else {
                assert_eq!(sv, bv);
            }
        }
    }
}

#[test]
fn isolated_node_is_degenerate() {
    // An all-zero adjacency row keeps its diffusion row at zero for
    // every depth, so its row sum is zero: the engine must report a
    // degenerate graph, not divide by zero.
    let adjacency =
        AdjacencyMatrix::new(vec![vec![0, 1, 0], vec![1, 0, 0], vec![0, 0, 0]], 1).unwrap();
    let eigenvalues = vec![Rat::new(1, 1), Rat::new(-1, 1), Rat::new(0, 1)];
    let params = Parameters { t: None };
    let r = diffusion_centrality(&adjacency, ids3(), &params, eigenvalues, 3);
    assert!(matches!(r, Err(CentralityError::DegenerateGraph)));
}

#[test]
fn zero_depth_is_a_configuration_error() {
    let adjacency = complete3();
    let eigenvalues = vec![Rat::new(2, 1)];
    let params = Parameters { t: Some(0) };
    let r = diffusion_centrality(&adjacency, ids3(), &params, eigenvalues, 3);
    assert!(matches!(r, Err(CentralityError::Configuration)));
}

#[test]
fn mismatched_sizes_are_dimension_errors() {
    let params = Parameters { t: None };
    // Adjacency side disagrees with n.
    let small = AdjacencyMatrix::new(vec![vec![0, 1], vec![1, 0]], 1).unwrap();
    let eigs = vec![Rat::new(1, 1), Rat::new(-1, 1), Rat::new(0, 1)];
    let r = diffusion_centrality(&small, ids3(), &params, eigs, 3);
    assert!(matches!(r, Err(CentralityError::Dimension)));
    // Eigenvalue count disagrees with n (and is not empty).
    let r = diffusion_centrality(
        &complete3(),
        ids3(),
        &params,
        vec![Rat::new(2, 1), Rat::new(-1, 1)],
        3,
    );
    assert!(matches!(r, Err(CentralityError::Dimension)));
    // Mapping length disagrees with n.
    let two = IndexMapping { ids: vec!["a".to_string(), "b".to_string()] };
    let r = diffusion_centrality(&complete3(), two, &params, vec![Rat::new(2, 1)], 3);
    assert!(matches!(r, Err(CentralityError::Dimension)));
    // n = 0 is rejected.
    let empty = AdjacencyMatrix::new(vec![], 1).unwrap();
    let none = IndexMapping { ids: vec![] };
    let r = diffusion_centrality(&empty, none, &params, vec![], 0);
    assert!(matches!(r, Err(CentralityError::Dimension)));
}

#[test]
fn zero_largest_eigenvalue_is_degenerate() {
    let adjacency = AdjacencyMatrix::new(vec![vec![0]], 1).unwrap();
    let mapping = IndexMapping { ids: vec!["solo".to_string()] };
    let params = Parameters { t: None };
    let r = diffusion_centrality(&adjacency, mapping, &params, vec![Rat::new(0, 1)], 1);
    assert!(matches!(r, Err(CentralityError::DegenerateGraph)));
}

#[test]
fn empty_spectrum_falls_back_to_one() {
    // A self-loop of weight 1 with an empty spectrum: lambda falls
    // back to 1, so q = 1 and the single diagonal score is T = 5.
    let adjacency = AdjacencyMatrix::new(vec![vec![1]], 1).unwrap();
    let mapping = IndexMapping { ids: vec!["solo".to_string()] };
    let params = Parameters { t: None };
    let result = diffusion_centrality(&adjacency, mapping, &params, vec![], 1).unwrap();
    assert_eq!(result.score_at(0, 0), Score { num: 5, den: 1 });
}

#[test]
fn negative_largest_eigenvalue_gives_negative_scale() {
    // lambda_max = -2 gives q = -1/2, kept with a positive
    // denominator: at T = 1 the single self-loop score is -1/2.
    let adjacency = AdjacencyMatrix::new(vec![vec![1]], 1).unwrap();
    let mapping = IndexMapping { ids: vec!["solo".to_string()] };
    let params = Parameters { t: Some(1) };
    let result = diffusion_centrality(&adjacency, mapping, &params, vec![Rat::new(-2, 1)], 1)
        .unwrap();
    assert_eq!(result.score_at(0, 0), Score { num: -1, den: 2 });
}

#[test]
fn huge_weights_overflow_to_numeric_error() {
    // Repeated multiplication by an i64::MAX self-loop leaves the
    // i128 range after a few powers.
    let adjacency = AdjacencyMatrix::new(vec![vec![i64::MAX]], 1).unwrap();
    let mapping = IndexMapping { ids: vec!["solo".to_string()] };
    let params = Parameters { t: Some(5) };
    let r = diffusion_centrality(&adjacency, mapping, &params, vec![Rat::new(1, 1)], 1);
    assert!(matches!(r, Err(CentralityError::Numeric)));
}

#[test]
fn fractional_weights_share_a_denominator() {
    // Edge weights 1/2 on a two-node path, lambda_max = 1/2, T = 1:
    // q = 2, H = 2 * adjacency = [[0, 1], [1, 0]], row sums 1, so the
    // diagonal scores are 1 and the off-diagonal scores 1.
    let adjacency = AdjacencyMatrix::new(vec![vec![0, 1], vec![1, 0]], 2).unwrap();
    let mapping = IndexMapping { ids: vec!["a".to_string(), "b".to_string()] };
    let params = Parameters { t: Some(1) };
    let eigs = vec![Rat::new(1, 2), Rat::new(-1, 2)];
    let result = diffusion_centrality(&adjacency, mapping, &params, eigs, 2).unwrap();
    let d = result.score_at(0, 0);
    let o = result.score_at(0, 1);
    assert_eq!(d.num as f64 / d.den as f64, 1.0);
    assert_eq!(o.num as f64 / o.den as f64, 1.0);
}

#[test]
fn off_diagonal_row_mass_sums_to_row_fraction() {
    // In each row the off-diagonal scores sum to
    // (rowsum - H[i][i]) / rowsum.  For the complete 3-node graph at
    // the default depth: rowsum = 5, H[i][i] = 46/32, so the
    // off-diagonal mass is (5 - 1.4375) / 5 = 0.7125 = 2 * 57/160.
    let adjacency = complete3();
    let eigenvalues = vec![Rat::new(2, 1), Rat::new(-1, 1), Rat::new(-1, 1)];
    let params = Parameters { t: None };
    let result = diffusion_centrality(&adjacency, ids3(), &params, eigenvalues, 3).unwrap();
    for i in 0..3 {
        let diag = result.score_at(i, i);
        let rowsum = diag.num as f64 / diag.den as f64;
        let h_diag = 46.0 / 32.0;
        let mut off_mass = 0.0;
        for j in 0..3 {
            if i != j {
                let s = result.score_at(i, j);
                off_mass += s.num as f64 / s.den as f64;
            }
        }
        assert_eq!(off_mass, (rowsum - h_diag) / rowsum);
        assert_eq!(off_mass, 0.7125);
    }
}

#[test]
fn adjacency_validation() {
    assert!(AdjacencyMatrix::new(vec![vec![0, 1], vec![1, 0]], 1).is_some());
    // Ragged rows are rejected.
    assert!(AdjacencyMatrix::new(vec![vec![0, 1], vec![1]], 1).is_none());
    // A denominator below one is rejected.
    assert!(AdjacencyMatrix::new(vec![vec![0]], 0).is_none());
    assert!(AdjacencyMatrix::new(vec![vec![0]], -3).is_none());
}
