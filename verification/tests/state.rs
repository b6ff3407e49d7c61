use mesh_analytics::engine::{lambda_max, resolve_depth};
use mesh_analytics::{
    diffusion_centrality, AdjacencyMatrix, AnalyticsState, CentralityError, GraphSnapshot,
    IndexMapping, Parameters, Rat, Score,
};

fn demo_snapshot() -> GraphSnapshot {
    GraphSnapshot {
        mapping: IndexMapping { ids: vec!["a".to_string(), "b".to_string(), "c".to_string()] },
        adjacency: AdjacencyMatrix::new(vec![vec![0, 1, 1], vec![1, 0, 1], vec![1, 1, 0]], 1)
            .unwrap(),
        eigenvalues: vec![Rat::new(2, 1), Rat::new(-1, 1), Rat::new(-1, 1)],
    }
}

fn compute(snapshot: &GraphSnapshot, t: Option<u32>) -> mesh_analytics::CentralityResult {
    let n = snapshot.mapping.ids.len();
    diffusion_centrality(
        &snapshot.adjacency,
        snapshot.mapping.clone(),
        &Parameters { t },
        snapshot.eigenvalues.clone(),
        n,
    )
    .unwrap()
}

#[test]
fn starts_empty() {
    let state = AnalyticsState::new();
    assert!(state.get().is_none());
}

#[test]
fn set_then_get_returns_the_pair() {
    let snapshot = demo_snapshot();
    let result = compute(&snapshot, Some(1));
    let mut state = AnalyticsState::new();
    state.set(snapshot, result);
    let current = state.get().as_ref().unwrap();
    assert_eq!(current.0.mapping.ids, vec!["a", "b", "c"]);
    assert_eq!(current.1.score_at(0, 0), Score { num: 2, den: 2 });
}

#[test]
fn clear_then_get_returns_empty() {
    let snapshot = demo_snapshot();
    let result = compute(&snapshot, Some(1));
    let mut state = AnalyticsState::new();
    state.set(snapshot, result);
    state.clear();
    assert!(state.get().is_none());
}

#[test]
fn last_set_wins() {
    // Writes are serialized: after two installs the holder holds
    // exactly the second pair, never a mixture.
    let snapshot = demo_snapshot();
    let first = compute(&snapshot, Some(1));
    let second = compute(&snapshot, None);
    let mut state = AnalyticsState::new();
    state.set(demo_snapshot(), first);
    state.set(demo_snapshot(), second);
    let current = state.get().as_ref().unwrap();
    assert_eq!(current.1.score_at(0, 0), Score { num: 160, den: 32 });
    assert_eq!(current.1.score_at(0, 1), Score { num: 57, den: 160 });
}

#[test]
fn resolve_depth_defaults_and_rejects_zero() {
    assert_eq!(resolve_depth(&Parameters { t: None }), Ok(5));
    assert_eq!(resolve_depth(&Parameters { t: Some(7) }), Ok(7));
    assert_eq!(
        resolve_depth(&Parameters { t: Some(0) }),
        Err(CentralityError::Configuration)
    );
}

#[test]
fn lambda_max_picks_the_largest_by_value() {
    let eigs = vec![Rat::new(1, 2), Rat::new(3, 1), Rat::new(-5, 1)];
    assert_eq!(lambda_max(&eigs), Rat::new(3, 1));
    // Of equal maxima the last representation is kept.
    let eigs = vec![Rat::new(1, 1), Rat::new(2, 2)];
    assert_eq!(lambda_max(&eigs), Rat::new(2, 2));
    // An empty spectrum falls back to one.
    assert_eq!(lambda_max(&vec![]), Rat::new(1, 1));
}
