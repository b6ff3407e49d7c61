//! The snapshot value and the current-result holder.
//!
//! A `GraphSnapshot` is an immutable capture of the topology at one
//! instant: the index/node-id mapping, the adjacency matrix and its
//! eigenvalue spectrum.  Any topology change produces a new, independent
//! snapshot, which is what lets the engine run on one without a lock.
//!
//! `AnalyticsState` owns at most one current (snapshot, result) pair.
//! It is the single mutable slot of this library: `set` replaces the
//! pair atomically from a reader's point of view, `clear` empties it,
//! `get` reads it.  Callers that share it across tasks wrap it in a
//! mutual-exclusion lock and hold the lock only around these short
//! operations, never around the centrality computation itself; the
//! contracts below say exactly what each operation leaves in the slot,
//! so the last locked writer's value is what a later locked reader sees.

use vstd::prelude::*;

use crate::engine::{AdjacencyMatrix, CentralityResult, IndexMapping};
use crate::rational::Rat;

verus! {

/// An immutable, point-in-time capture of the network topology.
#[derive(Clone, Debug)]
pub struct GraphSnapshot {
    /// The index/node-id mapping of this snapshot.
    pub mapping: IndexMapping,
    /// The weighted adjacency matrix of this snapshot.
    pub adjacency: AdjacencyMatrix,
    /// The eigenvalues of the adjacency matrix; may be empty for a
    /// degenerate or trivial graph.
    pub eigenvalues: Vec<Rat>,
}

impl GraphSnapshot {
    /// A snapshot is well-formed when its matrix is square, its
    /// mapping covers the same node count, and its eigenvalues are
    /// well-formed rationals.
    pub open spec fn wf(self) -> bool {
        &&& self.adjacency.wf()
        &&& self.mapping.ids.len() == self.adjacency.size
        &&& forall|i: int|
            0 <= i < self.eigenvalues.len() ==> (#[trigger] self.eigenvalues@[i]).wf()
    }
}

/// The holder of the single current analytics value: at most one
/// (snapshot, result) pair, replaced or cleared as a whole.
pub struct AnalyticsState {
    /// The current pair, if any has been installed.
    pub current: Option<(GraphSnapshot, CentralityResult)>,
}

impl AnalyticsState {
    /// A fresh holder: empty at process start.
    pub fn new() -> (r: AnalyticsState)
        ensures
            r.current is None,
    {
        AnalyticsState { current: None }
    }

    /// Reads the current pair: the value the most recent `set`
    /// installed, or nothing after a `clear` or before any `set`.
    pub fn get(&self) -> (r: &Option<(GraphSnapshot, CentralityResult)>)
        ensures
            r == &self.current,
    {
        &self.current
    }

    /// Installs a newly computed pair, replacing any prior value as a
    /// whole: no reader ever sees a mix of old and new.
    pub fn set(&mut self, snapshot: GraphSnapshot, result: CentralityResult)
        ensures
            final(self).current == Some((snapshot, result)),
    {
        self.current = Some((snapshot, result));
    }

    /// Empties the holder, used when the topology becomes invalid; a
    /// later `get` returns nothing until a new pair is installed.
    pub fn clear(&mut self)
        ensures
            final(self).current is None,
    {
        self.current = None;
    }
}

impl Default for AnalyticsState {
    /// The default holder is empty.
    fn default() -> (r: AnalyticsState)
        ensures
            r.current is None,
    {
        AnalyticsState::new()
    }
}

} // verus!
