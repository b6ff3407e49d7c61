//! Network-topology analytics for a small mesh network.
//!
//! Given an immutable snapshot of the network graph (an index/node-id
//! mapping, a weighted adjacency matrix and its eigenvalue spectrum),
//! the engine computes per-node diffusion-centrality scores: how
//! effectively each node spreads information to every other node over a
//! bounded number of hops.  All arithmetic is exact, over rational
//! numbers represented as integer fractions, so every score the engine
//! returns is pinned down precisely by its contract.

pub mod engine;
pub mod laws;
pub mod matrix;
pub mod rational;
pub mod state;

pub use engine::diffusion_centrality;
pub use engine::AdjacencyMatrix;
pub use engine::CentralityError;
pub use engine::CentralityResult;
pub use engine::IndexMapping;
pub use engine::Parameters;
pub use state::AnalyticsState;
pub use state::GraphSnapshot;
pub use rational::Rat;
pub use rational::Score;
