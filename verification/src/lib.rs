use vstd::prelude::*;

pub mod analytics;
pub mod counting;
pub mod digits;
pub mod ingest;
pub mod network;
pub mod store;

verus! {

/// The error conditions of the engine.
///
/// `MalformedRecord`: an input record could not be read as two non-negative
/// integers; ingestion halts and the graph is left as it was.
/// `InsufficientGraphSize`: degree centrality was requested on a graph with
/// fewer than two nodes, where the normalising denominator would be zero.
/// `CapacityExceeded`: ingesting the batch could overrun the node or edge
/// index space of the store; the graph is left as it was.
#[derive(Clone, Copy, Debug, PartialEq, Eq, Structural)]
pub enum NetworkError {
    MalformedRecord,
    InsufficientGraphSize,
    CapacityExceeded,
}

/// An exact non-negative rational, used where the engine reports a
/// quotient (average degree, degree centrality) without rounding.
#[derive(Clone, Copy, Debug, PartialEq, Eq, Structural)]
pub struct Ratio {
    pub num: usize,
    pub den: usize,
}

} // verus!
