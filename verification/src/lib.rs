//! Execution core of an analytical database: a compiler from physical query
//! plans to executable stream pipelines, the assembly of maintenance
//! (recluster / compact) plans, the orchestration loop that drives maintenance
//! batches under lock and timeout discipline, and a bounded reclamation sweep
//! for temporary storage namespaces.

pub mod builder;
pub mod error;
pub mod orchestrator;
pub mod pipeline;
pub mod plan;
pub mod recluster;
pub mod vacuum;
