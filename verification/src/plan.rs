//! The physical-plan tree: an immutable tree of typed nodes describing a
//! concrete execution strategy. Each node carries a plan identifier and its
//! kind-specific payload; exchange nodes mark distributed-execution
//! boundaries.

use vstd::prelude::*;

verus! {

/// Descriptor of a target table.
#[derive(Clone, Copy, Debug, PartialEq, Eq, Structural)]
pub struct TableInfo {
    pub table_id: u64,
    pub version: u64,
}

/// A table snapshot the maintenance work was planned against.
#[derive(Clone, Copy, Debug, PartialEq, Eq, Structural)]
pub struct TableSnapshot {
    pub snapshot_id: u64,
    pub segment_count: u64,
}

/// Aggregate statistics of removed segments.
#[derive(Clone, Copy, Debug, PartialEq, Eq, Structural)]
pub struct Statistics {
    pub row_count: u64,
    pub block_count: u64,
    pub uncompressed_byte_size: u64,
}

/// A data block untouched by the current maintenance batch.
#[derive(Clone, Copy, Debug, PartialEq, Eq, Structural)]
pub struct BlockMeta {
    pub block_id: u64,
    pub row_count: u64,
}

/// One reclustering work unit over table segments.
#[derive(Clone, Copy, Debug, PartialEq, Eq, Structural)]
pub struct ReclusterTask {
    pub total_rows: u64,
    pub total_bytes: u64,
    pub level: u32,
}

/// One generic compaction work unit.
#[derive(Clone, Copy, Debug, PartialEq, Eq, Structural)]
pub struct CompactPart {
    pub segment_index: u64,
    pub block_count: u64,
}

/// How an exchange redistributes data across execution nodes.
#[derive(Clone, Copy, Debug, PartialEq, Eq, Structural)]
pub enum FragmentKind {
    Init,
    Normal,
    Expansive,
    Merge,
}

/// A physical-plan node. The tree is closed: every kind has exactly one
/// compiler handler, and an unmatched kind cannot exist.
#[derive(Debug)]
pub enum PhysicalPlan {
    // source kinds: seed a new stage chain
    TableScan { plan_id: u32 },
    ConstantTableScan { plan_id: u32 },
    CteScan { plan_id: u32, cte_idx: u32 },
    ExchangeSource { plan_id: u32 },
    ReclusterSource { plan_id: u32, tasks: Vec<ReclusterTask>, table_info: TableInfo },
    CompactSource { plan_id: u32, parts: Vec<CompactPart>, table_info: TableInfo },
    // single-input kinds: append stages atop the compiled input
    Filter { plan_id: u32, input: Box<PhysicalPlan> },
    EvalScalar { plan_id: u32, num_exprs: usize, input: Box<PhysicalPlan> },
    Sort { plan_id: u32, input: Box<PhysicalPlan> },
    Limit { plan_id: u32, limit: usize, offset: usize, input: Box<PhysicalPlan> },
    Window { plan_id: u32, input: Box<PhysicalPlan> },
    AggregatePartial { plan_id: u32, input: Box<PhysicalPlan> },
    AggregateFinal { plan_id: u32, input: Box<PhysicalPlan> },
    RowFetch { plan_id: u32, input: Box<PhysicalPlan> },
    Udf { plan_id: u32, input: Box<PhysicalPlan> },
    // internal shuffle/reshape kinds used for chunked writes
    Shuffle { plan_id: u32, input: Box<PhysicalPlan> },
    ChunkCastSchema { plan_id: u32, input: Box<PhysicalPlan> },
    ChunkFillAndReorder { plan_id: u32, input: Box<PhysicalPlan> },
    ChunkMerge { plan_id: u32, input: Box<PhysicalPlan> },
    // multi-input kinds: merge independently compiled chains
    UnionAll { plan_id: u32, left: Box<PhysicalPlan>, right: Box<PhysicalPlan> },
    HashJoin { plan_id: u32, join_id: u32, build: Box<PhysicalPlan>, probe: Box<PhysicalPlan> },
    RangeJoin { plan_id: u32, left: Box<PhysicalPlan>, right: Box<PhysicalPlan> },
    // fan-out kind: the definition is compiled once and shared by readers
    MaterializedCte {
        plan_id: u32,
        cte_idx: u32,
        definition: Box<PhysicalPlan>,
        body: Box<PhysicalPlan>,
    },
    // sink kinds: close the stage chain
    ExchangeSink { plan_id: u32, input: Box<PhysicalPlan> },
    ReclusterSink {
        plan_id: u32,
        input: Box<PhysicalPlan>,
        table_info: TableInfo,
        snapshot: TableSnapshot,
        remained_blocks: Vec<BlockMeta>,
        removed_segment_indexes: Vec<u64>,
        removed_segment_summary: Statistics,
    },
    CommitSink {
        plan_id: u32,
        input: Box<PhysicalPlan>,
        table_info: TableInfo,
        snapshot: TableSnapshot,
    },
    // a bare exchange must have been lowered by the caller before compilation
    Exchange {
        plan_id: u32,
        input: Box<PhysicalPlan>,
        kind: FragmentKind,
        keys: Vec<u64>,
        allow_adjust_parallelism: bool,
        ignore_exchange: bool,
    },
}

impl PhysicalPlan {
    /// The node's plan identifier.
    pub open spec fn node_id(self) -> u32 {
        match self {
            PhysicalPlan::TableScan { plan_id } => plan_id,
            PhysicalPlan::ConstantTableScan { plan_id } => plan_id,
            PhysicalPlan::CteScan { plan_id, .. } => plan_id,
            PhysicalPlan::ExchangeSource { plan_id } => plan_id,
            PhysicalPlan::ReclusterSource { plan_id, .. } => plan_id,
            PhysicalPlan::CompactSource { plan_id, .. } => plan_id,
            PhysicalPlan::Filter { plan_id, .. } => plan_id,
            PhysicalPlan::EvalScalar { plan_id, .. } => plan_id,
            PhysicalPlan::Sort { plan_id, .. } => plan_id,
            PhysicalPlan::Limit { plan_id, .. } => plan_id,
            PhysicalPlan::Window { plan_id, .. } => plan_id,
            PhysicalPlan::AggregatePartial { plan_id, .. } => plan_id,
            PhysicalPlan::AggregateFinal { plan_id, .. } => plan_id,
            PhysicalPlan::RowFetch { plan_id, .. } => plan_id,
            PhysicalPlan::Udf { plan_id, .. } => plan_id,
            PhysicalPlan::Shuffle { plan_id, .. } => plan_id,
            PhysicalPlan::ChunkCastSchema { plan_id, .. } => plan_id,
            PhysicalPlan::ChunkFillAndReorder { plan_id, .. } => plan_id,
            PhysicalPlan::ChunkMerge { plan_id, .. } => plan_id,
            PhysicalPlan::UnionAll { plan_id, .. } => plan_id,
            PhysicalPlan::HashJoin { plan_id, .. } => plan_id,
            PhysicalPlan::RangeJoin { plan_id, .. } => plan_id,
            PhysicalPlan::MaterializedCte { plan_id, .. } => plan_id,
            PhysicalPlan::ExchangeSink { plan_id, .. } => plan_id,
            PhysicalPlan::ReclusterSink { plan_id, .. } => plan_id,
            PhysicalPlan::CommitSink { plan_id, .. } => plan_id,
            PhysicalPlan::Exchange { plan_id, .. } => plan_id,
        }
    }

    /// Runtime accessor for the plan identifier.
    pub fn get_id(&self) -> (r: u32)
        ensures
            r == self.node_id(),
    {
        match self {
            PhysicalPlan::TableScan { plan_id } => *plan_id,
            PhysicalPlan::ConstantTableScan { plan_id } => *plan_id,
            PhysicalPlan::CteScan { plan_id, .. } => *plan_id,
            PhysicalPlan::ExchangeSource { plan_id } => *plan_id,
            PhysicalPlan::ReclusterSource { plan_id, .. } => *plan_id,
            PhysicalPlan::CompactSource { plan_id, .. } => *plan_id,
            PhysicalPlan::Filter { plan_id, .. } => *plan_id,
            PhysicalPlan::EvalScalar { plan_id, .. } => *plan_id,
            PhysicalPlan::Sort { plan_id, .. } => *plan_id,
            PhysicalPlan::Limit { plan_id, .. } => *plan_id,
            PhysicalPlan::Window { plan_id, .. } => *plan_id,
            PhysicalPlan::AggregatePartial { plan_id, .. } => *plan_id,
            PhysicalPlan::AggregateFinal { plan_id, .. } => *plan_id,
            PhysicalPlan::RowFetch { plan_id, .. } => *plan_id,
            PhysicalPlan::Udf { plan_id, .. } => *plan_id,
            PhysicalPlan::Shuffle { plan_id, .. } => *plan_id,
            PhysicalPlan::ChunkCastSchema { plan_id, .. } => *plan_id,
            PhysicalPlan::ChunkFillAndReorder { plan_id, .. } => *plan_id,
            PhysicalPlan::ChunkMerge { plan_id, .. } => *plan_id,
            PhysicalPlan::UnionAll { plan_id, .. } => *plan_id,
            PhysicalPlan::HashJoin { plan_id, .. } => *plan_id,
            PhysicalPlan::RangeJoin { plan_id, .. } => *plan_id,
            PhysicalPlan::MaterializedCte { plan_id, .. } => *plan_id,
            PhysicalPlan::ExchangeSink { plan_id, .. } => *plan_id,
            PhysicalPlan::ReclusterSink { plan_id, .. } => *plan_id,
            PhysicalPlan::CommitSink { plan_id, .. } => *plan_id,
            PhysicalPlan::Exchange { plan_id, .. } => *plan_id,
        }
    }

    /// Number of exchange nodes in the tree.
    pub open spec fn exchange_count(self) -> int
        decreases self,
    {
        match self {
            PhysicalPlan::Exchange { input, .. } => 1 + input.exchange_count(),
            PhysicalPlan::Filter { input, .. } => input.exchange_count(),
            PhysicalPlan::EvalScalar { input, .. } => input.exchange_count(),
            PhysicalPlan::Sort { input, .. } => input.exchange_count(),
            PhysicalPlan::Limit { input, .. } => input.exchange_count(),
            PhysicalPlan::Window { input, .. } => input.exchange_count(),
            PhysicalPlan::AggregatePartial { input, .. } => input.exchange_count(),
            PhysicalPlan::AggregateFinal { input, .. } => input.exchange_count(),
            PhysicalPlan::RowFetch { input, .. } => input.exchange_count(),
            PhysicalPlan::Udf { input, .. } => input.exchange_count(),
            PhysicalPlan::Shuffle { input, .. } => input.exchange_count(),
            PhysicalPlan::ChunkCastSchema { input, .. } => input.exchange_count(),
            PhysicalPlan::ChunkFillAndReorder { input, .. } => input.exchange_count(),
            PhysicalPlan::ChunkMerge { input, .. } => input.exchange_count(),
            PhysicalPlan::UnionAll { left, right, .. } => left.exchange_count()
                + right.exchange_count(),
            PhysicalPlan::HashJoin { build, probe, .. } => build.exchange_count()
                + probe.exchange_count(),
            PhysicalPlan::RangeJoin { left, right, .. } => left.exchange_count()
                + right.exchange_count(),
            PhysicalPlan::MaterializedCte { definition, body, .. } => definition.exchange_count()
                + body.exchange_count(),
            PhysicalPlan::ExchangeSink { input, .. } => input.exchange_count(),
            PhysicalPlan::ReclusterSink { input, .. } => input.exchange_count(),
            PhysicalPlan::CommitSink { input, .. } => input.exchange_count(),
            _ => 0,
        }
    }
}

} // verus!
