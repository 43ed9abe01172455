//! Pipelines: directed chains of stream-processing stages under assembly.
//!
//! A stage consumes `in_ports` upstream streams and produces `out_ports`
//! downstream streams; consecutive stages of a pipeline must agree on their
//! port counts, and a pipeline is complete exactly when it starts from a
//! stage with no inputs and ends in a stage with no outputs — the invariant
//! the execution runtime demands before it schedules a pipeline.

use vstd::prelude::*;

verus! {

/// One stream-processing stage. `op` is the identifier of the plan node the
/// stage was compiled from.
#[derive(Clone, Copy, Debug, PartialEq, Eq, Structural)]
pub struct Stage {
    pub in_ports: usize,
    pub out_ports: usize,
    pub op: u32,
}

/// One profiling-scope event. Scopes open when the compiler starts visiting a
/// plan node and close when the visit of the node's subtree ends, so the
/// bracket structure of the log mirrors the plan tree's nesting exactly.
#[derive(Clone, Copy, Debug, PartialEq, Eq, Structural)]
pub enum ScopeEvent {
    Enter { plan_id: u32 },
    Exit,
}

/// A pipeline under assembly: its stage chain and its profiling-scope log.
#[derive(Debug)]
pub struct Pipeline {
    pub stages: Vec<Stage>,
    pub scopes: Vec<ScopeEvent>,
}

/// The mathematical value of a pipeline.
pub struct PipelineModel {
    pub stages: Seq<Stage>,
    pub scopes: Seq<ScopeEvent>,
}

impl View for Pipeline {
    type V = PipelineModel;

    open spec fn view(&self) -> PipelineModel {
        PipelineModel { stages: self.stages@, scopes: self.scopes@ }
    }
}

/// Consecutive stages agree on their port counts: a consuming stage is never
/// constructed before its producing stage.
pub open spec fn stages_linked(s: Seq<Stage>) -> bool {
    forall|i: int| 1 <= i < s.len() ==> s[i].in_ports == s[i - 1].out_ports
}

/// The completeness invariant: a non-empty linked chain beginning with a
/// stage that has no inputs and ending with a stage that has no outputs.
pub open spec fn complete_stages(s: Seq<Stage>) -> bool {
    &&& stages_linked(s)
    &&& s.len() > 0
    &&& s[0].in_ports == 0
    &&& s.last().out_ports == 0
}

/// A chain that can still accept stages: non-empty, with outputs left open.
/// This is the check the compiler performs before appending a stage.
pub open spec fn chain_open(s: Seq<Stage>) -> bool {
    &&& s.len() > 0
    &&& s.last().out_ports > 0
}

impl Pipeline {
    /// A fresh pipeline whose profiling-scope log starts from the caller's
    /// enclosing scopes.
    pub fn with_scopes(scopes: Vec<ScopeEvent>) -> (p: Pipeline)
        ensures
            p@.stages == Seq::<Stage>::empty(),
            p@.scopes == scopes@,
    {
        Pipeline { stages: Vec::new(), scopes }
    }

    /// Whether every stage has both its inputs and its outputs connected.
    /// Checked before a pipeline is handed to the execution runtime.
    pub fn is_complete_pipeline(&self) -> (r: bool)
        ensures
            r == complete_stages(self@.stages),
    {
        if self.stages.len() == 0 {
            return false;
        }
        if self.stages[0].in_ports != 0 {
            return false;
        }
        if self.stages[self.stages.len() - 1].out_ports != 0 {
            return false;
        }
        let mut i: usize = 1;
        while i < self.stages.len()
            invariant
                1 <= i <= self.stages@.len(),
                forall|k: int| 1 <= k < i ==> self.stages@[k].in_ports == self.stages@[k
                    - 1].out_ports,
            decreases self.stages@.len() - i,
        {
            if self.stages[i].in_ports != self.stages[i - 1].out_ports {
                return false;
            }
            i = i + 1;
        }
        true
    }

    /// Appends a stage to the chain.
    pub fn push_stage(&mut self, s: Stage)
        ensures
            final(self)@.stages == old(self)@.stages.push(s),
            final(self)@.scopes == old(self)@.scopes,
    {
        self.stages.push(s);
    }

    /// Records that the compiler starts visiting the plan node.
    pub fn enter_scope(&mut self, plan_id: u32)
        ensures
            final(self)@.stages == old(self)@.stages,
            final(self)@.scopes == old(self)@.scopes.push(ScopeEvent::Enter { plan_id }),
    {
        self.scopes.push(ScopeEvent::Enter { plan_id });
    }

    /// Records that the visit of the current node's subtree ended.
    pub fn exit_scope(&mut self)
        ensures
            final(self)@.stages == old(self)@.stages,
            final(self)@.scopes == old(self)@.scopes.push(ScopeEvent::Exit),
    {
        self.scopes.push(ScopeEvent::Exit);
    }

    /// The open output width of the last stage.
    pub fn last_width(&self) -> (w: usize)
        requires
            self@.stages.len() > 0,
        ensures
            w == self@.stages.last().out_ports,
    {
        self.stages[self.stages.len() - 1].out_ports
    }
}

} // verus!
