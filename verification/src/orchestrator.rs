//! The orchestrator owns the sole shared project state of a run and runs the
//! agents to completion in a fixed sequence: architect first, backend
//! developer second. Agents execute strictly one at a time, so the state has
//! a single writer at any instant. A fatal abort from any agent halts the
//! pipeline at once; the orchestrator performs no pipeline-level retry.

use crate::factsheet::FactSheet;
use vstd::prelude::*;

verus! {

/// Where the pipeline stands: which agent runs next, or that the run is over.
#[derive(Clone, Copy, Debug, PartialEq, Eq, Structural)]
pub enum PipelinePhase {
    ArchitectStage,
    BackendStage,
    Complete,
}

/// The fixed stage order of a run.
pub open spec fn phase_after(phase: PipelinePhase) -> PipelinePhase {
    match phase {
        PipelinePhase::ArchitectStage => PipelinePhase::BackendStage,
        PipelinePhase::BackendStage => PipelinePhase::Complete,
        PipelinePhase::Complete => PipelinePhase::Complete,
    }
}

/// The orchestrator: the shared project state and the current phase.
#[derive(Clone, Debug)]
pub struct Orchestrator {
    pub factsheet: FactSheet,
    pub phase: PipelinePhase,
}

impl Orchestrator {
    /// Seed a run from the user's free-text project description: a fresh
    /// fact sheet holding only the description, and the architect up first.
    pub fn new(project_description: String) -> (r: Self)
        ensures
            r.factsheet@.project_description == project_description@,
            r.factsheet@.project_scope is None,
            r.factsheet@.external_urls == Seq::<Seq<char>>::empty(),
            r.factsheet@.backend_code is None,
            r.factsheet@.api_endpoint_schema is None,
            r.phase == PipelinePhase::ArchitectStage,
    {
        Orchestrator {
            factsheet: FactSheet::new(project_description),
            phase: PipelinePhase::ArchitectStage,
        }
    }

    /// Record that the running agent reached its terminal state: the phase
    /// advances in the fixed order, and the fact sheet keeps every write.
    pub fn agent_finished(&mut self)
        requires
            old(self).phase != PipelinePhase::Complete,
        ensures
            final(self).phase == phase_after(old(self).phase),
            final(self).factsheet == old(self).factsheet,
    {
        let next = match self.phase {
            PipelinePhase::ArchitectStage => PipelinePhase::BackendStage,
            PipelinePhase::BackendStage => PipelinePhase::Complete,
            PipelinePhase::Complete => PipelinePhase::Complete,
        };
        self.phase = next;
    }
}

} // verus!
