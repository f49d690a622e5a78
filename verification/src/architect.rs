//! The solution architect agent: a single-stage producer that derives the
//! structural project scope from the free-text description. The completion
//! exchange itself happens outside; this module builds the context, decodes
//! the response, and commits the scope to the shared project state. Any
//! failure is fatal here — the architect stage has no repair loop.

use crate::basic_agent::{AgentState, BasicAgent};
use crate::codec::{parse_project_scope, parse_scope_spec};
use crate::errors::FatalError;
use crate::factsheet::{FactSheet, FactSheetView, ProjectScope};
use vstd::prelude::*;

verus! {

/// The solution architect agent.
#[derive(Clone, Debug)]
pub struct AgentSolutionArchitect {
    pub attributes: BasicAgent,
}

impl AgentSolutionArchitect {
    /// A fresh architect agent in `Discovery`.
    pub fn new() -> (r: Self)
        ensures
            r.attributes.objective@
                == "Gathers information and design solutions for website development"@,
            r.attributes.position@ == "Solutions Architect"@,
            r.attributes.state == AgentState::Discovery,
            r.attributes.memory@ == Seq::<crate::llm::Message>::empty(),
    {
        let attributes = BasicAgent {
            objective: String::from_str(
                "Gathers information and design solutions for website development",
            ),
            position: String::from_str("Solutions Architect"),
            state: AgentState::Discovery,
            memory: Vec::new(),
        };
        let r = AgentSolutionArchitect { attributes };
        proof {
            assert(r.attributes.memory@ =~= Seq::<crate::llm::Message>::empty());
        }
        r
    }

    /// The agent's identity and lifecycle state.
    pub fn get_attributes_from_agent(&self) -> (r: &BasicAgent)
        ensures
            r == &self.attributes,
    {
        &self.attributes
    }

    /// The context handed to the completion service when deriving the
    /// scope: exactly the project description.
    pub fn scope_context(factsheet: &FactSheet) -> (r: String)
        ensures
            r@ == factsheet@.project_description,
    {
        factsheet.project_description.clone()
    }

    /// Decode the completion response for the scope request and commit it:
    /// on a well-formed response the scope is written into the shared state
    /// (once) and the architect finishes; anything else is a fatal decode
    /// error that leaves both untouched.
    pub fn apply_project_scope_response(
        &mut self,
        factsheet: &mut FactSheet,
        response: &str,
    ) -> (r: Result<ProjectScope, FatalError>)
        ensures
            match r {
                Ok(sc) => {
                    &&& parse_scope_spec(response@) == Some(sc)
                    &&& final(factsheet)@ == (FactSheetView {
                        project_scope: Some(sc),
                        ..old(factsheet)@
                    })
                    &&& final(self).attributes.state == AgentState::Finished
                    &&& final(self).attributes.objective == old(self).attributes.objective
                    &&& final(self).attributes.position == old(self).attributes.position
                    &&& final(self).attributes.memory == old(self).attributes.memory
                },
                Err(e) => {
                    &&& e == FatalError::DecodeError
                    &&& parse_scope_spec(response@) is None
                    &&& *final(self) == *old(self)
                    &&& *final(factsheet) == *old(factsheet)
                },
            },
    {
        match parse_project_scope(response) {
            Ok(scope) => {
                factsheet.project_scope = Some(scope);
                self.attributes.state = AgentState::Finished;
                Ok(scope)
            },
            Err(e) => Err(e),
        }
    }
}

} // verus!
