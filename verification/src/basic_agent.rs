//! The identity and lifecycle state every agent carries.

use crate::llm::{Message, MessageView};
use vstd::prelude::*;

verus! {

/// The agent lifecycle. `Discovery` is the sole initial state, `Finished`
/// the sole terminal one; the only back-edge is `UnitTesting -> Working` on
/// a failed build, bounded by the repair counter.
#[derive(Clone, Copy, Debug, PartialEq, Eq, Structural)]
pub enum AgentState {
    Discovery,
    Working,
    UnitTesting,
    Finished,
}

/// The identity and conversational memory of one agent: an objective and a
/// position label fixed at construction, a mutable lifecycle state, and an
/// append-only message history.
#[derive(Clone, Debug)]
pub struct BasicAgent {
    pub objective: String,
    pub position: String,
    pub state: AgentState,
    pub memory: Vec<Message>,
}

/// The mathematical image of a `BasicAgent`.
pub struct BasicAgentView {
    pub objective: Seq<char>,
    pub position: Seq<char>,
    pub state: AgentState,
    pub memory: Seq<MessageView>,
}

impl View for BasicAgent {
    type V = BasicAgentView;

    open spec fn view(&self) -> BasicAgentView {
        BasicAgentView {
            objective: self.objective@,
            position: self.position@,
            state: self.state,
            memory: self.memory.deep_view(),
        }
    }
}

impl BasicAgent {
    /// Move the agent to a new lifecycle state; identity and memory keep
    /// their values.
    pub fn update_state(&mut self, new_state: AgentState)
        ensures
            final(self)@ == (BasicAgentView { state: new_state, ..old(self)@ }),
    {
        self.state = new_state;
    }
}

} // verus!
