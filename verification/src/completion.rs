//! The completion request/retry contract. Every call site inherits the same
//! at-most-one-retry policy: a request is sent, a transport failure is
//! retried exactly once with the identical message, and a second failure is
//! fatal. The transport itself is an external collaborator; the engine here
//! records outcomes and decides, so the policy is proved once for all
//! callers.

use crate::errors::{FatalError, FatalErrorView};
use crate::llm::Message;
use crate::prompts::{extend_ai_function, rendered_prompt, PromptKind};
use vstd::prelude::*;

verus! {

/// What one transport exchange came back with: the first-choice message
/// text, or a transport-level failure.
#[derive(Clone, Debug)]
pub enum TransportOutcome {
    Answer(String),
    Failure,
}

impl View for TransportOutcome {
    type V = Option<Seq<char>>;

    open spec fn view(&self) -> Option<Seq<char>> {
        match self {
            TransportOutcome::Answer(text) => Some(text@),
            TransportOutcome::Failure => None,
        }
    }
}

/// The retry policy as a mathematical function: given how many exchanges
/// were already made and the outcome of the latest one, either the request
/// is decided (`Some`) or one retry of the identical request is owed
/// (`None`). An answer always decides; a failure on the first exchange asks
/// for the single retry; a failure on the retry is a fatal transport error.
pub open spec fn retry_decision(attempts_before: nat, outcome: Option<Seq<char>>) -> Option<
    Result<Seq<char>, FatalErrorView>,
> {
    match outcome {
        Some(text) => Some(Ok(text)),
        None => if attempts_before == 0 {
            None
        } else {
            Some(Err(FatalErrorView::TransportError))
        },
    }
}

/// The mathematical image of a decided or pending request.
pub open spec fn decision_view(r: Option<Result<String, FatalError>>) -> Option<
    Result<Seq<char>, FatalErrorView>,
> {
    match r {
        None => None,
        Some(Ok(text)) => Some(Ok(text@)),
        Some(Err(e)) => Some(Err(e@)),
    }
}

/// One in-flight completion request: the rendered message (identical across
/// the retry) and the number of transport exchanges already made.
pub struct CompletionRequest {
    pub message: Message,
    pub attempts: u8,
}

impl CompletionRequest {
    /// A request may make at most two exchanges: the send and one retry.
    pub open spec fn wf(&self) -> bool {
        self.attempts <= 2
    }

    /// Render the single system-role message for `(kind, context)` and start
    /// with no exchange made yet.
    pub fn new(kind: PromptKind, context: &str) -> (r: Self)
        ensures
            r.message.role@ == "system"@,
            r.message.content@ == rendered_prompt(kind, context@),
            r.attempts == 0,
            r.wf(),
    {
        CompletionRequest { message: extend_ai_function(kind, context), attempts: 0 }
    }

    /// Record the outcome of one transport exchange. Returns the decision,
    /// or `None` when the one permitted retry is owed. The precondition
    /// forbids a third exchange: after the retry the request is always
    /// decided.
    pub fn record_outcome(&mut self, outcome: &TransportOutcome) -> (r: Option<
        Result<String, FatalError>,
    >)
        requires
            old(self).attempts < 2,
        ensures
            final(self).message == old(self).message,
            final(self).attempts == old(self).attempts + 1,
            final(self).wf(),
            decision_view(r) == retry_decision(old(self).attempts as nat, outcome@),
    {
        self.attempts = self.attempts + 1;
        match outcome {
            TransportOutcome::Answer(text) => Some(Ok(text.clone())),
            TransportOutcome::Failure => {
                if self.attempts == 1 {
                    None
                } else {
                    Some(Err(FatalError::TransportError))
                }
            },
        }
    }
}

/// The completion retry law. A transport that fails once and then answers
/// makes the request return exactly the second answer, after exactly two
/// exchanges; a transport that fails twice makes the request fail with
/// `TransportError` after exactly two exchanges; an immediate answer decides
/// after one exchange. `record_outcome` refuses a third exchange outright,
/// so no decided request ever sends again.
pub proof fn lemma_completion_retry(text: Seq<char>)
    ensures
        retry_decision(0, None) == None::<Result<Seq<char>, FatalErrorView>>,
        retry_decision(1, Some(text)) == Some(Ok::<Seq<char>, FatalErrorView>(text)),
        retry_decision(1, None) == Some(
            Err::<Seq<char>, FatalErrorView>(FatalErrorView::TransportError),
        ),
        retry_decision(0, Some(text)) == Some(Ok::<Seq<char>, FatalErrorView>(text)),
{
}

} // verus!
