//! The closed taxonomy of fatal pipeline errors. A build failure is not here:
//! it is recoverable up to the repair bound, and only its escalation
//! (`ThresholdExceeded`) is fatal.

use vstd::prelude::*;

verus! {

/// A fatal condition that terminates the whole pipeline run.
#[derive(Clone, Debug, PartialEq, Eq)]
pub enum FatalError {
    /// The completion transport failed twice in a row (one retry allowed).
    TransportError,
    /// A model response did not parse against the expected schema.
    DecodeError,
    /// The human authorization gate before a build was declined.
    AuthorizationDeclined,
    /// Too many consecutive failed builds; carries the last diagnostic text.
    ThresholdExceeded(String),
}

/// The mathematical image of a `FatalError`, with text as a char sequence.
pub enum FatalErrorView {
    TransportError,
    DecodeError,
    AuthorizationDeclined,
    ThresholdExceeded(Seq<char>),
}

impl View for FatalError {
    type V = FatalErrorView;

    open spec fn view(&self) -> FatalErrorView {
        match self {
            FatalError::TransportError => FatalErrorView::TransportError,
            FatalError::DecodeError => FatalErrorView::DecodeError,
            FatalError::AuthorizationDeclined => FatalErrorView::AuthorizationDeclined,
            FatalError::ThresholdExceeded(d) => FatalErrorView::ThresholdExceeded(d@),
        }
    }
}

impl FatalError {
    /// A short label for each kind, for reporting outside the engine.
    pub fn kind_label(&self) -> (r: &'static str)
        ensures
            r@ == self.kind_label_view(),
    {
        match self {
            FatalError::TransportError => "transport error",
            FatalError::DecodeError => "decode error",
            FatalError::AuthorizationDeclined => "authorization declined",
            FatalError::ThresholdExceeded(_) => "build failure threshold exceeded",
        }
    }

    pub open spec fn kind_label_view(&self) -> Seq<char> {
        match self {
            FatalError::TransportError => "transport error"@,
            FatalError::DecodeError => "decode error"@,
            FatalError::AuthorizationDeclined => "authorization declined"@,
            FatalError::ThresholdExceeded(_) => "build failure threshold exceeded"@,
        }
    }
}

} // verus!
