//! The backend developer agent: the core state machine. It generates,
//! improves and repairs code drafts through the completion service, and
//! drives an external build validator in a failure-bounded loop:
//! `Discovery -> Working -> UnitTesting -> Finished`, with the sole
//! back-edge `UnitTesting -> Working` taken on a failed build and bounded by
//! the repair counter. The loop around it (transport, file writes, the build
//! command, the authorization prompt) lives outside this crate; it reports
//! every outside result back here as an event, and this module alone decides
//! what happens next.

use crate::basic_agent::{AgentState, BasicAgent};
use crate::errors::{FatalError, FatalErrorView};
use crate::factsheet::{FactSheet, FactSheetView};
use crate::prompts::PromptKind;
use vstd::prelude::*;

verus! {

/// Consecutive failed builds tolerated before the next failure aborts: the
/// third consecutive failure exceeds the threshold and is fatal.
pub const MAX_TOLERATED_BUILD_FAILURES: u8 = 2;

/// The backend developer agent.
#[derive(Clone, Debug)]
pub struct AgentBackendDeveloper {
    pub attributes: BasicAgent,
    /// Diagnostic text captured from the latest failed build.
    pub bug_errors: Option<String>,
    /// Consecutive failed builds since the last success: the repair counter.
    pub bug_count: u8,
    /// Whether the authorization gate of the current `UnitTesting` stage has
    /// been passed. A build outcome is only ever accepted after it has.
    pub build_authorized: bool,
}

/// The mathematical image of the agent's state-machine-relevant state.
pub struct BackendModel {
    pub state: AgentState,
    pub bug_count: nat,
    pub bug_errors: Option<Seq<char>>,
    pub build_authorized: bool,
}

impl View for AgentBackendDeveloper {
    type V = BackendModel;

    open spec fn view(&self) -> BackendModel {
        BackendModel {
            state: self.attributes.state,
            bug_count: self.bug_count as nat,
            bug_errors: self.bug_errors.deep_view(),
            build_authorized: self.build_authorized,
        }
    }
}

/// One result of outside work, reported back to the state machine.
#[derive(Clone, Debug)]
pub enum BackendEvent {
    /// The completion service answered a code request (initial, improved or
    /// repaired, depending on the stage that asked).
    CodeDraft(String),
    /// The human authorization gate before a build answered.
    BuildAuthorization(bool),
    /// The build validator compiled the persisted artifact.
    BuildOutcome { success: bool, diagnostics: String },
}

/// The mathematical image of a `BackendEvent`.
pub enum BackendEventView {
    CodeDraft(Seq<char>),
    BuildAuthorization(bool),
    BuildOutcome { success: bool, diagnostics: Seq<char> },
}

impl View for BackendEvent {
    type V = BackendEventView;

    open spec fn view(&self) -> BackendEventView {
        match self {
            BackendEvent::CodeDraft(code) => BackendEventView::CodeDraft(code@),
            BackendEvent::BuildAuthorization(ok) => BackendEventView::BuildAuthorization(*ok),
            BackendEvent::BuildOutcome { success, diagnostics } => BackendEventView::BuildOutcome {
                success: *success,
                diagnostics: diagnostics@,
            },
        }
    }
}

/// Which events the state machine accepts in which state. In particular, a
/// build outcome is accepted only after the authorization gate of the
/// current `UnitTesting` stage has been passed: the build validator is never
/// invoked without authorization.
pub open spec fn event_accepted(m: BackendModel, ev: BackendEventView) -> bool {
    match ev {
        BackendEventView::CodeDraft(_) => m.state == AgentState::Discovery || m.state
            == AgentState::Working,
        BackendEventView::BuildAuthorization(_) => m.state == AgentState::UnitTesting
            && !m.build_authorized,
        BackendEventView::BuildOutcome { .. } => m.state == AgentState::UnitTesting
            && m.build_authorized,
    }
}

/// The transition function of the state machine: the agent and fact sheet
/// after one accepted event, and whether the event was fatal. A code draft
/// overwrites the backend source and advances the stage; a declined
/// authorization aborts; a successful build resets the repair counter and
/// finishes; a failed build captures diagnostics and increments the counter,
/// looping back to `Working` unless the threshold is now exceeded, which
/// aborts instead.
pub open spec fn backend_step(m: BackendModel, fs: FactSheetView, ev: BackendEventView) -> (
    BackendModel,
    FactSheetView,
    Result<(), FatalErrorView>,
)
    recommends
        event_accepted(m, ev),
{
    match ev {
        BackendEventView::CodeDraft(code) => (
            BackendModel {
                state: if m.state == AgentState::Discovery {
                    AgentState::Working
                } else {
                    AgentState::UnitTesting
                },
                ..m
            },
            FactSheetView { backend_code: Some(code), ..fs },
            Ok(()),
        ),
        BackendEventView::BuildAuthorization(ok) => if ok {
            (BackendModel { build_authorized: true, ..m }, fs, Ok(()))
        } else {
            (m, fs, Err(FatalErrorView::AuthorizationDeclined))
        },
        BackendEventView::BuildOutcome { success, diagnostics } => if success {
            (
                BackendModel {
                    state: AgentState::Finished,
                    bug_count: 0,
                    build_authorized: false,
                    ..m
                },
                fs,
                Ok(()),
            )
        } else if m.bug_count + 1 > MAX_TOLERATED_BUILD_FAILURES {
            (
                BackendModel {
                    bug_count: m.bug_count + 1,
                    bug_errors: Some(diagnostics),
                    build_authorized: false,
                    ..m
                },
                fs,
                Err(FatalErrorView::ThresholdExceeded(diagnostics)),
            )
        } else {
            (
                BackendModel {
                    state: AgentState::Working,
                    bug_count: m.bug_count + 1,
                    bug_errors: Some(diagnostics),
                    build_authorized: false,
                    ..m
                },
                fs,
                Ok(()),
            )
        },
    }
}

/// The mathematical image of an event application's result.
pub open spec fn outcome_view(r: Result<(), FatalError>) -> Result<(), FatalErrorView> {
    match r {
        Ok(()) => Ok(()),
        Err(e) => Err(e@),
    }
}

impl AgentBackendDeveloper {
    /// The repair counter never runs past the threshold, and the
    /// authorization flag is only ever set inside `UnitTesting`.
    pub open spec fn wf(&self) -> bool {
        self.bug_count <= MAX_TOLERATED_BUILD_FAILURES && (self.build_authorized
            ==> self.attributes.state == AgentState::UnitTesting)
    }

    /// A fresh backend developer agent in `Discovery`, with a zero repair
    /// counter, no diagnostics, and authorization not yet granted.
    pub fn new() -> (r: Self)
        ensures
            r@.state == AgentState::Discovery,
            r@.bug_count == 0,
            r@.bug_errors is None,
            r@.build_authorized == false,
            r.attributes.objective@ == "Develop backend code for webserver and json database"@,
            r.attributes.position@ == "Backend Developer"@,
            r.attributes.memory@ == Seq::<crate::llm::Message>::empty(),
            r.wf(),
    {
        let attributes = BasicAgent {
            objective: String::from_str("Develop backend code for webserver and json database"),
            position: String::from_str("Backend Developer"),
            state: AgentState::Discovery,
            memory: Vec::new(),
        };
        let r = AgentBackendDeveloper {
            attributes,
            bug_errors: None,
            bug_count: 0,
            build_authorized: false,
        };
        proof {
            assert(r.attributes.memory@ =~= Seq::<crate::llm::Message>::empty());
        }
        r
    }

    /// The agent's identity and lifecycle state.
    pub fn get_attributes_from_agent(&self) -> (r: &BasicAgent)
        ensures
            r == &self.attributes,
    {
        &self.attributes
    }

    /// Which prompt the `Working` stage asks for: an improvement rewrite
    /// when no build has failed since the last success, a repair rewrite
    /// otherwise.
    pub fn working_prompt_kind(&self) -> (r: PromptKind)
        ensures
            r == (if self@.bug_count == 0 {
                PromptKind::ImprovedWebserverCode
            } else {
                PromptKind::FixedCode
            }),
    {
        if self.bug_count == 0 {
            PromptKind::ImprovedWebserverCode
        } else {
            PromptKind::FixedCode
        }
    }

    /// Build the `Working` stage's repair context: the broken code and the
    /// diagnostics captured from the latest failed build.
    pub fn fix_code_context(&self, factsheet: &FactSheet) -> (r: String)
        requires
            self@.bug_errors is Some,
            factsheet@.backend_code is Some,
        ensures
            r@ == fix_code_context_view(factsheet@.backend_code->0, self@.bug_errors->0),
    {
        let mut msg = String::from_str("BROKEN_CODE: ");
        match &factsheet.backend_code {
            Some(code) => msg.append(code.as_str()),
            None => vstd::pervasive::unreached(),
        }
        msg.append(" \n ERROR_BUGS: ");
        match &self.bug_errors {
            Some(diag) => msg.append(diag.as_str()),
            None => vstd::pervasive::unreached(),
        }
        msg.append(" \n THIS FUNCTION ONLY OUTPUT CODE. JUST OUTPUT THE CODE.");
        msg
    }

    /// Apply one accepted event: the exec side of `backend_step`. The
    /// agent's identity and memory are untouched; everything the state
    /// machine owns moves exactly as the transition function says.
    pub fn apply_event(&mut self, factsheet: &mut FactSheet, event: BackendEvent) -> (r: Result<
        (),
        FatalError,
    >)
        requires
            old(self).wf(),
            event_accepted(old(self)@, event@),
        ensures
            (final(self)@, final(factsheet)@, outcome_view(r)) == backend_step(
                old(self)@,
                old(factsheet)@,
                event@,
            ),
            r is Ok ==> final(self).wf(),
            final(self).attributes.objective == old(self).attributes.objective,
            final(self).attributes.position == old(self).attributes.position,
            final(self).attributes.memory == old(self).attributes.memory,
    {
        match event {
            BackendEvent::CodeDraft(code) => {
                let next = if matches!(self.attributes.state, AgentState::Discovery) {
                    AgentState::Working
                } else {
                    AgentState::UnitTesting
                };
                self.attributes.state = next;
                factsheet.backend_code = Some(code);
                Ok(())
            },
            BackendEvent::BuildAuthorization(ok) => {
                if ok {
                    self.build_authorized = true;
                    Ok(())
                } else {
                    Err(FatalError::AuthorizationDeclined)
                }
            },
            BackendEvent::BuildOutcome { success, diagnostics } => {
                self.build_authorized = false;
                if success {
                    self.bug_count = 0;
                    self.attributes.state = AgentState::Finished;
                    Ok(())
                } else {
                    self.bug_count = self.bug_count + 1;
                    if self.bug_count > MAX_TOLERATED_BUILD_FAILURES {
                        let result = Err(FatalError::ThresholdExceeded(diagnostics.clone()));
                        self.bug_errors = Some(diagnostics);
                        result
                    } else {
                        self.bug_errors = Some(diagnostics);
                        self.attributes.state = AgentState::Working;
                        Ok(())
                    }
                }
            },
        }
    }
}

/// The context for the initial code request: the fixed code template and
/// the project description.
pub open spec fn initial_code_context_view(template: Seq<char>, description: Seq<char>) -> Seq<
    char,
> {
    "CODE TEMPLATE: "@ + template + " \n PROJECT_DESCRIPTION: "@ + description + " \n"@
}

/// The context for an improvement request: the current code and the full
/// project-state snapshot.
pub open spec fn improved_code_context_view(code: Seq<char>, snapshot: Seq<char>) -> Seq<char> {
    "CODE TEMPLATE: "@ + code + " \n PROJECT_DESCRIPTION: "@ + snapshot + " \n"@
}

/// The context for a repair request: the broken code and the captured build
/// diagnostics.
pub open spec fn fix_code_context_view(code: Seq<char>, diagnostics: Seq<char>) -> Seq<char> {
    "BROKEN_CODE: "@ + code + " \n ERROR_BUGS: "@ + diagnostics
        + " \n THIS FUNCTION ONLY OUTPUT CODE. JUST OUTPUT THE CODE."@
}

/// The context for the endpoint extraction request: the final code.
pub open spec fn rest_api_context_view(code: Seq<char>) -> Seq<char> {
    "CODE_INPUT: "@ + code
}

/// Build the `Discovery` stage's completion context from the fixed code
/// template and the project description.
pub fn initial_code_context(code_template: &str, factsheet: &FactSheet) -> (r: String)
    ensures
        r@ == initial_code_context_view(code_template@, factsheet@.project_description),
{
    let mut msg = String::from_str("CODE TEMPLATE: ");
    msg.append(code_template);
    msg.append(" \n PROJECT_DESCRIPTION: ");
    msg.append(factsheet.project_description.as_str());
    msg.append(" \n");
    msg
}

/// Build the `Working` stage's improvement context: the current backend
/// code together with the serialized snapshot of the whole project state.
pub fn improved_code_context(factsheet: &FactSheet) -> (r: String)
    requires
        factsheet@.backend_code is Some,
    ensures
        r@ == improved_code_context_view(
            factsheet@.backend_code->0,
            crate::codec::json_factsheet(factsheet@),
        ),
{
    let snapshot = factsheet.to_json();
    let mut msg = String::from_str("CODE TEMPLATE: ");
    match &factsheet.backend_code {
        Some(code) => msg.append(code.as_str()),
        None => vstd::pervasive::unreached(),
    }
    msg.append(" \n PROJECT_DESCRIPTION: ");
    msg.append(snapshot.as_str());
    msg.append(" \n");
    msg
}

/// Build the endpoint extraction context from the final backend code.
pub fn rest_api_context(backend_code: &str) -> (r: String)
    ensures
        r@ == rest_api_context_view(backend_code@),
{
    let mut msg = String::from_str("CODE_INPUT: ");
    msg.append(backend_code);
    msg
}

/// Run a sequence of events through the state machine. An error stops the
/// run at once: the events after a fatal abort are never consumed, which is
/// how the driver outside behaves.
pub open spec fn backend_run(m: BackendModel, fs: FactSheetView, evs: Seq<BackendEventView>) -> (
    BackendModel,
    FactSheetView,
    Result<(), FatalErrorView>,
)
    decreases evs.len(),
{
    if evs.len() == 0 {
        (m, fs, Ok(()))
    } else {
        let stepped = backend_step(m, fs, evs[0]);
        if stepped.2 is Err {
            stepped
        } else {
            backend_run(stepped.0, stepped.1, evs.skip(1))
        }
    }
}

/// The fresh agent model that `AgentBackendDeveloper::new` sets up.
pub open spec fn initial_backend_model() -> BackendModel {
    BackendModel {
        state: AgentState::Discovery,
        bug_count: 0,
        bug_errors: None,
        build_authorized: false,
    }
}

/// The lifecycle discipline: `Finished` is terminal — no event is accepted
/// there — and an accepted event either keeps the stage, follows a forward
/// edge of `Discovery -> Working -> UnitTesting -> Finished`, or takes the
/// single back-edge `UnitTesting -> Working`, which is exactly a failed
/// build incrementing the repair counter. No other transition exists.
pub proof fn lemma_lifecycle_discipline(m: BackendModel, fs: FactSheetView, ev: BackendEventView)
    ensures
        m.state == AgentState::Finished ==> !event_accepted(m, ev),
        event_accepted(m, ev) ==> ({
            let stepped = backend_step(m, fs, ev);
            ||| stepped.0.state == m.state
            ||| (m.state == AgentState::Discovery && stepped.0.state == AgentState::Working)
            ||| (m.state == AgentState::Working && stepped.0.state == AgentState::UnitTesting)
            ||| (m.state == AgentState::UnitTesting && stepped.0.state == AgentState::Finished
                && stepped.0.bug_count == 0)
            ||| (m.state == AgentState::UnitTesting && stepped.0.state == AgentState::Working
                && stepped.0.bug_count == m.bug_count + 1)
        }),
{
}

/// The trace of an always-succeeding build: an initial draft, an improvement
/// draft, a granted authorization and a successful build walk the agent
/// through `Discovery -> Working -> UnitTesting -> Finished`, and the repair
/// counter stays zero at every point.
pub proof fn lemma_trace_clean_build(
    fs: FactSheetView,
    draft1: Seq<char>,
    draft2: Seq<char>,
)
    ensures
        ({
            let m0 = initial_backend_model();
            let s1 = backend_step(m0, fs, BackendEventView::CodeDraft(draft1));
            let s2 = backend_step(s1.0, s1.1, BackendEventView::CodeDraft(draft2));
            let s3 = backend_step(s2.0, s2.1, BackendEventView::BuildAuthorization(true));
            let s4 = backend_step(
                s3.0,
                s3.1,
                BackendEventView::BuildOutcome { success: true, diagnostics: Seq::empty() },
            );
            &&& s1.0.state == AgentState::Working
            &&& s2.0.state == AgentState::UnitTesting
            &&& s3.0.state == AgentState::UnitTesting
            &&& s4.0.state == AgentState::Finished
            &&& s1.0.bug_count == 0 && s2.0.bug_count == 0 && s3.0.bug_count == 0
                && s4.0.bug_count == 0
            &&& s1.2 is Ok && s2.2 is Ok && s3.2 is Ok && s4.2 is Ok
            &&& s4.1.backend_code == Some(draft2)
        }),
{
}

/// The trace of two consecutive failing builds followed by a success: the
/// repair counter reads 1 after the first failure and 2 after the second,
/// each failure loops back to `Working` carrying the diagnostics forward,
/// and the eventual success resets the counter to zero and finishes.
pub proof fn lemma_trace_two_failures_then_success(
    fs: FactSheetView,
    draft1: Seq<char>,
    draft2: Seq<char>,
    fix1: Seq<char>,
    fix2: Seq<char>,
    diag1: Seq<char>,
    diag2: Seq<char>,
)
    ensures
        ({
            let m0 = initial_backend_model();
            let s1 = backend_step(m0, fs, BackendEventView::CodeDraft(draft1));
            let s2 = backend_step(s1.0, s1.1, BackendEventView::CodeDraft(draft2));
            let s3 = backend_step(s2.0, s2.1, BackendEventView::BuildAuthorization(true));
            let s4 = backend_step(
                s3.0,
                s3.1,
                BackendEventView::BuildOutcome { success: false, diagnostics: diag1 },
            );
            let s5 = backend_step(s4.0, s4.1, BackendEventView::CodeDraft(fix1));
            let s6 = backend_step(s5.0, s5.1, BackendEventView::BuildAuthorization(true));
            let s7 = backend_step(
                s6.0,
                s6.1,
                BackendEventView::BuildOutcome { success: false, diagnostics: diag2 },
            );
            let s8 = backend_step(s7.0, s7.1, BackendEventView::CodeDraft(fix2));
            let s9 = backend_step(s8.0, s8.1, BackendEventView::BuildAuthorization(true));
            let s10 = backend_step(
                s9.0,
                s9.1,
                BackendEventView::BuildOutcome { success: true, diagnostics: Seq::empty() },
            );
            &&& s4.0.state == AgentState::Working && s4.0.bug_count == 1 && s4.0.bug_errors
                == Some(diag1) && s4.2 is Ok
            &&& s7.0.state == AgentState::Working && s7.0.bug_count == 2 && s7.0.bug_errors
                == Some(diag2) && s7.2 is Ok
            &&& s10.0.state == AgentState::Finished && s10.0.bug_count == 0 && s10.2 is Ok
        }),
{
}

/// The threshold law: from any agent entering its build with a zero repair
/// counter, three consecutive build failures (with the repair drafts and
/// authorizations between them) make the third failure fatal with
/// `ThresholdExceeded` carrying its diagnostics, and a run of the state
/// machine stops there: no fourth build is ever reached.
pub proof fn lemma_threshold_on_third_failure(
    m: BackendModel,
    fs: FactSheetView,
    fix1: Seq<char>,
    fix2: Seq<char>,
    diag1: Seq<char>,
    diag2: Seq<char>,
    diag3: Seq<char>,
    more: Seq<BackendEventView>,
)
    requires
        m.state == AgentState::UnitTesting,
        m.build_authorized,
        m.bug_count == 0,
    ensures
        ({
            let s1 = backend_step(
                m,
                fs,
                BackendEventView::BuildOutcome { success: false, diagnostics: diag1 },
            );
            let s2 = backend_step(s1.0, s1.1, BackendEventView::CodeDraft(fix1));
            let s3 = backend_step(s2.0, s2.1, BackendEventView::BuildAuthorization(true));
            let s4 = backend_step(
                s3.0,
                s3.1,
                BackendEventView::BuildOutcome { success: false, diagnostics: diag2 },
            );
            let s5 = backend_step(s4.0, s4.1, BackendEventView::CodeDraft(fix2));
            let s6 = backend_step(s5.0, s5.1, BackendEventView::BuildAuthorization(true));
            let s7 = backend_step(
                s6.0,
                s6.1,
                BackendEventView::BuildOutcome { success: false, diagnostics: diag3 },
            );
            &&& s1.2 is Ok && s1.0.bug_count == 1
            &&& s4.2 is Ok && s4.0.bug_count == 2
            &&& s7.2 == Err::<(), FatalErrorView>(FatalErrorView::ThresholdExceeded(diag3))
            &&& backend_run(
                s6.0,
                s6.1,
                seq![BackendEventView::BuildOutcome { success: false, diagnostics: diag3 }]
                    + more,
            ) == s7
        }),
{
    let s1 = backend_step(
        m,
        fs,
        BackendEventView::BuildOutcome { success: false, diagnostics: diag1 },
    );
    let s2 = backend_step(s1.0, s1.1, BackendEventView::CodeDraft(fix1));
    let s3 = backend_step(s2.0, s2.1, BackendEventView::BuildAuthorization(true));
    let s4 = backend_step(
        s3.0,
        s3.1,
        BackendEventView::BuildOutcome { success: false, diagnostics: diag2 },
    );
    let s5 = backend_step(s4.0, s4.1, BackendEventView::CodeDraft(fix2));
    let s6 = backend_step(s5.0, s5.1, BackendEventView::BuildAuthorization(true));
    let evs = seq![BackendEventView::BuildOutcome { success: false, diagnostics: diag3 }] + more;
    assert(evs[0] == BackendEventView::BuildOutcome { success: false, diagnostics: diag3 });
    assert(evs.len() > 0);
}

/// The authorization law: while the current `UnitTesting` stage has not
/// been authorized, a declined authorization aborts the run at once with
/// `AuthorizationDeclined`, changing neither the agent nor the fact sheet;
/// and no build outcome is accepted at all, so the build validator is never
/// invoked. Events queued after the refusal are never consumed.
pub proof fn lemma_authorization_gate(
    m: BackendModel,
    fs: FactSheetView,
    ev: BackendEventView,
    more: Seq<BackendEventView>,
)
    requires
        m.state == AgentState::UnitTesting,
        !m.build_authorized,
    ensures
        backend_step(m, fs, BackendEventView::BuildAuthorization(false)) == (
            m,
            fs,
            Err::<(), FatalErrorView>(FatalErrorView::AuthorizationDeclined),
        ),
        ev is BuildOutcome ==> !event_accepted(m, ev),
        backend_run(m, fs, seq![BackendEventView::BuildAuthorization(false)] + more) == (
            m,
            fs,
            Err::<(), FatalErrorView>(FatalErrorView::AuthorizationDeclined),
        ),
{
    let evs = seq![BackendEventView::BuildAuthorization(false)] + more;
    assert(evs[0] == BackendEventView::BuildAuthorization(false));
    assert(evs.len() > 0);
}

} // verus!

