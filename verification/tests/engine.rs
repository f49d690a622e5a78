use agent_pipeline::architect::AgentSolutionArchitect;
use agent_pipeline::backend::{
    initial_code_context, rest_api_context, AgentBackendDeveloper, BackendEvent,
};
use agent_pipeline::basic_agent::AgentState;
use agent_pipeline::completion::{CompletionRequest, TransportOutcome};
use agent_pipeline::errors::FatalError;
use agent_pipeline::factsheet::FactSheet;
use agent_pipeline::llm::Message;
use agent_pipeline::orchestrator::{Orchestrator, PipelinePhase};
use agent_pipeline::prompts::{extend_ai_function, PromptKind};

#[test]
fn test_extending_ai_function() {
    let extended_msg: Message = extend_ai_function(PromptKind::UserInputToGoal, "dimmy variable");
    assert_eq!(extended_msg.role, "system".to_string());
}

#[test]
fn prompt_rendering_is_pure() {
    let a = extend_ai_function(PromptKind::FixedCode, "some broken code");
    let b = extend_ai_function(PromptKind::FixedCode, "some broken code");
    assert_eq!(a.role, b.role);
    assert_eq!(a.content, b.content);
    assert_eq!(a.role, "system");
}

#[test]
fn prompt_rendering_exact() {
    let msg = extend_ai_function(PromptKind::RestApiEndpoints, "fn main() {}");
    let expected = "FUNCTION: print_rest_api_endpoints(code_input: str) -> str: prints a JSON \
                    array of the REST endpoints defined by the given backend code.\n\
                    INSTRUCTION: You are a function printer. You ONLY print the results of \
                    functions. Nothing else. No commentary. Here is the input to the function: \
                    fn main() {}. Print out what the function will return.";
    assert_eq!(msg.content, expected.to_string());
}

#[test]
fn completion_retry_succeeds_on_second_attempt() {
    let mut req = CompletionRequest::new(PromptKind::ProjectScope, "a fitness site");
    assert_eq!(req.attempts, 0);
    let first = req.record_outcome(&TransportOutcome::Failure);
    assert!(first.is_none());
    assert_eq!(req.attempts, 1);
    let second = req.record_outcome(&TransportOutcome::Answer("the answer".to_string()));
    match second {
        Some(Ok(text)) => assert_eq!(text, "the answer".to_string()),
        _ => panic!("expected the second answer to decide the request"),
    }
    assert_eq!(req.attempts, 2);
}

#[test]
fn completion_retry_fails_after_two_failures() {
    let mut req = CompletionRequest::new(PromptKind::ProjectScope, "a fitness site");
    assert!(req.record_outcome(&TransportOutcome::Failure).is_none());
    match req.record_outcome(&TransportOutcome::Failure) {
        Some(Err(e)) => assert_eq!(e, FatalError::TransportError),
        _ => panic!("expected a transport error after the retry failed"),
    }
    assert_eq!(req.attempts, 2);
}

#[test]
fn completion_immediate_answer_needs_no_retry() {
    let mut req = CompletionRequest::new(PromptKind::SiteUrls, "context");
    match req.record_outcome(&TransportOutcome::Answer("ok".to_string())) {
        Some(Ok(text)) => assert_eq!(text, "ok"),
        _ => panic!("expected an immediate answer to decide the request"),
    }
    assert_eq!(req.attempts, 1);
}

#[test]
fn backend_trace_clean_build() {
    let mut agent = AgentBackendDeveloper::new();
    let mut fs = FactSheet::new("a fitness tracking site".to_string());
    assert_eq!(agent.attributes.state, AgentState::Discovery);
    assert_eq!(agent.bug_count, 0);

    let r = agent.apply_event(&mut fs, BackendEvent::CodeDraft("draft one".to_string()));
    assert!(r.is_ok());
    assert_eq!(agent.attributes.state, AgentState::Working);
    assert_eq!(fs.backend_code, Some("draft one".to_string()));
    assert_eq!(agent.bug_count, 0);

    let r = agent.apply_event(&mut fs, BackendEvent::CodeDraft("draft two".to_string()));
    assert!(r.is_ok());
    assert_eq!(agent.attributes.state, AgentState::UnitTesting);
    assert_eq!(fs.backend_code, Some("draft two".to_string()));
    assert_eq!(agent.bug_count, 0);

    let r = agent.apply_event(&mut fs, BackendEvent::BuildAuthorization(true));
    assert!(r.is_ok());
    assert_eq!(agent.attributes.state, AgentState::UnitTesting);

    let r = agent.apply_event(
        &mut fs,
        BackendEvent::BuildOutcome { success: true, diagnostics: String::new() },
    );
    assert!(r.is_ok());
    assert_eq!(agent.attributes.state, AgentState::Finished);
    assert_eq!(agent.bug_count, 0);
}

#[test]
fn backend_trace_two_failures_then_success() {
    let mut agent = AgentBackendDeveloper::new();
    let mut fs = FactSheet::new("a stock price site".to_string());
    agent.apply_event(&mut fs, BackendEvent::CodeDraft("v1".to_string())).unwrap();
    agent.apply_event(&mut fs, BackendEvent::CodeDraft("v2".to_string())).unwrap();

    agent.apply_event(&mut fs, BackendEvent::BuildAuthorization(true)).unwrap();
    let r = agent.apply_event(
        &mut fs,
        BackendEvent::BuildOutcome { success: false, diagnostics: "error one".to_string() },
    );
    assert!(r.is_ok());
    assert_eq!(agent.attributes.state, AgentState::Working);
    assert_eq!(agent.bug_count, 1);
    assert_eq!(agent.bug_errors, Some("error one".to_string()));

    agent.apply_event(&mut fs, BackendEvent::CodeDraft("v3".to_string())).unwrap();
    agent.apply_event(&mut fs, BackendEvent::BuildAuthorization(true)).unwrap();
    let r = agent.apply_event(
        &mut fs,
        BackendEvent::BuildOutcome { success: false, diagnostics: "error two".to_string() },
    );
    assert!(r.is_ok());
    assert_eq!(agent.attributes.state, AgentState::Working);
    assert_eq!(agent.bug_count, 2);
    assert_eq!(agent.bug_errors, Some("error two".to_string()));

    agent.apply_event(&mut fs, BackendEvent::CodeDraft("v4".to_string())).unwrap();
    agent.apply_event(&mut fs, BackendEvent::BuildAuthorization(true)).unwrap();
    let r = agent.apply_event(
        &mut fs,
        BackendEvent::BuildOutcome { success: true, diagnostics: String::new() },
    );
    assert!(r.is_ok());
    assert_eq!(agent.attributes.state, AgentState::Finished);
    assert_eq!(agent.bug_count, 0);
    assert_eq!(fs.backend_code, Some("v4".to_string()));
}

#[test]
fn backend_threshold_exceeded_on_third_failure() {
    let mut agent = AgentBackendDeveloper::new();
    let mut fs = FactSheet::new("a forum".to_string());
    agent.apply_event(&mut fs, BackendEvent::CodeDraft("v1".to_string())).unwrap();
    agent.apply_event(&mut fs, BackendEvent::CodeDraft("v2".to_string())).unwrap();

    for n in 1..=2u8 {
        agent.apply_event(&mut fs, BackendEvent::BuildAuthorization(true)).unwrap();
        let r = agent.apply_event(
            &mut fs,
            BackendEvent::BuildOutcome { success: false, diagnostics: format!("failure {}", n) },
        );
        assert!(r.is_ok());
        assert_eq!(agent.bug_count, n);
        agent
            .apply_event(&mut fs, BackendEvent::CodeDraft(format!("repair {}", n)))
            .unwrap();
    }

    agent.apply_event(&mut fs, BackendEvent::BuildAuthorization(true)).unwrap();
    let r = agent.apply_event(
        &mut fs,
        BackendEvent::BuildOutcome { success: false, diagnostics: "failure 3".to_string() },
    );
    assert_eq!(r, Err(FatalError::ThresholdExceeded("failure 3".to_string())));
    assert_ne!(agent.attributes.state, AgentState::Finished);
}

#[test]
fn backend_authorization_declined_is_fatal() {
    let mut agent = AgentBackendDeveloper::new();
    let mut fs = FactSheet::new("a blog".to_string());
    agent.apply_event(&mut fs, BackendEvent::CodeDraft("v1".to_string())).unwrap();
    agent.apply_event(&mut fs, BackendEvent::CodeDraft("v2".to_string())).unwrap();
    assert_eq!(agent.attributes.state, AgentState::UnitTesting);
    assert!(!agent.build_authorized);

    let r = agent.apply_event(&mut fs, BackendEvent::BuildAuthorization(false));
    assert_eq!(r, Err(FatalError::AuthorizationDeclined));
    assert_eq!(agent.attributes.state, AgentState::UnitTesting);
    assert!(!agent.build_authorized);
}

#[test]
fn architect_applies_decoded_scope() {
    let mut architect = AgentSolutionArchitect::new();
    assert_eq!(architect.attributes.state, AgentState::Discovery);
    assert_eq!(architect.attributes.position, "Solutions Architect".to_string());
    let mut fs = FactSheet::new("an online store".to_string());
    let context = AgentSolutionArchitect::scope_context(&fs);
    assert_eq!(context, "an online store".to_string());

    let response = "{\"is_crud_required\":true,\"is_user_login_and_logout\":false,\
                    \"is_external_urls_required\":true}";
    let scope = architect
        .apply_project_scope_response(&mut fs, response)
        .expect("a canonical scope response must decode");
    assert!(scope.is_crud_required);
    assert!(!scope.is_user_login_and_logout);
    assert!(scope.is_external_urls_required);
    assert_eq!(fs.project_scope, Some(scope));
    assert_eq!(architect.attributes.state, AgentState::Finished);
}

#[test]
fn architect_decode_failure_is_fatal_and_changes_nothing() {
    let mut architect = AgentSolutionArchitect::new();
    let mut fs = FactSheet::new("an online store".to_string());
    let r = architect.apply_project_scope_response(&mut fs, "not a scope at all");
    assert_eq!(r, Err(FatalError::DecodeError));
    assert_eq!(fs.project_scope, None);
    assert_eq!(architect.attributes.state, AgentState::Discovery);
}

#[test]
fn orchestrator_runs_stages_in_order() {
    let mut orchestrator = Orchestrator::new("a recipe site".to_string());
    assert_eq!(orchestrator.factsheet.project_description, "a recipe site".to_string());
    assert_eq!(orchestrator.factsheet.project_scope, None);
    assert!(orchestrator.factsheet.external_urls.is_empty());
    assert_eq!(orchestrator.factsheet.backend_code, None);
    assert_eq!(orchestrator.phase, PipelinePhase::ArchitectStage);
    orchestrator.agent_finished();
    assert_eq!(orchestrator.phase, PipelinePhase::BackendStage);
    orchestrator.agent_finished();
    assert_eq!(orchestrator.phase, PipelinePhase::Complete);
}

#[test]
fn working_prompt_kind_follows_repair_counter() {
    let mut agent = AgentBackendDeveloper::new();
    let mut fs = FactSheet::new("a wiki".to_string());
    assert_eq!(agent.working_prompt_kind(), PromptKind::ImprovedWebserverCode);
    agent.apply_event(&mut fs, BackendEvent::CodeDraft("v1".to_string())).unwrap();
    agent.apply_event(&mut fs, BackendEvent::CodeDraft("v2".to_string())).unwrap();
    agent.apply_event(&mut fs, BackendEvent::BuildAuthorization(true)).unwrap();
    agent
        .apply_event(
            &mut fs,
            BackendEvent::BuildOutcome { success: false, diagnostics: "boom".to_string() },
        )
        .unwrap();
    assert_eq!(agent.working_prompt_kind(), PromptKind::FixedCode);
}

#[test]
fn context_builders_render_exactly() {
    let fs = FactSheet::new("a chat app".to_string());
    let ctx = initial_code_context("template code", &fs);
    assert_eq!(
        ctx,
        "CODE TEMPLATE: template code \n PROJECT_DESCRIPTION: a chat app \n".to_string()
    );
    let ctx = rest_api_context("fn main() {}");
    assert_eq!(ctx, "CODE_INPUT: fn main() {}".to_string());
}

#[test]
fn update_state_moves_only_the_lifecycle_state() {
    let mut agent = AgentSolutionArchitect::new();
    let objective = agent.attributes.objective.clone();
    agent.attributes.update_state(AgentState::Working);
    assert_eq!(agent.attributes.state, AgentState::Working);
    assert_eq!(agent.attributes.objective, objective);
    agent.attributes.update_state(AgentState::Finished);
    assert_eq!(agent.attributes.state, AgentState::Finished);
}

#[test]
fn fatal_error_kind_labels() {
    assert_eq!(FatalError::TransportError.kind_label(), "transport error");
    assert_eq!(FatalError::DecodeError.kind_label(), "decode error");
    assert_eq!(FatalError::AuthorizationDeclined.kind_label(), "authorization declined");
    assert_eq!(
        FatalError::ThresholdExceeded("e".to_string()).kind_label(),
        "build failure threshold exceeded"
    );
}
