//! Prompt templates. Each template instructs the model to act as a
//! deterministic "function printer": echo only the literal result implied by
//! the template and the supplied context. The kinds form a closed
//! enumeration mapped by a pure lookup to template text, so rendering is a
//! mathematical function of `(kind, context)`.

use crate::llm::Message;
use vstd::prelude::*;

verus! {

/// The closed set of prompt templates the pipeline can render.
#[derive(Clone, Copy, Debug, PartialEq, Eq, Structural)]
pub enum PromptKind {
    /// Restate a free-text user request as a single build goal.
    UserInputToGoal,
    /// Summarize the required capabilities of a project as a JSON scope object.
    ProjectScope,
    /// List the external URLs a project relies on as a JSON array.
    SiteUrls,
    /// Write initial backend web server code from a template and description.
    BackendWebserverCode,
    /// Rewrite backend code with the full project context taken into account.
    ImprovedWebserverCode,
    /// Repair backend code given the captured build diagnostics.
    FixedCode,
    /// Extract the REST endpoints of backend code as a JSON array.
    RestApiEndpoints,
}

/// The template text of each prompt kind, as a sequence of characters.
pub open spec fn template_view(kind: PromptKind) -> Seq<char> {
    match kind {
        PromptKind::UserInputToGoal => "convert_user_input_to_goal(user_request: str) -> str: takes the user request and prints one concise goal statement for the website build."@,
        PromptKind::ProjectScope => "print_project_scope(project_description: str) -> str: prints a JSON object with the boolean fields is_crud_required, is_user_login_and_logout and is_external_urls_required describing the project."@,
        PromptKind::SiteUrls => "print_site_urls(project_description: str) -> str: prints a JSON array of the external URLs the described project must call."@,
        PromptKind::BackendWebserverCode => "print_backend_webserver_code(code_template_and_description: str) -> str: prints complete backend web server code built from the given template for the described project."@,
        PromptKind::ImprovedWebserverCode => "print_improved_webserver_code(code_and_factsheet: str) -> str: prints an improved version of the given backend code, taking the full project fact sheet into account."@,
        PromptKind::FixedCode => "print_fixed_code(broken_code_and_errors: str) -> str: prints the given backend code with the listed build errors repaired."@,
        PromptKind::RestApiEndpoints => "print_rest_api_endpoints(code_input: str) -> str: prints a JSON array of the REST endpoints defined by the given backend code."@,
    }
}

/// Pure lookup from a prompt kind to its fixed template text.
pub fn template_text(kind: PromptKind) -> (r: &'static str)
    ensures
        r@ == template_view(kind),
{
    match kind {
        PromptKind::UserInputToGoal => "convert_user_input_to_goal(user_request: str) -> str: takes the user request and prints one concise goal statement for the website build.",
        PromptKind::ProjectScope => "print_project_scope(project_description: str) -> str: prints a JSON object with the boolean fields is_crud_required, is_user_login_and_logout and is_external_urls_required describing the project.",
        PromptKind::SiteUrls => "print_site_urls(project_description: str) -> str: prints a JSON array of the external URLs the described project must call.",
        PromptKind::BackendWebserverCode => "print_backend_webserver_code(code_template_and_description: str) -> str: prints complete backend web server code built from the given template for the described project.",
        PromptKind::ImprovedWebserverCode => "print_improved_webserver_code(code_and_factsheet: str) -> str: prints an improved version of the given backend code, taking the full project fact sheet into account.",
        PromptKind::FixedCode => "print_fixed_code(broken_code_and_errors: str) -> str: prints the given backend code with the listed build errors repaired.",
        PromptKind::RestApiEndpoints => "print_rest_api_endpoints(code_input: str) -> str: prints a JSON array of the REST endpoints defined by the given backend code.",
    }
}

/// The full rendered prompt for a kind and a context string.
pub open spec fn rendered_prompt(kind: PromptKind, input: Seq<char>) -> Seq<char> {
    "FUNCTION: "@ + template_view(kind)
        + "\nINSTRUCTION: You are a function printer. You ONLY print the results of functions. Nothing else. No commentary. Here is the input to the function: "@
        + input + ". Print out what the function will return."@
}

/// Whether a message is the rendered prompt for `(kind, input)`.
pub open spec fn is_rendered_prompt(kind: PromptKind, input: Seq<char>, role: Seq<char>, content: Seq<char>) -> bool {
    role == "system"@ && content == rendered_prompt(kind, input)
}

/// Render the system-role message for a prompt kind and context.
pub fn extend_ai_function(ai_func: PromptKind, func_input: &str) -> (msg: Message)
    ensures
        is_rendered_prompt(ai_func, func_input@, msg.role@, msg.content@),
        msg.role@ == "system"@,
        msg.content@ == rendered_prompt(ai_func, func_input@),
{
    let mut content = String::from_str("FUNCTION: ");
    content.append(template_text(ai_func));
    content.append("\nINSTRUCTION: You are a function printer. You ONLY print the results of functions. Nothing else. No commentary. Here is the input to the function: ");
    content.append(func_input);
    content.append(". Print out what the function will return.");
    Message { role: String::from_str("system"), content }
}

/// Prompt construction is pure: for a fixed prompt kind and context there is
/// exactly one rendered message, and its role is always the system role.
pub proof fn lemma_prompt_rendering_pure(
    kind: PromptKind,
    input: Seq<char>,
    role1: Seq<char>,
    content1: Seq<char>,
    role2: Seq<char>,
    content2: Seq<char>,
)
    requires
        is_rendered_prompt(kind, input, role1, content1),
        is_rendered_prompt(kind, input, role2, content2),
    ensures
        role1 == role2,
        content1 == content2,
        role1 == "system"@,
{
}

} // verus!
