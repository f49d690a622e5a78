//! A verified agent pipeline engine: a large-language-model completion
//! request/retry contract, a shared project state record with a JSON codec,
//! and the bounded generate -> validate -> repair state machine that drives
//! backend code generation. All I/O (the completion transport, the build
//! command, the authorization prompt) lives outside this crate; the engine
//! here decides, and its decisions carry proofs.

pub mod architect;
pub mod backend;
pub mod basic_agent;
pub mod codec;
pub mod completion;
pub mod errors;
pub mod factsheet;
pub mod llm;
pub mod orchestrator;
pub mod prompts;
