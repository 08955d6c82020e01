//! A tool-calling agent loop: a language model's completions are read as
//! directives, which either dispatch a registered tool or end the loop with a
//! final answer.
pub mod agent;
pub mod directive;
pub mod error;
pub mod json;
pub mod model;
pub mod tool;

pub use agent::{Agent, AgentLoop, Step};
pub use directive::{Directive, DirectiveParseError};
pub use error::AgentError;
pub use json::JsonField;
pub use model::{LanguageModel, ModelError, StubModel};
pub use tool::{EchoTool, Tool, ToolRegistry};
