//! The failures of one agent call, by the stage that failed.
use vstd::prelude::*;

use crate::directive::{DirectiveParseError, ParseFailure};

verus! {

/// Why a call of the agent loop failed.
#[derive(Debug, PartialEq)]
pub enum AgentError {
    /// The language model failed; the cause is its message.
    LanguageModel(String),
    /// A completion was not a valid directive.
    DirectiveParse(DirectiveParseError),
    /// A directive named a tool that the registry does not hold.
    ToolNotFound { name: String },
    /// A tool was called and failed.
    ToolExecution { name: String, cause: String },
    /// The iteration cap was reached without a final answer.
    LoopLimitExceeded,
}

/// The plain-value form of an agent failure.
pub enum Failure {
    LanguageModel(Seq<char>),
    DirectiveParse(ParseFailure),
    ToolNotFound(Seq<char>),
    ToolExecution(Seq<char>, Seq<char>),
    LoopLimitExceeded,
}

impl View for AgentError {
    type V = Failure;

    open spec fn view(&self) -> Failure {
        match self {
            AgentError::LanguageModel(m) => Failure::LanguageModel(m@),
            AgentError::DirectiveParse(e) => Failure::DirectiveParse(e@),
            AgentError::ToolNotFound { name } => Failure::ToolNotFound(name@),
            AgentError::ToolExecution { name, cause } => Failure::ToolExecution(name@, cause@),
            AgentError::LoopLimitExceeded => Failure::LoopLimitExceeded,
        }
    }
}

/// The plain-value form of an agent result.
pub open spec fn result_view(r: Result<String, AgentError>) -> Result<Seq<char>, Failure> {
    match r {
        Ok(s) => Ok(s@),
        Err(e) => Err(e@),
    }
}

} // verus!
