//! What can go wrong while the agent runs.

use vstd::prelude::*;

verus! {

/// A failure of the agent runtime.
#[derive(Debug, PartialEq, Eq)]
pub enum AgentError {
    /// No command is registered under this name.
    CommandNotFound(String),
    /// A command with this name is registered already.
    DuplicateCommand(String),
    /// A command ran and failed; the text is the command's own.
    CommandInvocationFailed(String),
    /// A script could not be read, or stopped in an error.
    ScriptParseOrRuntimeError(String),
    /// The model's output did not have the expected structure.
    ResponseParseError(String),
    /// A plugin could not take note of what is about to leave the history.
    CollaboratorNotificationFailed(String),
    /// The language model gave no answer.
    ModelCallFailed(String),
    /// The long-term memory did not take an item.
    MemoryStoreFailed(String),
}

/// What an [`AgentError`] is, as a mathematical value.
pub enum ErrorModel {
    CommandNotFound(Seq<char>),
    DuplicateCommand(Seq<char>),
    CommandInvocationFailed(Seq<char>),
    ScriptParseOrRuntimeError(Seq<char>),
    ResponseParseError(Seq<char>),
    CollaboratorNotificationFailed(Seq<char>),
    ModelCallFailed(Seq<char>),
    MemoryStoreFailed(Seq<char>),
}

impl View for AgentError {
    type V = ErrorModel;

    open spec fn view(&self) -> ErrorModel {
        match self {
            AgentError::CommandNotFound(t) => ErrorModel::CommandNotFound(t@),
            AgentError::DuplicateCommand(t) => ErrorModel::DuplicateCommand(t@),
            AgentError::CommandInvocationFailed(t) => ErrorModel::CommandInvocationFailed(t@),
            AgentError::ScriptParseOrRuntimeError(t) => ErrorModel::ScriptParseOrRuntimeError(t@),
            AgentError::ResponseParseError(t) => ErrorModel::ResponseParseError(t@),
            AgentError::CollaboratorNotificationFailed(t) =>
                ErrorModel::CollaboratorNotificationFailed(t@),
            AgentError::ModelCallFailed(t) => ErrorModel::ModelCallFailed(t@),
            AgentError::MemoryStoreFailed(t) => ErrorModel::MemoryStoreFailed(t@),
        }
    }
}

/// The text that a failure is reported with.
pub open spec fn error_text(e: ErrorModel) -> Seq<char> {
    match e {
        ErrorModel::CommandNotFound(name) => "command not found: "@ + name,
        ErrorModel::DuplicateCommand(name) => "command registered twice: "@ + name,
        ErrorModel::CommandInvocationFailed(cause) => cause,
        ErrorModel::ScriptParseOrRuntimeError(message) => message,
        ErrorModel::ResponseParseError(message) => "could not parse the response: "@ + message,
        ErrorModel::CollaboratorNotificationFailed(cause) => "plugin notification failed: "@
            + cause,
        ErrorModel::ModelCallFailed(cause) => "model call failed: "@ + cause,
        ErrorModel::MemoryStoreFailed(cause) => "memory store failed: "@ + cause,
    }
}

fn labelled(label: &str, detail: &String) -> (text: String)
    ensures
        text@ == label@ + detail@,
{
    let mut text = String::from_str(label);
    text.append(detail.as_str());
    text
}

impl Clone for AgentError {
    fn clone(&self) -> (copy: AgentError)
        ensures
            copy@ == self@,
    {
        match self {
            AgentError::CommandNotFound(t) => AgentError::CommandNotFound(t.clone()),
            AgentError::DuplicateCommand(t) => AgentError::DuplicateCommand(t.clone()),
            AgentError::CommandInvocationFailed(t) => AgentError::CommandInvocationFailed(
                t.clone(),
            ),
            AgentError::ScriptParseOrRuntimeError(t) => AgentError::ScriptParseOrRuntimeError(
                t.clone(),
            ),
            AgentError::ResponseParseError(t) => AgentError::ResponseParseError(t.clone()),
            AgentError::CollaboratorNotificationFailed(t) =>
                AgentError::CollaboratorNotificationFailed(t.clone()),
            AgentError::ModelCallFailed(t) => AgentError::ModelCallFailed(t.clone()),
            AgentError::MemoryStoreFailed(t) => AgentError::MemoryStoreFailed(t.clone()),
        }
    }
}

impl AgentError {
    /// The text that the failure is reported with.
    pub fn message(&self) -> (text: String)
        ensures
            text@ == error_text(self@),
    {
        match self {
            AgentError::CommandNotFound(name) => labelled("command not found: ", name),
            AgentError::DuplicateCommand(name) => labelled("command registered twice: ", name),
            AgentError::CommandInvocationFailed(cause) => cause.clone(),
            AgentError::ScriptParseOrRuntimeError(message) => message.clone(),
            AgentError::ResponseParseError(message) => labelled(
                "could not parse the response: ",
                message,
            ),
            AgentError::CollaboratorNotificationFailed(cause) => labelled(
                "plugin notification failed: ",
                cause,
            ),
            AgentError::ModelCallFailed(cause) => labelled("model call failed: ", cause),
            AgentError::MemoryStoreFailed(cause) => labelled("memory store failed: ", cause),
        }
    }
}

/// The model answered, but nothing in the answer could be read as a thought.
#[derive(Clone, Copy, Debug, PartialEq, Eq, Structural)]
pub struct NoThoughtError;

impl NoThoughtError {
    /// The text that this failure is reported with.
    pub fn message(&self) -> (text: String)
        ensures
            text@ == "no thought detected."@,
    {
        String::from_str("no thought detected.")
    }
}

} // verus!
