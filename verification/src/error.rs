//! Errors of the executor, and the result of validating a prompt.

use vstd::prelude::*;
use crate::strmap::StrMap;
use vstd::string::StringExecFns;
use crate::text::push_decimal;
use crate::text::decimal;

verus! {

/// What went wrong while preparing or running a prompt.
#[derive(Debug, Clone)]
pub enum ExecutorError {
    NodeNotFound { node_id: String },
    NodeTypeNotRegistered { class_type: String },
    MissingInput { node_id: String, input: String },
    OutputIndexOutOfBounds { node_id: String, index: usize, max: usize },
    NodeExecutionFailed { node_id: String, message: String },
    /// The prompt's dependencies form a cycle (the cycle's own report).
    DependencyCycle(String),
    ValidationFailed(String),
    /// The inference backend failed (its report).
    Inference(String),
    NoOutputNodes,
    /// A JSON value could not be read or written (serde_json's report).
    Json(String),
}

/// The text of an [`ExecutorError`], as its `Display` writes it.
pub open spec fn error_message(e: ExecutorError) -> Seq<char> {
    match e {
        ExecutorError::NodeNotFound { node_id } => "Node '"@ + node_id@ + "' not found in prompt"@,
        ExecutorError::NodeTypeNotRegistered { class_type } => "Node type '"@ + class_type@
            + "' not registered"@,
        ExecutorError::MissingInput { node_id, input } => "Missing required input '"@ + input@
            + "' on node '"@ + node_id@ + "'"@,
        ExecutorError::OutputIndexOutOfBounds { node_id, index, max } => "Output index "@
            + decimal(index as nat) + " out of bounds on node '"@ + node_id@ + "' (max "@
            + decimal(max as nat) + ")"@,
        ExecutorError::NodeExecutionFailed { node_id, message } => "Execution failed for node '"@
            + node_id@ + "': "@ + message@,
        ExecutorError::DependencyCycle(_) => "Dependency cycle detected"@,
        ExecutorError::ValidationFailed(s) => "Validation failed: "@ + s@,
        ExecutorError::Inference(s) => "Inference error: "@ + s@,
        ExecutorError::NoOutputNodes => "Prompt has no output nodes"@,
        ExecutorError::Json(s) => "JSON error: "@ + s@,
    }
}

impl ExecutorError {
    /// The text of the error (see [`error_message`]).
    pub fn message(&self) -> (r: String)
        ensures
            r@ == error_message(*self),
    {
        match self {
            ExecutorError::NodeNotFound { node_id } => {
                let mut s = String::from_str("Node '");
                s.append(node_id.as_str());
                s.append("' not found in prompt");
                s
            },
            ExecutorError::NodeTypeNotRegistered { class_type } => {
                let mut s = String::from_str("Node type '");
                s.append(class_type.as_str());
                s.append("' not registered");
                s
            },
            ExecutorError::MissingInput { node_id, input } => {
                let mut s = String::from_str("Missing required input '");
                s.append(input.as_str());
                s.append("' on node '");
                s.append(node_id.as_str());
                s.append("'");
                s
            },
            ExecutorError::OutputIndexOutOfBounds { node_id, index, max } => {
                let mut s = String::from_str("Output index ");
                push_decimal(&mut s, *index as u64);
                s.append(" out of bounds on node '");
                s.append(node_id.as_str());
                s.append("' (max ");
                push_decimal(&mut s, *max as u64);
                s.append(")");
                s
            },
            ExecutorError::NodeExecutionFailed { node_id, message } => {
                let mut s = String::from_str("Execution failed for node '");
                s.append(node_id.as_str());
                s.append("': ");
                s.append(message.as_str());
                s
            },
            ExecutorError::DependencyCycle(_) => String::from_str("Dependency cycle detected"),
            ExecutorError::ValidationFailed(m) => {
                let mut s = String::from_str("Validation failed: ");
                s.append(m.as_str());
                s
            },
            ExecutorError::Inference(m) => {
                let mut s = String::from_str("Inference error: ");
                s.append(m.as_str());
                s
            },
            ExecutorError::NoOutputNodes => String::from_str("Prompt has no output nodes"),
            ExecutorError::Json(m) => {
                let mut s = String::from_str("JSON error: ");
                s.append(m.as_str());
                s
            },
        }
    }
}

/// One problem found with a node.
#[derive(Debug, Clone)]
pub struct ErrorDetail {
    pub error_type: String,
    pub message: String,
    pub details: String,
}

/// The problems found with one node of a prompt.
#[derive(Debug, Clone)]
pub struct NodeErrorInfo {
    pub node_id: String,
    pub class_type: String,
    pub errors: Vec<ErrorDetail>,
}

/// The verdict on a prompt: valid or not, the prompt-wide error, and the
/// problems of each node, by node id.
pub struct ValidationResult {
    pub valid: bool,
    pub error: Option<ErrorDetail>,
    pub node_errors: StrMap<NodeErrorInfo>,
}

} // verus!
