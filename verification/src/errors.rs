//! The workflow engine's errors and the messages they read as.
use vstd::prelude::*;
use crate::coerce::{CoerceError, CoerceErrorCategory};
use crate::text::{decimal, u64_to_decimal};

verus! {

/// A failure of the durable workflow store. A database or JSON failure
/// carries the underlying error's text.
#[derive(Clone, Debug)]
pub enum StorageError {
    Sqlite(String),
    Json(String),
    EventNotFound { workflow_id: String, event_id: String },
    EventRetryNotAllowed { workflow_id: String, event_id: String, status: String },
    UnsupportedSchemaVersion { found: u32, supported: u32 },
    InvalidSchemaVersion(String),
}

/// What a storage error reads as.
pub open spec fn storage_message(e: StorageError) -> Seq<char> {
    match e {
        StorageError::Sqlite(m) => "sqlite error: "@ + m@,
        StorageError::Json(m) => "json error: "@ + m@,
        StorageError::EventNotFound { workflow_id, event_id } => "workflow event not found: workflow_id="@
            + workflow_id@ + ", event_id="@ + event_id@,
        StorageError::EventRetryNotAllowed { workflow_id, event_id, status } =>
            "workflow event cannot be retried from status "@ + status@ + ": workflow_id="@ + workflow_id@
            + ", event_id="@ + event_id@,
        StorageError::UnsupportedSchemaVersion { found, supported } => "unsupported workflow store schema version "@
            + decimal(found as nat) + "; supported version is "@ + decimal(supported as nat),
        StorageError::InvalidSchemaVersion(v) => "invalid workflow store schema version `"@ + v@ + "`"@,
    }
}

impl StorageError {
    /// What the error reads as.
    pub fn message(&self) -> (r: String)
        ensures
            r@ == storage_message(*self),
    {
        match self {
            StorageError::Sqlite(m) => {
                let mut s = "sqlite error: ".to_owned();
                s.append(m.as_str());
                s
            },
            StorageError::Json(m) => {
                let mut s = "json error: ".to_owned();
                s.append(m.as_str());
                s
            },
            StorageError::EventNotFound { workflow_id, event_id } => {
                let mut s = "workflow event not found: workflow_id=".to_owned();
                s.append(workflow_id.as_str());
                s.append(", event_id=");
                s.append(event_id.as_str());
                s
            },
            StorageError::EventRetryNotAllowed { workflow_id, event_id, status } => {
                let mut s = "workflow event cannot be retried from status ".to_owned();
                s.append(status.as_str());
                s.append(": workflow_id=");
                s.append(workflow_id.as_str());
                s.append(", event_id=");
                s.append(event_id.as_str());
                s
            },
            StorageError::UnsupportedSchemaVersion { found, supported } => {
                let mut s = "unsupported workflow store schema version ".to_owned();
                let f = u64_to_decimal(*found as u64);
                s.append(f.as_str());
                s.append("; supported version is ");
                let v = u64_to_decimal(*supported as u64);
                s.append(v.as_str());
                s
            },
            StorageError::InvalidSchemaVersion(v) => {
                let mut s = "invalid workflow store schema version `".to_owned();
                s.append(v.as_str());
                s.append("`");
                s
            },
        }
    }
}

/// A coerce failure from a storage failure: an internal error naming it.
pub fn storage_error(error: StorageError) -> (r: CoerceError)
    ensures
        r.category == CoerceErrorCategory::InternalError,
        r.http_status is None,
        r.message@ == "coerce storage error: "@ + storage_message(error),
{
    let mut m = "coerce storage error: ".to_owned();
    let text = error.message();
    m.append(text.as_str());
    CoerceError::new(CoerceErrorCategory::InternalError, m)
}

/// How the interpreter handled an event.
#[derive(Clone, Copy, Debug, PartialEq, Eq, Structural)]
pub enum EventProcessingStatus {
    Processed,
    Ignored,
}

/// A failure of the workflow interpreter.
#[derive(Clone, Debug)]
pub enum InterpreterError {
    UnknownCurrentState(String),
    InvalidEventPayload { event_type: String, reason: String },
    InvalidAssignTarget(String),
    UndeclaredDataField(String),
    UnsupportedExpression,
    InvalidCoerceOutput { function_name: String, reason: String },
    InvalidCoerceInput { function_name: String, param_name: String, reason: String },
    InvalidCoerceArity { function_name: String, expected: usize, actual: usize },
    CoerceExecutionFailed { function_name: String, category: CoerceErrorCategory, message: String },
    CapabilityValueCallFailed { name: String, message: String },
    GuardNotBoolean,
    InvariantNotBoolean { name: String },
    InvariantViolated { name: String },
    MissingEventPath(String),
    MissingDataPath(String),
    EntryTransitionLimitExceeded,
    AlwaysTransitionLimitExceeded,
}

/// What an interpreter error reads as.
pub open spec fn interpreter_message(e: InterpreterError) -> Seq<char> {
    match e {
        InterpreterError::UnknownCurrentState(s) => "current state `"@ + s@ + "` is not declared"@,
        InterpreterError::InvalidEventPayload { event_type, reason } => "event `"@ + event_type@
            + "` payload does not match declared schema: "@ + reason@,
        InterpreterError::InvalidAssignTarget(t) => "assign target `"@ + t@ + "` is not a workflow data path"@,
        InterpreterError::UndeclaredDataField(t) => "assign target `"@ + t@ + "` is not declared in workflow data"@,
        InterpreterError::UnsupportedExpression => "unsupported expression in runtime slice"@,
        InterpreterError::InvalidCoerceOutput { function_name, reason } => "coerce `"@ + function_name@
            + "` output does not match declared schema: "@ + reason@,
        InterpreterError::InvalidCoerceInput { function_name, param_name, reason } => "coerce `"@
            + function_name@ + "` parameter `"@ + param_name@ + "` does not match declared schema: "@ + reason@,
        InterpreterError::InvalidCoerceArity { function_name, expected, actual } => "coerce `"@ + function_name@
            + "` expected "@ + decimal(expected as nat) + " arguments but received "@ + decimal(actual as nat),
        InterpreterError::CoerceExecutionFailed { function_name, message, .. } => "coerce `"@ + function_name@
            + "` failed: "@ + message@,
        InterpreterError::CapabilityValueCallFailed { name, message } => "capability value call `"@ + name@
            + "` failed: "@ + message@,
        InterpreterError::GuardNotBoolean => "guard expression did not evaluate to a boolean"@,
        InterpreterError::InvariantNotBoolean { name } => "invariant `"@ + name@
            + "` expression did not evaluate to a boolean"@,
        InterpreterError::InvariantViolated { name } => "invariant `"@ + name@ + "` was violated"@,
        InterpreterError::MissingEventPath(p) => "event path `"@ + p@ + "` is not present in payload"@,
        InterpreterError::MissingDataPath(p) => "data path `"@ + p@ + "` is not present in workflow data"@,
        InterpreterError::EntryTransitionLimitExceeded => "entry transition limit exceeded"@,
        InterpreterError::AlwaysTransitionLimitExceeded => "always transition limit exceeded"@,
    }
}

/// `a` `b` `c`.
fn concat3(a: &str, b: &str, c: &str) -> (r: String)
    ensures
        r@ == a@ + b@ + c@,
{
    let mut s = a.to_owned();
    s.append(b);
    s.append(c);
    s
}

/// `a` `b` `c` `d`.
fn concat4(a: &str, b: &str, c: &str, d: &str) -> (r: String)
    ensures
        r@ == a@ + b@ + c@ + d@,
{
    let mut s = concat3(a, b, c);
    s.append(d);
    s
}

impl InterpreterError {
    /// What the error reads as.
    pub fn message(&self) -> (r: String)
        ensures
            r@ == interpreter_message(*self),
    {
        match self {
            InterpreterError::UnknownCurrentState(s) => concat3("current state `", s.as_str(), "` is not declared"),
            InterpreterError::InvalidEventPayload { event_type, reason } => concat4(
                "event `",
                event_type.as_str(),
                "` payload does not match declared schema: ",
                reason.as_str(),
            ),
            InterpreterError::InvalidAssignTarget(t) => concat3("assign target `", t.as_str(), "` is not a workflow data path"),
            InterpreterError::UndeclaredDataField(t) => concat3(
                "assign target `",
                t.as_str(),
                "` is not declared in workflow data",
            ),
            InterpreterError::UnsupportedExpression => "unsupported expression in runtime slice".to_owned(),
            InterpreterError::InvalidCoerceOutput { function_name, reason } => concat4(
                "coerce `",
                function_name.as_str(),
                "` output does not match declared schema: ",
                reason.as_str(),
            ),
            InterpreterError::InvalidCoerceInput { function_name, param_name, reason } => {
                let mut s = concat4("coerce `", function_name.as_str(), "` parameter `", param_name.as_str());
                s.append("` does not match declared schema: ");
                s.append(reason.as_str());
                s
            },
            InterpreterError::InvalidCoerceArity { function_name, expected, actual } => {
                let e = u64_to_decimal(*expected as u64);
                let a = u64_to_decimal(*actual as u64);
                let mut s = concat4("coerce `", function_name.as_str(), "` expected ", e.as_str());
                s.append(" arguments but received ");
                s.append(a.as_str());
                s
            },
            InterpreterError::CoerceExecutionFailed { function_name, message, .. } => concat4(
                "coerce `",
                function_name.as_str(),
                "` failed: ",
                message.as_str(),
            ),
            InterpreterError::CapabilityValueCallFailed { name, message } => concat4(
                "capability value call `",
                name.as_str(),
                "` failed: ",
                message.as_str(),
            ),
            InterpreterError::GuardNotBoolean => "guard expression did not evaluate to a boolean".to_owned(),
            InterpreterError::InvariantNotBoolean { name } => concat3(
                "invariant `",
                name.as_str(),
                "` expression did not evaluate to a boolean",
            ),
            InterpreterError::InvariantViolated { name } => concat3("invariant `", name.as_str(), "` was violated"),
            InterpreterError::MissingEventPath(p) => concat3("event path `", p.as_str(), "` is not present in payload"),
            InterpreterError::MissingDataPath(p) => concat3(
                "data path `",
                p.as_str(),
                "` is not present in workflow data",
            ),
            InterpreterError::EntryTransitionLimitExceeded => "entry transition limit exceeded".to_owned(),
            InterpreterError::AlwaysTransitionLimitExceeded => "always transition limit exceeded".to_owned(),
        }
    }
}

/// A failure of the workflow runtime.
#[derive(Clone, Debug)]
pub enum RuntimeError {
    Storage(StorageError),
    Interpreter(InterpreterError),
    MalformedRaisedEvent,
}

/// What a runtime error reads as.
pub open spec fn runtime_message(e: RuntimeError) -> Seq<char> {
    match e {
        RuntimeError::Storage(s) => "storage error: "@ + storage_message(s),
        RuntimeError::Interpreter(i) => "interpreter error: "@ + interpreter_message(i),
        RuntimeError::MalformedRaisedEvent => "raised event effect is malformed"@,
    }
}

impl RuntimeError {
    /// What the error reads as.
    pub fn message(&self) -> (r: String)
        ensures
            r@ == runtime_message(*self),
    {
        match self {
            RuntimeError::Storage(s) => {
                let mut m = "storage error: ".to_owned();
                let t = s.message();
                m.append(t.as_str());
                m
            },
            RuntimeError::Interpreter(i) => {
                let mut m = "interpreter error: ".to_owned();
                let t = i.message();
                m.append(t.as_str());
                m
            },
            RuntimeError::MalformedRaisedEvent => "raised event effect is malformed".to_owned(),
        }
    }
}

} // verus!
