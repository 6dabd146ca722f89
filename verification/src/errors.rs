//! Stable error codes and the error value returned to transport adapters.
use vstd::prelude::*;
use vstd::string::*;

verus! {

/// Stable machine-readable error codes.
#[derive(Clone, Copy, Debug, PartialEq, Eq, Structural)]
pub enum ErrorCode {
    AgentNotFound,
    CodexHistoryCursorRepeated,
    CodexHistoryIncomplete,
    CodexHistoryListFailed,
    CodexHistoryReadFailed,
    CodexHistoryReconcileConflict,
    CodexHistorySchemaUnsupported,
    CodexThreadBindingConflict,
    CodexThreadCapabilityUnsupported,
    CodexThreadIdConflict,
    CodexThreadProjectAmbiguous,
    CodexThreadProjectUnbound,
    CodexTurnIdConflict,
    CronAgentUnavailable,
    CronBaseMessageUnavailable,
    InvalidAgentConfiguration,
    InvalidConfiguration,
    InvalidCron,
    InvalidMessageId,
    InvalidMessageRole,
    InvalidProject,
    InvalidRun,
    InvalidSession,
    MessageNotFound,
    ProjectDefaultDirectoryUnavailable,
    ProjectGitDirty,
    ProjectGitHeadUnavailable,
    ProjectGitInitFailed,
    ProjectPathAlreadyRegistered,
    ProjectPathNotDirectory,
    ProjectPathNotFound,
    ProjectWorkspaceBusy,
    ProviderFailed,
    RunAlreadyTerminal,
    RunCancelled,
    RunLimitExceeded,
    RunNotResumable,
    RunQueueConflict,
    RunRecoveryFailed,
    SessionBusy,
    SessionMessageProjectMismatch,
    SessionNotFound,
    ToolApprovalRequired,
    ToolCallDuplicate,
    ToolExecutionFailed,
}

/// A failed request: its code, a human-readable message and whether a retry may succeed.
#[derive(Debug)]
pub struct ControlError {
    pub code: ErrorCode,
    pub message: String,
    pub retryable: bool,
}

/// `e` is the error with this code, message and retry flag.
pub open spec fn is_error(e: ControlError, code: ErrorCode, message: Seq<char>, retryable: bool) -> bool {
    e.code == code && e.message@ == message && e.retryable == retryable
}

/// Builds an error value.
pub fn control_error(code: ErrorCode, message: &str, retryable: bool) -> (e: ControlError)
    ensures
        is_error(e, code, message@, retryable),
{
    ControlError { code, message: String::from_str(message), retryable }
}

/// A failure as the domain layer reports it, with optional details and cause.
#[derive(Debug)]
pub struct DomainError {
    pub code: ErrorCode,
    pub message: String,
    pub retryable: bool,
    /// Structured details, as JSON text.
    pub details: Option<String>,
    pub cause_id: Option<String>,
}

/// The domain form of a control error: same code, message and retry flag,
/// no details and no cause.
pub fn api_domain_error(error: ControlError) -> (failure: DomainError)
    ensures
        failure.code == error.code,
        failure.message == error.message,
        failure.retryable == error.retryable,
        failure.details.is_none(),
        failure.cause_id.is_none(),
{
    DomainError {
        code: error.code,
        message: error.message,
        retryable: error.retryable,
        details: None,
        cause_id: None,
    }
}

/// The control form of a domain failure: its code, message and retry flag.
pub fn domain_error(failure: DomainError) -> (error: ControlError)
    ensures
        error.code == failure.code,
        error.message == failure.message,
        error.retryable == failure.retryable,
{
    ControlError { code: failure.code, message: failure.message, retryable: failure.retryable }
}

/// The control form of a domain failure raised while running an API Run.
pub fn api_domain_error_reverse(e: DomainError) -> (error: ControlError)
    ensures
        error.code == e.code,
        error.message == e.message,
        error.retryable == e.retryable,
{
    domain_error(e)
}

/// The error of a failed recovery or of a stale workspace result.
pub fn recovery_error(message: &str) -> (e: ControlError)
    ensures
        is_error(e, ErrorCode::RunRecoveryFailed, message@, false),
{
    control_error(ErrorCode::RunRecoveryFailed, message, false)
}

} // verus!
verus! {

/// The expected outcome of a fallible operation: a value, or the code,
/// message and retry flag of its error.
pub type Outcome<T> = Result<T, (ErrorCode, Seq<char>, bool)>;

/// `r` is exactly the outcome `expected`.
pub open spec fn matches_outcome<T>(r: Result<T, ControlError>, expected: Outcome<T>) -> bool {
    match (r, expected) {
        (Ok(a), Ok(b)) => a == b,
        (Err(e), Err(spec)) => is_error(e, spec.0, spec.1, spec.2),
        _ => false,
    }
}

} // verus!
