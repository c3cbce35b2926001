//! The closed set of failure classes reported to the caller, and the rule
//! that derives a class from the free text of an underlying error.

use vstd::prelude::*;
use vstd::string::*;

use crate::events::text_of;
use crate::text::{concat, occurs_in, str_contains};

verus! {

/// The class of a failure.
#[derive(Debug, Clone, Copy, PartialEq, Eq, Structural)]
pub enum ErrorCode {
    Timeout,
    DatabaseLocked,
    NetworkError,
    TransactionFailed,
    ValidationError,
    Cancelled,
    NotFound,
    PermissionDenied,
    InternalError,
}

/// The name of a class as the caller sees it.
pub open spec fn code_name(code: ErrorCode) -> Seq<char> {
    match code {
        ErrorCode::Timeout => "timeout"@,
        ErrorCode::DatabaseLocked => "database_locked"@,
        ErrorCode::NetworkError => "network_error"@,
        ErrorCode::TransactionFailed => "transaction_failed"@,
        ErrorCode::ValidationError => "validation_error"@,
        ErrorCode::Cancelled => "cancelled"@,
        ErrorCode::NotFound => "not_found"@,
        ErrorCode::PermissionDenied => "permission_denied"@,
        ErrorCode::InternalError => "internal_error"@,
    }
}

impl ErrorCode {
    /// The name of the class in snake case.
    pub fn as_str(&self) -> (name: &'static str)
        ensures
            name@ == code_name(*self),
    {
        match self {
            ErrorCode::Timeout => "timeout",
            ErrorCode::DatabaseLocked => "database_locked",
            ErrorCode::NetworkError => "network_error",
            ErrorCode::TransactionFailed => "transaction_failed",
            ErrorCode::ValidationError => "validation_error",
            ErrorCode::Cancelled => "cancelled",
            ErrorCode::NotFound => "not_found",
            ErrorCode::PermissionDenied => "permission_denied",
            ErrorCode::InternalError => "internal_error",
        }
    }
}

/// A failure as reported to the caller: its class, a text for people and
/// optional detail.
#[derive(Debug, Clone, PartialEq, Eq)]
pub struct BackendError {
    pub code: ErrorCode,
    pub message: String,
    pub details: Option<String>,
}

/// The mathematical content of a [`BackendError`].
pub struct BackendErrorView {
    pub code: ErrorCode,
    pub message: Seq<char>,
    pub details: Option<Seq<char>>,
}

impl View for BackendError {
    type V = BackendErrorView;

    open spec fn view(&self) -> BackendErrorView {
        BackendErrorView { code: self.code, message: self.message@, details: text_of(self.details) }
    }
}

/// A failure without detail.
pub open spec fn plain_error(code: ErrorCode, message: Seq<char>) -> BackendErrorView {
    BackendErrorView { code, message, details: None }
}

/// The text that reports a held database lock.
pub open spec fn database_locked_message() -> Seq<char> {
    "Unable to lock database. Another package manager operation is in progress."@
}

/// The class that the text of an underlying error falls into. The tests are
/// made in this order and the first that holds decides.
pub open spec fn message_class(message: Seq<char>) -> ErrorCode {
    if occurs_in(message, "unable to lock database"@) || occurs_in(
        message,
        "Unable to lock database"@,
    ) {
        ErrorCode::DatabaseLocked
    } else if occurs_in(message, "timed out"@) || occurs_in(message, "timeout"@) {
        ErrorCode::Timeout
    } else if occurs_in(message, "connection"@) || occurs_in(message, "network"@) || occurs_in(
        message,
        "resolve host"@,
    ) {
        ErrorCode::NetworkError
    } else if occurs_in(message, "transaction"@) || occurs_in(message, "commit"@) {
        ErrorCode::TransactionFailed
    } else if occurs_in(message, "cancelled"@) || occurs_in(message, "canceled"@) {
        ErrorCode::Cancelled
    } else if occurs_in(message, "permission denied"@) || occurs_in(
        message,
        "Permission denied"@,
    ) {
        ErrorCode::PermissionDenied
    } else {
        ErrorCode::InternalError
    }
}

/// The failure reported for an underlying error with the given text.
pub open spec fn classified(message: Seq<char>) -> BackendErrorView {
    match message_class(message) {
        ErrorCode::DatabaseLocked => plain_error(
            ErrorCode::DatabaseLocked,
            database_locked_message(),
        ),
        ErrorCode::Cancelled => plain_error(ErrorCode::Cancelled, "Operation was cancelled"@),
        ErrorCode::PermissionDenied => plain_error(
            ErrorCode::PermissionDenied,
            "Permission denied: "@ + message,
        ),
        code => plain_error(code, message),
    }
}

/// Derives the class of a failure from its text.
pub fn classify_message(message: &str) -> (code: ErrorCode)
    ensures
        code == message_class(message@),
        code != ErrorCode::ValidationError,
        code != ErrorCode::NotFound,
{
    if str_contains(message, "unable to lock database") || str_contains(
        message,
        "Unable to lock database",
    ) {
        ErrorCode::DatabaseLocked
    } else if str_contains(message, "timed out") || str_contains(message, "timeout") {
        ErrorCode::Timeout
    } else if str_contains(message, "connection") || str_contains(message, "network")
        || str_contains(message, "resolve host") {
        ErrorCode::NetworkError
    } else if str_contains(message, "transaction") || str_contains(message, "commit") {
        ErrorCode::TransactionFailed
    } else if str_contains(message, "cancelled") || str_contains(message, "canceled") {
        ErrorCode::Cancelled
    } else if str_contains(message, "permission denied") || str_contains(
        message,
        "Permission denied",
    ) {
        ErrorCode::PermissionDenied
    } else {
        ErrorCode::InternalError
    }
}

impl BackendError {
    /// A failure of class `code` with the text `message`.
    pub fn new(code: ErrorCode, message: &str) -> (e: BackendError)
        ensures
            e@ == plain_error(code, message@),
    {
        BackendError { code, message: String::from_str(message), details: None }
    }

    /// A failure with detail.
    pub fn with_details(code: ErrorCode, message: &str, details: &str) -> (e: BackendError)
        ensures
            e@ == (BackendErrorView { code, message: message@, details: Some(details@) }),
    {
        BackendError {
            code,
            message: String::from_str(message),
            details: Some(String::from_str(details)),
        }
    }

    pub fn timeout(message: &str) -> (e: BackendError)
        ensures
            e@ == plain_error(ErrorCode::Timeout, message@),
    {
        BackendError::new(ErrorCode::Timeout, message)
    }

    pub fn database_locked() -> (e: BackendError)
        ensures
            e@ == plain_error(ErrorCode::DatabaseLocked, database_locked_message()),
    {
        BackendError::new(
            ErrorCode::DatabaseLocked,
            "Unable to lock database. Another package manager operation is in progress.",
        )
    }

    pub fn network_error(message: &str) -> (e: BackendError)
        ensures
            e@ == plain_error(ErrorCode::NetworkError, message@),
    {
        BackendError::new(ErrorCode::NetworkError, message)
    }

    pub fn transaction_failed(message: &str) -> (e: BackendError)
        ensures
            e@ == plain_error(ErrorCode::TransactionFailed, message@),
    {
        BackendError::new(ErrorCode::TransactionFailed, message)
    }

    pub fn validation_error(message: &str) -> (e: BackendError)
        ensures
            e@ == plain_error(ErrorCode::ValidationError, message@),
    {
        BackendError::new(ErrorCode::ValidationError, message)
    }

    pub fn cancelled() -> (e: BackendError)
        ensures
            e@ == plain_error(ErrorCode::Cancelled, "Operation was cancelled"@),
    {
        BackendError::new(ErrorCode::Cancelled, "Operation was cancelled")
    }

    pub fn not_found(resource: &str) -> (e: BackendError)
        ensures
            e@ == plain_error(ErrorCode::NotFound, resource@ + " not found"@),
    {
        let message = concat(resource, " not found");
        BackendError { code: ErrorCode::NotFound, message, details: None }
    }

    pub fn permission_denied(operation: &str) -> (e: BackendError)
        ensures
            e@ == plain_error(ErrorCode::PermissionDenied, "Permission denied: "@ + operation@),
    {
        let message = concat("Permission denied: ", operation);
        BackendError { code: ErrorCode::PermissionDenied, message, details: None }
    }

    pub fn internal(message: &str) -> (e: BackendError)
        ensures
            e@ == plain_error(ErrorCode::InternalError, message@),
    {
        BackendError::new(ErrorCode::InternalError, message)
    }

    /// The failure reported for an underlying error with the text
    /// `message`: its class comes from [`classify_message`]; a held lock and
    /// a cancellation get a fixed text, the other classes keep the
    /// underlying one.
    pub fn from_message(message: &str) -> (e: BackendError)
        ensures
            e@ == classified(message@),
    {
        match classify_message(message) {
            ErrorCode::DatabaseLocked => BackendError::database_locked(),
            ErrorCode::Timeout => BackendError::timeout(message),
            ErrorCode::NetworkError => BackendError::network_error(message),
            ErrorCode::TransactionFailed => BackendError::transaction_failed(message),
            ErrorCode::Cancelled => BackendError::cancelled(),
            ErrorCode::PermissionDenied => BackendError::permission_denied(message),
            _ => BackendError::internal(message),
        }
    }

    /// The text for people.
    pub fn text(&self) -> (s: String)
        ensures
            s@ == self.message@,
    {
        self.message.clone()
    }
}

/// A text that names the database lock is reported as a held lock,
/// whatever else it names.
pub proof fn lemma_lock_outranks_other_classes(message: Seq<char>)
    requires
        occurs_in(message, "unable to lock database"@),
    ensures
        classified(message) == plain_error(ErrorCode::DatabaseLocked, database_locked_message()),
{
}

} // verus!
