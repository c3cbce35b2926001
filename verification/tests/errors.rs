use cockpit_pacman_backend::errors::{classify_message, BackendError, ErrorCode};

#[test]
fn error_codes_have_snake_case_names() {
    let names = [
        (ErrorCode::Timeout, "timeout"),
        (ErrorCode::DatabaseLocked, "database_locked"),
        (ErrorCode::NetworkError, "network_error"),
        (ErrorCode::TransactionFailed, "transaction_failed"),
        (ErrorCode::ValidationError, "validation_error"),
        (ErrorCode::Cancelled, "cancelled"),
        (ErrorCode::NotFound, "not_found"),
        (ErrorCode::PermissionDenied, "permission_denied"),
        (ErrorCode::InternalError, "internal_error"),
    ];
    for (code, name) in names {
        assert_eq!(code.as_str(), name);
    }
}

#[test]
fn constructors_set_code_and_text() {
    let e = BackendError::new(ErrorCode::NotFound, "gone");
    assert_eq!(e, BackendError { code: ErrorCode::NotFound, message: "gone".to_string(), details: None });
    let e = BackendError::with_details(ErrorCode::InternalError, "bad", "why");
    assert_eq!(e.details.as_deref(), Some("why"));
    assert_eq!(e.message, "bad");
    assert_eq!(BackendError::timeout("slow").code, ErrorCode::Timeout);
    assert_eq!(BackendError::timeout("slow").message, "slow");
    assert_eq!(BackendError::database_locked().code, ErrorCode::DatabaseLocked);
    assert_eq!(
        BackendError::database_locked().message,
        "Unable to lock database. Another package manager operation is in progress."
    );
    assert_eq!(BackendError::network_error("n").code, ErrorCode::NetworkError);
    assert_eq!(BackendError::transaction_failed("t").code, ErrorCode::TransactionFailed);
    assert_eq!(BackendError::validation_error("v").code, ErrorCode::ValidationError);
    assert_eq!(BackendError::cancelled().code, ErrorCode::Cancelled);
    assert_eq!(BackendError::cancelled().message, "Operation was cancelled");
    assert_eq!(BackendError::not_found("Package 'x'").message, "Package 'x' not found");
    assert_eq!(BackendError::not_found("x").code, ErrorCode::NotFound);
    assert_eq!(BackendError::permission_denied("write").message, "Permission denied: write");
    assert_eq!(BackendError::permission_denied("write").code, ErrorCode::PermissionDenied);
    assert_eq!(BackendError::internal("i").code, ErrorCode::InternalError);
    assert_eq!(BackendError::internal("i").text(), "i");
}

#[test]
fn classification_takes_the_first_keyword_that_matches() {
    let cases = [
        ("unable to lock database", ErrorCode::DatabaseLocked),
        ("Unable to lock database: timeout", ErrorCode::DatabaseLocked),
        ("operation timed out", ErrorCode::Timeout),
        ("connection timeout", ErrorCode::Timeout),
        ("connection refused", ErrorCode::NetworkError),
        ("network is unreachable", ErrorCode::NetworkError),
        ("could not resolve host", ErrorCode::NetworkError),
        ("Failed to prepare transaction", ErrorCode::TransactionFailed),
        ("commit failed", ErrorCode::TransactionFailed),
        ("transaction cancelled", ErrorCode::TransactionFailed),
        ("operation cancelled", ErrorCode::Cancelled),
        ("canceled by user", ErrorCode::Cancelled),
        ("permission denied", ErrorCode::PermissionDenied),
        ("Permission denied (os error 13)", ErrorCode::PermissionDenied),
        ("PERMISSION DENIED", ErrorCode::InternalError),
        ("Timed Out", ErrorCode::InternalError),
        ("something else", ErrorCode::InternalError),
        ("", ErrorCode::InternalError),
    ];
    for (text, code) in cases {
        assert_eq!(classify_message(text), code, "{:?}", text);
        assert_eq!(BackendError::from_message(text).code, code, "{:?}", text);
    }
}

#[test]
fn classified_errors_keep_or_replace_their_text() {
    assert_eq!(BackendError::from_message("x timed out").message, "x timed out");
    assert_eq!(
        BackendError::from_message("unable to lock database").message,
        "Unable to lock database. Another package manager operation is in progress."
    );
    assert_eq!(BackendError::from_message("was cancelled").message, "Operation was cancelled");
    assert_eq!(
        BackendError::from_message("permission denied").message,
        "Permission denied: permission denied"
    );
    assert_eq!(BackendError::from_message("odd").message, "odd");
    assert_eq!(BackendError::from_message("odd").details, None);
}
