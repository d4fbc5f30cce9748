use question_broker::errors::{BlockingFailure, DbFailure, DbFailureKind, Error, ErrorResponse};

#[test]
fn bad_request_is_reported_with_its_message() {
    let reply = Error::BadRequest("Body is required".to_string()).error_response();
    assert_eq!(reply.status, 400);
    assert_eq!(reply.body.errors, vec!["Body is required"]);
}

#[test]
fn not_found_is_reported_with_its_message() {
    let reply = Error::NotFound("Record not found".to_string()).error_response();
    assert_eq!(reply.status, 404);
    assert_eq!(reply.body.errors, vec!["Record not found"]);
}

#[test]
fn forbidden_is_reported_as_forbidden() {
    let reply = Error::Forbidden.error_response();
    assert_eq!(reply.status, 403);
    assert_eq!(reply.body.errors, vec!["Forbidden"]);
}

#[test]
fn everything_else_is_an_internal_server_error() {
    let errors = vec![
        Error::InternalServerError("disk full".to_string()),
        Error::Unauthorized,
        Error::PoolError("timed out".to_string()),
        Error::BlockingError("Thread blocking error".to_string()),
    ];
    for error in errors {
        let reply = error.error_response();
        assert_eq!(reply.status, 500);
        assert_eq!(reply.body.errors, vec!["Internal Server Error"]);
    }
}

#[test]
fn error_response_from_text() {
    assert_eq!(ErrorResponse::from("one").errors, vec!["one"]);
    assert_eq!(ErrorResponse::from(&String::from("two")).errors, vec!["two"]);
    let many = vec![String::from("a"), String::from("b")];
    assert_eq!(ErrorResponse::from(many).errors, vec!["a", "b"]);
    assert!(ErrorResponse::from(Vec::new()).errors.is_empty());
}

#[test]
fn unique_violation_is_a_bad_request() {
    let with_details = DbFailure::DatabaseError {
        kind: DbFailureKind::UniqueViolation,
        message: "duplicate key value violates unique constraint".to_string(),
        details: Some("Key (body)=(x) already exists.".to_string()),
    };
    assert_eq!(
        Error::from(with_details),
        Error::BadRequest("Key (body)=(x) already exists.".to_string())
    );

    let without_details = DbFailure::DatabaseError {
        kind: DbFailureKind::UniqueViolation,
        message: "duplicate key value violates unique constraint".to_string(),
        details: None,
    };
    assert_eq!(
        Error::from(without_details),
        Error::BadRequest("duplicate key value violates unique constraint".to_string())
    );
}

#[test]
fn other_database_failures_are_internal() {
    let other_kind = DbFailure::DatabaseError {
        kind: DbFailureKind::Other,
        message: "foreign key violation".to_string(),
        details: Some("details".to_string()),
    };
    assert_eq!(
        Error::from(other_kind),
        Error::InternalServerError("Unknown database error".to_string())
    );
    assert_eq!(
        Error::from(DbFailure::Other),
        Error::InternalServerError("Unknown database error".to_string())
    );
    assert_eq!(Error::from(DbFailure::NotFound), Error::NotFound("Record not found".to_string()));
}

#[test]
fn blocking_failure_passes_the_error_on() {
    assert_eq!(Error::from(BlockingFailure::Error(Error::Forbidden)), Error::Forbidden);
    assert_eq!(
        Error::from(BlockingFailure::Canceled),
        Error::BlockingError("Thread blocking error".to_string())
    );
}
