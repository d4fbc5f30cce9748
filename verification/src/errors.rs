//! The errors of the service and how each is reported to an HTTP client.

use vstd::prelude::*;
use vstd::std_specs::convert::FromSpecImpl;

verus! {

/// What can go wrong while a request is served.
#[derive(Debug, PartialEq)]
pub enum Error {
    BadRequest(String),
    InternalServerError(String),
    Unauthorized,
    Forbidden,
    NotFound(String),
    PoolError(String),
    BlockingError(String),
}

/// An [`Error`] as a mathematical value: the same cases, each text as a
/// sequence of characters.
pub enum ErrorView {
    BadRequest(Seq<char>),
    InternalServerError(Seq<char>),
    Unauthorized,
    Forbidden,
    NotFound(Seq<char>),
    PoolError(Seq<char>),
    BlockingError(Seq<char>),
}

impl View for Error {
    type V = ErrorView;

    open spec fn view(&self) -> ErrorView {
        match self {
            Error::BadRequest(text) => ErrorView::BadRequest(text@),
            Error::InternalServerError(text) => ErrorView::InternalServerError(text@),
            Error::Unauthorized => ErrorView::Unauthorized,
            Error::Forbidden => ErrorView::Forbidden,
            Error::NotFound(text) => ErrorView::NotFound(text@),
            Error::PoolError(text) => ErrorView::PoolError(text@),
            Error::BlockingError(text) => ErrorView::BlockingError(text@),
        }
    }
}

/// The kinds of database error that the service tells apart.
#[derive(Debug)]
pub enum DbFailureKind {
    /// A unique constraint was violated.
    UniqueViolation,
    /// Any other kind.
    Other,
}

/// A failed database operation, as far as the service tells failures apart.
#[derive(Debug)]
pub enum DbFailure {
    /// The database reported an error: its kind, its primary message and the
    /// secondary message where the database gave one.
    DatabaseError { kind: DbFailureKind, message: String, details: Option<String> },
    /// A query that had to return a row returned none.
    NotFound,
    /// Any other failure.
    Other,
}

/// How a piece of work handed to a blocking worker failed.
#[derive(Debug)]
pub enum BlockingFailure {
    /// The work ran and failed with this error.
    Error(Error),
    /// The work was cancelled before it gave a result.
    Canceled,
}

/// The body of an error reply: the messages shown to the client.
#[derive(Debug)]
pub struct ErrorResponse {
    pub errors: Vec<String>,
}

impl View for ErrorResponse {
    type V = Seq<Seq<char>>;

    open spec fn view(&self) -> Seq<Seq<char>> {
        self.errors.deep_view()
    }
}

/// An error reply: the HTTP status code and the body that goes with it.
#[derive(Debug)]
pub struct Reply {
    pub status: u16,
    pub body: ErrorResponse,
}

impl From<&str> for ErrorResponse {
    /// A body with `error` as its only message.
    fn from(error: &str) -> (response: ErrorResponse)
        ensures
            response@ == seq![error@],
    {
        let response = ErrorResponse { errors: vec![error.to_owned()] };
        assert(response@ =~= seq![error@]);
        response
    }
}

impl FromSpecImpl<&str> for ErrorResponse {
    open spec fn obeys_from_spec() -> bool {
        false
    }

    open spec fn from_spec(error: &str) -> ErrorResponse {
        arbitrary()
    }
}

impl From<&String> for ErrorResponse {
    /// A body with `error` as its only message.
    fn from(error: &String) -> (response: ErrorResponse)
        ensures
            response@ == seq![error@],
    {
        let response = ErrorResponse { errors: vec![error.clone()] };
        assert(response@ =~= seq![error@]);
        response
    }
}

impl FromSpecImpl<&String> for ErrorResponse {
    open spec fn obeys_from_spec() -> bool {
        false
    }

    open spec fn from_spec(error: &String) -> ErrorResponse {
        arbitrary()
    }
}

impl From<Vec<String>> for ErrorResponse {
    /// A body with the messages `error`, in order.
    fn from(error: Vec<String>) -> (response: ErrorResponse)
        ensures
            response.errors == error,
    {
        ErrorResponse { errors: error }
    }
}

impl FromSpecImpl<Vec<String>> for ErrorResponse {
    open spec fn obeys_from_spec() -> bool {
        true
    }

    open spec fn from_spec(error: Vec<String>) -> ErrorResponse {
        ErrorResponse { errors: error }
    }
}

impl DbFailure {
    /// The error under which a failed database operation is reported: a
    /// violated unique constraint is the client's fault and is reported with
    /// the database's own words, the secondary message where there is one
    /// and the primary message otherwise.
    pub open spec fn reported(&self) -> ErrorView {
        match self {
            DbFailure::DatabaseError { kind: DbFailureKind::UniqueViolation, message, details } => {
                match details {
                    Some(text) => ErrorView::BadRequest(text@),
                    None => ErrorView::BadRequest(message@),
                }
            },
            DbFailure::NotFound => ErrorView::NotFound("Record not found"@),
            _ => ErrorView::InternalServerError("Unknown database error"@),
        }
    }
}

impl From<DbFailure> for Error {
    fn from(error: DbFailure) -> (reported: Error)
        ensures
            reported@ == error.reported(),
    {
        match error {
            DbFailure::DatabaseError { kind, message, details } => {
                if let DbFailureKind::UniqueViolation = kind {
                    let text = match details {
                        Some(text) => text,
                        None => message,
                    };
                    return Error::BadRequest(text);
                }
                Error::InternalServerError("Unknown database error".to_owned())
            },
            DbFailure::NotFound => Error::NotFound("Record not found".to_owned()),
            _ => Error::InternalServerError("Unknown database error".to_owned()),
        }
    }
}

impl FromSpecImpl<DbFailure> for Error {
    open spec fn obeys_from_spec() -> bool {
        false
    }

    open spec fn from_spec(error: DbFailure) -> Error {
        arbitrary()
    }
}

impl From<BlockingFailure> for Error {
    /// The error of the work itself where it ran, and a blocking error where
    /// it was cancelled.
    fn from(error: BlockingFailure) -> (reported: Error)
        ensures
            match error {
                BlockingFailure::Error(inner) => reported == inner,
                BlockingFailure::Canceled => reported@ == ErrorView::BlockingError(
                    "Thread blocking error"@,
                ),
            },
    {
        match error {
            BlockingFailure::Error(inner) => inner,
            BlockingFailure::Canceled => Error::BlockingError("Thread blocking error".to_owned()),
        }
    }
}

impl FromSpecImpl<BlockingFailure> for Error {
    open spec fn obeys_from_spec() -> bool {
        false
    }

    open spec fn from_spec(error: BlockingFailure) -> Error {
        arbitrary()
    }
}

impl Error {
    /// The HTTP status code under which the error is reported.
    pub open spec fn status(&self) -> u16 {
        match self {
            Error::BadRequest(_) => 400,
            Error::NotFound(_) => 404,
            Error::Forbidden => 403,
            _ => 500,
        }
    }

    /// The messages shown to the client. What went wrong inside the server
    /// is not shown.
    pub open spec fn messages(&self) -> Seq<Seq<char>> {
        match self {
            Error::BadRequest(error) => seq![error@],
            Error::NotFound(message) => seq![message@],
            Error::Forbidden => seq!["Forbidden"@],
            _ => seq!["Internal Server Error"@],
        }
    }

    /// The reply that reports this error to an HTTP client.
    pub fn error_response(&self) -> (reply: Reply)
        ensures
            reply.status == self.status(),
            reply.body@ == self.messages(),
    {
        match self {
            Error::BadRequest(error) => Reply { status: 400, body: ErrorResponse::from(error) },
            Error::NotFound(message) => Reply { status: 404, body: ErrorResponse::from(message) },
            Error::Forbidden => Reply { status: 403, body: ErrorResponse::from("Forbidden") },
            _ => Reply { status: 500, body: ErrorResponse::from("Internal Server Error") },
        }
    }
}

} // verus!
