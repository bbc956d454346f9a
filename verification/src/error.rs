//! Errors answered to HTTP clients.

use vstd::prelude::*;

verus! {

/// The HTTP status an error is answered with.
#[derive(Debug, Clone, Copy, PartialEq, Eq, Structural)]
pub enum ErrorStatus {
    BadRequest,
    NotFound,
    TooManyRequests,
    PayloadTooLarge,
    InternalServerError,
}

impl ErrorStatus {
    pub open spec fn spec_code(self) -> u16 {
        match self {
            ErrorStatus::BadRequest => 400,
            ErrorStatus::NotFound => 404,
            ErrorStatus::TooManyRequests => 429,
            ErrorStatus::PayloadTooLarge => 413,
            ErrorStatus::InternalServerError => 500,
        }
    }

    /// The numeric HTTP status code.
    pub fn code(&self) -> (r: u16)
        ensures
            r == self.spec_code(),
    {
        match self {
            ErrorStatus::BadRequest => 400,
            ErrorStatus::NotFound => 404,
            ErrorStatus::TooManyRequests => 429,
            ErrorStatus::PayloadTooLarge => 413,
            ErrorStatus::InternalServerError => 500,
        }
    }
}

/// An error with the status and message shown to the client and the
/// details kept for the operator.
#[derive(Debug, Clone)]
pub struct AppError {
    pub status: ErrorStatus,
    pub message: String,
    pub details: String,
}

/// Results of the library's fallible operations.
pub type AppResult<T> = Result<T, AppError>;

/// What an error is made of: status, client message, operator details.
pub struct ErrorView {
    pub status: ErrorStatus,
    pub message: Seq<char>,
    pub details: Seq<char>,
}

impl View for AppError {
    type V = ErrorView;

    open spec fn view(&self) -> ErrorView {
        ErrorView { status: self.status, message: self.message@, details: self.details@ }
    }
}

/// The client message of every internal error.
pub open spec fn internal_message() -> Seq<char> {
    "Internal server error."@
}

/// The operator details of every bad-request error.
pub open spec fn bad_request_details() -> Seq<char> {
    "bad request"@
}

impl AppError {
    /// 400: the client sees `message`; the details only say "bad request".
    pub fn bad_request(message: &str) -> (r: AppError)
        ensures
            r.status == ErrorStatus::BadRequest,
            r.message@ == message@,
            r.details@ == bad_request_details(),
    {
        AppError {
            status: ErrorStatus::BadRequest,
            message: String::from_str(message),
            details: String::from_str("bad request"),
        }
    }

    /// 404 with `message` as both message and details.
    pub fn not_found(message: &str) -> (r: AppError)
        ensures
            r.status == ErrorStatus::NotFound,
            r.message@ == message@,
            r.details@ == message@,
    {
        AppError {
            status: ErrorStatus::NotFound,
            message: String::from_str(message),
            details: String::from_str(message),
        }
    }

    /// 429 with `message` as both message and details.
    pub fn too_many_requests(message: &str) -> (r: AppError)
        ensures
            r.status == ErrorStatus::TooManyRequests,
            r.message@ == message@,
            r.details@ == message@,
    {
        AppError {
            status: ErrorStatus::TooManyRequests,
            message: String::from_str(message),
            details: String::from_str(message),
        }
    }

    /// 413 with `message` as both message and details.
    pub fn payload_too_large(message: &str) -> (r: AppError)
        ensures
            r.status == ErrorStatus::PayloadTooLarge,
            r.message@ == message@,
            r.details@ == message@,
    {
        AppError {
            status: ErrorStatus::PayloadTooLarge,
            message: String::from_str(message),
            details: String::from_str(message),
        }
    }

    /// 500: the client sees a fixed message; `details` keeps what went wrong.
    pub fn internal(details: &str) -> (r: AppError)
        ensures
            r.status == ErrorStatus::InternalServerError,
            r.message@ == internal_message(),
            r.details@ == details@,
    {
        AppError {
            status: ErrorStatus::InternalServerError,
            message: String::from_str("Internal server error."),
            details: String::from_str(details),
        }
    }

    /// The text the error displays as: its operator details.
    pub fn to_string(&self) -> (r: String)
        ensures
            r@ == self.details@,
    {
        self.details.clone()
    }
}

} // verus!
