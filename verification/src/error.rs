//! The errors with which the gateway answers a request.

use vstd::prelude::*;

verus! {

/// Whose fault an error is.
#[derive(Clone, Copy, Debug, PartialEq, Eq, Structural)]
pub enum ErrorKind {
    /// The request cannot be served as it stands.
    BadRequest,
    /// The gateway or a service behind it failed.
    Internal,
}

/// An error that ends a request.
#[derive(Debug)]
pub struct AppError {
    pub kind: ErrorKind,
    pub message: String,
}

/// What an `AppError` says.
pub struct AppErrorView {
    pub kind: ErrorKind,
    pub message: Seq<char>,
}

impl View for AppError {
    type V = AppErrorView;

    open spec fn view(&self) -> AppErrorView {
        AppErrorView { kind: self.kind, message: self.message@ }
    }
}

/// The error that blames the request.
pub open spec fn bad_request(message: Seq<char>) -> AppErrorView {
    AppErrorView { kind: ErrorKind::BadRequest, message }
}

/// The error that blames the gateway or a service behind it.
pub open spec fn internal(message: Seq<char>) -> AppErrorView {
    AppErrorView { kind: ErrorKind::Internal, message }
}

/// A result with its error taken by its view.
pub open spec fn viewed<T>(result: Result<T, AppError>) -> Result<T, AppErrorView> {
    match result {
        Ok(value) => Ok(value),
        Err(error) => Err(error@),
    }
}

impl AppError {
    /// An error that blames the request.
    pub fn bad_request(message: String) -> (error: AppError)
        ensures
            error@ == bad_request(message@),
            error.kind == ErrorKind::BadRequest,
            error.message == message,
    {
        AppError { kind: ErrorKind::BadRequest, message }
    }

    /// An error that blames the gateway or a service behind it.
    pub fn internal(message: String) -> (error: AppError)
        ensures
            error@ == internal(message@),
            error.kind == ErrorKind::Internal,
            error.message == message,
    {
        AppError { kind: ErrorKind::Internal, message }
    }

    /// The HTTP status that goes with the error.
    pub fn status(&self) -> (code: u16)
        ensures
            code == (match self@.kind {
                ErrorKind::BadRequest => 400u16,
                ErrorKind::Internal => 500u16,
            }),
            self.kind == ErrorKind::BadRequest ==> code == 400,
            self.kind == ErrorKind::Internal ==> code == 500,
    {
        match self.kind {
            ErrorKind::BadRequest => 400,
            ErrorKind::Internal => 500,
        }
    }
}

/// An error keeps its message whole and says whose fault it is, which its status tells: 400 for
/// the request and 500 for the gateway.
pub proof fn law_errors_keep_their_message(
    message: String,
    blamed: AppError,
    failed: AppError,
    blamed_code: u16,
    failed_code: u16,
)
    requires
        call_ensures(AppError::bad_request, (message,), blamed),
        call_ensures(AppError::internal, (message,), failed),
        call_ensures(AppError::status, (&blamed,), blamed_code),
        call_ensures(AppError::status, (&failed,), failed_code),
    ensures
        blamed.message@ == message@ && failed.message@ == message@,
        blamed.kind == ErrorKind::BadRequest && failed.kind == ErrorKind::Internal,
        blamed_code == 400 && failed_code == 500,
{
}

/// What is said of an error by its view is its kind and its whole message, and a result keeps its
/// value.
pub proof fn law_errors_are_viewed_whole<T>(
    error: AppError,
    other: AppError,
    value: T,
    message: Seq<char>,
)
    ensures
        viewed(Ok::<T, AppError>(value)) == Ok::<T, AppErrorView>(value),
        viewed(Err::<T, AppError>(error)) matches Err(view) && view.kind == error.kind
            && view.message == error.message@,
        error@ == other@ <==> error.kind == other.kind && error.message@ == other.message@,
        bad_request(message).message == message && internal(message).message == message,
        bad_request(message).kind == ErrorKind::BadRequest,
        internal(message).kind == ErrorKind::Internal,
{
}

} // verus!
