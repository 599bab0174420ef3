//! The application error type and its HTTP representation.
//!
//! The shape on the wire is always:
//!
//! ```json
//! { "error": { "code": "SEAT_UNAVAILABLE", "message": "seat E7 is already booked" } }
//! ```

use vstd::prelude::*;

use crate::json::{error_body, error_json, Json, JsonView};
use crate::text::join;

verus! {

/// Why a request is refused.
#[derive(Debug)]
pub enum AppError {
    /// The request was understood but the referenced thing does not exist.
    NotFound(String),
    /// The request is well-formed but conflicts with current state.
    Conflict(String),
    /// The request itself is wrong: unknown seat id, empty seat list, a show in the past.
    Validation(String),
    /// The payment gateway misbehaved or is unreachable. Worth keeping separate from
    /// `Internal`: what to tell the caller when a downstream dependency is down is a real
    /// decision.
    Upstream(String),
    /// The database failed.
    Database(String),
    /// A request to another service failed.
    Http(String),
    /// Escape hatch for genuine bugs. The message is logged, never returned.
    Internal(String),
}

/// What an error says.
pub enum AppErrorView {
    NotFound(Seq<char>),
    Conflict(Seq<char>),
    Validation(Seq<char>),
    Upstream(Seq<char>),
    Database(Seq<char>),
    Http(Seq<char>),
    Internal(Seq<char>),
}

impl View for AppError {
    type V = AppErrorView;

    open spec fn view(&self) -> AppErrorView {
        match self {
            AppError::NotFound(m) => AppErrorView::NotFound(m@),
            AppError::Conflict(m) => AppErrorView::Conflict(m@),
            AppError::Validation(m) => AppErrorView::Validation(m@),
            AppError::Upstream(m) => AppErrorView::Upstream(m@),
            AppError::Database(m) => AppErrorView::Database(m@),
            AppError::Http(m) => AppErrorView::Http(m@),
            AppError::Internal(m) => AppErrorView::Internal(m@),
        }
    }
}

/// A refusal, as it is answered.
#[derive(Debug)]
pub struct ErrorReply {
    pub status: u16,
    pub body: Json,
}

/// What is shown in place of a cause that is not for clients.
pub open spec fn generic_message() -> Seq<char> {
    "something went wrong on our side"@
}

impl AppErrorView {
    /// The error's code.
    pub open spec fn code(self) -> Seq<char> {
        match self {
            AppErrorView::NotFound(_) => "NOT_FOUND"@,
            AppErrorView::Conflict(_) => "CONFLICT"@,
            AppErrorView::Validation(_) => "VALIDATION_FAILED"@,
            AppErrorView::Upstream(_) | AppErrorView::Http(_) => "UPSTREAM_UNAVAILABLE"@,
            AppErrorView::Database(_) | AppErrorView::Internal(_) => "INTERNAL_ERROR"@,
        }
    }

    /// The status code under which the error is answered.
    pub open spec fn status(self) -> int {
        match self {
            AppErrorView::NotFound(_) => 404,
            AppErrorView::Conflict(_) => 409,
            AppErrorView::Validation(_) => 422,
            AppErrorView::Upstream(_) | AppErrorView::Http(_) => 502,
            AppErrorView::Database(_) | AppErrorView::Internal(_) => 500,
        }
    }

    /// Whether the underlying cause is safe to show a client.
    pub open spec fn public(self) -> bool {
        !(self is Database || self is Internal || self is Http)
    }

    /// The error in full, for the log.
    pub open spec fn said(self) -> Seq<char> {
        match self {
            AppErrorView::NotFound(m) => m + " not found"@,
            AppErrorView::Conflict(m) => m,
            AppErrorView::Validation(m) => m,
            AppErrorView::Upstream(m) => "payment gateway error: "@ + m,
            AppErrorView::Database(m) => m,
            AppErrorView::Http(m) => m,
            AppErrorView::Internal(m) => "internal error: "@ + m,
        }
    }

    /// What a client is shown.
    pub open spec fn shown(self) -> Seq<char> {
        if self.public() {
            self.said()
        } else {
            generic_message()
        }
    }

    /// The body of the answer.
    pub open spec fn body(self) -> JsonView {
        error_body(self.code(), self.shown())
    }
}

impl AppError {
    /// The error's code.
    pub fn code(&self) -> (s: &'static str)
        ensures
            s@ == self@.code(),
    {
        match self {
            AppError::NotFound(_) => "NOT_FOUND",
            AppError::Conflict(_) => "CONFLICT",
            AppError::Validation(_) => "VALIDATION_FAILED",
            AppError::Upstream(_) | AppError::Http(_) => "UPSTREAM_UNAVAILABLE",
            AppError::Database(_) | AppError::Internal(_) => "INTERNAL_ERROR",
        }
    }

    /// The status code under which the error is answered.
    pub fn status(&self) -> (n: u16)
        ensures
            n == self@.status(),
    {
        match self {
            AppError::NotFound(_) => 404,
            AppError::Conflict(_) => 409,
            AppError::Validation(_) => 422,
            AppError::Upstream(_) | AppError::Http(_) => 502,
            AppError::Database(_) | AppError::Internal(_) => 500,
        }
    }

    /// Whether the underlying cause is safe to show a client.
    ///
    /// Database and internal errors leak schema details and are replaced with a generic
    /// message; the real cause goes to the log instead.
    pub fn is_public(&self) -> (r: bool)
        ensures
            r == self@.public(),
    {
        match self {
            AppError::Database(_) | AppError::Internal(_) | AppError::Http(_) => false,
            _ => true,
        }
    }

    /// The error in full, for the log.
    pub fn message(&self) -> (s: String)
        ensures
            s@ == self@.said(),
    {
        match self {
            AppError::NotFound(m) => join(m.as_str(), " not found"),
            AppError::Conflict(m) => m.clone(),
            AppError::Validation(m) => m.clone(),
            AppError::Upstream(m) => join("payment gateway error: ", m.as_str()),
            AppError::Database(m) => m.clone(),
            AppError::Http(m) => m.clone(),
            AppError::Internal(m) => join("internal error: ", m.as_str()),
        }
    }

    /// The error as an answer.
    pub fn into_response(self) -> (reply: ErrorReply)
        ensures
            reply.status == self@.status(),
            reply.body@ == self@.body(),
    {
        let message = if self.is_public() {
            self.message()
        } else {
            "something went wrong on our side".to_owned()
        };
        ErrorReply { status: self.status(), body: error_json(self.code(), message.as_str()) }
    }
}

/// Convenience alias so handler signatures stay short.
pub type AppResult<T> = Result<T, AppError>;

/// What a client is shown of a database error, an internal error or a failed request to
/// another service does not depend on the cause, so nothing of the cause leaks.
pub proof fn private_causes_do_not_leak(a: AppErrorView, b: AppErrorView)
    requires
        !a.public(),
        !b.public(),
    ensures
        a.shown() == b.shown(),
        a.status() == b.status() && a.code() == b.code() ==> a.body() == b.body(),
        a.status() >= 500,
{
}

/// No refusal looks like a success: whoever sent the request knows to try again or to give
/// up.
pub proof fn refusals_are_no_success(e: AppErrorView)
    ensures
        400 <= e.status() < 600,
{
}

} // verus!
