//! Error taxonomy of the service: every failure a caller can see is
//! one of five kinds, each mapped to an HTTP status code.
use vstd::prelude::*;
use vstd::string::StringExecFns;

verus! {

/// The kind of a service error; decides the HTTP status code.
#[derive(Clone, Copy, Debug, PartialEq, Eq, Structural)]
pub enum AppErrorKind {
    BadRequest,
    Unauthorized,
    Forbidden,
    NotFound,
    InternalServerError,
}

/// An error as surfaced to a caller: a kind plus a short
/// human-readable message.
#[derive(Clone, Debug)]
pub struct AppError {
    pub kind: AppErrorKind,
    pub message: String,
}

pub type AppResult<T> = Result<T, AppError>;

impl AppErrorKind {
    /// The HTTP status code this kind maps to.
    pub fn status_code(&self) -> (code: u16)
        ensures
            code == self.spec_status_code(),
    {
        match self {
            AppErrorKind::BadRequest => 400,
            AppErrorKind::Unauthorized => 401,
            AppErrorKind::Forbidden => 403,
            AppErrorKind::NotFound => 404,
            AppErrorKind::InternalServerError => 500,
        }
    }

    pub open spec fn spec_status_code(&self) -> u16 {
        match self {
            AppErrorKind::BadRequest => 400,
            AppErrorKind::Unauthorized => 401,
            AppErrorKind::Forbidden => 403,
            AppErrorKind::NotFound => 404,
            AppErrorKind::InternalServerError => 500,
        }
    }
}

impl AppError {
    pub fn bad_request(e: &str) -> (r: AppError)
        ensures
            r.kind == AppErrorKind::BadRequest,
            r.message@ == e@,
    {
        AppError { kind: AppErrorKind::BadRequest, message: e.to_owned() }
    }

    pub fn unauthorized(e: &str) -> (r: AppError)
        ensures
            r.kind == AppErrorKind::Unauthorized,
            r.message@ == e@,
    {
        AppError { kind: AppErrorKind::Unauthorized, message: e.to_owned() }
    }

    pub fn forbidden(e: &str) -> (r: AppError)
        ensures
            r.kind == AppErrorKind::Forbidden,
            r.message@ == e@,
    {
        AppError { kind: AppErrorKind::Forbidden, message: e.to_owned() }
    }

    pub fn not_found(e: &str) -> (r: AppError)
        ensures
            r.kind == AppErrorKind::NotFound,
            r.message@ == e@,
    {
        AppError { kind: AppErrorKind::NotFound, message: e.to_owned() }
    }

    pub fn internal(e: &str) -> (r: AppError)
        ensures
            r.kind == AppErrorKind::InternalServerError,
            r.message@ == e@,
    {
        AppError { kind: AppErrorKind::InternalServerError, message: e.to_owned() }
    }

    /// The HTTP status code of this error.
    pub fn status_code(&self) -> (code: u16)
        ensures
            code == self.kind.spec_status_code(),
    {
        self.kind.status_code()
    }

    /// The kind's label, as it opens the rendered message.
    pub open spec fn spec_kind_label(kind: AppErrorKind) -> Seq<char> {
        match kind {
            AppErrorKind::BadRequest => "Bad Request: "@,
            AppErrorKind::Unauthorized => "Unauthorized: "@,
            AppErrorKind::Forbidden => "Forbidden: "@,
            AppErrorKind::NotFound => "Not Found: "@,
            AppErrorKind::InternalServerError => "Internal Server Error: "@,
        }
    }

    /// Renders the error as the label of its kind followed by the
    /// message, as the service writes it in responses and logs.
    pub fn display_string(&self) -> (r: String)
        ensures
            r@ == Self::spec_kind_label(self.kind) + self.message@,
    {
        let label: &str = match self.kind {
            AppErrorKind::BadRequest => "Bad Request: ",
            AppErrorKind::Unauthorized => "Unauthorized: ",
            AppErrorKind::Forbidden => "Forbidden: ",
            AppErrorKind::NotFound => "Not Found: ",
            AppErrorKind::InternalServerError => "Internal Server Error: ",
        };
        let mut r = label.to_owned();
        r.append(self.message.as_str());
        r
    }
}

} // verus!
