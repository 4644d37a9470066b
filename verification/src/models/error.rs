//! Error values shared by every component.

use crate::utils::text::join2;
use vstd::prelude::*;

verus! {

/// How an error is shown to the user.
#[derive(Debug, Clone, Copy, PartialEq, Eq, Structural)]
pub enum ErrorType {
    /// Client errors (4xx), shown as a warning.
    Warning,
    /// Server errors (5xx), shown as an error.
    Error,
    /// Network failures and everything else.
    Network,
    /// The operation is not implemented.
    NotImplemented,
}

/// An error as it travels to the user interface.
#[derive(Debug)]
pub struct ApiError {
    pub status_code: u16,
    pub message: String,
    pub error_type: ErrorType,
}

/// The display class that belongs to a status code.
pub open spec fn error_type_of(status_code: u16) -> ErrorType {
    if 400 <= status_code <= 499 {
        ErrorType::Warning
    } else if 500 <= status_code <= 599 {
        ErrorType::Error
    } else {
        ErrorType::Network
    }
}

impl Clone for ApiError {
    fn clone(&self) -> (copy: Self)
        ensures
            copy == *self,
    {
        ApiError {
            status_code: self.status_code,
            message: self.message.clone(),
            error_type: self.error_type,
        }
    }
}

impl ApiError {
    /// An error with the display class of its status code.
    pub fn new(status_code: u16, message: String) -> (error: Self)
        ensures
            error.status_code == status_code,
            error.message == message,
            error.error_type == error_type_of(status_code),
    {
        let error_type = if 400 <= status_code && status_code <= 499 {
            ErrorType::Warning
        } else if 500 <= status_code && status_code <= 599 {
            ErrorType::Error
        } else {
            ErrorType::Network
        };
        ApiError { status_code, message, error_type }
    }

    /// A network error: status code 0.
    pub fn network(message: String) -> (error: Self)
        ensures
            error.status_code == 0,
            error.message == message,
            error.error_type == ErrorType::Network,
    {
        ApiError { status_code: 0, message, error_type: ErrorType::Network }
    }

    /// The error of an operation that has no implementation.
    pub fn not_implemented(fn_name: &str) -> (error: Self)
        ensures
            error.status_code == 599,
            error.message@ == "函数没有实现: "@ + fn_name@,
            error.error_type == ErrorType::NotImplemented,
    {
        ApiError {
            status_code: 599,
            message: join2("函数没有实现: ", fn_name),
            error_type: ErrorType::NotImplemented,
        }
    }

    /// The text shown for this error: its message.
    pub fn to_string(&self) -> (text: String)
        ensures
            text@ == self.message@,
    {
        self.message.clone()
    }
}

/// What went wrong, in the terms of the pipeline.
#[derive(Debug, Clone, Copy, PartialEq, Eq, Structural)]
pub enum ErrorKind {
    /// The request makes no sense: the source is missing or no video.
    InvalidInput,
    /// There is no such job.
    NotFound,
    /// A job is active already.
    Conflict,
    /// A subprocess or the file system failed.
    ResourceError,
    /// A thumbnail was asked of something that is neither image nor video.
    UnsupportedType,
}

impl ErrorKind {
    /// The status code under which a kind travels.
    pub open spec fn status_code(self) -> u16 {
        match self {
            ErrorKind::InvalidInput => 400,
            ErrorKind::NotFound => 404,
            ErrorKind::Conflict => 409,
            ErrorKind::ResourceError => 500,
            ErrorKind::UnsupportedType => 415,
        }
    }

    /// The kind that a status code of the pipeline stands for.
    pub open spec fn of_status_code(code: u16) -> Option<ErrorKind> {
        if code == 400 {
            Some(ErrorKind::InvalidInput)
        } else if code == 404 {
            Some(ErrorKind::NotFound)
        } else if code == 409 {
            Some(ErrorKind::Conflict)
        } else if code == 500 {
            Some(ErrorKind::ResourceError)
        } else if code == 415 {
            Some(ErrorKind::UnsupportedType)
        } else {
            None
        }
    }

    /// Computes [`ErrorKind::status_code`].
    pub fn code(self) -> (code: u16)
        ensures
            code == self.status_code(),
    {
        match self {
            ErrorKind::InvalidInput => 400,
            ErrorKind::NotFound => 404,
            ErrorKind::Conflict => 409,
            ErrorKind::ResourceError => 500,
            ErrorKind::UnsupportedType => 415,
        }
    }
}

/// The kinds can be told apart by their status codes: the code of a kind
/// stands for that kind and no other.
pub proof fn lemma_status_code_tells_kind(kind: ErrorKind)
    ensures
        ErrorKind::of_status_code(kind.status_code()) == Some(kind),
{
}

/// A failure of the pipeline: its kind and a message for the user.
#[derive(Debug)]
pub struct PipelineError {
    pub kind: ErrorKind,
    pub message: String,
}

impl PipelineError {
    /// An error of the given kind.
    pub fn new(kind: ErrorKind, message: &str) -> (error: Self)
        ensures
            error.kind == kind,
            error.message@ == message@,
    {
        PipelineError { kind, message: message.to_owned() }
    }

    /// An error whose message is `prefix` followed by `detail`.
    pub fn with_detail(kind: ErrorKind, prefix: &str, detail: &str) -> (error: Self)
        ensures
            error.kind == kind,
            error.message@ == prefix@ + detail@,
    {
        PipelineError { kind, message: join2(prefix, detail) }
    }

    /// The error as it travels to the user interface: the status code of the
    /// kind, and the same message.
    pub fn into_api_error(self) -> (error: ApiError)
        ensures
            error.status_code == self.kind.status_code(),
            error.message == self.message,
            error.error_type == error_type_of(self.kind.status_code()),
    {
        ApiError::new(self.kind.code(), self.message)
    }
}

impl Clone for PipelineError {
    fn clone(&self) -> (copy: Self)
        ensures
            copy == *self,
    {
        PipelineError { kind: self.kind, message: self.message.clone() }
    }
}

} // verus!
