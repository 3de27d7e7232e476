//! The error a request can end in, and its model.

use vstd::prelude::*;

verus! {

/// What went wrong with a request: the client's fault, a missing file,
/// or a failure on the server's side. Each carries its message.
#[derive(Debug, PartialEq, Eq)]
pub enum AppError {
    BadRequest(String),
    NotFound(String),
    Internal(String),
}

/// The model of an [`AppError`]: its kind and the characters of its message.
pub enum ErrorView {
    BadRequest(Seq<char>),
    NotFound(Seq<char>),
    Internal(Seq<char>),
}

impl View for AppError {
    type V = ErrorView;

    open spec fn view(&self) -> ErrorView {
        match self {
            AppError::BadRequest(m) => ErrorView::BadRequest(m@),
            AppError::NotFound(m) => ErrorView::NotFound(m@),
            AppError::Internal(m) => ErrorView::Internal(m@),
        }
    }
}

/// The model of an outcome that carries no value.
pub open spec fn unit_outcome(r: Result<(), AppError>) -> Option<ErrorView> {
    match r {
        Ok(()) => None,
        Err(e) => Some(e@),
    }
}

} // verus!
