//! What the request layer answers: a status and a body.

use vstd::prelude::*;
use crate::virt::{message_text, ErrorView, VirtError};

verus! {

/// An answer of the request layer.
#[derive(Clone, Debug, PartialEq, Eq)]
pub enum NetworkResponse {
    Success(String),
    BadRequest(String),
    Unauthorized(String),
    InternalError(String),
}

/// The mathematical value of a [`NetworkResponse`].
pub enum ResponseView {
    Success(Seq<char>),
    BadRequest(Seq<char>),
    Unauthorized(Seq<char>),
    InternalError(Seq<char>),
}

impl View for NetworkResponse {
    type V = ResponseView;

    open spec fn view(&self) -> ResponseView {
        match self {
            NetworkResponse::Success(body) => ResponseView::Success(body@),
            NetworkResponse::BadRequest(body) => ResponseView::BadRequest(body@),
            NetworkResponse::Unauthorized(body) => ResponseView::Unauthorized(body@),
            NetworkResponse::InternalError(body) => ResponseView::InternalError(body@),
        }
    }
}

/// The status of an answer.
pub open spec fn status_of(r: ResponseView) -> u16 {
    match r {
        ResponseView::Success(_) => 200,
        ResponseView::BadRequest(_) => 400,
        ResponseView::Unauthorized(_) => 401,
        ResponseView::InternalError(_) => 500,
    }
}

/// The answer to a request that failed: a request that was malformed
/// is a bad request, every other failure an internal error; the body is
/// the error's message.
pub open spec fn failure_response(e: ErrorView) -> ResponseView {
    match e {
        ErrorView::InvalidInput => ResponseView::BadRequest(message_text(e)),
        _ => ResponseView::InternalError(message_text(e)),
    }
}

impl NetworkResponse {
    /// The status of this answer.
    pub fn status(&self) -> (code: u16)
        ensures
            code == status_of(self@),
    {
        match self {
            NetworkResponse::Success(_) => 200,
            NetworkResponse::BadRequest(_) => 400,
            NetworkResponse::Unauthorized(_) => 401,
            NetworkResponse::InternalError(_) => 500,
        }
    }

    /// The answer to a request that gave `result`.
    pub fn of(result: Result<String, VirtError>) -> (response: NetworkResponse)
        ensures
            response@ == match result {
                Ok(body) => ResponseView::Success(body@),
                Err(e) => failure_response(e@),
            },
    {
        match result {
            Ok(body) => NetworkResponse::Success(body),
            Err(e) => {
                let body = e.message();
                match e {
                    VirtError::InvalidInput => NetworkResponse::BadRequest(body),
                    _ => NetworkResponse::InternalError(body),
                }
            },
        }
    }
}

} // verus!
