//! What the caller of an ingestion is told.

use vstd::prelude::*;

use crate::error::{IngestError, IngestErrorView};

verus! {

/// The class of a response.
#[derive(Debug, Clone, Copy, PartialEq, Eq, Structural)]
pub enum ResponseClass {
    /// The whole batch is stored.
    Success,
    /// The request is at fault: the batch does not decode, or an event of
    /// it does not pass validation.
    BadRequest,
    /// The server is at fault, or the store refused the batch.
    Internal,
}

/// A response: its class and its text.
#[derive(Debug, PartialEq, Eq)]
pub struct Response {
    pub class: ResponseClass,
    pub body: String,
}

/// The class with which an outcome is answered.
pub open spec fn class_of(outcome: Result<(), IngestErrorView>) -> ResponseClass {
    match outcome {
        Ok(_) => ResponseClass::Success,
        Err(IngestErrorView::DecodeError { .. }) => ResponseClass::BadRequest,
        Err(IngestErrorView::ValidationError { .. }) => ResponseClass::BadRequest,
        Err(_) => ResponseClass::Internal,
    }
}

/// The text with which an outcome is answered: the reason of a fault of
/// the request, and nothing else.
pub open spec fn body_of(outcome: Result<(), IngestErrorView>) -> Seq<char> {
    match outcome {
        Err(IngestErrorView::DecodeError { reason }) => reason,
        Err(IngestErrorView::ValidationError { reason, .. }) => reason,
        _ => Seq::empty(),
    }
}

/// Mathematical value of the outcome of an ingestion.
pub open spec fn outcome_view(outcome: Result<(), IngestError>) -> Result<(), IngestErrorView> {
    match outcome {
        Ok(_) => Ok(()),
        Err(fault) => Err(fault@),
    }
}

/// The response to the outcome of an ingestion. A batch that does not
/// decode or does not pass validation is answered as a bad request, with
/// the reason as text. Every other fault is answered as an internal one,
/// without text: nothing of the server's state is disclosed.
pub fn respond(outcome: &Result<(), IngestError>) -> (response: Response)
    ensures
        response.class == class_of(outcome_view(*outcome)),
        response.body@ == body_of(outcome_view(*outcome)),
{
    match outcome {
        Ok(_) => Response { class: ResponseClass::Success, body: String::new() },
        Err(IngestError::DecodeError { reason }) => Response {
            class: ResponseClass::BadRequest,
            body: reason.clone(),
        },
        Err(IngestError::ValidationError { reason, .. }) => Response {
            class: ResponseClass::BadRequest,
            body: reason.clone(),
        },
        Err(_) => Response { class: ResponseClass::Internal, body: String::new() },
    }
}

} // verus!
