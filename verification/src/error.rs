//! The service's two-kind error taxonomy and its translation into
//! HTTP responses.

use vstd::prelude::*;
use crate::response::{HttpResponse, ResponseBody};

verus! {

/// The fixed success acknowledgment of a command endpoint.
#[derive(Debug)]
pub struct AppOk;

/// Every failure the service reports is one of two kinds: the named
/// adapter or device does not exist, or anything else, carried as the
/// underlying failure's message text.
#[derive(Debug)]
pub enum AppError {
    NotFound,
    Error(String),
}

/// What a handler returns: the payload on success, an [`AppError`]
/// otherwise.
pub type AppResult<T = AppOk> = Result<T, AppError>;

impl AppOk {
    /// The acknowledgment renders as status 200 with body `ok`.
    pub fn into_response(self) -> (r: HttpResponse)
        ensures
            crate::response::is_ok_ack(r),
    {
        proof {
            reveal_strlit("ok");
        }
        HttpResponse { status: 200, body: ResponseBody::Text("ok".to_owned()) }
    }
}

impl AppError {
    /// Classifies a failure that the Bluetooth subsystem reported:
    /// a not-found condition becomes [`AppError::NotFound`], anything
    /// else keeps its message.
    pub fn from_report(not_found: bool, message: String) -> (r: AppError)
        ensures
            not_found ==> r is NotFound,
            !not_found ==> (r matches AppError::Error(m) && m == message),
    {
        if not_found {
            AppError::NotFound
        } else {
            AppError::Error(message)
        }
    }

    /// A not-found failure renders as status 404 with body
    /// `not found`; every other failure renders as status 500 with
    /// the failure's message as the body.
    pub fn into_response(self) -> (r: HttpResponse)
        ensures
            self is NotFound ==> crate::response::is_not_found(r),
            (self matches AppError::Error(m) ==> crate::response::is_failure(r, m@)),
    {
        match self {
            AppError::NotFound => {
                proof {
                    reveal_strlit("not found");
                }
                HttpResponse { status: 404, body: ResponseBody::Text("not found".to_owned()) }
            },
            AppError::Error(m) => HttpResponse { status: 500, body: ResponseBody::Text(m) },
        }
    }
}

} // verus!
