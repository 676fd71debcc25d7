//! The envelope every successful or failed operation is answered with.

use crate::error::{code_of, description_of, AppError};
use vstd::prelude::*;

verus! {

/// An application-level code and its human-readable description.
#[derive(Debug, Clone, PartialEq, Eq)]
pub struct Status {
    pub code: String,
    pub description: String,
}

/// A status, with the payload when there is one.
#[derive(Debug, Clone, PartialEq, Eq)]
pub struct ApiResponse<T> {
    pub status: Status,
    pub data: Option<T>,
}

impl<T> ApiResponse<T> {
    /// A success carrying `data`.
    pub fn success(data: T, code: &str, description: &str) -> (r: Self)
        ensures
            r.status.code@ == code@,
            r.status.description@ == description@,
            r.data == Some(data),
    {
        ApiResponse {
            status: Status { code: code.to_owned(), description: description.to_owned() },
            data: Some(data),
        }
    }

    /// A success without payload.
    pub fn success_no_data(code: &str, description: &str) -> (r: Self)
        ensures
            r.status.code@ == code@,
            r.status.description@ == description@,
            r.data is None,
    {
        ApiResponse {
            status: Status { code: code.to_owned(), description: description.to_owned() },
            data: None,
        }
    }

    /// The answer to a failed operation: the error's code and description, no payload.
    pub fn failure(e: &AppError) -> (r: Self)
        ensures
            r.status.code@ == code_of(*e),
            r.status.description@ == description_of(*e),
            r.data is None,
    {
        ApiResponse {
            status: Status { code: e.app_code().to_owned(), description: e.description() },
            data: None,
        }
    }
}

} // verus!
