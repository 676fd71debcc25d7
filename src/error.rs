//! The error taxonomy shared by every operation, and how each error is reported.

use vstd::prelude::*;
use vstd::string::*;

verus! {

/// Every failure an operation can surface.
#[derive(Debug, Clone, PartialEq, Eq)]
pub enum AppError {
    AuthError(String),
    NotFound(String),
    DatabaseError(String),
    InternalServerError(String),
    ValidationError(String),
    SearchIndexError(String),
}

/// What the relational store reports when a round trip fails.
#[derive(Debug, Clone, PartialEq, Eq)]
pub enum StoreError {
    /// The statement matched no row.
    RowNotFound,
    /// Any other failure, with the store's own description.
    Other(String),
}

pub open spec fn status_of(e: AppError) -> u16 {
    match e {
        AppError::AuthError(_) => 401,
        AppError::NotFound(_) => 404,
        AppError::ValidationError(_) => 400,
        AppError::DatabaseError(_) => 500,
        AppError::InternalServerError(_) => 500,
        AppError::SearchIndexError(_) => 502,
    }
}

pub open spec fn code_of(e: AppError) -> Seq<char> {
    match e {
        AppError::AuthError(_) => "4001"@,
        AppError::NotFound(_) => "4004"@,
        AppError::ValidationError(_) => "4000"@,
        AppError::DatabaseError(_) => "5001"@,
        AppError::InternalServerError(_) => "5000"@,
        AppError::SearchIndexError(_) => "5002"@,
    }
}

pub open spec fn description_of(e: AppError) -> Seq<char> {
    match e {
        AppError::AuthError(m) => m@,
        AppError::NotFound(m) => m@,
        AppError::ValidationError(m) => m@,
        AppError::DatabaseError(m) => "Database error: "@ + m@,
        AppError::InternalServerError(m) => m@,
        AppError::SearchIndexError(m) => m@,
    }
}

impl AppError {
    /// The HTTP status under which the error is reported.
    pub fn status_code(&self) -> (r: u16)
        ensures
            r == status_of(*self),
    {
        match self {
            AppError::AuthError(_) => 401,
            AppError::NotFound(_) => 404,
            AppError::ValidationError(_) => 400,
            AppError::DatabaseError(_) => 500,
            AppError::InternalServerError(_) => 500,
            AppError::SearchIndexError(_) => 502,
        }
    }

    /// The stable application-level code of the error.
    pub fn app_code(&self) -> (r: &'static str)
        ensures
            r@ == code_of(*self),
    {
        match self {
            AppError::AuthError(_) => "4001",
            AppError::NotFound(_) => "4004",
            AppError::ValidationError(_) => "4000",
            AppError::DatabaseError(_) => "5001",
            AppError::InternalServerError(_) => "5000",
            AppError::SearchIndexError(_) => "5002",
        }
    }

    /// The human-readable description shown to the caller.
    pub fn description(&self) -> (r: String)
        ensures
            r@ == description_of(*self),
    {
        match self {
            AppError::AuthError(m) => m.clone(),
            AppError::NotFound(m) => m.clone(),
            AppError::ValidationError(m) => m.clone(),
            AppError::DatabaseError(m) => "Database error: ".to_owned().concat(m.as_str()),
            AppError::InternalServerError(m) => m.clone(),
            AppError::SearchIndexError(m) => m.clone(),
        }
    }

    /// The error for a failed store round trip on an entity: a missing row becomes `NotFound`
    /// with `missing` as its message, any other failure a `DatabaseError`.
    pub fn from_store(e: StoreError, missing: &str) -> (r: AppError)
        ensures
            match e {
                StoreError::RowNotFound => r matches AppError::NotFound(m) && m@ == missing@,
                StoreError::Other(m) => r == AppError::DatabaseError(m),
            },
    {
        match e {
            StoreError::RowNotFound => AppError::NotFound(missing.to_owned()),
            StoreError::Other(m) => AppError::DatabaseError(m),
        }
    }
}

} // verus!
