use vstd::prelude::*;

use crate::store::StoreError;

verus! {

/// The errors that the service reports to its callers.
#[derive(Debug)]
pub enum AppError {
    Database(StoreError),
    NotFound,
    InvalidInput(String),
    Auth(String),
    Unauthorized,
}

impl AppError {
    /// The HTTP status under which the error is reported.
    pub fn status_code(&self) -> (r: u16)
        ensures
            r == match self {
                AppError::Database(_) => 500u16,
                AppError::NotFound => 404u16,
                AppError::InvalidInput(_) => 400u16,
                AppError::Auth(_) => 400u16,
                AppError::Unauthorized => 401u16,
            },
    {
        match self {
            AppError::Database(_) => 500,
            AppError::NotFound => 404,
            AppError::InvalidInput(_) => 400,
            AppError::Auth(_) => 400,
            AppError::Unauthorized => 401,
        }
    }
}

} // verus!
