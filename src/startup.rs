use vstd::prelude::*;
use crate::error::ApiError;

verus! {

/// Why the process cannot start serving: both are fatal.
#[derive(Debug, Clone, PartialEq, Eq)]
pub enum StartupError {
    /// No connection URL for the relational store was configured.
    MissingDatabaseUrl,
    /// The store could not be reached with the configured URL.
    ConnectionFailed(ApiError),
}

/// What startup does once the configured URL has been read: connect with
/// it, or stop before serving when there is none.
pub open spec fn url_step(configured: Option<String>) -> Result<String, StartupError> {
    match configured {
        Some(url) => Ok(url),
        None => Err(StartupError::MissingDatabaseUrl),
    }
}

/// How an attempt to connect to the store ends startup.
pub open spec fn connect_step(outcome: Result<(), String>) -> Result<(), StartupError> {
    match outcome {
        Ok(()) => Ok(()),
        Err(detail) => Err(StartupError::ConnectionFailed(ApiError::DatabaseError(detail))),
    }
}

/// The URL to connect to the store with, from the configured value.
pub fn database_url(configured: Option<String>) -> (r: Result<String, StartupError>)
    ensures
        r == url_step(configured),
{
    match configured {
        Some(url) => Ok(url),
        None => Err(StartupError::MissingDatabaseUrl),
    }
}

/// Classifies the outcome of connecting to the store: a failure becomes a
/// database error that stops startup.
pub fn connection_outcome(outcome: Result<(), String>) -> (r: Result<(), StartupError>)
    ensures
        r == connect_step(outcome),
{
    match outcome {
        Ok(()) => Ok(()),
        Err(detail) => Err(StartupError::ConnectionFailed(ApiError::DatabaseError(detail))),
    }
}

} // verus!
