//! The handlers' decision layer: the error taxonomy, the HTTP status codes
//! the service answers with, and the mapping from one store round trip's
//! outcome to a response. The functions here are what each handler decides
//! after the driver has answered; the round trip itself is the caller's.

use vstd::prelude::*;

use crate::model::User;

verus! {

pub const STATUS_OK: u16 = 200;

pub const STATUS_NO_CONTENT: u16 = 204;

pub const STATUS_BAD_REQUEST: u16 = 400;

pub const STATUS_NOT_FOUND: u16 = 404;

pub const STATUS_INTERNAL_ERROR: u16 = 500;

/// A request-level failure. No detail beyond the status code ever reaches
/// the response body.
#[derive(Clone, Copy, Debug, PartialEq, Eq, Structural)]
pub enum ApiError {
    /// A get found zero matching rows; answered with 404.
    NotFound,
    /// Any other store failure, a constraint violation and zero rows on an
    /// update included; answered with 500.
    InternalError,
}

impl ApiError {
    /// The status code the error is answered with.
    pub fn status_code(&self) -> (c: u16)
        ensures
            *self is NotFound <==> c == STATUS_NOT_FOUND,
            *self is InternalError <==> c == STATUS_INTERNAL_ERROR,
    {
        match self {
            ApiError::NotFound => STATUS_NOT_FOUND,
            ApiError::InternalError => STATUS_INTERNAL_ERROR,
        }
    }
}

/// What a round trip that fetches many rows produced.
pub enum RowsOutcome {
    /// The store answered with these rows, in store order.
    Rows(Vec<User>),
    /// The store failed.
    Failure,
}

/// What a round trip that fetches one row produced.
pub enum RowOutcome {
    /// The store answered with this row.
    Row(User),
    /// The store answered, but no row matched.
    NoRow,
    /// The store failed.
    Failure,
}

/// What a round trip that only executes a statement produced.
pub enum ExecOutcome {
    /// The statement was applied.
    Done,
    /// The store failed.
    Failure,
}

/// The list handler's decision: the rows pass through unchanged; any store
/// failure is an internal error.
pub fn list_response(outcome: RowsOutcome) -> (r: Result<Vec<User>, ApiError>)
    ensures
        match outcome {
            RowsOutcome::Rows(rows) => r matches Ok(out) && out == rows,
            RowsOutcome::Failure => r == Err::<Vec<User>, ApiError>(ApiError::InternalError),
        },
{
    match outcome {
        RowsOutcome::Rows(rows) => Ok(rows),
        RowsOutcome::Failure => Err(ApiError::InternalError),
    }
}

/// The create handler's decision: the created row passes through; a store
/// failure, or a store that returned no row, is an internal error.
pub fn create_response(outcome: RowOutcome) -> (r: Result<User, ApiError>)
    ensures
        match outcome {
            RowOutcome::Row(u) => r matches Ok(out) && out == u,
            RowOutcome::NoRow | RowOutcome::Failure => r == Err::<User, ApiError>(
                ApiError::InternalError,
            ),
        },
{
    match outcome {
        RowOutcome::Row(u) => Ok(u),
        RowOutcome::NoRow | RowOutcome::Failure => Err(ApiError::InternalError),
    }
}

/// The get handler's decision: the matching row passes through; zero rows
/// or any store failure is answered as not found, never as an internal
/// error.
pub fn get_response(outcome: RowOutcome) -> (r: Result<User, ApiError>)
    ensures
        match outcome {
            RowOutcome::Row(u) => r matches Ok(out) && out == u,
            RowOutcome::NoRow | RowOutcome::Failure => r == Err::<User, ApiError>(
                ApiError::NotFound,
            ),
        },
{
    match outcome {
        RowOutcome::Row(u) => Ok(u),
        RowOutcome::NoRow | RowOutcome::Failure => Err(ApiError::NotFound),
    }
}

/// The update handler's decision: the updated row passes through; zero
/// rows or any store failure is an internal error. The collapse of "row
/// missing" into the internal error is kept deliberately: the service has
/// always answered an update of a missing row with 500, not 404.
pub fn update_response(outcome: RowOutcome) -> (r: Result<User, ApiError>)
    ensures
        match outcome {
            RowOutcome::Row(u) => r matches Ok(out) && out == u,
            RowOutcome::NoRow | RowOutcome::Failure => r == Err::<User, ApiError>(
                ApiError::InternalError,
            ),
        },
{
    match outcome {
        RowOutcome::Row(u) => Ok(u),
        RowOutcome::NoRow | RowOutcome::Failure => Err(ApiError::InternalError),
    }
}

/// The delete handler's decision: an applied statement is answered with
/// 204 and no body, whether or not a row was there; a store failure is an
/// internal error.
pub fn delete_response(outcome: ExecOutcome) -> (r: Result<u16, ApiError>)
    ensures
        match outcome {
            ExecOutcome::Done => r == Ok::<u16, ApiError>(STATUS_NO_CONTENT),
            ExecOutcome::Failure => r == Err::<u16, ApiError>(ApiError::InternalError),
        },
{
    match outcome {
        ExecOutcome::Done => Ok(STATUS_NO_CONTENT),
        ExecOutcome::Failure => Err(ApiError::InternalError),
    }
}

/// The root endpoint's body.
pub fn greeting() -> (r: &'static str)
    ensures
        r@ == "hello!"@,
{
    "hello!"
}

} // verus!
