use vstd::prelude::*;

verus! {

/// The HTTP statuses that the service answers with.
#[derive(PartialEq, Eq, Structural, Clone, Copy, Debug)]
pub enum Status {
    Success,
    Created,
    BadRequest,
    NotFound,
    InternalServerError,
}

impl Status {
    /// The numeric code of the status.
    pub open spec fn code_spec(self) -> u16 {
        match self {
            Status::Success => 200,
            Status::Created => 201,
            Status::BadRequest => 400,
            Status::NotFound => 404,
            Status::InternalServerError => 500,
        }
    }

    /// The numeric HTTP status code.
    pub fn code(&self) -> (r: u16)
        ensures
            r == self.code_spec(),
    {
        match self {
            Status::Success => 200,
            Status::Created => 201,
            Status::BadRequest => 400,
            Status::NotFound => 404,
            Status::InternalServerError => 500,
        }
    }
}

/// The kinds of failure a request can meet.
#[derive(PartialEq, Eq, Structural, Clone, Copy, Debug)]
pub enum Failure {
    /// A malformed path parameter or request body.
    ClientInput,
    /// A well-formed request that no row matches.
    NotFound,
    /// No connection to the store could be had.
    StoreUnavailable,
    /// The store failed to run a well-formed query.
    QueryFailed,
}

impl Failure {
    /// The status that answers the failure.
    pub open spec fn status_spec(self) -> Status {
        match self {
            Failure::ClientInput => Status::BadRequest,
            Failure::NotFound => Status::NotFound,
            Failure::StoreUnavailable => Status::InternalServerError,
            Failure::QueryFailed => Status::InternalServerError,
        }
    }

    /// Each failure kind answers with exactly one status.
    pub fn status(&self) -> (r: Status)
        ensures
            r == self.status_spec(),
    {
        match self {
            Failure::ClientInput => Status::BadRequest,
            Failure::NotFound => Status::NotFound,
            Failure::StoreUnavailable => Status::InternalServerError,
            Failure::QueryFailed => Status::InternalServerError,
        }
    }
}

} // verus!
