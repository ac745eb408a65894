//! The error taxonomy surfaced to callers of the engine.

use vstd::prelude::*;

use crate::parser::ParseError;

verus! {

/// Failure of a caller-invoked operation or of a resolver step.
#[derive(Debug)]
pub enum Error {
    /// Catch-all business-logic failure, with a message.
    Internal(String),
    /// Transport-layer failure of the actor runtime's client.
    IcClient(String),
    /// Network, transport or JSON decoding failure.
    Http(String),
    /// The queried user owns no oracle at all.
    UserNotFound,
    /// The queried (owner, contract) pair has no oracle.
    OracleNotFound,
    /// An oracle already exists for the (owner, contract) pair.
    OracleAlreadyExists,
    /// The queried currency pair is not stored.
    PairNotFound,
    /// The currency pair is already stored.
    PairAlreadyExists,
    /// The price path could not be walked to a leaf.
    ParseError(ParseError),
    /// The remote call returned an application-level error.
    JsonRpcError(String),
}

/// View equality of two errors: same variant, same payload text.
pub open spec fn error_eq(a: &Error, b: &Error) -> bool {
    match (a, b) {
        (Error::Internal(x), Error::Internal(y)) => x@ == y@,
        (Error::IcClient(x), Error::IcClient(y)) => x@ == y@,
        (Error::Http(x), Error::Http(y)) => x@ == y@,
        (Error::UserNotFound, Error::UserNotFound) => true,
        (Error::OracleNotFound, Error::OracleNotFound) => true,
        (Error::OracleAlreadyExists, Error::OracleAlreadyExists) => true,
        (Error::PairNotFound, Error::PairNotFound) => true,
        (Error::PairAlreadyExists, Error::PairAlreadyExists) => true,
        (Error::ParseError(x), Error::ParseError(y)) => crate::parser::parse_error_eq(x, y),
        (Error::JsonRpcError(x), Error::JsonRpcError(y)) => x@ == y@,
        _ => false,
    }
}

impl PartialEq for Error {
    fn eq(&self, other: &Self) -> (r: bool) {
        match (self, other) {
            (Error::Internal(x), Error::Internal(y)) => *x == *y,
            (Error::IcClient(x), Error::IcClient(y)) => *x == *y,
            (Error::Http(x), Error::Http(y)) => *x == *y,
            (Error::UserNotFound, Error::UserNotFound) => true,
            (Error::OracleNotFound, Error::OracleNotFound) => true,
            (Error::OracleAlreadyExists, Error::OracleAlreadyExists) => true,
            (Error::PairNotFound, Error::PairNotFound) => true,
            (Error::PairAlreadyExists, Error::PairAlreadyExists) => true,
            (Error::ParseError(x), Error::ParseError(y)) => *x == *y,
            (Error::JsonRpcError(x), Error::JsonRpcError(y)) => *x == *y,
            _ => false,
        }
    }
}

impl vstd::std_specs::cmp::PartialEqSpecImpl for Error {
    open spec fn obeys_eq_spec() -> bool {
        true
    }

    open spec fn eq_spec(&self, other: &Self) -> bool {
        error_eq(self, other)
    }
}

impl Clone for Error {
    fn clone(&self) -> (r: Self)
        ensures
            error_eq(self, &r),
    {
        match self {
            Error::Internal(x) => Error::Internal(x.clone()),
            Error::IcClient(x) => Error::IcClient(x.clone()),
            Error::Http(x) => Error::Http(x.clone()),
            Error::UserNotFound => Error::UserNotFound,
            Error::OracleNotFound => Error::OracleNotFound,
            Error::OracleAlreadyExists => Error::OracleAlreadyExists,
            Error::PairNotFound => Error::PairNotFound,
            Error::PairAlreadyExists => Error::PairAlreadyExists,
            Error::ParseError(x) => Error::ParseError(x.clone()),
            Error::JsonRpcError(x) => Error::JsonRpcError(x.clone()),
        }
    }
}

} // verus!
