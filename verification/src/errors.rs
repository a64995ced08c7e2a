//! The error taxonomy of the domain.

use vstd::prelude::*;

verus! {

/// Why an operation failed, as surfaced to an API caller.
#[derive(Clone, Copy, Debug, PartialEq, Eq, Structural)]
pub enum ApiError {
    /// A single-entity lookup missed (surfaced as a null result, not a fault).
    NotFound,
    /// An opaque cursor did not decode to any cursor this crate produces.
    InvalidCursor,
    /// A persisted or supplied enumeration text matched no known variant.
    InvalidEnumValue,
    /// The storage layer could not supply a connection.
    StorageUnavailable,
    /// An insert violated a foreign-key or uniqueness constraint.
    ConstraintViolation,
    /// A page request asked for a non-positive or excessively large count.
    InvalidCount,
}

/// Failure to parse a [`crate::models::UserRole`] from its persisted text.
#[derive(Clone, Copy, Debug, PartialEq, Eq, Structural)]
pub struct ParseUserRoleError;

impl ParseUserRoleError {
    /// The taxonomy class of this error.
    pub fn api_error(&self) -> (e: ApiError)
        ensures
            e == ApiError::InvalidEnumValue,
    {
        ApiError::InvalidEnumValue
    }

    /// A human-readable description of the error.
    pub fn message(&self) -> (r: &'static str)
        ensures
            r@ == "unrecognized UserRole variant"@,
    {
        "unrecognized UserRole variant"
    }
}

/// Failure to parse a [`crate::models::OAuthAccountProvider`] from its
/// persisted text.
#[derive(Clone, Copy, Debug, PartialEq, Eq, Structural)]
pub struct ParseOAuthAccountProviderError;

impl ParseOAuthAccountProviderError {
    /// The taxonomy class of this error.
    pub fn api_error(&self) -> (e: ApiError)
        ensures
            e == ApiError::InvalidEnumValue,
    {
        ApiError::InvalidEnumValue
    }

    /// A human-readable description of the error.
    pub fn message(&self) -> (r: &'static str)
        ensures
            r@ == "unrecognized OAuthAccountProvider variant"@,
    {
        "unrecognized OAuthAccountProvider variant"
    }
}

} // verus!
