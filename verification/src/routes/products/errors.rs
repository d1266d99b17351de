//! What the product endpoints answer when a request fails.

use vstd::prelude::*;
use vstd::string::StringExecFns;

verus! {

#[verifier::external_type_specification]
#[verifier::external_body]
pub struct ExAnyhowError(anyhow::Error);

/// A failed product request.
pub enum ProductError {
    /// The user has rated this product before.
    AlreadyRated,
    /// No product has the requested id.
    UnknownProduct,
    /// Anything else, such as a database failure; its cause is only logged.
    Unexpected(anyhow::Error),
}

/// The text shown in place of the cause of an unexpected failure.
pub open spec fn unexpected_info() -> Seq<char> {
    "Unexpected server error"@
}

impl ProductError {
    /// The HTTP status of the answer.
    pub open spec fn status(&self) -> u16 {
        match self {
            ProductError::AlreadyRated => 400,
            ProductError::UnknownProduct => 400,
            ProductError::Unexpected(_) => 500,
        }
    }

    /// The `errorInfo` text of the answer.
    pub open spec fn info_text(&self) -> Seq<char> {
        match self {
            ProductError::AlreadyRated => "Rating already exists"@,
            ProductError::UnknownProduct => "Unknown product"@,
            ProductError::Unexpected(_) => unexpected_info(),
        }
    }

    /// The HTTP status of the answer: a client error for a refused request,
    /// a server error for anything unexpected.
    pub fn status_code(&self) -> (r: u16)
        ensures
            r == self.status(),
    {
        match self {
            ProductError::AlreadyRated => 400,
            ProductError::UnknownProduct => 400,
            ProductError::Unexpected(_) => 500,
        }
    }

    /// The text sent to the client as `errorInfo`; the cause of an
    /// unexpected failure is never part of it.
    pub fn info(&self) -> (r: String)
        ensures
            r@ == self.info_text(),
    {
        match self {
            ProductError::AlreadyRated => String::from_str("Rating already exists"),
            ProductError::UnknownProduct => String::from_str("Unknown product"),
            ProductError::Unexpected(_) => String::from_str("Unexpected server error"),
        }
    }
}

} // verus!
