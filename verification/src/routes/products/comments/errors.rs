//! What the comment endpoints answer when a request fails.

use vstd::prelude::*;
use vstd::string::StringExecFns;

verus! {

/// A failed comment request.
pub enum CommentError {
    /// Any failure, such as a database error; its cause is only logged.
    Unexpected(anyhow::Error),
}

impl CommentError {
    /// The HTTP status of the answer.
    pub open spec fn status(&self) -> u16 {
        500
    }

    /// The `errorInfo` text of the answer.
    pub open spec fn info_text(&self) -> Seq<char> {
        crate::routes::products::errors::unexpected_info()
    }

    /// The HTTP status of the answer: always a server error.
    pub fn status_code(&self) -> (r: u16)
        ensures
            r == self.status(),
    {
        match self {
            CommentError::Unexpected(_) => 500,
        }
    }

    /// The text sent to the client as `errorInfo`, which never holds the cause.
    pub fn info(&self) -> (r: String)
        ensures
            r@ == self.info_text(),
    {
        match self {
            CommentError::Unexpected(_) => String::from_str("Unexpected server error"),
        }
    }
}

} // verus!
