pub mod errors;

pub use errors::CommentError;
