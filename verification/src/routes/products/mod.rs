pub mod catalog;
pub mod comments;
pub mod errors;
pub mod files;

pub use errors::ProductError;
