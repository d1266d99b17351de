pub mod checksum;
pub mod codec;
pub mod environment;
pub mod routes;
pub mod startup;

pub use environment::Environment;
