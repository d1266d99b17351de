pub mod files;
pub mod products;
