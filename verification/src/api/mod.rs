pub mod types;
pub mod errors;
