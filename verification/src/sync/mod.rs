pub mod mapping;
pub mod columns;
pub mod values;
pub mod update;
pub mod push;
pub mod pull;
