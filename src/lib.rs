pub mod command;
pub mod config;
pub mod error;
pub mod json;
pub mod response;
pub mod scan;
pub mod store;
