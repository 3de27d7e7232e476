//! The decisions behind each request the service answers.

pub mod context;
pub mod files;
pub mod scan;
