//! Scan server library: the rules that decide what a request to the
//! scanner service may do and what it answers, with their contracts.

pub mod text;
pub mod config;
pub mod error;
pub mod files;
pub mod number;
pub mod device;
pub mod scanner;
pub mod routes;
