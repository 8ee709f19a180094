//! Small building blocks on numbers, text and records, each with its
//! contract.

pub mod functions;
pub mod structs;
pub mod ownership;
pub mod error_handling;
