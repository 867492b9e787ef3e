//! Commit-message composition from a ticket-naming convention, and the
//! decisions of a stage-everything-and-commit procedure.

pub mod error;
pub mod message;
pub mod staging;
