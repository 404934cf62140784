//! An in-memory contact directory: an ordered collection of contact records
//! with unique, never-reused ids and unique email addresses.

pub mod contact;
pub mod directory;
pub mod form;
