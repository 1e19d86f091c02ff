//! The search request and the result it is answered with.

pub mod batch;
pub mod issue;
pub mod result;
