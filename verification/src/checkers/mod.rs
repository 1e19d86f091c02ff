//! Searches and the reports drawn from what they find.

pub mod ca;
pub mod datatypes;
pub mod fs2;
pub mod groups;
pub mod order;
pub mod records;
pub mod search;
pub mod sys;
pub mod utils;
