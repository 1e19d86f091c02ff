//! Effort estimations: what each feature is expected to cost.

pub mod fs2checker;
pub mod fs2issue;
pub mod fs2item;
