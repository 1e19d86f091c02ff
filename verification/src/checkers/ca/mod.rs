//! Competence-area items: the planned work of each team on each feature.

pub mod cachecker;
pub mod caissue;
pub mod caitem;
pub mod pipeline;
pub mod timeline;
