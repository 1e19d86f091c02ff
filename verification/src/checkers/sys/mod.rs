//! Customer features: what the system is to offer.

pub mod syschecker;
pub mod sysissue;
pub mod sysitem;
