//! The envelope the tracker puts around every record it returns.

use vstd::prelude::*;

verus! {

/// One record of a result page.  `T` is the shape of its fields, which
/// differs from one kind of search to another.
#[derive(Debug, Clone)]
pub struct Issue<T> {
    pub expand: String,
    pub id: String,
    /// The link under which the record can be fetched again.
    pub self_link: String,
    /// The key the tracker shows for the record.
    pub key: String,
    pub fields: T,
}

} // verus!
