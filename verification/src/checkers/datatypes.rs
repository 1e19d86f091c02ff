//! What a kind of record has to offer so that it can be searched for and
//! kept.

use vstd::prelude::*;

verus! {

/// A record as the tracker returns it.
pub trait ParsedData {
    /// The names of the fields to ask the tracker for.
    fn get_field_list() -> Vec<String>;
}

/// A record as the reports use it.
pub trait StoredData: Sized {
    type Parsed;

    /// Takes the record out of what the tracker returned.
    fn parse_from(parsed: &Self::Parsed) -> Self;
}

} // verus!
