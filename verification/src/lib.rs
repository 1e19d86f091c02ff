//! Paginated retrieval of issue-tracker search results, and the reports
//! drawn from them.
//!
//! A search is answered by the server one page at a time.  [`query`] holds the
//! request template and the merged result, [`checkers::search`] the engine
//! that decides which pages to ask for and which to ask for again, and the
//! rest of [`checkers`] the records that the reports are made of.

pub mod checkers;
pub mod fetch;
pub mod query;
pub mod text;

use vstd::prelude::*;
use vstd::string::StringExecFns;
use crate::query::batch::Query;
use crate::query::batch::QueryView;
use crate::query::batch::remaining_pages;
use crate::query::result::QueryResult;

verus! {

/// The filter of the search for effort estimations.
pub const FS2EE_SEARCH: &'static str =
    "project=FPB AND issuetype in (\"Effort Estimation\", \"Entity Technical Analysis\") AND \"Competence Area\" = \"MANO MZ\"";

/// The first page of the search for effort estimations: a hundred issues,
/// each with its summary, its title and its estimate.
pub fn create_initial_search() -> (search: Query)
    ensures
        search.wf(),
        search@ == (QueryView {
            jql: FS2EE_SEARCH@,
            start_at: 0,
            max_results: 100,
            fields: seq!["summary"@, "customfield_38703"@, "customfield_38692"@],
        }),
{
    let mut fields: Vec<String> = Vec::new();
    fields.push(String::from_str("summary"));
    fields.push(String::from_str("customfield_38703"));
    fields.push(String::from_str("customfield_38692"));
    proof {
        assert(fields.deep_view() =~= seq!["summary"@, "customfield_38703"@, "customfield_38692"@]);
    }
    Query::new(String::from_str(FS2EE_SEARCH), 100, fields)
}

/// The queries for the pages behind the first, once the first page has
/// come; none where it has not.
pub fn get_remaining_queries<T>(result: &Option<QueryResult<T>>, search: &Query) -> (rest: Vec<
    Query,
>)
    requires
        search.wf(),
    ensures
        match *result {
            Some(first) => {
                &&& rest.len() == remaining_pages(first.total as nat, search@.max_results)
                &&& forall|i: int|
                    0 <= i < rest.len() ==> (#[trigger] rest[i])@ == (QueryView {
                        start_at: ((i + 1) * search@.max_results) as nat,
                        ..search@
                    })
            },
            None => rest.len() == 0,
        },
{
    match result {
        Some(qry_result) => search.create_remaining(qry_result.total),
        None => Vec::new(),
    }
}

} // verus!
