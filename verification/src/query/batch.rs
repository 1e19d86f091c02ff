//! The search request: a filter expression, a page size and a field
//! projection, placed at one page offset.

use vstd::prelude::*;
use vstd::arithmetic::div_mod::lemma_fundamental_div_mod;
use vstd::arithmetic::mul::lemma_mul_inequality;
use vstd::arithmetic::mul::lemma_mul_is_distributive_add_other_way;
use vstd::string::StringExecFns;
use crate::text::decimal;
use crate::text::joined;
use crate::text::lemma_joined_step;
use crate::text::push_decimal;

verus! {

/// What a [`Query`] stands for in contracts.
pub struct QueryView {
    pub jql: Seq<char>,
    pub start_at: nat,
    pub max_results: nat,
    pub fields: Seq<Seq<char>>,
}

/// One page request of a search.  A query is never moved to another offset:
/// each page of a search has a query value of its own.
pub struct Query {
    jql: String,
    start_at: usize,
    max_results: usize,
    fields: Vec<String>,
}

/// Why a request could not be written.
#[derive(Debug)]
pub enum QueryError {
    /// A string of the query has no JSON literal.
    WrongQuery,
}

/// `serde_json::Error`.  Nothing is read from it.
#[verifier::external_type_specification]
#[verifier::external_body]
pub struct ExJsonError(serde_json::Error);

/// What `serde_json` makes of a string: its JSON literal, the text between
/// double quotes with the escapes that JSON asks for, or nothing if it refuses.
pub uninterp spec fn json_string(s: Seq<char>) -> Option<Seq<char>>;

/// Whether a string stands in JSON as it is: it holds no double quote, no
/// backslash and no character below the space.
pub open spec fn is_plain(s: Seq<char>) -> bool {
    forall|i: int| 0 <= i < s.len() ==> (#[trigger] s[i]) != '"' && s[i] != '\\' && s[i] >= ' '
}

/// `s` between double quotes.
pub open spec fn quoted(s: Seq<char>) -> Seq<char> {
    seq!['"'] + s + seq!['"']
}

/// `serde_json::to_string` on a string slice.  Whether it succeeds and what it
/// gives are functions of the characters alone: what [`json_string`] names.
/// Only the double quote, the backslash and the characters below the space
/// are escaped, so a string without them is written between double quotes as
/// it stands.
#[verifier::external_body]
fn json_literal(s: &str) -> (r: Result<String, serde_json::Error>)
    ensures
        match r {
            Ok(text) => json_string(s@) == Some(text@),
            Err(_) => json_string(s@) is None,
        },
        is_plain(s@) ==> r is Ok && r->Ok_0@ == quoted(s@),
{
    serde_json::to_string(s)
}

/// The number of pages that hold `total` items, `page_size` items to a page.
pub open spec fn page_count(total: nat, page_size: nat) -> nat
    recommends
        page_size > 0,
{
    if total % page_size == 0 {
        total / page_size
    } else {
        total / page_size + 1
    }
}

/// The number of pages behind the first one.
pub open spec fn remaining_pages(total: nat, page_size: nat) -> nat
    recommends
        page_size > 0,
{
    if page_count(total, page_size) >= 1 {
        (page_count(total, page_size) - 1) as nat
    } else {
        0
    }
}

/// The body of a search request, given the JSON literals of the filter and of
/// the field names.
pub open spec fn wire_text(
    jql_literal: Seq<char>,
    start_at: nat,
    max_results: nat,
    field_literals: Seq<Seq<char>>,
) -> Seq<char> {
    "{\"jql\":"@ + jql_literal + ",\"startAt\":"@ + decimal(start_at) + ",\"maxResults\":"@
        + decimal(max_results) + ",\"fields\":["@ + joined(field_literals, ","@) + "]}"@
}

/// The JSON literal of each item.
pub open spec fn json_strings(items: Seq<Seq<char>>) -> Seq<Seq<char>> {
    items.map_values(|s: Seq<char>| json_string(s)->0)
}

/// Writes the request body around literals that are already encoded.
pub fn wire_request(
    jql_literal: &str,
    start_at: usize,
    max_results: usize,
    field_literals: &Vec<String>,
) -> (body: String)
    ensures
        body@ == wire_text(
            jql_literal@,
            start_at as nat,
            max_results as nat,
            field_literals.deep_view(),
        ),
{
    let mut body = String::new();
    body.append("{\"jql\":");
    body.append(jql_literal);
    body.append(",\"startAt\":");
    push_decimal(&mut body, start_at as u64);
    body.append(",\"maxResults\":");
    push_decimal(&mut body, max_results as u64);
    body.append(",\"fields\":[");
    let ghost head = body@;
    let ghost literals = field_literals.deep_view();
    let mut i: usize = 0;
    proof {
        assert(literals.subrange(0, 0) =~= Seq::<Seq<char>>::empty());
        assert(body@ =~= head + joined(literals.subrange(0, 0), ","@));
    }
    while i < field_literals.len()
        invariant
            i <= field_literals.len(),
            literals == field_literals.deep_view(),
            literals.len() == field_literals.len(),
            body@ == head + joined(literals.subrange(0, i as int), ","@),
        decreases field_literals.len() - i,
    {
        proof {
            lemma_joined_step(literals, ","@, i as int);
            assert(literals[i as int] == field_literals[i as int]@);
        }
        if i > 0 {
            body.append(",");
        }
        body.append(field_literals[i].as_str());
        proof {
            assert(body@ =~= head + joined(literals.subrange(0, i + 1), ","@));
        }
        i = i + 1;
    }
    proof {
        assert(literals.subrange(0, literals.len() as int) =~= literals);
    }
    body.append("]}");
    proof {
        assert(body@ =~= wire_text(
            jql_literal@,
            start_at as nat,
            max_results as nat,
            field_literals.deep_view(),
        ));
    }
    body
}

fn clone_strings(items: &Vec<String>) -> (copy: Vec<String>)
    ensures
        copy@ == items@,
{
    let mut copy: Vec<String> = Vec::new();
    let mut i: usize = 0;
    while i < items.len()
        invariant
            i <= items.len(),
            copy@ == items@.subrange(0, i as int),
        decreases items.len() - i,
    {
        copy.push(items[i].clone());
        proof {
            assert(copy@ =~= items@.subrange(0, i + 1));
        }
        i = i + 1;
    }
    proof {
        assert(items@.subrange(0, items.len() as int) =~= items@);
    }
    copy
}

impl View for Query {
    type V = QueryView;

    closed spec fn view(&self) -> QueryView {
        QueryView {
            jql: self.jql@,
            start_at: self.start_at as nat,
            max_results: self.max_results as nat,
            fields: self.fields.deep_view(),
        }
    }
}

impl Query {
    /// A query can be sent only if its pages hold at least one item.
    pub open spec fn wf(&self) -> bool {
        self@.max_results > 0
    }

    /// The first page of a search: offset 0.
    pub fn new(query: String, max: usize, fields: Vec<String>) -> (q: Query)
        requires
            max > 0,
        ensures
            q.wf(),
            q@ == (QueryView {
                jql: query@,
                start_at: 0,
                max_results: max as nat,
                fields: fields.deep_view(),
            }),
    {
        Query { jql: query, start_at: 0, max_results: max, fields }
    }

    /// The offset of the first item of this page.
    pub fn start_at(&self) -> (offset: usize)
        ensures
            offset == self@.start_at,
    {
        self.start_at
    }

    /// The largest number of items the page may hold.
    pub fn max_results(&self) -> (size: usize)
        ensures
            size == self@.max_results,
    {
        self.max_results
    }

    /// The filter expression.
    pub fn jql(&self) -> (jql: &String)
        ensures
            jql@ == self@.jql,
    {
        &self.jql
    }

    /// The names of the fields asked for.
    pub fn fields(&self) -> (fields: &Vec<String>)
        ensures
            fields.deep_view() == self@.fields,
    {
        &self.fields
    }

    /// The same request at another offset.
    pub fn at_offset(&self, offset: usize) -> (q: Query)
        ensures
            q@ == (QueryView { start_at: offset as nat, ..self@ }),
    {
        Query {
            jql: self.jql.clone(),
            start_at: offset,
            max_results: self.max_results,
            fields: clone_strings(&self.fields),
        }
    }

    /// The request body: [`request_text`].  The strings are encoded by
    /// `serde_json`; the body is written if it encodes the filter and every
    /// field name, and `WrongQuery` is returned if it refuses one of them.
    /// Where the filter and the field names need no escapes, the body is
    /// written, with each of them between double quotes.
    pub fn to_json(&self) -> (r: Result<String, QueryError>)
        ensures
            match r {
                Ok(body) => request_text(self@) == Some(body@),
                Err(error) => request_text(self@) is None && error is WrongQuery,
            },
            is_plain(self@.jql) && all_plain(self@.fields) ==> r is Ok && r->Ok_0@ == wire_text(
                quoted(self@.jql),
                self@.start_at,
                self@.max_results,
                self@.fields.map_values(|f: Seq<char>| quoted(f)),
            ),
    {
        let jql_literal = match json_literal(self.jql.as_str()) {
            Ok(literal) => literal,
            Err(_) => {
                return Err(QueryError::WrongQuery);
            },
        };
        let mut literals: Vec<String> = Vec::new();
        let mut i: usize = 0;
        while i < self.fields.len()
            invariant
                i <= self.fields.len(),
                literals.len() == i,
                forall|k: int|
                    0 <= k < i ==> json_string(self.fields[k]@) == Some(
                        (#[trigger] literals[k])@,
                    ),
                forall|k: int|
                    0 <= k < i && is_plain(self.fields[k]@) ==> (#[trigger] literals[k])@
                        == quoted(self.fields[k]@),
            decreases self.fields.len() - i,
        {
            match json_literal(self.fields[i].as_str()) {
                Ok(literal) => {
                    literals.push(literal);
                },
                Err(_) => {
                    proof {
                        assert(self@.fields[i as int] == self.fields[i as int]@);
                        assert(!all_written(self@.fields));
                    }
                    return Err(QueryError::WrongQuery);
                },
            }
            i = i + 1;
        }
        proof {
            assert(all_written(self@.fields)) by {
                assert forall|k: int| 0 <= k < self@.fields.len() implies json_string(
                    #[trigger] self@.fields[k],
                ) is Some by {
                    assert(self@.fields[k] == self.fields[k]@);
                    assert(json_string(self.fields[k]@) == Some(literals[k]@));
                }
            }
            if is_plain(self@.jql) && all_plain(self@.fields) {
                assert(json_strings(self@.fields) =~= self@.fields.map_values(
                    |f: Seq<char>| quoted(f),
                )) by {
                    assert forall|k: int| 0 <= k < self@.fields.len() implies json_strings(
                        self@.fields,
                    )[k] == quoted(self@.fields[k]) by {
                        assert(self@.fields[k] == self.fields[k]@);
                        assert(literals[k]@ == quoted(self.fields[k]@));
                        assert(json_string(self.fields[k]@) == Some(literals[k]@));
                    }
                }
            }
            assert(literals.deep_view() =~= json_strings(self@.fields)) by {
                assert(literals.deep_view().len() == literals.len());
                assert(self.fields.deep_view().len() == self.fields.len());
                assert forall|k: int| 0 <= k < literals.len() implies literals.deep_view()[k]
                    == json_strings(self@.fields)[k] by {
                    assert(literals.deep_view()[k] == literals[k]@);
                    assert(self.fields.deep_view()[k] == self.fields[k]@);
                    assert(json_string(self.fields[k]@) == Some(literals[k]@));
                }
            }
        }
        Ok(wire_request(jql_literal.as_str(), self.start_at, self.max_results, &literals))
    }

    /// The queries for the pages behind the first one, in order of offset,
    /// when the search matches `total` items: one at each multiple of the page
    /// size that lies below `total`, and none where the first page holds
    /// everything.
    pub fn create_remaining(&self, total: usize) -> (rest: Vec<Query>)
        requires
            self.wf(),
        ensures
            rest.len() == remaining_pages(total as nat, self@.max_results),
            total <= self@.max_results ==> rest.len() == 0,
            forall|i: int|
                0 <= i < rest.len() ==> (#[trigger] rest[i])@ == (QueryView {
                    start_at: ((i + 1) * self@.max_results) as nat,
                    ..self@
                }),
            forall|i: int| 0 <= i < rest.len() ==> (#[trigger] rest[i])@.start_at < total,
            total <= (rest.len() + 1) * self@.max_results,
    {
        let size = self.max_results;
        let full = total / size;
        let rounds = if total % size > 0 {
            full
        } else if full > 0 {
            full - 1
        } else {
            0
        };
        proof {
            lemma_fundamental_div_mod(total as int, size as int);
            lemma_mul_is_distributive_add_other_way(size as int, rounds as int, 1);
            assert(rounds * size < total || (total == 0 && rounds == 0)) by (nonlinear_arith)
                requires
                    total == size * full + total % size,
                    size > 0,
                    0 <= total % size < size,
                    rounds == if total % size > 0 {
                        full
                    } else if full > 0 {
                        (full - 1) as usize
                    } else {
                        0
                    },
            ;
            assert(total <= (rounds + 1) * size) by (nonlinear_arith)
                requires
                    total == size * full + total % size,
                    size > 0,
                    0 <= total % size < size,
                    rounds == if total % size > 0 {
                        full
                    } else if full > 0 {
                        (full - 1) as usize
                    } else {
                        0
                    },
            ;
            assert(total <= size ==> rounds == 0) by (nonlinear_arith)
                requires
                    rounds * size < total || (total == 0 && rounds == 0),
                    size > 0,
            ;
        }
        let mut rest: Vec<Query> = Vec::new();
        let mut it: usize = 0;
        while it < rounds
            invariant
                it <= rounds,
                size == self@.max_results,
                size > 0,
                rounds * size < total || (total == 0 && rounds == 0),
                rest.len() == it,
                forall|i: int|
                    0 <= i < it ==> (#[trigger] rest[i])@ == (QueryView {
                        start_at: ((i + 1) * size) as nat,
                        ..self@
                    }),
                forall|i: int| 0 <= i < it ==> (#[trigger] rest[i])@.start_at < total,
            decreases rounds - it,
        {
            proof {
                lemma_mul_inequality(it + 1, rounds as int, size as int);
            }
            let offset = (it + 1) * size;
            rest.push(self.at_offset(offset));
            it = it + 1;
        }
        rest
    }
}

/// Whether every item stands in JSON as it is.
pub open spec fn all_plain(items: Seq<Seq<char>>) -> bool {
    forall|i: int| 0 <= i < items.len() ==> is_plain(#[trigger] items[i])
}

/// Whether `serde_json` encodes every item.
pub open spec fn all_written(items: Seq<Seq<char>>) -> bool {
    forall|i: int| 0 <= i < items.len() ==> json_string(#[trigger] items[i]) is Some
}

/// The body of the request for `query`: the filter, the offset, the page size
/// and the field names, in this order, as one JSON object.  There is none
/// where `serde_json` refuses the filter or one of the field names.
pub open spec fn request_text(query: QueryView) -> Option<Seq<char>> {
    if json_string(query.jql) is Some && all_written(query.fields) {
        Some(
            wire_text(
                json_string(query.jql)->0,
                query.start_at,
                query.max_results,
                json_strings(query.fields),
            ),
        )
    } else {
        None
    }
}

} // verus!
