//! The search engine: which pages to ask for, which to ask for again, and
//! when to stop.
//!
//! A search runs in rounds.  In each round every pending page is requested;
//! only when all of them have reported does the next round start, with the
//! pages that did not succeed.  The first round asks for the page at offset 0
//! alone, because only its answer tells how many pages there are.
//!
//! The engine itself performs no request.  It is a state machine: the caller
//! reads [`Searcher::pending`], performs the requests, reports every outcome
//! through [`Searcher::collect`] and closes the round with
//! [`Searcher::end_round`].  [`Searcher::perform`] is that loop, around a
//! function that performs one round.

use vstd::prelude::*;
use crate::query::batch::Query;
use crate::query::batch::QueryView;
use crate::query::batch::remaining_pages;
use crate::query::result::PageHead;
use crate::query::result::QueryResult;
use crate::query::result::lemma_merge_order_irrelevant;
use crate::query::result::merged;
use crate::query::result::merged_all;

verus! {

/// Why a page could not be had.  The three causes are kept apart: after a bad
/// status or an unreadable body the server did answer, after a transport
/// failure the request never completed.
#[derive(Clone, Copy, Debug, PartialEq, Eq, Structural)]
pub enum Failure {
    /// The request never completed.
    Transport,
    /// The server answered with a status other than success.
    Status,
    /// The server answered with success, and the body is no result page.
    Parse,
}

/// What the transport reports for one request.
pub enum Reply {
    Arrived { body: String, success: bool },
    Lost,
}

/// How one page request ended.
pub enum Outcome<T> {
    Success(QueryResult<T>),
    /// The page may be asked for again.
    SoftFailure { offset: usize, cause: Failure },
    /// The page cannot be had, and the search cannot go on without it.
    HardFailure { offset: usize, cause: Failure },
}

/// Why a search ended without a result.
#[derive(Clone, Copy, Debug, PartialEq, Eq, Structural)]
pub enum SearchError {
    /// The page at this offset failed for good.  For offset 0 that is any
    /// failure at all: without the first page the size of the result is
    /// unknown.
    Fatal(usize),
    /// Some page was still failing when the last permitted round ended.
    RetriesExhausted,
}

/// How far a search has come.
#[derive(Clone, Copy, Debug, PartialEq, Eq, Structural)]
pub enum Phase {
    /// Waiting for the page at offset 0.
    Discover,
    /// The total is known; the pages behind the first are being fetched.
    Remaining,
    /// Every page has been merged.
    Done,
    Failed(SearchError),
}

/// What the caller does next.
#[derive(Clone, Copy, Debug, PartialEq, Eq, Structural)]
pub enum Step {
    /// Request every pending page, report the outcomes, end the round.
    Dispatch,
    /// The result is complete.
    Finished,
    Failed(SearchError),
}

/// The state of a search.
pub struct SearchView<T> {
    pub template: QueryView,
    pub phase: Phase,
    /// The offsets requested in the current round, in the order of dispatch.
    pub pending: Seq<nat>,
    /// Those of them that have been merged in the current round.
    pub finished: Seq<nat>,
    /// Every offset merged since the search began, in the order of arrival.
    pub merged: Seq<nat>,
    /// The items of each merged page; `pages[i]` came for `merged[i]`.
    pub pages: Seq<Seq<T>>,
    /// What the merged result says beside its items: what the page merged
    /// last said, and before any page is merged an offset of 0 and the page
    /// size for the total.
    pub held: PageHead,
    /// The size of the result set, as the first page gave it.
    pub total: nat,
    /// The number of rounds that may still be started.
    pub rounds_left: nat,
}

/// The offsets of all pages of a result set of `total` items: 0, and every
/// further multiple of the page size below `total`.
pub open spec fn page_offsets(total: nat, page_size: nat) -> Seq<nat> {
    Seq::new(remaining_pages(total, page_size) + 1, |k: int| (k * page_size) as nat)
}

/// The offsets of the pages behind the first.
pub open spec fn remaining_offsets(total: nat, page_size: nat) -> Seq<nat> {
    Seq::new(remaining_pages(total, page_size), |k: int| ((k + 1) * page_size) as nat)
}

/// The pages of a result set cover it without overlap: every item lies in
/// exactly one of them, the one that begins at the multiple of the page size
/// at or below its index.
pub proof fn lemma_pages_cover(total: nat, page_size: nat, index: nat)
    requires
        page_size > 0,
        index < total,
    ensures
        index / page_size < page_offsets(total, page_size).len(),
        page_offsets(total, page_size)[(index / page_size) as int] <= index < page_offsets(
            total,
            page_size,
        )[(index / page_size) as int] + page_size,
        forall|k: int|
            0 <= k < page_offsets(total, page_size).len() && #[trigger] page_offsets(
                total,
                page_size,
            )[k] <= index < page_offsets(total, page_size)[k] + page_size ==> k == index / page_size,
{
    let q = index / page_size;
    vstd::arithmetic::div_mod::lemma_fundamental_div_mod(index as int, page_size as int);
    vstd::arithmetic::div_mod::lemma_fundamental_div_mod(total as int, page_size as int);
    assert(q * page_size <= index < q * page_size + page_size) by (nonlinear_arith)
        requires
            index == page_size * q + index % page_size,
            0 <= index % page_size < page_size,
    ;
    assert(q <= remaining_pages(total, page_size)) by (nonlinear_arith)
        requires
            q * page_size <= index,
            index < total,
            page_size > 0,
            total == page_size * (total / page_size) + total % page_size,
            0 <= total % page_size < page_size,
            remaining_pages(total, page_size) == if total % page_size == 0 {
                if total / page_size >= 1 {
                    total / page_size - 1
                } else {
                    0int
                }
            } else {
                (total / page_size) as int
            },
    ;
    assert forall|k: int|
        0 <= k < page_offsets(total, page_size).len() && #[trigger] page_offsets(
            total,
            page_size,
        )[k] <= index < page_offsets(total, page_size)[k] + page_size implies k == q by {
        assert(k == q) by (nonlinear_arith)
            requires
                k * page_size <= index < k * page_size + page_size,
                q * page_size <= index < q * page_size + page_size,
                page_size > 0,
        ;
    }
}

/// The state a search starts in: the first page pending, nothing merged.
pub open spec fn started<T>(template: QueryView, max_rounds: nat) -> SearchView<T> {
    SearchView {
        template,
        phase: Phase::Discover,
        pending: seq![0nat],
        finished: Seq::empty(),
        merged: Seq::empty(),
        pages: Seq::empty(),
        held: PageHead {
            expand: Seq::empty(),
            start_at: 0,
            max_results: template.max_results,
            total: template.max_results,
        },
        total: 0,
        rounds_left: max_rounds,
    }
}

/// Whether a page that claims to start at `offset` is merged: the search is
/// running, the offset was asked for in this round, and no page has been
/// merged for it yet.
pub open spec fn accepts<T>(s: SearchView<T>, offset: nat) -> bool {
    &&& s.phase is Discover || s.phase is Remaining
    &&& s.pending.contains(offset)
    &&& !s.finished.contains(offset)
}

/// The search, stopped for good.
pub open spec fn failed<T>(s: SearchView<T>, error: SearchError) -> SearchView<T> {
    SearchView { phase: Phase::Failed(error), pending: Seq::empty(), finished: Seq::empty(), ..s }
}

/// The state after one outcome has been reported.
///
/// A page is merged at most once for an offset and only for an offset that is
/// pending; any other page is dropped.  A soft failure changes nothing: the
/// offset stays pending.  A hard failure ends the search.
pub open spec fn collected<T>(s: SearchView<T>, outcome: Outcome<T>) -> SearchView<T> {
    match outcome {
        Outcome::Success(page) => {
            if accepts(s, page.start_at as nat) {
                SearchView {
                    finished: s.finished.push(page.start_at as nat),
                    merged: s.merged.push(page.start_at as nat),
                    pages: s.pages.push(page.issues@),
                    held: page.head(),
                    total: if s.phase is Discover {
                        page.total as nat
                    } else {
                        s.total
                    },
                    ..s
                }
            } else {
                s
            }
        },
        Outcome::SoftFailure { .. } => s,
        Outcome::HardFailure { offset, .. } => {
            if s.phase is Discover || s.phase is Remaining {
                failed(s, SearchError::Fatal(offset))
            } else {
                s
            }
        },
    }
}

/// The pending offsets that are left once the finished ones are taken out.
pub open spec fn pruned(pending: Seq<nat>, finished: Seq<nat>) -> Seq<nat> {
    pending.filter(|o: nat| !finished.contains(o))
}

/// The state in which `jobs` are to be requested next: done if there are
/// none, failed if no round may be started any more.
pub open spec fn entered<T>(s: SearchView<T>, jobs: Seq<nat>) -> SearchView<T> {
    if jobs.len() == 0 {
        SearchView { phase: Phase::Done, pending: jobs, finished: Seq::empty(), ..s }
    } else if s.rounds_left == 0 {
        failed(s, SearchError::RetriesExhausted)
    } else {
        SearchView {
            phase: Phase::Remaining,
            pending: jobs,
            finished: Seq::empty(),
            rounds_left: (s.rounds_left - 1) as nat,
            ..s
        }
    }
}

/// The state after a round has been closed.
///
/// If the first page did not come, the search has failed.  If it came, the
/// pages behind it are pending.  In later rounds the pages that did not
/// succeed stay pending.
pub open spec fn round_ended<T>(s: SearchView<T>) -> SearchView<T> {
    match s.phase {
        Phase::Discover => {
            if pruned(s.pending, s.finished).len() == 0 {
                entered(s, remaining_offsets(s.total, s.template.max_results))
            } else {
                failed(s, SearchError::Fatal(0))
            }
        },
        Phase::Remaining => entered(s, pruned(s.pending, s.finished)),
        _ => s,
    }
}

/// The state after the outcomes of a round have been reported, in the order
/// they arrived.
pub open spec fn collected_all<T>(s: SearchView<T>, outcomes: Seq<Outcome<T>>) -> SearchView<T>
    decreases outcomes.len(),
{
    if outcomes.len() == 0 {
        s
    } else {
        collected(collected_all(s, outcomes.drop_last()), outcomes.last())
    }
}

/// The state after rounds with these outcomes, each closed when its outcomes
/// have been reported.
pub open spec fn ran<T>(s: SearchView<T>, rounds: Seq<Seq<Outcome<T>>>) -> SearchView<T>
    decreases rounds.len(),
{
    if rounds.len() == 0 {
        s
    } else {
        round_ended(collected_all(ran(s, rounds.drop_last()), rounds.last()))
    }
}

/// Whether `jobs` are the requests of the state `s`: the template at each
/// pending offset, in the order of dispatch.
pub open spec fn requests_of<T>(s: SearchView<T>, jobs: Seq<Query>) -> bool {
    &&& jobs.len() == s.pending.len()
    &&& forall|i: int|
        0 <= i < jobs.len() ==> (#[trigger] jobs[i])@ == (QueryView {
            start_at: s.pending[i],
            ..s.template
        })
}

/// Whether `fetch_round`, asked for the requests of the state `s`, handed
/// back `outcomes`.
pub open spec fn answered<T, F: Fn(&Vec<Query>) -> Vec<Outcome<T>>>(
    fetch_round: &F,
    s: SearchView<T>,
    outcomes: Seq<Outcome<T>>,
) -> bool {
    exists|jobs: Vec<Query>, handed: Vec<Outcome<T>>|
        requests_of(s, jobs@) && handed@ == outcomes && call_ensures(
            *fetch_round,
            (&jobs,),
            handed,
        )
}

/// Whether `rounds` are the rounds of a run from the state `s`: each began
/// while the search was running, and its outcomes are what `fetch_round`
/// handed back for the requests of that moment.
pub open spec fn is_run<T, F: Fn(&Vec<Query>) -> Vec<Outcome<T>>>(
    fetch_round: &F,
    s: SearchView<T>,
    rounds: Seq<Seq<Outcome<T>>>,
) -> bool
    decreases rounds.len(),
{
    if rounds.len() == 0 {
        true
    } else {
        let before = ran(s, rounds.drop_last());
        &&& is_run(fetch_round, s, rounds.drop_last())
        &&& before.phase is Discover || before.phase is Remaining
        &&& answered(fetch_round, before, rounds.last())
    }
}

/// What the caller is told after a round.
pub open spec fn step_of(phase: Phase) -> Step {
    match phase {
        Phase::Discover => Step::Dispatch,
        Phase::Remaining => Step::Dispatch,
        Phase::Done => Step::Finished,
        Phase::Failed(error) => Step::Failed(error),
    }
}

/// The number of rounds a search can still go through.
pub open spec fn rounds_ahead<T>(s: SearchView<T>) -> nat {
    match s.phase {
        Phase::Discover => s.rounds_left + 2,
        Phase::Remaining => s.rounds_left + 1,
        _ => 0,
    }
}

/// What holds of every state a search can be in.
pub open spec fn inv<T>(s: SearchView<T>) -> bool {
    &&& s.template.max_results > 0
    &&& s.template.start_at == 0
    &&& s.pending.no_duplicates()
    &&& s.finished.no_duplicates()
    &&& s.merged.no_duplicates()
    &&& s.pages.len() == s.merged.len()
    &&& forall|o: nat| #[trigger]
        s.finished.contains(o) ==> s.pending.contains(o) && s.merged.contains(o)
    &&& forall|o: nat|
        s.merged.contains(o) && #[trigger] s.pending.contains(o) ==> s.finished.contains(o)
    &&& s.phase is Discover ==> s.pending == seq![0nat] && forall|o: nat| #[trigger]
        s.merged.contains(o) ==> o == 0
    &&& s.phase is Remaining ==> s.pending.len() > 0
    &&& s.phase is Remaining || s.phase is Done ==> forall|o: nat| #[trigger]
        page_offsets(s.total, s.template.max_results).contains(o) <==> s.merged.contains(o)
            || s.pending.contains(o)
    &&& s.phase is Done || s.phase is Failed ==> s.pending.len() == 0 && s.finished.len() == 0
}

proof fn lemma_push_contains(s: Seq<nat>, o: nat)
    ensures
        forall|x: nat| #[trigger] s.push(o).contains(x) <==> s.contains(x) || x == o,
        s.no_duplicates() && !s.contains(o) ==> s.push(o).no_duplicates(),
{
    assert forall|x: nat| #[trigger] s.push(o).contains(x) <==> s.contains(x) || x == o by {
        if s.contains(x) {
            let i = choose|i: int| 0 <= i < s.len() && s[i] == x;
            assert(s.push(o)[i] == x);
        }
        if x == o {
            assert(s.push(o)[s.len() as int] == x);
        }
        if s.push(o).contains(x) {
            let i = choose|i: int| 0 <= i < s.push(o).len() && s.push(o)[i] == x;
            if i < s.len() {
                assert(s[i] == x);
            }
        }
    }
    if s.no_duplicates() && !s.contains(o) {
        assert forall|i: int, j: int|
            0 <= i < s.push(o).len() && 0 <= j < s.push(o).len() && i != j implies s.push(o)[i]
            != s.push(o)[j] by {
            if i < s.len() {
                assert(s[i] == s.push(o)[i]);
            }
            if j < s.len() {
                assert(s[j] == s.push(o)[j]);
            }
        }
    }
}

/// Pruning keeps exactly the pending offsets that are not finished, each
/// once.
pub proof fn lemma_pruned(pending: Seq<nat>, finished: Seq<nat>)
    ensures
        forall|o: nat| #[trigger]
            pruned(pending, finished).contains(o) <==> pending.contains(o) && !finished.contains(
                o,
            ),
        pending.no_duplicates() ==> pruned(pending, finished).no_duplicates(),
        pruned(pending, finished).len() <= pending.len(),
    decreases pending.len(),
{
    let keep = |o: nat| !finished.contains(o);
    reveal(Seq::filter);
    if pending.len() > 0 {
        let front = pending.drop_last();
        let last = pending.last();
        lemma_pruned(front, finished);
        assert(front.push(last) =~= pending);
        lemma_push_contains(front, last);
        lemma_push_contains(front.filter(keep), last);
        if pending.no_duplicates() {
            assert(front.no_duplicates()) by {
                assert forall|i: int, j: int|
                    0 <= i < front.len() && 0 <= j < front.len() && i != j implies front[i]
                    != front[j] by {
                    assert(front[i] == pending[i] && front[j] == pending[j]);
                }
            }
            assert(!front.contains(last)) by {
                if front.contains(last) {
                    let i = choose|i: int| 0 <= i < front.len() && front[i] == last;
                    assert(pending[i] == pending[pending.len() - 1]);
                }
            }
        }
    } else {
        assert(pending.filter(keep) =~= pending);
    }
}

proof fn lemma_offsets_distinct(total: nat, page_size: nat)
    requires
        page_size > 0,
    ensures
        remaining_offsets(total, page_size).no_duplicates(),
        forall|i: int|
            0 <= i < remaining_offsets(total, page_size).len() ==> #[trigger] remaining_offsets(
                total,
                page_size,
            )[i] > 0,
        forall|o: nat| #[trigger]
            page_offsets(total, page_size).contains(o) <==> o == 0 || remaining_offsets(
                total,
                page_size,
            ).contains(o),
{
    let rest = remaining_offsets(total, page_size);
    let all = page_offsets(total, page_size);
    assert forall|i: int, j: int| 0 <= i < rest.len() && 0 <= j < rest.len() && i != j implies rest[i]
        != rest[j] by {
        assert((i + 1) * page_size != (j + 1) * page_size) by (nonlinear_arith)
            requires
                i != j,
                page_size > 0,
        ;
    }
    assert forall|i: int| 0 <= i < rest.len() implies #[trigger] rest[i] > 0 by {
        assert((i + 1) * page_size > 0) by (nonlinear_arith)
            requires
                i >= 0,
                page_size > 0,
        ;
    }
    assert forall|o: nat| #[trigger] all.contains(o) <==> o == 0 || rest.contains(o) by {
        if all.contains(o) {
            let k = choose|k: int| 0 <= k < all.len() && all[k] == o;
            if k > 0 {
                assert(rest[k - 1] == o);
            } else {
                assert(0 * page_size == 0);
            }
        }
        if o == 0 {
            assert(0 * page_size == 0);
            assert(all[0] == o);
        }
        if rest.contains(o) {
            let i = choose|i: int| 0 <= i < rest.len() && rest[i] == o;
            assert(all[i + 1] == o);
        }
    }
}

/// A search starts in a state that satisfies the invariant.
pub proof fn lemma_started_inv<T>(template: QueryView, max_rounds: nat)
    requires
        template.max_results > 0,
        template.start_at == 0,
    ensures
        inv(started::<T>(template, max_rounds)),
{
    let s = started::<T>(template, max_rounds);
    assert(s.pending[0] == 0);
}

/// Reporting an outcome keeps the invariant, whatever the outcome is.
pub proof fn lemma_collected_inv<T>(s: SearchView<T>, outcome: Outcome<T>)
    requires
        inv(s),
    ensures
        inv(collected(s, outcome)),
{
    let t = collected(s, outcome);
    match outcome {
        Outcome::Success(page) => {
            let o = page.start_at as nat;
            if accepts(s, o) {
                lemma_push_contains(s.finished, o);
                lemma_push_contains(s.merged, o);
                assert(!s.merged.contains(o));
                if s.phase is Discover {
                    assert(s.pending[0] == 0);
                    let i = choose|i: int| 0 <= i < s.pending.len() && s.pending[i] == o;
                    assert(o == 0);
                }
            }
        },
        Outcome::SoftFailure { .. } => {},
        Outcome::HardFailure { .. } => {},
    }
}

/// Closing a round keeps the invariant.
pub proof fn lemma_round_ended_inv<T>(s: SearchView<T>)
    requires
        inv(s),
    ensures
        inv(round_ended(s)),
{
    let left = pruned(s.pending, s.finished);
    lemma_pruned(s.pending, s.finished);
    match s.phase {
        Phase::Discover => {
            if left.len() == 0 {
                let size = s.template.max_results;
                let rest = remaining_offsets(s.total, size);
                lemma_offsets_distinct(s.total, size);
                assert(s.pending[0] == 0);
                assert(s.pending.contains(0));
                assert(s.finished.contains(0)) by {
                    if !s.finished.contains(0) {
                        assert(left.contains(0));
                    }
                }
                assert forall|o: nat| s.merged.contains(o) && rest.contains(o) implies false by {
                    let i = choose|i: int| 0 <= i < rest.len() && rest[i] == o;
                    assert(rest[i] > 0);
                }
            }
        },
        Phase::Remaining => {
            if left.len() == 0 {
                assert forall|o: nat| s.pending.contains(o) implies s.finished.contains(o) by {
                    if !s.finished.contains(o) {
                        assert(left.contains(o));
                    }
                }
            }
        },
        _ => {},
    }
}

/// No reported outcome prolongs a search.
pub proof fn lemma_collect_keeps_rounds<T>(s: SearchView<T>, outcome: Outcome<T>)
    ensures
        rounds_ahead(collected(s, outcome)) <= rounds_ahead(s),
{
}

/// Every closed round brings a running search nearer to its end: a search
/// goes through at most `rounds_left + 2` rounds, however often its pages
/// fail, and it has ended exactly when none is ahead.
pub proof fn lemma_rounds_decrease<T>(s: SearchView<T>)
    ensures
        s.phase is Discover || s.phase is Remaining ==> rounds_ahead(round_ended(s))
            < rounds_ahead(s),
        rounds_ahead(s) == 0 <==> s.phase is Done || s.phase is Failed,
{
}

/// A page that is still failing when no round is left ends the search with
/// an error.
pub proof fn lemma_stuck_page_exhausts<T>(s: SearchView<T>, offset: nat)
    requires
        s.phase is Remaining,
        s.pending.contains(offset),
        !s.finished.contains(offset),
        s.rounds_left == 0,
    ensures
        round_ended(s) == failed(s, SearchError::RetriesExhausted),
{
    lemma_pruned(s.pending, s.finished);
    assert(pruned(s.pending, s.finished).contains(offset));
}

/// If the first page does not come, for whatever reason, the search fails
/// and no page is pending: nothing is requested for any other offset.
pub proof fn lemma_first_page_failure_is_fatal<T>(s: SearchView<T>)
    requires
        inv(s),
        s.phase is Discover,
        !s.finished.contains(0),
    ensures
        round_ended(s).phase == Phase::Failed(SearchError::Fatal(0)),
        round_ended(s).pending.len() == 0,
        round_ended(s).merged == s.merged,
{
    lemma_pruned(s.pending, s.finished);
    assert(s.pending[0] == 0);
    assert(pruned(s.pending, s.finished).contains(0));
}

/// While the first page is awaited, it is the only page requested.
pub proof fn lemma_discover_requests_first_page_only<T>(s: SearchView<T>)
    requires
        inv(s),
        s.phase is Discover,
    ensures
        s.pending == seq![0nat],
{
}

/// A search that has ended stays as it is: no outcome and no closed round
/// makes a page pending again.
pub proof fn lemma_ended_is_final<T>(s: SearchView<T>, outcome: Outcome<T>)
    requires
        inv(s),
        s.phase is Done || s.phase is Failed,
    ensures
        collected(s, outcome) == s,
        round_ended(s) == s,
        s.pending.len() == 0,
{
    match outcome {
        Outcome::Success(page) => {
            if s.pending.contains(page.start_at as nat) {
                let i = choose|i: int|
                    0 <= i < s.pending.len() && s.pending[i] == page.start_at as nat;
            }
        },
        _ => {},
    }
}

/// When a search is done, every page of the result set has been merged, and
/// merged once: the merged offsets are the page offsets, without repetition,
/// and there is one merged page for each.
pub proof fn lemma_done_is_complete<T>(s: SearchView<T>)
    requires
        inv(s),
        s.phase is Done,
    ensures
        s.merged.no_duplicates(),
        s.merged.len() == s.pages.len(),
        forall|o: nat| #[trigger]
            s.merged.contains(o) <==> page_offsets(s.total, s.template.max_results).contains(o),
{
    assert forall|o: nat| #[trigger]
        s.merged.contains(o) <==> page_offsets(s.total, s.template.max_results).contains(o) by {
        if s.pending.contains(o) {
            let i = choose|i: int| 0 <= i < s.pending.len() && s.pending[i] == o;
        }
    }
}

/// Whether two outcomes may arrive in either order: neither is a hard
/// failure, and they are not two pages for one offset.
pub open spec fn independent<T>(a: Outcome<T>, b: Outcome<T>) -> bool {
    match (a, b) {
        (Outcome::HardFailure { .. }, _) => false,
        (_, Outcome::HardFailure { .. }) => false,
        (Outcome::Success(first), Outcome::Success(second)) => first.start_at != second.start_at,
        _ => true,
    }
}

/// Whether two states differ at most in the order in which pages arrived:
/// they are in the same phase with the same pages pending, and have finished
/// and merged the same offsets and hold the same items, each as many times.
pub open spec fn same_but_for_order<T>(x: SearchView<T>, y: SearchView<T>) -> bool {
    &&& x.template == y.template
    &&& x.phase == y.phase
    &&& x.pending == y.pending
    &&& x.total == y.total
    &&& x.rounds_left == y.rounds_left
    &&& x.finished.to_multiset() == y.finished.to_multiset()
    &&& x.merged.to_multiset() == y.merged.to_multiset()
    &&& merged_all(Seq::empty(), x.pages).to_multiset() == merged_all(
        Seq::empty(),
        y.pages,
    ).to_multiset()
}

/// The order in which the outcomes of a round arrive does not matter: two
/// outcomes that are independent of each other lead to the same state, but
/// for the order of what was merged, whichever is reported first.
pub proof fn lemma_arrival_order_irrelevant<T>(s: SearchView<T>, a: Outcome<T>, b: Outcome<T>)
    requires
        inv(s),
        independent(a, b),
    ensures
        same_but_for_order(collected(collected(s, a), b), collected(collected(s, b), a)),
{
    let x = collected(collected(s, a), b);
    let y = collected(collected(s, b), a);
    match (a, b) {
        (Outcome::Success(first), Outcome::Success(second)) => {
            let oa = first.start_at as nat;
            let ob = second.start_at as nat;
            lemma_push_contains(s.finished, oa);
            lemma_push_contains(s.finished, ob);
            if accepts(s, oa) && accepts(s, ob) {
                if s.phase is Discover {
                    assert(s.pending[0] == 0);
                    let i = choose|i: int| 0 <= i < s.pending.len() && s.pending[i] == oa;
                    let j = choose|j: int| 0 <= j < s.pending.len() && s.pending[j] == ob;
                    assert(oa == ob);
                }
                vstd::seq_lib::to_multiset_build(s.finished, oa);
                vstd::seq_lib::to_multiset_build(s.finished, ob);
                vstd::seq_lib::to_multiset_build(s.finished.push(oa), ob);
                vstd::seq_lib::to_multiset_build(s.finished.push(ob), oa);
                vstd::seq_lib::to_multiset_build(s.merged, oa);
                vstd::seq_lib::to_multiset_build(s.merged, ob);
                vstd::seq_lib::to_multiset_build(s.merged.push(oa), ob);
                vstd::seq_lib::to_multiset_build(s.merged.push(ob), oa);
                vstd::seq_lib::to_multiset_build(s.pages, first.issues@);
                vstd::seq_lib::to_multiset_build(s.pages, second.issues@);
                vstd::seq_lib::to_multiset_build(s.pages.push(first.issues@), second.issues@);
                vstd::seq_lib::to_multiset_build(s.pages.push(second.issues@), first.issues@);
                assert(x.finished.to_multiset() =~= y.finished.to_multiset());
                assert(x.merged.to_multiset() =~= y.merged.to_multiset());
                assert(x.pages.to_multiset() =~= y.pages.to_multiset());
                lemma_merge_order_irrelevant(Seq::<T>::empty(), x.pages, y.pages);
            }
        },
        _ => {},
    }
}

/// Nor does a further outcome bring the order of arrival back in.
pub proof fn lemma_collect_keeps_order_irrelevant<T>(
    x: SearchView<T>,
    y: SearchView<T>,
    outcome: Outcome<T>,
)
    requires
        same_but_for_order(x, y),
    ensures
        same_but_for_order(collected(x, outcome), collected(y, outcome)),
{
    x.finished.to_multiset_ensures();
    y.finished.to_multiset_ensures();
    match outcome {
        Outcome::Success(page) => {
            let o = page.start_at as nat;
            assert(x.finished.contains(o) <==> y.finished.contains(o)) by {
                assert(x.finished.to_multiset().count(o) == y.finished.to_multiset().count(o));
            }
            if accepts(x, o) {
                vstd::seq_lib::to_multiset_build(x.finished, o);
                vstd::seq_lib::to_multiset_build(y.finished, o);
                vstd::seq_lib::to_multiset_build(x.merged, o);
                vstd::seq_lib::to_multiset_build(y.merged, o);
                assert(x.pages.push(page.issues@).drop_last() =~= x.pages);
                assert(y.pages.push(page.issues@).drop_last() =~= y.pages);
                vstd::seq_lib::lemma_multiset_commutative(
                    merged_all(Seq::empty(), x.pages),
                    page.issues@,
                );
                vstd::seq_lib::lemma_multiset_commutative(
                    merged_all(Seq::empty(), y.pages),
                    page.issues@,
                );
            }
        },
        _ => {},
    }
}

proof fn lemma_pruned_by_members(pending: Seq<nat>, first: Seq<nat>, second: Seq<nat>)
    requires
        forall|o: nat| first.contains(o) <==> second.contains(o),
    ensures
        pruned(pending, first) == pruned(pending, second),
    decreases pending.len(),
{
    reveal(Seq::filter);
    if pending.len() > 0 {
        lemma_pruned_by_members(pending.drop_last(), first, second);
    }
}

/// Closing a round does not bring the order of arrival back in: states that
/// differ at most in that order still do so after the round, and the same
/// pages are pending in both.
pub proof fn lemma_round_end_keeps_order_irrelevant<T>(x: SearchView<T>, y: SearchView<T>)
    requires
        same_but_for_order(x, y),
    ensures
        same_but_for_order(round_ended(x), round_ended(y)),
        round_ended(x).pending == round_ended(y).pending,
{
    x.finished.to_multiset_ensures();
    y.finished.to_multiset_ensures();
    assert forall|o: nat| x.finished.contains(o) <==> y.finished.contains(o) by {
        assert(x.finished.to_multiset().count(o) == y.finished.to_multiset().count(o));
    }
    lemma_pruned_by_members(x.pending, x.finished, y.finished);
}

/// The total that the result holds is that of the page merged last.  So
/// where every page that comes reports the total `t`, the result holds `t`
/// from the first merge on, whichever page is merged last.
pub proof fn lemma_collect_keeps_total<T>(s: SearchView<T>, outcome: Outcome<T>, t: nat)
    requires
        s.merged.len() > 0 ==> s.held.total == t,
        outcome matches Outcome::Success(page) ==> page.total == t,
    ensures
        collected(s, outcome).merged.len() > 0 ==> collected(s, outcome).held.total == t,
{
}

/// Closing a round leaves the result as it is.
pub proof fn lemma_round_end_keeps_result<T>(s: SearchView<T>)
    ensures
        round_ended(s).held == s.held,
        round_ended(s).merged == s.merged,
        round_ended(s).pages == s.pages,
{
}

/// A search that is done has merged its first page.
pub proof fn lemma_done_has_first_page<T>(s: SearchView<T>)
    requires
        inv(s),
        s.phase is Done,
    ensures
        s.merged.contains(0nat),
        s.merged.len() > 0,
{
    let all = page_offsets(s.total, s.template.max_results);
    assert(0 * s.template.max_results == 0);
    assert(all[0] == 0);
    assert(all.contains(0nat));
    if s.pending.contains(0nat) {
        let i = choose|i: int| 0 <= i < s.pending.len() && s.pending[i] == 0;
    }
}

/// Two independent outcomes that report the same total leave the same total
/// in the result, whichever is reported first.
pub proof fn lemma_arrival_order_keeps_total<T>(s: SearchView<T>, a: Outcome<T>, b: Outcome<T>)
    requires
        inv(s),
        independent(a, b),
        a matches Outcome::Success(first) ==> (b matches Outcome::Success(second)
            ==> first.total == second.total),
    ensures
        collected(collected(s, a), b).held.total == collected(collected(s, b), a).held.total,
{
    match (a, b) {
        (Outcome::Success(first), Outcome::Success(second)) => {
            lemma_push_contains(s.finished, first.start_at as nat);
            lemma_push_contains(s.finished, second.start_at as nat);
        },
        _ => {},
    }
}

/// A page that fails while a round is left is asked for again in the next
/// round, together with the other pages that have not come, and with no page
/// that has.
pub proof fn lemma_failed_page_is_asked_again<T>(s: SearchView<T>, offset: nat)
    requires
        s.phase is Remaining,
        s.pending.contains(offset),
        !s.finished.contains(offset),
        s.rounds_left > 0,
    ensures
        round_ended(s).phase is Remaining,
        round_ended(s).rounds_left == s.rounds_left - 1,
        round_ended(s).pending.contains(offset),
        forall|o: nat| #[trigger]
            round_ended(s).pending.contains(o) <==> s.pending.contains(o) && !s.finished.contains(
                o,
            ),
{
    lemma_pruned(s.pending, s.finished);
    assert(pruned(s.pending, s.finished).contains(offset));
}

/// A round in which every pending page comes ends the search: it is done.
pub proof fn lemma_round_of_successes_is_done<T>(s: SearchView<T>)
    requires
        s.phase is Remaining,
        forall|o: nat| s.pending.contains(o) ==> s.finished.contains(o),
    ensures
        round_ended(s).phase is Done,
        round_ended(s).pending.len() == 0,
{
    lemma_pruned(s.pending, s.finished);
    let left = pruned(s.pending, s.finished);
    if left.len() > 0 {
        assert(left.contains(left[0]));
    }
}

/// The outcomes of a round do not prolong a search, and closing the round
/// brings it nearer to its end.
pub proof fn lemma_round_shortens<T>(s: SearchView<T>, outcomes: Seq<Outcome<T>>)
    ensures
        rounds_ahead(collected_all(s, outcomes)) <= rounds_ahead(s),
        s.phase is Discover || s.phase is Remaining ==> rounds_ahead(
            round_ended(collected_all(s, outcomes)),
        ) < rounds_ahead(s),
    decreases outcomes.len(),
{
    if outcomes.len() > 0 {
        lemma_round_shortens(s, outcomes.drop_last());
    }
}

/// A run goes on by one round: the rounds so far, and one more that began
/// while the search was running and was answered by `fetch_round`.
pub proof fn lemma_run_extends<T, F: Fn(&Vec<Query>) -> Vec<Outcome<T>>>(
    fetch_round: &F,
    s: SearchView<T>,
    rounds: Seq<Seq<Outcome<T>>>,
    outcomes: Seq<Outcome<T>>,
)
    requires
        is_run(fetch_round, s, rounds),
        ran(s, rounds).phase is Discover || ran(s, rounds).phase is Remaining,
        answered(fetch_round, ran(s, rounds), outcomes),
    ensures
        is_run(fetch_round, s, rounds.push(outcomes)),
        ran(s, rounds.push(outcomes)) == round_ended(collected_all(ran(s, rounds), outcomes)),
{
    let longer = rounds.push(outcomes);
    assert(longer.drop_last() =~= rounds);
    assert(longer.last() == outcomes);
}

/// A search that has ended runs no round: nothing is fetched for it.
pub proof fn lemma_ended_search_runs_no_round<T, F: Fn(&Vec<Query>) -> Vec<Outcome<T>>>(
    fetch_round: &F,
    s: SearchView<T>,
    rounds: Seq<Seq<Outcome<T>>>,
)
    requires
        is_run(fetch_round, s, rounds),
        s.phase is Done || s.phase is Failed,
    ensures
        rounds.len() == 0,
    decreases rounds.len(),
{
    if rounds.len() > 1 {
        lemma_ended_search_runs_no_round(fetch_round, s, rounds.drop_last());
    }
}

/// Whether the search cannot be done before the page at `offset` has come:
/// it is pending, or the search has failed.
pub open spec fn awaits<T>(s: SearchView<T>, offset: nat) -> bool {
    s.phase is Failed || (s.phase is Remaining && s.pending.contains(offset))
}

proof fn lemma_outcomes_keep_pending<T>(s: SearchView<T>, outcomes: Seq<Outcome<T>>)
    ensures
        collected_all(s, outcomes).phase is Failed || (collected_all(s, outcomes).phase == s.phase
            && collected_all(s, outcomes).pending == s.pending),
        s.phase is Failed ==> collected_all(s, outcomes) == s,
    decreases outcomes.len(),
{
    if outcomes.len() > 0 {
        lemma_outcomes_keep_pending(s, outcomes.drop_last());
    }
}

/// A page that does not come keeps the search from being done: after a round
/// in which it was not merged it is pending again, or the search has failed.
/// So a search that waits for a page that fails in every round ends failed,
/// never done.
pub proof fn lemma_failing_page_keeps_search_from_done<T>(
    s: SearchView<T>,
    outcomes: Seq<Outcome<T>>,
    offset: nat,
)
    requires
        awaits(s, offset),
        !collected_all(s, outcomes).finished.contains(offset),
    ensures
        awaits(round_ended(collected_all(s, outcomes)), offset),
{
    let t = collected_all(s, outcomes);
    lemma_outcomes_keep_pending(s, outcomes);
    if t.phase is Remaining {
        lemma_pruned(t.pending, t.finished);
        assert(pruned(t.pending, t.finished).contains(offset));
    }
}

/// Tells whether a reply is to be parsed.  Only a body that arrived with a
/// success status is; a body that came with any other status is never read.
pub fn body_to_parse(reply: &Reply) -> (r: Result<&String, Failure>)
    ensures
        match *reply {
            Reply::Arrived { body, success } => if success {
                r == Ok::<&String, Failure>(&body)
            } else {
                r == Err::<&String, Failure>(Failure::Status)
            },
            Reply::Lost => r == Err::<&String, Failure>(Failure::Transport),
        },
{
    match reply {
        Reply::Arrived { body, success } => {
            if *success {
                Ok(body)
            } else {
                Err(Failure::Status)
            }
        },
        Reply::Lost => Err(Failure::Transport),
    }
}

/// The outcome of the request for the page at `offset`.  A failure of the
/// first page is hard, whatever its cause; a failure of any other page is
/// soft.
pub fn outcome_of<T>(offset: usize, fetched: Result<QueryResult<T>, Failure>) -> (outcome: Outcome<
    T,
>)
    ensures
        outcome == match fetched {
            Ok(page) => Outcome::Success(page),
            Err(cause) => if offset == 0 {
                Outcome::HardFailure { offset, cause }
            } else {
                Outcome::SoftFailure { offset, cause }
            },
        },
{
    match fetched {
        Ok(page) => Outcome::Success(page),
        Err(cause) => {
            if offset == 0 {
                Outcome::HardFailure { offset, cause }
            } else {
                Outcome::SoftFailure { offset, cause }
            }
        },
    }
}

/// A search in progress.
pub struct Searcher<T> {
    template: Query,
    pending_jobs: Vec<Query>,
    finished: Vec<usize>,
    result: QueryResult<T>,
    phase: Phase,
    total: usize,
    rounds_left: usize,
    merged: Ghost<Seq<nat>>,
    pages: Ghost<Seq<Seq<T>>>,
}

impl<T> View for Searcher<T> {
    type V = SearchView<T>;

    closed spec fn view(&self) -> SearchView<T> {
        SearchView {
            template: self.template@,
            phase: self.phase,
            pending: Seq::new(
                self.pending_jobs.len() as nat,
                |i: int| self.pending_jobs[i]@.start_at,
            ),
            finished: Seq::new(self.finished.len() as nat, |i: int| self.finished[i] as nat),
            merged: self.merged@,
            pages: self.pages@,
            held: self.result.head(),
            total: self.total as nat,
            rounds_left: self.rounds_left as nat,
        }
    }
}

impl<T> Searcher<T> {
    /// The items merged so far.
    pub closed spec fn items(&self) -> Seq<T> {
        self.result.issues@
    }

    /// Every pending query is the template at its offset, and the items held
    /// are those of the merged pages, in the order the pages were merged.
    pub closed spec fn coherent(&self) -> bool {
        &&& forall|i: int|
            0 <= i < self.pending_jobs.len() ==> (#[trigger] self.pending_jobs[i])@ == (QueryView {
                start_at: self.pending_jobs[i]@.start_at,
                ..self.template@
            })
        &&& self.result.issues@ == merged_all(Seq::empty(), self.pages@)
    }

    /// What holds of every searcher that this module hands out.
    pub open spec fn wf(&self) -> bool {
        &&& self.coherent()
        &&& inv(self@)
        &&& self.items() == merged_all(Seq::empty(), self@.pages)
    }

    /// A search for what `search` asks, allowed `max_rounds` rounds behind the
    /// one that fetches the first page.
    pub fn new(search: Query, max_rounds: usize) -> (searcher: Searcher<T>)
        requires
            search.wf(),
            search@.start_at == 0,
        ensures
            searcher.wf(),
            searcher@ == started::<T>(search@, max_rounds as nat),
            searcher.items() == Seq::<T>::empty(),
    {
        let first = search.at_offset(0);
        let page_size = search.max_results();
        let mut pending_jobs: Vec<Query> = Vec::new();
        pending_jobs.push(first);
        let searcher = Searcher {
            template: search,
            pending_jobs,
            finished: Vec::new(),
            result: QueryResult::default(page_size),
            phase: Phase::Discover,
            total: 0,
            rounds_left: max_rounds,
            merged: Ghost(Seq::empty()),
            pages: Ghost(Seq::empty()),
        };
        proof {
            lemma_started_inv::<T>(searcher@.template, max_rounds as nat);
            assert(searcher@.pending =~= seq![0nat]);
            assert(searcher@.finished =~= Seq::<nat>::empty());
        }
        searcher
    }

    /// The requests of the current round.
    pub fn pending(&self) -> (jobs: &Vec<Query>)
        requires
            self.wf(),
        ensures
            jobs.len() == self@.pending.len(),
            forall|i: int|
                0 <= i < jobs.len() ==> (#[trigger] jobs[i])@ == (QueryView {
                    start_at: self@.pending[i],
                    ..self@.template
                }),
    {
        &self.pending_jobs
    }

    /// How far the search has come.
    pub fn phase(&self) -> (phase: Phase)
        ensures
            phase == self@.phase,
    {
        self.phase
    }

    fn is_live(&self) -> (live: bool)
        ensures
            live == (self@.phase is Discover || self@.phase is Remaining),
    {
        match self.phase {
            Phase::Discover => true,
            Phase::Remaining => true,
            _ => false,
        }
    }

    fn is_pending(&self, offset: usize) -> (found: bool)
        ensures
            found == self@.pending.contains(offset as nat),
    {
        let mut i: usize = 0;
        while i < self.pending_jobs.len()
            invariant
                i <= self.pending_jobs.len(),
                forall|k: int| 0 <= k < i ==> self@.pending[k] != offset as nat,
            decreases self.pending_jobs.len() - i,
        {
            if self.pending_jobs[i].start_at() == offset {
                assert(self@.pending[i as int] == offset as nat);
                return true;
            }
            i = i + 1;
        }
        false
    }

    fn is_finished(&self, offset: usize) -> (found: bool)
        ensures
            found == self@.finished.contains(offset as nat),
    {
        let mut i: usize = 0;
        while i < self.finished.len()
            invariant
                i <= self.finished.len(),
                forall|k: int| 0 <= k < i ==> self@.finished[k] != offset as nat,
            decreases self.finished.len() - i,
        {
            if self.finished[i] == offset {
                assert(self@.finished[i as int] == offset as nat);
                return true;
            }
            i = i + 1;
        }
        false
    }

    fn fail(&mut self, error: SearchError)
        requires
            old(self).wf(),
        ensures
            final(self).wf(),
            final(self)@ == failed(old(self)@, error),
    {
        self.phase = Phase::Failed(error);
        self.pending_jobs = Vec::new();
        self.finished = Vec::new();
        proof {
            assert(self@.pending =~= Seq::<nat>::empty());
            assert(self@.finished =~= Seq::<nat>::empty());
        }
    }

    /// Takes in the outcome of one request of the current round.
    pub fn collect(&mut self, outcome: Outcome<T>)
        requires
            old(self).wf(),
        ensures
            final(self).wf(),
            final(self)@ == collected(old(self)@, outcome),
            final(self).items() == match outcome {
                Outcome::Success(page) => if accepts(old(self)@, page.start_at as nat) {
                    merged(old(self).items(), page.issues@)
                } else {
                    old(self).items()
                },
                _ => old(self).items(),
            },
    {
        proof {
            lemma_collected_inv(self@, outcome);
        }
        match outcome {
            Outcome::Success(page) => {
                let offset = page.start_at;
                if self.is_live() && self.is_pending(offset) && !self.is_finished(offset) {
                    let ghost before = self@;
                    let ghost items = page.issues@;
                    if let Phase::Discover = self.phase {
                        self.total = page.total;
                    }
                    self.finished.push(offset);
                    self.merged = Ghost(self.merged@.push(offset as nat));
                    self.pages = Ghost(self.pages@.push(items));
                    self.result.collect_from(page);
                    proof {
                        assert(self@.finished =~= before.finished.push(offset as nat));
                        assert(self@.pending =~= before.pending);
                        assert(self.pages@.drop_last() =~= before.pages);
                    }
                }
            },
            Outcome::SoftFailure { .. } => {},
            Outcome::HardFailure { offset, .. } => {
                if self.is_live() {
                    self.fail(SearchError::Fatal(offset));
                }
            },
        }
    }

    fn unfinished(&self) -> (left: Vec<Query>)
        requires
            self.wf(),
        ensures
            Seq::new(left.len() as nat, |i: int| left[i]@.start_at) == pruned(
                self@.pending,
                self@.finished,
            ),
            forall|i: int|
                0 <= i < left.len() ==> (#[trigger] left[i])@ == (QueryView {
                    start_at: left[i]@.start_at,
                    ..self@.template
                }),
    {
        let mut left: Vec<Query> = Vec::new();
        let ghost keep = |o: nat| !self@.finished.contains(o);
        let mut i: usize = 0;
        proof {
            reveal(Seq::filter);
            assert(self@.pending.subrange(0, 0).filter(keep) =~= Seq::<nat>::empty());
        }
        while i < self.pending_jobs.len()
            invariant
                self.wf(),
                i <= self.pending_jobs.len(),
                keep == |o: nat| !self@.finished.contains(o),
                Seq::new(left.len() as nat, |k: int| left[k]@.start_at)
                    == self@.pending.subrange(0, i as int).filter(keep),
                forall|k: int|
                    0 <= k < left.len() ==> (#[trigger] left[k])@ == (QueryView {
                        start_at: left[k]@.start_at,
                        ..self@.template
                    }),
            decreases self.pending_jobs.len() - i,
        {
            let job = &self.pending_jobs[i];
            let ghost before = Seq::new(left.len() as nat, |k: int| left[k]@.start_at);
            proof {
                let head = self@.pending.subrange(0, i as int);
                head.lemma_filter_push(self@.pending[i as int], keep);
                assert(head.push(self@.pending[i as int]) =~= self@.pending.subrange(0, i + 1));
            }
            if !self.is_finished(job.start_at()) {
                left.push(job.at_offset(job.start_at()));
                proof {
                    assert(Seq::new(left.len() as nat, |k: int| left[k]@.start_at) =~= before.push(
                        self@.pending[i as int],
                    ));
                }
            } else {
                proof {
                    assert(Seq::new(left.len() as nat, |k: int| left[k]@.start_at) =~= before);
                }
            }
            i = i + 1;
        }
        proof {
            assert(self@.pending.subrange(0, self.pending_jobs.len() as int) =~= self@.pending);
        }
        left
    }

    fn enter(&mut self, jobs: Vec<Query>)
        requires
            old(self).wf(),
            old(self)@.phase is Discover || old(self)@.phase is Remaining,
            forall|i: int|
                0 <= i < jobs.len() ==> (#[trigger] jobs[i])@ == (QueryView {
                    start_at: jobs[i]@.start_at,
                    ..old(self)@.template
                }),
            inv(entered(old(self)@, Seq::new(jobs.len() as nat, |i: int| jobs[i]@.start_at))),
        ensures
            final(self).wf(),
            final(self)@ == entered(
                old(self)@,
                Seq::new(jobs.len() as nat, |i: int| jobs[i]@.start_at),
            ),
            final(self).items() == old(self).items(),
    {
        let ghost offsets = Seq::new(jobs.len() as nat, |i: int| jobs[i]@.start_at);
        if jobs.len() == 0 {
            self.phase = Phase::Done;
            self.pending_jobs = jobs;
            self.finished = Vec::new();
            proof {
                assert(self@.pending =~= offsets);
                assert(self@.finished =~= Seq::<nat>::empty());
            }
        } else if self.rounds_left == 0 {
            self.fail(SearchError::RetriesExhausted);
        } else {
            self.phase = Phase::Remaining;
            self.pending_jobs = jobs;
            self.finished = Vec::new();
            self.rounds_left = self.rounds_left - 1;
            proof {
                assert(self@.pending =~= offsets);
                assert(self@.finished =~= Seq::<nat>::empty());
            }
        }
    }

    /// Closes the current round and tells what to do next.
    pub fn end_round(&mut self) -> (step: Step)
        requires
            old(self).wf(),
        ensures
            final(self).wf(),
            final(self)@ == round_ended(old(self)@),
            step == step_of(final(self)@.phase),
            final(self).items() == old(self).items(),
    {
        proof {
            lemma_round_ended_inv(self@);
        }
        match self.phase {
            Phase::Discover => {
                let left = self.unfinished();
                if left.len() == 0 {
                    let rest = self.template.create_remaining(self.total);
                    proof {
                        assert(Seq::new(rest.len() as nat, |i: int| rest[i]@.start_at)
                            =~= remaining_offsets(self@.total, self@.template.max_results));
                    }
                    self.enter(rest);
                } else {
                    self.fail(SearchError::Fatal(0));
                }
            },
            Phase::Remaining => {
                let left = self.unfinished();
                self.enter(left);
            },
            _ => {},
        }
        match self.phase {
            Phase::Discover => Step::Dispatch,
            Phase::Remaining => Step::Dispatch,
            Phase::Done => Step::Finished,
            Phase::Failed(error) => Step::Failed(error),
        }
    }

    /// Runs the search to its end.  `fetch_round` performs the requests of one
    /// round and hands back their outcomes, in the order they arrived.
    ///
    /// A search that has ended is left as it is, and nothing is fetched.  A
    /// running search goes through rounds: in each, `fetch_round` is called
    /// once, with the requests then pending; every outcome it hands back is
    /// reported, and the round is closed.  Whatever is handed back, the search
    /// ends, done or failed, after no more rounds than [`rounds_ahead`] tells:
    /// two more than the rounds allowed to a search that begins.
    pub fn perform<F>(&mut self, fetch_round: &F) -> (step: Step) where
        F: Fn(&Vec<Query>) -> Vec<Outcome<T>>,

        requires
            old(self).wf(),
            forall|jobs: &Vec<Query>| call_requires(fetch_round, (jobs,)),
        ensures
            final(self).wf(),
            final(self)@.phase is Done || final(self)@.phase is Failed,
            step == step_of(final(self)@.phase),
            final(self)@.template == old(self)@.template,
            old(self)@.phase is Done || old(self)@.phase is Failed ==> final(self)@ == old(self)@
                && final(self).items() == old(self).items(),
            exists|rounds: Seq<Seq<Outcome<T>>>|
                {
                    &&& is_run(fetch_round, old(self)@, rounds)
                    &&& #[trigger] ran(old(self)@, rounds) == final(self)@
                    &&& rounds.len() <= rounds_ahead(old(self)@)
                },
    {
        let mut step = match self.phase {
            Phase::Discover => Step::Dispatch,
            Phase::Remaining => Step::Dispatch,
            Phase::Done => Step::Finished,
            Phase::Failed(error) => Step::Failed(error),
        };
        let ghost mut rounds: Seq<Seq<Outcome<T>>> = Seq::empty();
        while step == Step::Dispatch
            invariant
                self.wf(),
                step == step_of(self@.phase),
                self@.template == old(self)@.template,
                old(self)@.phase is Done || old(self)@.phase is Failed ==> self@ == old(self)@
                    && self.items() == old(self).items(),
                forall|jobs: &Vec<Query>| call_requires(fetch_round, (jobs,)),
                is_run(fetch_round, old(self)@, rounds),
                ran(old(self)@, rounds) == self@,
                rounds.len() + rounds_ahead(self@) <= rounds_ahead(old(self)@),
            decreases rounds_ahead(self@),
        {
            let ghost at_dispatch = self@;
            let jobs = self.pending();
            let ghost asked = *jobs;
            let outcomes = fetch_round(jobs);
            let ghost handed = outcomes;
            let ghost all = outcomes@;
            for outcome in it: outcomes
                invariant
                    self.wf(),
                    it.seq() == all,
                    self@.template == at_dispatch.template,
                    self@ == collected_all(at_dispatch, all.subrange(0, it.index() as int)),
            {
                proof {
                    let head = all.subrange(0, it.index() + 1);
                    assert(head.drop_last() =~= all.subrange(0, it.index() as int));
                    assert(head.last() == outcome);
                }
                self.collect(outcome);
            }
            proof {
                assert(all.subrange(0, all.len() as int) =~= all);
                assert(answered(fetch_round, at_dispatch, all)) by {
                    assert(requests_of(at_dispatch, asked@) && handed@ == all && call_ensures(
                        *fetch_round,
                        (&asked,),
                        handed,
                    ));
                }
                lemma_round_shortens(at_dispatch, all);
                lemma_run_extends(fetch_round, old(self)@, rounds, all);
                rounds = rounds.push(all);
            }
            step = self.end_round();
        }
        proof {
            assert(ran(old(self)@, rounds) == self@);
        }
        step
    }

    /// The merged result, once the search is done: the items of every page
    /// of the result set, each page merged once, in the order the pages
    /// arrived, with the total, the offset and the page size that the page
    /// merged last reported.  A search that failed or is still running gives
    /// nothing: no partial result leaves the engine.
    pub fn finish(self) -> (r: Option<QueryResult<T>>)
        requires
            self.wf(),
        ensures
            r is Some <==> self@.phase is Done,
            r is Some ==> {
                &&& r->0.head() == self@.held
                &&& r->0.issues@ == self.items()
                &&& r->0.issues@ == merged_all(Seq::empty(), self@.pages)
                &&& self@.pages.len() == self@.merged.len()
                &&& self@.merged.no_duplicates()
                &&& forall|o: nat| #[trigger]
                    self@.merged.contains(o) <==> page_offsets(
                        self@.total,
                        self@.template.max_results,
                    ).contains(o)
            },
    {
        proof {
            if self@.phase is Done {
                lemma_done_is_complete(self@);
            }
        }
        match self.phase {
            Phase::Done => Some(self.result),
            _ => None,
        }
    }
}

} // verus!
