//! The answer to a search: one page of it, or all pages merged.

use vstd::prelude::*;
use vstd::multiset::Multiset;
use vstd::seq_lib::lemma_multiset_commutative;
use vstd::seq_lib::to_multiset_contains;
use vstd::seq_lib::to_multiset_remove;

verus! {

/// A page of results as the server sent it, and also the collection that the
/// pages of one search are merged into.
///
/// `total` is the size of the whole result set.  Only the page at offset 0 is
/// relied on for it.
pub struct QueryResult<T> {
    pub expand: String,
    pub start_at: usize,
    pub max_results: usize,
    pub total: usize,
    pub issues: Vec<T>,
}

/// What a page says beside its items.
pub struct PageHead {
    pub expand: Seq<char>,
    pub start_at: nat,
    pub max_results: nat,
    pub total: nat,
}

/// The items held after a page has been merged in: the page's items follow
/// those already there.  Nothing is reordered and nothing is dropped.
pub open spec fn merged<T>(items: Seq<T>, page: Seq<T>) -> Seq<T> {
    items + page
}

/// The items held after each of `pages` has been merged in, in that order.
pub open spec fn merged_all<T>(items: Seq<T>, pages: Seq<Seq<T>>) -> Seq<T>
    decreases pages.len(),
{
    if pages.len() == 0 {
        items
    } else {
        merged(merged_all(items, pages.drop_last()), pages.last())
    }
}

/// All items of `pages`, as a multiset.
pub open spec fn items_of<T>(pages: Seq<Seq<T>>) -> Multiset<T>
    decreases pages.len(),
{
    if pages.len() == 0 {
        Multiset::empty()
    } else {
        items_of(pages.drop_last()).add(pages.last().to_multiset())
    }
}

impl<T> QueryResult<T> {
    /// What the page says beside its items.
    pub open spec fn head(&self) -> PageHead {
        PageHead {
            expand: self.expand@,
            start_at: self.start_at as nat,
            max_results: self.max_results as nat,
            total: self.total as nat,
        }
    }

    /// Merges a page into the collection: the page's `total`, `start_at`,
    /// `max_results` and `expand` replace those held, and its items are
    /// appended in the order they came in.
    pub fn collect_from(&mut self, other: QueryResult<T>)
        ensures
            final(self).total == other.total,
            final(self).expand == other.expand,
            final(self).start_at == other.start_at,
            final(self).max_results == other.max_results,
            final(self).issues@ == merged(old(self).issues@, other.issues@),
    {
        let mut other = other;
        self.total = other.total;
        self.expand = other.expand;
        self.start_at = other.start_at;
        self.max_results = other.max_results;
        self.issues.append(&mut other.issues);
    }

    /// The empty collection a search starts from.
    pub fn default(max: usize) -> (r: QueryResult<T>)
        ensures
            r.total == max,
            r.expand@ == Seq::<char>::empty(),
            r.start_at == 0,
            r.max_results == max,
            r.issues@ == Seq::<T>::empty(),
    {
        QueryResult {
            total: max,
            expand: String::new(),
            start_at: 0,
            max_results: max,
            issues: Vec::new(),
        }
    }
}

/// What a collection holds after a run of merges is what it held before
/// together with the items of every page.
pub proof fn lemma_merged_all_items<T>(items: Seq<T>, pages: Seq<Seq<T>>)
    ensures
        merged_all(items, pages).to_multiset() == items.to_multiset().add(items_of(pages)),
    decreases pages.len(),
{
    if pages.len() == 0 {
        assert(items.to_multiset().add(Multiset::empty()) =~= items.to_multiset());
    } else {
        lemma_merged_all_items(items, pages.drop_last());
        lemma_multiset_commutative(merged_all(items, pages.drop_last()), pages.last());
        assert(items.to_multiset().add(items_of(pages.drop_last())).add(
            pages.last().to_multiset(),
        ) =~= items.to_multiset().add(items_of(pages)));
    }
}

proof fn lemma_items_of_remove<T>(pages: Seq<Seq<T>>, k: int)
    requires
        0 <= k < pages.len(),
    ensures
        items_of(pages) == items_of(pages.remove(k)).add(pages[k].to_multiset()),
    decreases pages.len(),
{
    if k == pages.len() - 1 {
        assert(pages.remove(k) =~= pages.drop_last());
    } else {
        lemma_items_of_remove(pages.drop_last(), k);
        assert(pages.remove(k).drop_last() =~= pages.drop_last().remove(k));
        assert(pages.remove(k).last() == pages.last());
        assert(items_of(pages.drop_last().remove(k)).add(pages[k].to_multiset()).add(
            pages.last().to_multiset(),
        ) =~= items_of(pages.drop_last().remove(k)).add(pages.last().to_multiset()).add(
            pages[k].to_multiset(),
        ));
    }
}

/// The items of a set of pages do not depend on the order the pages are
/// listed in.
pub proof fn lemma_items_of_permutation<T>(first: Seq<Seq<T>>, second: Seq<Seq<T>>)
    requires
        first.to_multiset() == second.to_multiset(),
    ensures
        items_of(first) == items_of(second),
    decreases first.len(),
{
    first.to_multiset_ensures();
    second.to_multiset_ensures();
    if first.len() == 0 {
        assert(second.len() == 0);
    } else {
        let page = first.last();
        to_multiset_contains(first, page);
        to_multiset_contains(second, page);
        assert(first.contains(page)) by {
            assert(first[first.len() - 1] == page);
        }
        let k = choose|k: int| 0 <= k < second.len() && second[k] == page;
        to_multiset_remove(second, k);
        to_multiset_remove(first, first.len() - 1);
        assert(first.remove(first.len() - 1) =~= first.drop_last());
        lemma_items_of_permutation(first.drop_last(), second.remove(k));
        lemma_items_of_remove(second, k);
    }
}

/// Merging is commutative with respect to membership: whatever order the
/// pages of a round arrive in, the collection ends up holding the same items,
/// each as many times.  Only their sequence differs.
pub proof fn lemma_merge_order_irrelevant<T>(
    items: Seq<T>,
    first: Seq<Seq<T>>,
    second: Seq<Seq<T>>,
)
    requires
        first.to_multiset() == second.to_multiset(),
    ensures
        merged_all(items, first).to_multiset() == merged_all(items, second).to_multiset(),
        merged_all(items, first).len() == merged_all(items, second).len(),
{
    lemma_merged_all_items(items, first);
    lemma_merged_all_items(items, second);
    lemma_items_of_permutation(first, second);
    merged_all(items, first).to_multiset_ensures();
    merged_all(items, second).to_multiset_ensures();
}

/// Two pages merged one way round and the other hold the same items.
pub proof fn lemma_merge_commutes<T>(items: Seq<T>, a: Seq<T>, b: Seq<T>)
    ensures
        merged(merged(items, a), b).to_multiset() == merged(merged(items, b), a).to_multiset(),
{
    lemma_multiset_commutative(items + a, b);
    lemma_multiset_commutative(items, a);
    lemma_multiset_commutative(items + b, a);
    lemma_multiset_commutative(items, b);
    assert(items.to_multiset().add(a.to_multiset()).add(b.to_multiset())
        =~= items.to_multiset().add(b.to_multiset()).add(a.to_multiset()));
}

} // verus!
