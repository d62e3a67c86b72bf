//! A non-persistent [`CatalogCache`] that keeps catalogs in process memory.

use crate::catalog::{Catalog, CatalogView, NodeId};
use crate::store::{CatalogCache, CatalogQuery, StoreResult};
use crate::text::{same_text, text_not_after};
use vstd::map::*;
use vstd::prelude::*;

verus! {

/// The in-memory cache: at most one catalog per origin node.
pub struct InMemoryCatalogCache {
    stored: Vec<Catalog>,
}

/// Whether no two catalogs come from the same node.
spec fn one_per_node(stored: Seq<CatalogView>) -> bool {
    forall|i: int, j: int|
        0 <= i < j < stored.len() ==> (#[trigger] stored[i]).origin_node != (
        #[trigger] stored[j]).origin_node
}

/// Whether catalog `i` of the list comes from `node`.
spec fn comes_from(stored: Seq<CatalogView>, i: int, node: Seq<char>) -> bool {
    0 <= i < stored.len() && stored[i].origin_node == node
}

/// The map from nodes to catalogs that a list with one catalog per node
/// stands for.
spec fn by_node(stored: Seq<CatalogView>) -> Map<Seq<char>, CatalogView> {
    Map::new(
        |node: Seq<char>| exists|i: int| comes_from(stored, i, node),
        |node: Seq<char>| stored[choose|i: int| comes_from(stored, i, node)],
    )
}

proof fn lemma_by_node(stored: Seq<CatalogView>, i: int)
    requires
        one_per_node(stored),
        0 <= i < stored.len(),
    ensures
        by_node(stored).contains_key(stored[i].origin_node),
        by_node(stored)[stored[i].origin_node] == stored[i],
{
    let node = stored[i].origin_node;
    assert(comes_from(stored, i, node));
    let j = choose|j: int| comes_from(stored, j, node);
    assert(i == j);
}

proof fn lemma_absent(stored: Seq<CatalogView>, node: Seq<char>)
    requires
        forall|i: int| 0 <= i < stored.len() ==> (#[trigger] stored[i]).origin_node != node,
    ensures
        !by_node(stored).contains_key(node),
{
}

proof fn lemma_replaced(stored: Seq<CatalogView>, at: int, catalog: CatalogView)
    requires
        one_per_node(stored),
        0 <= at < stored.len(),
        stored[at].origin_node == catalog.origin_node,
    ensures
        one_per_node(stored.update(at, catalog)),
        by_node(stored.update(at, catalog)) == by_node(stored).insert(
            catalog.origin_node,
            catalog,
        ),
{
    let after = stored.update(at, catalog);
    let expected = by_node(stored).insert(catalog.origin_node, catalog);
    assert(one_per_node(after));
    assert_maps_equal!(by_node(after), expected, node => {
        if by_node(after).contains_key(node) {
            let i = choose|i: int| comes_from(after, i, node);
            lemma_by_node(after, i);
            assert(comes_from(stored, i, node));
            lemma_by_node(stored, i);
        }
        if by_node(stored).contains_key(node) {
            let i = choose|i: int| comes_from(stored, i, node);
            lemma_by_node(stored, i);
            assert(comes_from(after, i, node));
        }
        if node == catalog.origin_node {
            lemma_by_node(after, at);
        }
    });
}

proof fn lemma_added(stored: Seq<CatalogView>, catalog: CatalogView)
    requires
        one_per_node(stored),
        forall|i: int|
            0 <= i < stored.len() ==> (#[trigger] stored[i]).origin_node != catalog.origin_node,
    ensures
        one_per_node(stored.push(catalog)),
        by_node(stored.push(catalog)) == by_node(stored).insert(catalog.origin_node, catalog),
{
    let after = stored.push(catalog);
    let expected = by_node(stored).insert(catalog.origin_node, catalog);
    assert(one_per_node(after));
    assert_maps_equal!(by_node(after), expected, node => {
        if by_node(after).contains_key(node) {
            let i = choose|i: int| comes_from(after, i, node);
            lemma_by_node(after, i);
            if i < stored.len() {
                assert(comes_from(stored, i, node));
                lemma_by_node(stored, i);
            }
        }
        if by_node(stored).contains_key(node) {
            let i = choose|i: int| comes_from(stored, i, node);
            lemma_by_node(stored, i);
            assert(comes_from(after, i, node));
        }
        if node == catalog.origin_node {
            lemma_by_node(after, stored.len() as int);
        }
    });
}

proof fn lemma_removed(stored: Seq<CatalogView>, at: int)
    requires
        one_per_node(stored),
        0 <= at < stored.len(),
    ensures
        one_per_node(stored.remove(at)),
        by_node(stored.remove(at)) == by_node(stored).remove(stored[at].origin_node),
{
    let after = stored.remove(at);
    let expected = by_node(stored).remove(stored[at].origin_node);
    assert forall|i: int, j: int| 0 <= i < j < after.len() implies (
    #[trigger] after[i]).origin_node != (#[trigger] after[j]).origin_node by {
        let before_i = if i < at { i } else { i + 1 };
        let before_j = if j < at { j } else { j + 1 };
        assert(after[i] == stored[before_i]);
        assert(after[j] == stored[before_j]);
    }
    assert_maps_equal!(by_node(after), expected, node => {
        if by_node(after).contains_key(node) {
            let i = choose|i: int| comes_from(after, i, node);
            lemma_by_node(after, i);
            let before = if i < at { i } else { i + 1 };
            assert(after[i] == stored[before]);
            assert(comes_from(stored, before, node));
            lemma_by_node(stored, before);
            assert(stored[before].origin_node != stored[at].origin_node);
        }
        if expected.contains_key(node) {
            let i = choose|i: int| comes_from(stored, i, node);
            lemma_by_node(stored, i);
            let now = if i < at { i } else { i - 1 };
            assert(after[now] == stored[i]);
            assert(comes_from(after, now, node));
        }
    });
}

impl InMemoryCatalogCache {
    #[verifier::type_invariant]
    spec fn well_formed(&self) -> bool {
        one_per_node(crate::catalog::catalog_views(self.stored@))
    }

    /// A cache with nothing in it.
    pub fn new() -> (cache: InMemoryCatalogCache)
        ensures
            cache.graphs() == Map::<Seq<char>, CatalogView>::empty(),
    {
        let cache = InMemoryCatalogCache { stored: Vec::new() };
        assert(cache.graphs() =~= Map::<Seq<char>, CatalogView>::empty());
        cache
    }

    /// The place of the catalog that comes from `node`.
    fn position(stored: &Vec<Catalog>, node: &NodeId) -> (place: Option<usize>)
        ensures
            match place {
                Some(i) => comes_from(crate::catalog::catalog_views(stored@), i as int, node@),
                None => forall|i: int|
                    0 <= i < stored.len() ==> (#[trigger] crate::catalog::catalog_views(
                        stored@,
                    )[i]).origin_node != node@,
            },
    {
        let mut i: usize = 0;
        while i < stored.len()
            invariant
                i <= stored.len(),
                forall|j: int|
                    0 <= j < i ==> (#[trigger] crate::catalog::catalog_views(
                        stored@,
                    )[j]).origin_node != node@,
            decreases stored.len() - i,
        {
            if stored[i].origin_node.0 == node.0 {
                return Some(i);
            }
            i += 1;
        }
        None
    }
}

impl Default for InMemoryCatalogCache {
    fn default() -> (cache: InMemoryCatalogCache)
        ensures
            cache.graphs() == Map::<Seq<char>, CatalogView>::empty(),
    {
        InMemoryCatalogCache::new()
    }
}

/// Whether `a` is listed no later than `b`.
fn listed_in_order(a: &Catalog, b: &Catalog) -> (in_order: bool)
    ensures
        in_order == crate::store::not_listed_after(a@, b@),
{
    if same_text(a.id.as_str(), b.id.as_str()) {
        text_not_after(a.origin_node.0.as_str(), b.origin_node.0.as_str())
    } else {
        text_not_after(a.id.as_str(), b.id.as_str())
    }
}

/// Puts a catalog behind those that are listed no later than it.
fn insert_in_order(listing: &mut Vec<Catalog>, catalog: Catalog)
    requires
        crate::store::sorted_by_id(crate::catalog::catalog_views(old(listing)@)),
        !crate::catalog::catalog_views(old(listing)@).contains(catalog@),
        crate::catalog::catalog_views(old(listing)@).no_duplicates(),
    ensures
        crate::store::sorted_by_id(crate::catalog::catalog_views(final(listing)@)),
        crate::catalog::catalog_views(final(listing)@).no_duplicates(),
        forall|other: CatalogView| #[trigger]
            crate::catalog::catalog_views(final(listing)@).contains(other) <==> (
            crate::catalog::catalog_views(old(listing)@).contains(other) || other == catalog@),
{
    let ghost before = crate::catalog::catalog_views(listing@);
    let mut at: usize = listing.len();
    while at > 0 && !listed_in_order(&listing[at - 1], &catalog)
        invariant
            at <= listing.len(),
            before == crate::catalog::catalog_views(listing@),
            forall|j: int|
                at <= j < listing.len() ==> !crate::store::not_listed_after(
                    #[trigger] before[j],
                    catalog@,
                ),
        decreases at,
    {
        at -= 1;
    }
    let ghost entry = catalog@;
    listing.insert(at, catalog);
    let ghost after = crate::catalog::catalog_views(listing@);
    proof {
        assert(after =~= before.insert(at as int, entry));
        assert forall|i: int, j: int|
            0 <= i <= j < after.len() implies crate::store::not_listed_after(
            #[trigger] after[i],
            #[trigger] after[j],
        ) by {
            let old_i = if i < at { i } else { i - 1 };
            let old_j = if j < at { j } else { j - 1 };
            if i != at && j != at {
                assert(crate::store::not_listed_after(before[old_i], before[old_j]));
            } else if i == at && j == at {
                crate::store::lemma_listing_order_reflexive(entry);
            } else if i == at {
                crate::store::lemma_listing_order_total(before[old_j], entry);
            } else {
                assert(crate::store::not_listed_after(before[i], before[at - 1]));
                crate::store::lemma_listing_order_transitive(before[i], before[at - 1], entry);
            }
        }
        assert forall|i: int, j: int| 0 <= i < after.len() && 0 <= j < after.len() && i
            != j implies after[i] != after[j] by {
            let old_i = if i < at { i } else { i - 1 };
            let old_j = if j < at { j } else { j - 1 };
            if i != at {
                assert(before.contains(before[old_i]));
            }
            if j != at {
                assert(before.contains(before[old_j]));
            }
        }
        assert forall|other: CatalogView| #[trigger] after.contains(other) implies before.contains(
            other,
        ) || other == entry by {
            let i = choose|i: int| 0 <= i < after.len() && after[i] == other;
            let old_i = if i < at { i } else { i - 1 };
            if i != at {
                assert(before[old_i] == other);
            }
        }
        assert forall|other: CatalogView|
            before.contains(other) || other == entry implies #[trigger] after.contains(other) by {
            if before.contains(other) {
                let i = choose|i: int| 0 <= i < before.len() && before[i] == other;
                let now = if i < at { i } else { i + 1 };
                assert(after[now] == other);
            } else {
                assert(after[at as int] == other);
            }
        }
    }
}

/// The in-memory cache stores every catalog under the node it comes from.
pub proof fn memory_is_keyed_by_origin(cache: InMemoryCatalogCache)
    ensures
        crate::store::keyed_by_origin(cache.graphs()),
{
}

impl CatalogCache for InMemoryCatalogCache {
    closed spec fn graphs(&self) -> Map<Seq<char>, CatalogView> {
        by_node(crate::catalog::catalog_views(self.stored@))
    }

    /// Catalogs are listed by id, and under one id by origin node, so that
    /// pages can be reproduced.
    open spec fn in_order(listing: Seq<CatalogView>) -> bool {
        crate::store::sorted_by_id(listing)
    }

    open spec fn never_fails() -> bool {
        true
    }

    fn upsert(&mut self, catalog: Catalog) -> (done: StoreResult<()>) {
        proof {
            use_type_invariant(&*self);
        }
        let mut stored: Vec<Catalog> = Vec::new();
        std::mem::swap(&mut stored, &mut self.stored);
        let ghost before = crate::catalog::catalog_views(stored@);
        let ghost entry = catalog@;
        match Self::position(&stored, &catalog.origin_node) {
            Some(i) => {
                stored[i] = catalog;
                proof {
                    lemma_replaced(before, i as int, entry);
                    assert(crate::catalog::catalog_views(stored@) =~= before.update(
                        i as int,
                        entry,
                    ));
                }
            },
            None => {
                stored.push(catalog);
                proof {
                    lemma_added(before, entry);
                    assert(crate::catalog::catalog_views(stored@) =~= before.push(entry));
                }
            },
        }
        self.stored = stored;
        Ok(())
    }

    fn query(&self, query: CatalogQuery) -> (found: StoreResult<Vec<Catalog>>) {
        proof {
            use_type_invariant(self);
        }
        let ghost stored = crate::catalog::catalog_views(self.stored@);
        let mut listing: Vec<Catalog> = Vec::new();
        let mut i: usize = 0;
        while i < self.stored.len()
            invariant
                i <= self.stored.len(),
                stored == crate::catalog::catalog_views(self.stored@),
                one_per_node(stored),
                crate::store::sorted_by_id(crate::catalog::catalog_views(listing@)),
                crate::catalog::catalog_views(listing@).no_duplicates(),
                forall|catalog: CatalogView| #[trigger]
                    crate::catalog::catalog_views(listing@).contains(catalog) <==> {
                        &&& stored.take(i as int).contains(catalog)
                        &&& crate::store::selects(query@.origin_node, catalog)
                    },
            decreases self.stored.len() - i,
        {
            let catalog = &self.stored[i];
            let selected = match &query.origin_node {
                Some(node) => catalog.origin_node.0 == node.0,
                None => true,
            };
            let ghost seen = stored.take(i as int);
            let ghost now = stored.take(i + 1);
            proof {
                assert(now =~= seen.push(stored[i as int]));
                assert forall|other: CatalogView| #[trigger]
                    now.contains(other) <==> seen.contains(other) || other == stored[i as int] by {
                    if now.contains(other) {
                        let k = choose|k: int| 0 <= k < now.len() && now[k] == other;
                        if k < i {
                            assert(seen[k] == other);
                        }
                    }
                    if seen.contains(other) {
                        let k = choose|k: int| 0 <= k < seen.len() && seen[k] == other;
                        assert(now[k] == other);
                    }
                    if other == stored[i as int] {
                        assert(now[i as int] == other);
                    }
                }
                if seen.contains(stored[i as int]) {
                    let k = choose|k: int| 0 <= k < seen.len() && seen[k] == stored[i as int];
                    assert(stored[k].origin_node != stored[i as int].origin_node);
                }
            }
            if selected {
                insert_in_order(&mut listing, catalog.clone());
            }
            i += 1;
        }
        let ghost all = crate::catalog::catalog_views(listing@);
        proof {
            assert(stored.take(stored.len() as int) =~= stored);
            assert forall|catalog: CatalogView| #[trigger] all.contains(catalog) <==> {
                &&& self.graphs().contains_key(catalog.origin_node)
                &&& self.graphs()[catalog.origin_node] == catalog
                &&& crate::store::selects(query@.origin_node, catalog)
            } by {
                if stored.contains(catalog) {
                    let k = choose|k: int| 0 <= k < stored.len() && stored[k] == catalog;
                    lemma_by_node(stored, k);
                }
                if self.graphs().contains_key(catalog.origin_node) {
                    let k = choose|k: int| comes_from(stored, k, catalog.origin_node);
                    lemma_by_node(stored, k);
                }
            }
            assert(crate::store::lists(all, self.graphs(), query@.origin_node));
        }
        let mut page: Vec<Catalog> = if query.offset <= listing.len() {
            listing.split_off(query.offset)
        } else {
            Vec::new()
        };
        match query.limit {
            Some(limit) => if limit < page.len() {
                page.truncate(limit);
            },
            None => {},
        }
        assert(crate::catalog::catalog_views(page@) =~= crate::store::page(
            all,
            query@.offset,
            query@.limit,
        ));
        Ok(page)
    }

    fn delete(&mut self, node: &NodeId) -> (removed: StoreResult<bool>) {
        proof {
            use_type_invariant(&*self);
        }
        let mut stored: Vec<Catalog> = Vec::new();
        std::mem::swap(&mut stored, &mut self.stored);
        let ghost before = crate::catalog::catalog_views(stored@);
        let removed = match Self::position(&stored, node) {
            Some(i) => {
                proof {
                    lemma_by_node(before, i as int);
                    lemma_removed(before, i as int);
                }
                let _ = stored.remove(i);
                assert(crate::catalog::catalog_views(stored@) =~= before.remove(i as int));
                true
            },
            None => {
                proof {
                    lemma_absent(before, node@);
                    assert(by_node(before).remove(node@) =~= by_node(before));
                }
                false
            },
        };
        self.stored = stored;
        Ok(removed)
    }
}

} // verus!
