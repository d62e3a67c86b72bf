//! Laws of the catalog cache: what a query finds after what was stored.

use crate::catalog::CatalogView;
use crate::memory::InMemoryCatalogCache;
use crate::store::{CatalogCache, CatalogQueryView};
use vstd::prelude::*;

verus! {

/// The query for everything.
pub open spec fn everything() -> CatalogQueryView {
    CatalogQueryView { origin_node: None, offset: 0, limit: None }
}

/// The query for one node's catalog.
pub open spec fn only_of(node: Seq<char>) -> CatalogQueryView {
    CatalogQueryView { origin_node: Some(node), offset: 0, limit: None }
}

/// Read after write: once a catalog has been stored, a query for its node
/// finds exactly that catalog, whatever was stored for the node before.
pub proof fn stored_catalog_is_found(
    graphs: Map<Seq<char>, CatalogView>,
    catalog: CatalogView,
    in_order: spec_fn(Seq<CatalogView>) -> bool,
    found: Seq<CatalogView>,
)
    requires
        crate::store::answers(
            found,
            graphs.insert(catalog.origin_node, catalog),
            only_of(catalog.origin_node),
            in_order,
        ),
    ensures
        found == seq![catalog],
{
    let after = graphs.insert(catalog.origin_node, catalog);
    let node = Some(catalog.origin_node);
    let listing = choose|listing: Seq<CatalogView>|
        {
            &&& #[trigger] crate::store::lists(listing, after, node)
            &&& in_order(listing)
            &&& found == crate::store::page(listing, 0, None)
        };
    assert(found =~= listing);
    assert(listing.contains(catalog));
    assert forall|i: int| 0 <= i < listing.len() implies listing[i] == catalog by {
        assert(listing.contains(listing[i]));
    }
    if listing.len() > 1 {
        assert(listing[0] == listing[1]);
    }
    assert(listing =~= seq![catalog]);
}

/// Storing a catalog changes nothing for queries about other nodes.
pub proof fn storing_leaves_other_nodes(
    graphs: Map<Seq<char>, CatalogView>,
    catalog: CatalogView,
    query: CatalogQueryView,
    in_order: spec_fn(Seq<CatalogView>) -> bool,
    found: Seq<CatalogView>,
)
    requires
        query.origin_node matches Some(node) && node != catalog.origin_node,
    ensures
        crate::store::answers(
            found,
            graphs.insert(catalog.origin_node, catalog),
            query,
            in_order,
        ) == crate::store::answers(found, graphs, query, in_order),
{
    let after = graphs.insert(catalog.origin_node, catalog);
    lemma_same_entry(graphs, after, query, in_order, found);
    lemma_same_entry(after, graphs, query, in_order, found);
}

proof fn lemma_same_entry(
    first: Map<Seq<char>, CatalogView>,
    second: Map<Seq<char>, CatalogView>,
    query: CatalogQueryView,
    in_order: spec_fn(Seq<CatalogView>) -> bool,
    found: Seq<CatalogView>,
)
    requires
        query.origin_node matches Some(node) && first.contains_key(node) == second.contains_key(
            node,
        ) && first[node] == second[node],
    ensures
        crate::store::answers(found, first, query, in_order) ==> crate::store::answers(
            found,
            second,
            query,
            in_order,
        ),
{
    let node = query.origin_node;
    assert forall|listing: Seq<CatalogView>| #[trigger]
        crate::store::lists(listing, first, node) implies crate::store::lists(
        listing,
        second,
        node,
    ) by {
        assert forall|catalog: CatalogView| #[trigger] listing.contains(catalog) <==> {
            &&& second.contains_key(catalog.origin_node)
            &&& second[catalog.origin_node] == catalog
            &&& crate::store::selects(node, catalog)
        } by {
            assert(listing.contains(catalog) ==> crate::store::selects(node, catalog));
        }
    }
}

/// Once a node's catalog has been removed, a query for the node finds
/// nothing, and removing it again reports that there was nothing.
pub proof fn removed_catalog_is_gone(
    graphs: Map<Seq<char>, CatalogView>,
    node: Seq<char>,
    in_order: spec_fn(Seq<CatalogView>) -> bool,
    found: Seq<CatalogView>,
)
    requires
        crate::store::answers(found, graphs.remove(node), only_of(node), in_order),
    ensures
        found == Seq::<CatalogView>::empty(),
        !graphs.remove(node).contains_key(node),
{
    unknown_node_has_no_catalog(graphs.remove(node), node, in_order, found);
}

/// A query for a node nothing is stored for finds nothing.
pub proof fn unknown_node_has_no_catalog(
    graphs: Map<Seq<char>, CatalogView>,
    node: Seq<char>,
    in_order: spec_fn(Seq<CatalogView>) -> bool,
    found: Seq<CatalogView>,
)
    requires
        !graphs.contains_key(node),
        crate::store::answers(found, graphs, only_of(node), in_order),
    ensures
        found == Seq::<CatalogView>::empty(),
{
    let listing = choose|listing: Seq<CatalogView>|
        {
            &&& #[trigger] crate::store::lists(listing, graphs, Some(node))
            &&& in_order(listing)
            &&& found == crate::store::page(listing, 0, None)
        };
    assert(found =~= listing);
    if listing.len() > 0 {
        assert(listing.contains(listing[0]));
    }
    assert(found =~= Seq::<CatalogView>::empty());
}

/// Removing a catalog changes nothing for queries about other nodes.
pub proof fn removing_leaves_other_nodes(
    graphs: Map<Seq<char>, CatalogView>,
    removed: Seq<char>,
    query: CatalogQueryView,
    in_order: spec_fn(Seq<CatalogView>) -> bool,
    found: Seq<CatalogView>,
)
    requires
        query.origin_node matches Some(node) && node != removed,
    ensures
        crate::store::answers(found, graphs.remove(removed), query, in_order)
            == crate::store::answers(found, graphs, query, in_order),
{
    let after = graphs.remove(removed);
    lemma_same_entry(graphs, after, query, in_order, found);
    lemma_same_entry(after, graphs, query, in_order, found);
}

/// Removing a node's catalog undoes storing one for a node that had none.
pub proof fn removing_undoes_storing(
    graphs: Map<Seq<char>, CatalogView>,
    catalog: CatalogView,
)
    requires
        !graphs.contains_key(catalog.origin_node),
    ensures
        graphs.insert(catalog.origin_node, catalog).remove(catalog.origin_node) == graphs,
{
    assert(graphs.insert(catalog.origin_node, catalog).remove(catalog.origin_node) =~= graphs);
}

/// Storing a second catalog for a node leaves no trace of the first.
pub proof fn storing_replaces_wholesale(
    graphs: Map<Seq<char>, CatalogView>,
    first: CatalogView,
    second: CatalogView,
)
    requires
        first.origin_node == second.origin_node,
    ensures
        graphs.insert(first.origin_node, first).insert(second.origin_node, second)
            == graphs.insert(second.origin_node, second),
{
    assert(graphs.insert(first.origin_node, first).insert(second.origin_node, second)
        =~= graphs.insert(second.origin_node, second));
}

/// An empty cache stores every catalog under its node, and storing and
/// removing keep it so.
pub proof fn always_keyed_by_origin(
    graphs: Map<Seq<char>, CatalogView>,
    catalog: CatalogView,
    node: Seq<char>,
)
    ensures
        crate::store::keyed_by_origin(Map::empty()),
        crate::store::keyed_by_origin(graphs) ==> {
            &&& crate::store::keyed_by_origin(graphs.insert(catalog.origin_node, catalog))
            &&& crate::store::keyed_by_origin(graphs.remove(node))
        },
{
}

/// The query for everything finds every stored catalog exactly once: there
/// are as many as nodes, and each is the one that its node's entry holds.
pub proof fn everything_is_found_once(
    graphs: Map<Seq<char>, CatalogView>,
    in_order: spec_fn(Seq<CatalogView>) -> bool,
    found: Seq<CatalogView>,
)
    requires
        crate::store::keyed_by_origin(graphs),
        crate::store::answers(found, graphs, everything(), in_order),
    ensures
        found.len() == graphs.dom().len(),
        forall|node: Seq<char>|
            graphs.contains_key(node) ==> found.contains(#[trigger] graphs[node]),
        forall|i: int|
            0 <= i < found.len() ==> graphs.contains_key((#[trigger] found[i]).origin_node)
                && graphs[found[i].origin_node] == found[i],
{
    let listing = choose|listing: Seq<CatalogView>|
        {
            &&& #[trigger] crate::store::lists(listing, graphs, None)
            &&& in_order(listing)
            &&& found == crate::store::page(listing, 0, None)
        };
    assert(found =~= listing);
    assert forall|i: int| 0 <= i < found.len() implies graphs.contains_key(
        (#[trigger] found[i]).origin_node,
    ) && graphs[found[i].origin_node] == found[i] by {
        assert(found.contains(found[i]));
    }
    assert forall|node: Seq<char>| graphs.contains_key(node) implies found.contains(
        #[trigger] graphs[node],
    ) by {
        assert(crate::store::selects(None, graphs[node]));
    }
    let nodes = found.map_values(|catalog: CatalogView| catalog.origin_node);
    assert(nodes.no_duplicates()) by {
        assert forall|i: int, j: int| 0 <= i < j < nodes.len() implies nodes[i] != nodes[j] by {
            assert(found[i] != found[j]);
        }
    }
    assert forall|node: Seq<char>| nodes.to_set().contains(node) <==> graphs.dom().contains(
        node,
    ) by {
        if graphs.contains_key(node) {
            let i = choose|i: int| 0 <= i < found.len() && found[i] == graphs[node];
            assert(nodes[i] == node);
        }
        if nodes.contains(node) {
            let i = choose|i: int| 0 <= i < nodes.len() && nodes[i] == node;
            assert(graphs.contains_key(found[i].origin_node));
        }
    }
    assert(nodes.to_set() =~= graphs.dom());
    nodes.unique_seq_to_set();
}

/// A page holds at most its limit, and no fewer while there is more to list.
pub proof fn page_length(list: Seq<CatalogView>, offset: nat, limit: nat)
    ensures
        crate::store::page(list, offset, Some(limit)).len() == if offset + limit <= list.len() {
            limit as int
        } else if offset <= list.len() {
            list.len() - offset
        } else {
            0
        },
{
}

/// Consecutive pages of one listing, put together, are the page of both
/// lengths; without a limit on the second they are the rest of the listing.
pub proof fn pages_join(list: Seq<CatalogView>, offset: nat, first: nat, second: Option<nat>)
    ensures
        crate::store::page(list, offset, Some(first)) + crate::store::page(
            list,
            offset + first,
            second,
        ) == crate::store::page(
            list,
            offset,
            match second {
                Some(second) => Some(first + second),
                None => None,
            },
        ),
{
    let whole = crate::store::page(
        list,
        offset,
        match second {
            Some(second) => Some(first + second),
            None => None,
        },
    );
    assert(crate::store::page(list, offset, Some(first)) + crate::store::page(
        list,
        offset + first,
        second,
    ) =~= whole);
}

proof fn lemma_one_sorted_listing(a: Seq<CatalogView>, b: Seq<CatalogView>)
    requires
        a.no_duplicates(),
        b.no_duplicates(),
        forall|catalog: CatalogView| a.contains(catalog) <==> b.contains(catalog),
        crate::store::sorted_by_id(a),
        crate::store::sorted_by_id(b),
        forall|i: int, j: int|
            0 <= i < j < a.len() ==> (#[trigger] a[i]).origin_node != (
            #[trigger] a[j]).origin_node,
    ensures
        a == b,
    decreases a.len(),
{
    if a.len() == 0 {
        if b.len() > 0 {
            assert(b.contains(b[0]));
        }
        assert(a =~= b);
    } else {
        assert(a.contains(a.last()));
        let k = choose|k: int| 0 <= k < b.len() && b[k] == a.last();
        assert(b.contains(b.last()));
        let j = choose|j: int| 0 <= j < a.len() && a[j] == b.last();
        assert(crate::store::not_listed_after(a[j], a[a.len() - 1]));
        assert(crate::store::not_listed_after(b[k], b[b.len() - 1]));
        crate::store::lemma_listing_order_antisymmetric(a.last(), b.last());
        assert(j == a.len() - 1);
        let shorter_a = a.drop_last();
        let shorter_b = b.drop_last();
        assert forall|catalog: CatalogView|
            shorter_a.contains(catalog) <==> shorter_b.contains(catalog) by {
            if shorter_a.contains(catalog) {
                let i = choose|i: int| 0 <= i < shorter_a.len() && shorter_a[i] == catalog;
                assert(a[i] == catalog);
                assert(a.contains(catalog));
                let h = choose|h: int| 0 <= h < b.len() && b[h] == catalog;
                assert(shorter_b[h] == catalog);
            }
            if shorter_b.contains(catalog) {
                let i = choose|i: int| 0 <= i < shorter_b.len() && shorter_b[i] == catalog;
                assert(b[i] == catalog);
                assert(b.contains(catalog));
                let h = choose|h: int| 0 <= h < a.len() && a[h] == catalog;
                assert(shorter_a[h] == catalog);
            }
        }
        assert forall|i: int, j: int|
            0 <= i <= j < shorter_a.len() implies crate::store::not_listed_after(
            #[trigger] shorter_a[i],
            #[trigger] shorter_a[j],
        ) by {
            assert(crate::store::not_listed_after(a[i], a[j]));
        }
        assert forall|i: int, j: int|
            0 <= i <= j < shorter_b.len() implies crate::store::not_listed_after(
            #[trigger] shorter_b[i],
            #[trigger] shorter_b[j],
        ) by {
            assert(crate::store::not_listed_after(b[i], b[j]));
        }
        lemma_one_sorted_listing(shorter_a, shorter_b);
        assert(a =~= shorter_a.push(a.last()));
        assert(b =~= shorter_b.push(b.last()));
    }
}

/// The order in which the in-memory cache lists catalogs.
pub open spec fn memory_order() -> spec_fn(Seq<CatalogView>) -> bool {
    |listing: Seq<CatalogView>| InMemoryCatalogCache::in_order(listing)
}

/// There is one order in which the in-memory cache lists the catalogs that a
/// query selects, whatever their ids.
pub proof fn memory_listings_are_unique(
    graphs: Map<Seq<char>, CatalogView>,
    origin_node: Option<Seq<char>>,
    a: Seq<CatalogView>,
    b: Seq<CatalogView>,
)
    requires
        crate::store::lists(a, graphs, origin_node),
        crate::store::lists(b, graphs, origin_node),
        memory_order()(a),
        memory_order()(b),
    ensures
        a == b,
{
    assert forall|i: int, j: int| 0 <= i < j < a.len() implies (#[trigger] a[i]).origin_node != (
    #[trigger] a[j]).origin_node by {
        assert(a.contains(a[i]));
        assert(a.contains(a[j]));
    }
    assert forall|catalog: CatalogView| a.contains(catalog) <==> b.contains(catalog) by {}
    lemma_one_sorted_listing(a, b);
}

/// Queries to the in-memory cache are reproducible: the same query on the same
/// contents, in one cache or in two, always finds the same list.
pub proof fn memory_queries_are_reproducible(
    graphs: Map<Seq<char>, CatalogView>,
    query: CatalogQueryView,
    first: Seq<CatalogView>,
    second: Seq<CatalogView>,
)
    requires
        crate::store::answers(first, graphs, query, memory_order()),
        crate::store::answers(second, graphs, query, memory_order()),
    ensures
        first == second,
{
    let a = lemma_listing_behind(graphs, query, first);
    let b = lemma_listing_behind(graphs, query, second);
    memory_listings_are_unique(graphs, query.origin_node, a, b);
}

proof fn lemma_listing_behind(
    graphs: Map<Seq<char>, CatalogView>,
    query: CatalogQueryView,
    found: Seq<CatalogView>,
) -> (listing: Seq<CatalogView>)
    requires
        crate::store::answers(found, graphs, query, memory_order()),
    ensures
        crate::store::lists(listing, graphs, query.origin_node),
        memory_order()(listing),
        found == crate::store::page(listing, query.offset, query.limit),
{
    let in_order = memory_order();
    choose|listing: Seq<CatalogView>|
        {
            &&& #[trigger] crate::store::lists(listing, graphs, query.origin_node)
            &&& in_order(listing)
            &&& found == crate::store::page(listing, query.offset, query.limit)
        }
}

/// A page of the in-memory cache is the slice at its offset, cut to its limit,
/// of what the same query without offset and limit finds.
pub proof fn memory_pages_are_slices(
    graphs: Map<Seq<char>, CatalogView>,
    query: CatalogQueryView,
    found: Seq<CatalogView>,
    whole: Seq<CatalogView>,
)
    requires
        crate::store::answers(found, graphs, query, memory_order()),
        crate::store::answers(
            whole,
            graphs,
            CatalogQueryView { offset: 0, limit: None, ..query },
            memory_order(),
        ),
    ensures
        found == crate::store::page(whole, query.offset, query.limit),
{
    let a = lemma_listing_behind(graphs, query, found);
    let b = lemma_listing_behind(
        graphs,
        CatalogQueryView { offset: 0, limit: None, ..query },
        whole,
    );
    memory_listings_are_unique(graphs, query.origin_node, a, b);
    assert(b.skip(0) =~= b);
}

/// The items of a list of pages, page by page.
pub open spec fn put_together(pages: Seq<Seq<CatalogView>>) -> Seq<CatalogView>
    decreases pages.len(),
{
    if pages.len() == 0 {
        Seq::empty()
    } else {
        put_together(pages.drop_last()) + pages.last()
    }
}

proof fn lemma_pages_of_one_size(
    whole: Seq<CatalogView>,
    size: nat,
    pages: Seq<Seq<CatalogView>>,
)
    requires
        forall|i: int|
            0 <= i < pages.len() ==> #[trigger] pages[i] == crate::store::page(
                whole,
                (i * size) as nat,
                Some(size),
            ),
    ensures
        put_together(pages) == crate::store::page(whole, 0, Some(pages.len() * size)),
    decreases pages.len(),
{
    if pages.len() == 0 {
        assert(put_together(pages) =~= crate::store::page(whole, 0, Some(0)));
    } else {
        let earlier = pages.drop_last();
        assert forall|i: int| 0 <= i < earlier.len() implies #[trigger] earlier[i]
            == crate::store::page(whole, (i * size) as nat, Some(size)) by {
            assert(pages[i] == crate::store::page(whole, (i * size) as nat, Some(size)));
        }
        lemma_pages_of_one_size(whole, size, earlier);
        let count = earlier.len();
        assert(pages[count as int] == crate::store::page(
            whole,
            (count * size) as nat,
            Some(size),
        ));
        pages_join(whole, 0, count * size, Some(size));
        assert(count * size + size == pages.len() * size) by (nonlinear_arith)
            requires
                pages.len() == count + 1,
        ;
    }
}

/// Paging through the in-memory cache loses, repeats and reorders nothing:
/// the pages of one size, each asked for by a query of its own, are put
/// together exactly what one query for everything selected finds, once there
/// are enough of them.
pub proof fn memory_pages_cover_everything(
    graphs: Map<Seq<char>, CatalogView>,
    origin_node: Option<Seq<char>>,
    size: nat,
    pages: Seq<Seq<CatalogView>>,
    whole: Seq<CatalogView>,
)
    requires
        crate::store::answers(
            whole,
            graphs,
            CatalogQueryView { origin_node, offset: 0, limit: None },
            memory_order(),
        ),
        forall|i: int|
            0 <= i < pages.len() ==> crate::store::answers(
                #[trigger] pages[i],
                graphs,
                CatalogQueryView { origin_node, offset: (i * size) as nat, limit: Some(size) },
                memory_order(),
            ),
        pages.len() * size >= whole.len(),
    ensures
        put_together(pages) == whole,
{
    assert forall|i: int| 0 <= i < pages.len() implies #[trigger] pages[i] == crate::store::page(
        whole,
        (i * size) as nat,
        Some(size),
    ) by {
        let query = CatalogQueryView {
            origin_node,
            offset: (i * size) as nat,
            limit: Some(size),
        };
        memory_pages_are_slices(graphs, query, pages[i], whole);
    }
    lemma_pages_of_one_size(whole, size, pages);
    assert(crate::store::page(whole, 0, Some(pages.len() * size)) =~= whole);
}

/// Pagination over the in-memory cache is reproducible: a page and the page
/// after it, each asked for by a query of its own, are together what one query
/// for both finds.
pub proof fn memory_pages_join(
    graphs: Map<Seq<char>, CatalogView>,
    query: CatalogQueryView,
    first: nat,
    second: Option<nat>,
    first_page: Seq<CatalogView>,
    second_page: Seq<CatalogView>,
    both: Seq<CatalogView>,
)
    requires
        crate::store::answers(
            first_page,
            graphs,
            CatalogQueryView { limit: Some(first), ..query },
            memory_order(),
        ),
        crate::store::answers(
            second_page,
            graphs,
            CatalogQueryView { offset: query.offset + first, limit: second, ..query },
            memory_order(),
        ),
        crate::store::answers(
            both,
            graphs,
            CatalogQueryView {
                limit: match second {
                    Some(second) => Some(first + second),
                    None => None,
                },
                ..query
            },
            memory_order(),
        ),
    ensures
        first_page + second_page == both,
{
    let a = lemma_listing_behind(
        graphs,
        CatalogQueryView { limit: Some(first), ..query },
        first_page,
    );
    let b = lemma_listing_behind(
        graphs,
        CatalogQueryView { offset: query.offset + first, limit: second, ..query },
        second_page,
    );
    let c = lemma_listing_behind(
        graphs,
        CatalogQueryView {
            limit: match second {
                Some(second) => Some(first + second),
                None => None,
            },
            ..query
        },
        both,
    );
    memory_listings_are_unique(graphs, query.origin_node, a, b);
    memory_listings_are_unique(graphs, query.origin_node, a, c);
    pages_join(a, query.offset, first, second);
}

} // verus!
