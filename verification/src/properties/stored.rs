//! Laws of the in-memory cache and of the routes over a cache, stated on the
//! catalogs that go in and come out.

use crate::api::{
    catalog_request, flatten_cache, get_catalog, get_dsp_dataset, seed_sample_catalog, AppState,
    CatalogListResponse, CatalogParams, Reply,
};
use crate::catalog::{Catalog, CatalogView, DataService, Dataset, NodeId};
use crate::dsp::{DspCatalog, DspDataset};
use crate::memory::InMemoryCatalogCache;
use crate::store::{CatalogCache, CatalogQuery, CatalogQueryView, StoreResult};
use vstd::prelude::*;

verus! {

/// Whether a query asks for everything, from the start and without a limit.
pub open spec fn asks_for_everything(query: CatalogQuery) -> bool {
    query.origin_node is None && query.offset == 0 && query.limit is None
}

/// Whether a query asks for what comes from one node, from the start and
/// without a limit.
pub open spec fn asks_for_node(query: CatalogQuery, node: Seq<char>) -> bool {
    query.origin_node matches Some(asked) && asked.0@ == node && query.offset == 0
        && query.limit is None
}

/// Whether a query selects what another does, from the start and without a
/// limit.
pub open spec fn asks_for_the_whole_of(whole: CatalogQuery, query: CatalogQuery) -> bool {
    &&& whole.offset == 0
    &&& whole.limit is None
    &&& match (whole.origin_node, query.origin_node) {
        (Some(a), Some(b)) => a.0@ == b.0@,
        (None, None) => true,
        _ => false,
    }
}

/// Whether a list of catalogs holds this one.
pub open spec fn holds(list: Seq<Catalog>, catalog: Catalog) -> bool {
    exists|i: int|
        0 <= i < list.len() && crate::properties::documents::same_catalog(
            #[trigger] list[i],
            catalog,
        )
}

/// Whether two lists hold the same catalogs in the same order.
pub open spec fn same_list(a: Seq<Catalog>, b: Seq<Catalog>) -> bool {
    a.len() == b.len() && forall|i: int|
        0 <= i < a.len() ==> crate::properties::documents::same_catalog(#[trigger] a[i], b[i])
}

/// What the in-memory cache returned to a query.
pub open spec fn memory_returned(
    cache: InMemoryCatalogCache,
    query: CatalogQuery,
    found: StoreResult<Vec<Catalog>>,
) -> bool {
    call_ensures(<InMemoryCatalogCache as CatalogCache>::query, (&cache, query), found)
}

proof fn lemma_holds(list: Seq<Catalog>, catalog: Catalog)
    ensures
        holds(list, catalog) <==> crate::catalog::catalog_views(list).contains(catalog@),
{
    let views = crate::catalog::catalog_views(list);
    assert(views.len() == list.len());
    if holds(list, catalog) {
        let i = choose|i: int|
            0 <= i < list.len() && crate::properties::documents::same_catalog(
                #[trigger] list[i],
                catalog,
            );
        crate::properties::documents::catalogs_say_all_they_hold(list[i], catalog);
        assert(views[i] == catalog@);
    }
    if views.contains(catalog@) {
        let i = choose|i: int| 0 <= i < views.len() && views[i] == catalog@;
        assert(list[i]@ == views[i]);
        crate::properties::documents::catalogs_say_all_they_hold(list[i], catalog);
    }
}

proof fn lemma_same_list(a: Seq<Catalog>, b: Seq<Catalog>)
    requires
        crate::catalog::catalog_views(a) == crate::catalog::catalog_views(b),
    ensures
        same_list(a, b),
{
    let x = crate::catalog::catalog_views(a);
    let y = crate::catalog::catalog_views(b);
    assert(x.len() == a.len() && y.len() == b.len());
    assert forall|i: int| 0 <= i < a.len() implies crate::properties::documents::same_catalog(
        #[trigger] a[i],
        b[i],
    ) by {
        assert(x[i] == a[i]@ && y[i] == b[i]@);
        crate::properties::documents::catalogs_say_all_they_hold(a[i], b[i]);
    }
}

/// What a query without offset and limit found is the whole of what it selects.
proof fn lemma_whole(
    cache: InMemoryCatalogCache,
    query: CatalogQuery,
    found: StoreResult<Vec<Catalog>>,
)
    requires
        memory_returned(cache, query, found),
        query.offset == 0,
        query.limit is None,
    ensures
        found is Ok,
        crate::store::lists(
            crate::catalog::catalog_views(found->Ok_0@),
            cache.graphs(),
            query@.origin_node,
        ),
        crate::store::sorted_by_id(crate::catalog::catalog_views(found->Ok_0@)),
{
    let views = crate::catalog::catalog_views(found->Ok_0@);
    let in_order = |listing: Seq<CatalogView>| InMemoryCatalogCache::in_order(listing);
    assert(crate::store::answers(views, cache.graphs(), query@, in_order));
    let listing = choose|listing: Seq<CatalogView>|
        {
            &&& #[trigger] crate::store::lists(listing, cache.graphs(), query@.origin_node)
            &&& in_order(listing)
            &&& views == crate::store::page(listing, query@.offset, query@.limit)
        };
    assert(listing.skip(0) =~= listing);
}

/// A page is the slice of the whole listing that starts at its offset and ends
/// at its limit, or where the listing ends.
pub proof fn pages_are_slices_of_the_listing(
    cache: InMemoryCatalogCache,
    query: CatalogQuery,
    whole_query: CatalogQuery,
    found: StoreResult<Vec<Catalog>>,
    whole: StoreResult<Vec<Catalog>>,
)
    requires
        memory_returned(cache, query, found),
        asks_for_the_whole_of(whole_query, query),
        memory_returned(cache, whole_query, whole),
    ensures
        found matches Ok(page) && whole matches Ok(all) && {
            let rest = if query.offset <= all@.len() {
                all@.len() - query.offset
            } else {
                0
            };
            &&& page@.len() == match query.limit {
                Some(limit) => if limit < rest {
                    limit as int
                } else {
                    rest
                },
                None => rest,
            }
            &&& forall|i: int|
                0 <= i < page@.len() ==> crate::properties::documents::same_catalog(
                    #[trigger] page@[i],
                    all@[query.offset + i],
                )
        },
{
    let page = found->Ok_0@;
    let all = whole->Ok_0@;
    let x = crate::catalog::catalog_views(page);
    let y = crate::catalog::catalog_views(all);
    assert(whole_query@.origin_node == query@.origin_node);
    crate::properties::cache::memory_pages_are_slices(cache.graphs(), query@, x, y);
    assert(x.len() == page.len() && y.len() == all.len());
    assert forall|i: int| 0 <= i < page.len() implies crate::properties::documents::same_catalog(
        #[trigger] page[i],
        all[query.offset + i],
    ) by {
        assert(x[i] == page[i]@);
        assert(y[query.offset + i] == all[query.offset + i]@);
        crate::properties::documents::catalogs_say_all_they_hold(page[i], all[query.offset + i]);
    }
}

/// Catalogs are listed in ascending order of their ids, and those with one id
/// in ascending order of their nodes; no two come from one node.
pub proof fn listings_ascend_by_id(
    cache: InMemoryCatalogCache,
    query: CatalogQuery,
    found: StoreResult<Vec<Catalog>>,
    i: int,
    j: int,
)
    requires
        memory_returned(cache, query, found),
        found matches Ok(list) && 0 <= i < j < list@.len(),
    ensures
        found matches Ok(list) && {
            let a = list@[i];
            let b = list@[j];
            &&& crate::properties::texts::ascending(a.id@, b.id@)
            &&& a.id@ == b.id@ ==> crate::properties::texts::ascending(
                a.origin_node.0@,
                b.origin_node.0@,
            )
            &&& a.origin_node.0@ != b.origin_node.0@
        },
{
    let list = found->Ok_0@;
    let views = crate::catalog::catalog_views(list);
    let in_order = |listing: Seq<CatalogView>| InMemoryCatalogCache::in_order(listing);
    assert(crate::store::answers(views, cache.graphs(), query@, in_order));
    let listing = choose|listing: Seq<CatalogView>|
        {
            &&& #[trigger] crate::store::lists(listing, cache.graphs(), query@.origin_node)
            &&& in_order(listing)
            &&& views == crate::store::page(listing, query@.offset, query@.limit)
        };
    assert(views.len() == list.len());
    assert(views[i] == list[i]@ && views[j] == list[j]@);
    assert(views[i] == listing[query.offset + i]);
    assert(views[j] == listing[query.offset + j]);
    assert(listing.contains(views[i]) && listing.contains(views[j]));
    assert(crate::store::not_listed_after(views[i], views[j]));
    crate::properties::texts::text_order_is_decided_by_the_first_difference(
        list[i].id@,
        list[j].id@,
    );
    crate::properties::texts::text_order_is_decided_by_the_first_difference(
        list[i].origin_node.0@,
        list[j].origin_node.0@,
    );
}

/// A query about one node finds only what comes from it.
pub proof fn queries_about_a_node_find_only_its_catalog(
    cache: InMemoryCatalogCache,
    query: CatalogQuery,
    found: StoreResult<Vec<Catalog>>,
)
    requires
        memory_returned(cache, query, found),
        query.origin_node is Some,
    ensures
        found matches Ok(list) && list@.len() <= 1 && forall|i: int|
            0 <= i < list@.len() ==> (#[trigger] list@[i]).origin_node.0@
                == (query.origin_node->0).0@,
{
    let list = found->Ok_0@;
    let views = crate::catalog::catalog_views(list);
    let in_order = |listing: Seq<CatalogView>| InMemoryCatalogCache::in_order(listing);
    assert(crate::store::answers(views, cache.graphs(), query@, in_order));
    let listing = choose|listing: Seq<CatalogView>|
        {
            &&& #[trigger] crate::store::lists(listing, cache.graphs(), query@.origin_node)
            &&& in_order(listing)
            &&& views == crate::store::page(listing, query@.offset, query@.limit)
        };
    assert(views.len() == list.len());
    assert forall|i: int| 0 <= i < list.len() implies (#[trigger] list[i]).origin_node.0@
        == (query.origin_node->0).0@ by {
        assert(views[i] == list[i]@);
        assert(views[i] == listing[query.offset + i]);
        assert(listing.contains(views[i]));
    }
    if list.len() > 1 {
        listings_ascend_by_id(cache, query, found, 0, 1);
        assert(list[0].origin_node.0@ == list[1].origin_node.0@);
    }
}

/// A new cache holds nothing, however it was made.
pub proof fn new_caches_hold_nothing(
    cache: InMemoryCatalogCache,
    query: CatalogQuery,
    found: StoreResult<Vec<Catalog>>,
)
    requires
        call_ensures(InMemoryCatalogCache::new, (), cache) || call_ensures(
            <InMemoryCatalogCache as Default>::default,
            (),
            cache,
        ),
        memory_returned(cache, query, found),
    ensures
        found matches Ok(list) && list@.len() == 0,
{
    let list = found->Ok_0@;
    let views = crate::catalog::catalog_views(list);
    let in_order = |listing: Seq<CatalogView>| InMemoryCatalogCache::in_order(listing);
    assert(crate::store::answers(views, cache.graphs(), query@, in_order));
    let listing = choose|listing: Seq<CatalogView>|
        {
            &&& #[trigger] crate::store::lists(listing, cache.graphs(), query@.origin_node)
            &&& in_order(listing)
            &&& views == crate::store::page(listing, query@.offset, query@.limit)
        };
    assert(views.len() == list.len());
    if list.len() > 0 {
        assert(views[0] == listing[query.offset as int]);
        assert(listing.contains(views[0]));
    }
}

/// Storing a catalog succeeds. Everything that is found afterwards is the
/// catalog itself, and what was found before of other nodes.
pub proof fn storing_replaces_what_the_node_had(
    cache: &mut InMemoryCatalogCache,
    catalog: Catalog,
    done: StoreResult<()>,
    query: CatalogQuery,
    before: StoreResult<Vec<Catalog>>,
    after: StoreResult<Vec<Catalog>>,
    other: Catalog,
)
    requires
        asks_for_everything(query),
        memory_returned(*old(cache), query, before),
        call_ensures(<InMemoryCatalogCache as CatalogCache>::upsert, (cache, catalog), done),
        memory_returned(*final(cache), query, after),
    ensures
        done is Ok,
        before matches Ok(had) && after matches Ok(has) && (holds(has@, other) <==> {
            ||| crate::properties::documents::same_catalog(other, catalog)
            ||| holds(had@, other) && other.origin_node.0@ != catalog.origin_node.0@
        }),
{
    lemma_whole(*old(cache), query, before);
    lemma_whole(*final(cache), query, after);
    lemma_holds(before->Ok_0@, other);
    lemma_holds(after->Ok_0@, other);
    crate::properties::documents::catalogs_say_all_they_hold(other, catalog);
    assert(crate::store::selects(None, other@));
}

/// Once a catalog has been stored, a query about its node finds exactly it.
pub proof fn stored_catalogs_are_found_by_node(
    cache: &mut InMemoryCatalogCache,
    catalog: Catalog,
    done: StoreResult<()>,
    query: CatalogQuery,
    found: StoreResult<Vec<Catalog>>,
)
    requires
        call_ensures(<InMemoryCatalogCache as CatalogCache>::upsert, (cache, catalog), done),
        asks_for_node(query, catalog.origin_node.0@),
        memory_returned(*final(cache), query, found),
    ensures
        found matches Ok(list) && list@.len() == 1
            && crate::properties::documents::same_catalog(list@[0], catalog),
{
    let list = found->Ok_0@;
    let views = crate::catalog::catalog_views(list);
    let in_order = |listing: Seq<CatalogView>| InMemoryCatalogCache::in_order(listing);
    assert(crate::store::answers(views, final(cache).graphs(), query@, in_order));
    assert(query@ == crate::properties::cache::only_of(catalog@.origin_node));
    crate::properties::cache::stored_catalog_is_found(
        old(cache).graphs(),
        catalog@,
        in_order,
        views,
    );
    assert(views.len() == list.len());
    assert(views[0] == list[0]@);
    crate::properties::documents::catalogs_say_all_they_hold(list[0], catalog);
}

/// Storing a catalog changes nothing that a query about another node finds.
pub proof fn storing_changes_nothing_for_other_nodes(
    cache: &mut InMemoryCatalogCache,
    catalog: Catalog,
    done: StoreResult<()>,
    query: CatalogQuery,
    before: StoreResult<Vec<Catalog>>,
    after: StoreResult<Vec<Catalog>>,
)
    requires
        query.origin_node matches Some(node) && node.0@ != catalog.origin_node.0@,
        memory_returned(*old(cache), query, before),
        call_ensures(<InMemoryCatalogCache as CatalogCache>::upsert, (cache, catalog), done),
        memory_returned(*final(cache), query, after),
    ensures
        before matches Ok(had) && after matches Ok(has) && same_list(had@, has@),
{
    let had = crate::catalog::catalog_views(before->Ok_0@);
    let has = crate::catalog::catalog_views(after->Ok_0@);
    crate::properties::cache::storing_leaves_other_nodes(
        old(cache).graphs(),
        catalog@,
        query@,
        crate::properties::cache::memory_order(),
        has,
    );
    crate::properties::cache::memory_queries_are_reproducible(
        old(cache).graphs(),
        query@,
        had,
        has,
    );
    lemma_same_list(before->Ok_0@, after->Ok_0@);
}

/// Removing a node's catalog succeeds, and reports whether there was one.
/// Everything that is found afterwards is what was found before of other
/// nodes.
pub proof fn removing_takes_out_what_the_node_had(
    cache: &mut InMemoryCatalogCache,
    node: &NodeId,
    removed: StoreResult<bool>,
    query: CatalogQuery,
    before: StoreResult<Vec<Catalog>>,
    after: StoreResult<Vec<Catalog>>,
    other: Catalog,
)
    requires
        asks_for_everything(query),
        memory_returned(*old(cache), query, before),
        call_ensures(<InMemoryCatalogCache as CatalogCache>::delete, (cache, node), removed),
        memory_returned(*final(cache), query, after),
    ensures
        before matches Ok(had) && after matches Ok(has) && removed matches Ok(present) && {
            &&& present <==> exists|i: int|
                0 <= i < had@.len() && (#[trigger] had@[i]).origin_node.0@ == node.0@
            &&& holds(has@, other) <==> holds(had@, other) && other.origin_node.0@ != node.0@
        },
{
    lemma_whole(*old(cache), query, before);
    lemma_whole(*final(cache), query, after);
    lemma_holds(before->Ok_0@, other);
    lemma_holds(after->Ok_0@, other);
    assert(crate::store::selects(None, other@));
    let had = before->Ok_0@;
    let views = crate::catalog::catalog_views(had);
    assert(views.len() == had.len());
    let graphs = old(cache).graphs();
    crate::memory::memory_is_keyed_by_origin(*old(cache));
    if removed->Ok_0 {
        let stored = graphs[node.0@];
        assert(graphs.contains_key(node.0@));
        assert(crate::store::selects(None, stored));
        assert(views.contains(stored));
        let i = choose|i: int| 0 <= i < views.len() && views[i] == stored;
        assert(had[i]@ == views[i]);
        assert(had[i].origin_node.0@ == node.0@);
    }
    assert forall|i: int| 0 <= i < had.len() && (#[trigger] had[i]).origin_node.0@
        == node.0@ implies removed->Ok_0 by {
        assert(views[i] == had[i]@);
        assert(views.contains(views[i]));
    }
}

/// The same query on the same contents finds the same list: two caches that
/// hold the same catalogs answer every query alike.
pub proof fn caches_with_the_same_contents_answer_alike(
    a: InMemoryCatalogCache,
    b: InMemoryCatalogCache,
    query: CatalogQuery,
    from_a: StoreResult<Vec<Catalog>>,
    from_b: StoreResult<Vec<Catalog>>,
)
    requires
        a.graphs() == b.graphs(),
        memory_returned(a, query, from_a),
        memory_returned(b, query, from_b),
    ensures
        from_a matches Ok(x) && from_b matches Ok(y) && same_list(x@, y@),
{
    crate::properties::cache::memory_queries_are_reproducible(
        a.graphs(),
        query@,
        crate::catalog::catalog_views(from_a->Ok_0@),
        crate::catalog::catalog_views(from_b->Ok_0@),
    );
    lemma_same_list(from_a->Ok_0@, from_b->Ok_0@);
}

/// Seeding stores the sample: a query about its node finds exactly it.
pub proof fn seeding_stores_the_sample(
    cache: &mut InMemoryCatalogCache,
    done: StoreResult<()>,
    query: CatalogQuery,
    found: StoreResult<Vec<Catalog>>,
)
    requires
        call_ensures(seed_sample_catalog::<InMemoryCatalogCache>, (cache,), done),
        asks_for_node(query, "sample-participant"@),
        memory_returned(*final(cache), query, found),
    ensures
        done is Ok,
        found matches Ok(list) && list@.len() == 1 && crate::properties::documents::is_sample(
            list@[0],
        ),
{
    let list = found->Ok_0@;
    let views = crate::catalog::catalog_views(list);
    let in_order = |listing: Seq<CatalogView>| InMemoryCatalogCache::in_order(listing);
    assert(crate::store::answers(views, final(cache).graphs(), query@, in_order));
    crate::properties::cache::stored_catalog_is_found(
        old(cache).graphs(),
        crate::api::sample(),
        in_order,
        views,
    );
    assert(views.len() == list.len());
    assert(views[0] == list[0]@);
    crate::properties::documents::lemma_is_sample(list[0]);
}

/// The two ways to make a query ask for everything, and for one node.
pub proof fn queries_ask_for_what_they_say(node: NodeId, all: CatalogQuery, of_node: CatalogQuery)
    requires
        call_ensures(CatalogQuery::all, (), all),
        call_ensures(CatalogQuery::for_node, (node,), of_node),
    ensures
        asks_for_everything(all),
        asks_for_node(of_node, node.0@),
{
}

// --- The routes over any cache ---------------------------------------------

/// Whether a cache returned this to a query for everything.
pub open spec fn returned_for_everything<C: CatalogCache>(
    cache: C,
    found: StoreResult<Vec<Catalog>>,
) -> bool {
    exists|asked: CatalogQuery|
        asks_for_everything(asked) && #[trigger] call_ensures(C::query, (&cache, asked), found)
}

proof fn lemma_returned_for_everything<C: CatalogCache>(
    cache: C,
    found: StoreResult<Vec<Catalog>>,
)
    requires
        crate::api::store_returned(cache, crate::api::requested(None), found),
    ensures
        returned_for_everything(cache, found),
{
    let asked = choose|asked: CatalogQuery|
        asked@ == crate::api::requested(None) && #[trigger] call_ensures(
            C::query,
            (&cache, asked),
            found,
        );
    assert(asks_for_everything(asked));
}

/// The list of catalogs is what the cache returned: to a query for everything,
/// or about the node that was named. Its error is reported with its reason.
pub proof fn listing_asks_the_cache<C: CatalogCache>(
    state: &AppState<C>,
    params: CatalogParams,
    reply: Reply<CatalogListResponse>,
)
    requires
        call_ensures(get_catalog::<C>, (state, params), reply),
    ensures
        exists|asked: CatalogQuery, found: StoreResult<Vec<Catalog>>|
            {
                &&& match params.node_id {
                    Some(node) => asks_for_node(asked, node@),
                    None => asks_for_everything(asked),
                }
                &&& #[trigger] call_ensures(C::query, (&state.cache, asked), found)
                &&& match found {
                    Ok(catalogs) => reply matches Reply::Success(body) && body.catalogs
                        == catalogs,
                    Err(error) => crate::properties::documents::tells(reply, error),
                }
            },
{
    let wanted = crate::api::requested(crate::catalog::optional_text(params.node_id));
    let found = choose|found: StoreResult<Vec<Catalog>>|
        {
            &&& #[trigger] crate::api::store_returned(state.cache, wanted, found)
            &&& crate::api::lists_found(reply, found)
        };
    let asked = choose|asked: CatalogQuery|
        asked@ == wanted && #[trigger] call_ensures(C::query, (&state.cache, asked), found);
    assert(match params.node_id {
        Some(node) => asks_for_node(asked, node@),
        None => asks_for_everything(asked),
    });
}

/// Flattening a cache flattens what it returned to a query for everything, or
/// hands on its error.
pub proof fn flattening_asks_the_cache<C: CatalogCache>(
    cache: &C,
    flattened: StoreResult<(Vec<Dataset>, Vec<DataService>)>,
)
    requires
        call_ensures(flatten_cache::<C>, (cache,), flattened),
    ensures
        exists|found: StoreResult<Vec<Catalog>>|
            {
                &&& #[trigger] returned_for_everything(*cache, found)
                &&& match found {
                    Ok(catalogs) => flattened matches Ok(parts)
                        && crate::properties::documents::holds_everything(
                        parts.0@,
                        parts.1@,
                        catalogs@,
                    ),
                    Err(error) => flattened matches Err(handed_on) && handed_on == error,
                }
            },
{
    lemma_flattened(*cache, flattened);
}

proof fn lemma_flattened<C: CatalogCache>(
    cache: C,
    flattened: StoreResult<(Vec<Dataset>, Vec<DataService>)>,
) -> (found: StoreResult<Vec<Catalog>>)
    requires
        crate::api::flattened_store(cache, flattened),
    ensures
        returned_for_everything(cache, found),
        match found {
            Ok(catalogs) => flattened matches Ok(parts)
                && crate::properties::documents::holds_everything(parts.0@, parts.1@, catalogs@),
            Err(error) => flattened matches Err(handed_on) && handed_on == error,
        },
{
    let found = choose|found: StoreResult<Vec<Catalog>>| #[trigger]
        crate::api::store_returned(cache, crate::api::requested(None), found)
            && crate::api::flattens(flattened, found);
    lemma_returned_for_everything(cache, found);
    if let Ok(catalogs) = found {
        let parts = flattened->Ok_0;
        crate::properties::documents::lemma_holds_everything(parts.0@, parts.1@, catalogs@);
    }
    found
}

/// The catalog document is every dataset and service of what the cache
/// returned to a query for everything, in order and whole. The cache's error
/// is reported with its reason; nothing else is answered.
pub proof fn catalog_documents_show_the_cache<C: CatalogCache>(
    state: &AppState<C>,
    reply: Reply<DspCatalog>,
)
    requires
        call_ensures(catalog_request::<C>, (state,), reply),
    ensures
        exists|found: StoreResult<Vec<Catalog>>|
            {
                &&& #[trigger] returned_for_everything(state.cache, found)
                &&& match found {
                    Ok(catalogs) => reply matches Reply::Success(body) && exists|
                        datasets: Seq<Dataset>,
                        services: Seq<DataService>,
                    | #[trigger]
                        crate::properties::documents::holds_everything(
                            datasets,
                            services,
                            catalogs@,
                        ) && crate::properties::documents::serves_whole_catalog(
                            body,
                            datasets,
                            services,
                        ),
                    Err(error) => crate::properties::documents::tells(reply, error),
                }
            },
{
    let flattened = choose|flattened: StoreResult<(Vec<Dataset>, Vec<DataService>)>| #[trigger]
        crate::api::flattened_store(state.cache, flattened) && crate::api::serves_catalog(
            reply,
            flattened,
        );
    let found = lemma_flattened(state.cache, flattened);
    if let Ok(parts) = flattened {
        crate::properties::documents::lemma_federated_catalog(
            reply->Success_0,
            parts.0@,
            parts.1@,
        );
    }
}

/// A lookup serves the first dataset of that id in what the cache returned to
/// a query for everything, or says that there is none. The cache's error is
/// reported with its reason.
pub proof fn lookups_show_the_cache<C: CatalogCache>(
    state: &AppState<C>,
    id: &str,
    reply: Reply<DspDataset>,
)
    requires
        call_ensures(get_dsp_dataset::<C>, (state, id), reply),
    ensures
        exists|found: StoreResult<Vec<Catalog>>|
            {
                &&& #[trigger] returned_for_everything(state.cache, found)
                &&& match found {
                    Ok(catalogs) => exists|datasets: Seq<Dataset>, services: Seq<DataService>|
                        #[trigger]
                        crate::properties::documents::holds_everything(
                            datasets,
                            services,
                            catalogs@,
                        ) && crate::properties::documents::serves_the_first(
                            reply,
                            datasets,
                            id@,
                        ),
                    Err(error) => crate::properties::documents::tells(reply, error),
                }
            },
{
    let flattened = choose|flattened: StoreResult<(Vec<Dataset>, Vec<DataService>)>| #[trigger]
        crate::api::flattened_store(state.cache, flattened) && crate::api::answers_lookup(
            reply,
            flattened,
            id@,
        );
    let found = lemma_flattened(state.cache, flattened);
    if let Ok(parts) = flattened {
        crate::properties::documents::lemma_serves_the_first(reply, parts.0@, id@);
    }
}

} // verus!
