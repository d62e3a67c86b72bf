//! Storage abstraction for the federated catalog cache.
//!
//! Each participant's crawled catalog is stored as a whole, keyed by its
//! origin node: a cache is a map from node identifiers to catalogs. The
//! [`CatalogCache`] trait says what every backend does to that map; which
//! order a backend lists catalogs in is its own.

use crate::catalog::{Catalog, CatalogView, NodeId};
use vstd::prelude::*;

verus! {

/// Errors a [`CatalogCache`] backend can report.
#[derive(Debug)]
pub enum StoreError {
    Backend(String),
}

impl StoreError {
    /// The error as a message.
    pub fn to_string(&self) -> (message: String)
        ensures
            message@ == store_error_message(*self),
    {
        match self {
            StoreError::Backend(reason) => "catalog store backend error: ".to_owned().concat(
                reason.as_str(),
            ),
        }
    }
}

/// What a store error says.
pub open spec fn store_error_message(error: StoreError) -> Seq<char> {
    match error {
        StoreError::Backend(reason) => "catalog store backend error: "@ + reason@,
    }
}

pub type StoreResult<T> = Result<T, StoreError>;

/// A query over stored catalogs: an optional origin to select by, and the
/// page of the selected catalogs to return.
#[derive(Debug, Clone)]
pub struct CatalogQuery {
    pub origin_node: Option<NodeId>,
    pub offset: usize,
    pub limit: Option<usize>,
}

/// What a [`CatalogQuery`] asks for.
pub struct CatalogQueryView {
    pub origin_node: Option<Seq<char>>,
    pub offset: nat,
    pub limit: Option<nat>,
}

impl View for CatalogQuery {
    type V = CatalogQueryView;

    open spec fn view(&self) -> CatalogQueryView {
        CatalogQueryView {
            origin_node: match self.origin_node {
                Some(node) => Some(node@),
                None => None,
            },
            offset: self.offset as nat,
            limit: match self.limit {
                Some(limit) => Some(limit as nat),
                None => None,
            },
        }
    }
}

impl Default for CatalogQuery {
    fn default() -> (query: CatalogQuery)
        ensures
            query@ == (CatalogQueryView { origin_node: None, offset: 0, limit: None }),
    {
        CatalogQuery { origin_node: None, offset: 0, limit: None }
    }
}

impl CatalogQuery {
    /// No filter, no offset, no limit.
    pub fn all() -> (query: CatalogQuery)
        ensures
            query@ == (CatalogQueryView { origin_node: None, offset: 0, limit: None }),
    {
        CatalogQuery::default()
    }

    /// Only the catalog crawled from `node`, if any.
    pub fn for_node(node: NodeId) -> (query: CatalogQuery)
        ensures
            query@ == (CatalogQueryView { origin_node: Some(node@), offset: 0, limit: None }),
    {
        CatalogQuery { origin_node: Some(node), offset: 0, limit: None }
    }
}

/// Whether a catalog is selected: without a node every catalog is, with one
/// only that node's.
pub open spec fn selects(origin_node: Option<Seq<char>>, catalog: CatalogView) -> bool {
    origin_node matches Some(node) ==> catalog.origin_node == node
}

/// Whether `listing` names each selected catalog of `graphs` once and nothing
/// else.
pub open spec fn lists(
    listing: Seq<CatalogView>,
    graphs: Map<Seq<char>, CatalogView>,
    origin_node: Option<Seq<char>>,
) -> bool {
    &&& listing.no_duplicates()
    &&& forall|catalog: CatalogView| #[trigger]
        listing.contains(catalog) <==> {
            &&& graphs.contains_key(catalog.origin_node)
            &&& graphs[catalog.origin_node] == catalog
            &&& selects(origin_node, catalog)
        }
}

/// What is left of `list` after skipping `offset` items, cut to at most
/// `limit`.
pub open spec fn page<T>(list: Seq<T>, offset: nat, limit: Option<nat>) -> Seq<T> {
    let rest = if offset <= list.len() {
        list.skip(offset as int)
    } else {
        Seq::empty()
    };
    match limit {
        Some(limit) => if limit < rest.len() {
            rest.take(limit as int)
        } else {
            rest
        },
        None => rest,
    }
}

/// Whether `a` is listed no later than `b`: by id, and under one id by origin
/// node.
pub open spec fn not_listed_after(a: CatalogView, b: CatalogView) -> bool {
    if a.id == b.id {
        crate::text::text_le(a.origin_node, b.origin_node)
    } else {
        crate::text::text_le(a.id, b.id)
    }
}

/// Whether catalogs are listed by id, and under one id by origin node.
pub open spec fn sorted_by_id(listing: Seq<CatalogView>) -> bool {
    forall|i: int, j: int|
        0 <= i <= j < listing.len() ==> not_listed_after(
            #[trigger] listing[i],
            #[trigger] listing[j],
        )
}

/// Every catalog is listed no later than itself.
pub proof fn lemma_listing_order_reflexive(a: CatalogView)
    ensures
        not_listed_after(a, a),
{
    crate::text::lemma_text_le_reflexive(a.origin_node);
}

/// Of two catalogs one is listed no later than the other.
pub proof fn lemma_listing_order_total(a: CatalogView, b: CatalogView)
    ensures
        not_listed_after(a, b) || not_listed_after(b, a),
{
    crate::text::lemma_text_le_total(a.id, b.id);
    crate::text::lemma_text_le_total(a.origin_node, b.origin_node);
}

/// Catalogs that are each listed no later than the other have the same id and
/// come from the same node.
pub proof fn lemma_listing_order_antisymmetric(a: CatalogView, b: CatalogView)
    requires
        not_listed_after(a, b),
        not_listed_after(b, a),
    ensures
        a.id == b.id,
        a.origin_node == b.origin_node,
{
    if a.id != b.id {
        crate::text::lemma_text_le_antisymmetric(a.id, b.id);
    }
    crate::text::lemma_text_le_antisymmetric(a.origin_node, b.origin_node);
}

/// What is listed no later than a catalog is listed no later than what that
/// one is listed no later than.
pub proof fn lemma_listing_order_transitive(a: CatalogView, b: CatalogView, c: CatalogView)
    requires
        not_listed_after(a, b),
        not_listed_after(b, c),
    ensures
        not_listed_after(a, c),
{
    if a.id == b.id && b.id == c.id {
        crate::text::lemma_text_le_transitive(a.origin_node, b.origin_node, c.origin_node);
    } else if a.id != b.id && b.id != c.id {
        if a.id == c.id {
            crate::text::lemma_text_le_antisymmetric(a.id, b.id);
        } else {
            crate::text::lemma_text_le_transitive(a.id, b.id, c.id);
        }
    }
}

/// Whether every catalog is stored under the node it comes from.
pub open spec fn keyed_by_origin(graphs: Map<Seq<char>, CatalogView>) -> bool {
    forall|node: Seq<char>| #[trigger]
        graphs.contains_key(node) ==> graphs[node].origin_node == node
}

/// Whether `found` answers `query` on `graphs`: it is the page asked for, out
/// of a listing of the selected catalogs in an order that `in_order` admits.
pub open spec fn answers(
    found: Seq<CatalogView>,
    graphs: Map<Seq<char>, CatalogView>,
    query: CatalogQueryView,
    in_order: spec_fn(Seq<CatalogView>) -> bool,
) -> bool {
    exists|listing: Seq<CatalogView>|
        {
            &&& #[trigger] lists(listing, graphs, query.origin_node)
            &&& in_order(listing)
            &&& found == page(listing, query.offset, query.limit)
        }
}

/// Storage for crawled catalogs, one named graph per origin node.
pub trait CatalogCache: Send + Sync + Sized {
    /// The catalog stored for each node.
    spec fn graphs(&self) -> Map<Seq<char>, CatalogView>;

    /// Whether this backend may list catalogs in the given order.
    spec fn in_order(listing: Seq<CatalogView>) -> bool;

    /// Whether this backend never reports an error.
    spec fn never_fails() -> bool;

    /// Insert or replace the named graph for `catalog.origin_node`.
    ///
    /// Re-crawling the same node always overwrites its prior catalog
    /// wholesale.
    fn upsert(&mut self, catalog: Catalog) -> (done: StoreResult<()>)
        ensures
            Self::never_fails() ==> done is Ok,
            done is Ok ==> final(self).graphs() == old(self).graphs().insert(
                catalog@.origin_node,
                catalog@,
            ),
    ;

    /// Return stored catalogs matching `query`.
    fn query(&self, query: CatalogQuery) -> (found: StoreResult<Vec<Catalog>>)
        ensures
            Self::never_fails() ==> found is Ok,
            found matches Ok(catalogs) ==> answers(
                crate::catalog::catalog_views(catalogs@),
                self.graphs(),
                query@,
                |listing: Seq<CatalogView>| Self::in_order(listing),
            ),
    ;

    /// Remove the named graph for `node`, if present.
    ///
    /// Returns `true` if a catalog was actually removed.
    fn delete(&mut self, node: &NodeId) -> (removed: StoreResult<bool>)
        ensures
            Self::never_fails() ==> removed is Ok,
            removed matches Ok(present) ==> {
                &&& present == old(self).graphs().contains_key(node@)
                &&& final(self).graphs() == old(self).graphs().remove(node@)
            },
    ;
}

} // verus!
