//! Laws of the plain values that the rest is built of: identifiers, work items,
//! copies, secret keys, readings of the clock and characters.

use crate::api::AppState;
use crate::catalog::{CrawlWorkItem, DataService, Dataset, Distribution, NodeId, TargetNode};
use crate::clock::time_of;
use crate::dcp::DcpConfig;
use crate::es256::SigningKey;
use crate::ids::urn_of;
use crate::store::{CatalogCache, CatalogQuery};
use crate::text::characters;
use vstd::prelude::*;

verus! {

/// An identifier is the text that it was made from, and reads as that text.
pub proof fn identifiers_keep_their_text(id: String, node: NodeId, text: String)
    requires
        call_ensures(NodeId::new::<String>, (id,), node),
        call_ensures(NodeId::to_string, (&node,), text),
    ensures
        node.0@ == id@,
        text@ == id@,
{
}

/// A copy of an identifier, a distribution, a service or a dataset is the same
/// as what was copied.
pub proof fn copies_keep_everything(
    node: &NodeId,
    node_copy: NodeId,
    distribution: &Distribution,
    distribution_copy: Distribution,
    service: &DataService,
    service_copy: DataService,
    dataset: &Dataset,
    dataset_copy: Dataset,
)
    requires
        call_ensures(<NodeId as Clone>::clone, (node,), node_copy),
        call_ensures(<Distribution as Clone>::clone, (distribution,), distribution_copy),
        call_ensures(<DataService as Clone>::clone, (service,), service_copy),
        call_ensures(<Dataset as Clone>::clone, (dataset,), dataset_copy),
    ensures
        node_copy.0@ == node.0@,
        crate::properties::documents::same_distribution(distribution_copy, *distribution),
        crate::properties::documents::same_service(service_copy, *service),
        crate::properties::documents::same_dataset(dataset_copy, *dataset),
{
    crate::properties::documents::datasets_say_all_they_hold(dataset_copy, *dataset);
}

/// A copy of a configuration has the same identity, keys and settings.
pub proof fn configurations_are_copied_whole(config: &DcpConfig, copy: DcpConfig)
    requires
        call_ensures(<DcpConfig as Clone>::clone, (config,), copy),
    ensures
        copy.own_did@ == config.own_did@,
        copy.own_key_id@ == config.own_key_id@,
        copy.signing_key_bytes@ == config.signing_key_bytes@,
        copy.public_key_xy.0@ == config.public_key_xy.0@,
        copy.public_key_xy.1@ == config.public_key_xy.1@,
        copy.insecure_http == config.insecure_http,
        copy.required_scope@ == config.required_scope@,
{
    assert(copy@ == config@);
}

/// New work is on the node it was made for, and has not been retried.
pub proof fn new_work_has_not_been_retried(node: TargetNode, item: CrawlWorkItem)
    requires
        call_ensures(CrawlWorkItem::new, (node,), item),
    ensures
        item.node == node,
        item.retries == 0,
{
}

/// The state of the application is the cache it was made with.
pub proof fn states_keep_their_cache<C: CatalogCache>(cache: C, state: AppState<C>)
    requires
        call_ensures(AppState::<C>::new, (cache,), state),
    ensures
        state.cache == cache,
{
}

/// A query that says nothing asks for everything.
pub proof fn default_queries_ask_for_everything(query: CatalogQuery)
    requires
        call_ensures(<CatalogQuery as Default>::default, (), query),
    ensures
        query.origin_node is None,
        query.offset == 0,
        query.limit is None,
{
}

/// Secret bytes that are a key come out of the key as they went in, and the
/// key's public point is the one of those bytes.
pub proof fn secret_keys_keep_their_bytes(
    scalar: [u8; 32],
    key: SigningKey,
    bytes: [u8; 32],
    point: ([u8; 32], [u8; 32]),
)
    requires
        call_ensures(SigningKey::from_bytes, (scalar,), Some(key)),
        call_ensures(SigningKey::to_bytes, (&key,), bytes),
        call_ensures(SigningKey::public_point, (&key,), point),
    ensures
        bytes@ == scalar@,
        crate::es256::es256_public_point(scalar@).0 == point.0@,
        crate::es256::es256_public_point(scalar@).1 == point.1@,
{
}

/// Bytes are refused as a secret key only if they are none, and keys that are
/// drawn are keys.
pub proof fn secret_keys_are_refused_only_if_they_are_none(
    scalar: [u8; 32],
    refused: Option<SigningKey>,
    drawn: SigningKey,
)
    requires
        call_ensures(SigningKey::from_bytes, (scalar,), refused),
        call_ensures(SigningKey::random, (), drawn),
    ensures
        refused is None <==> !crate::es256::valid_scalar(scalar@),
        crate::es256::valid_scalar(drawn@),
        crate::es256::fresh_scalar(drawn@),
{
}

/// A reading of the clock is the time itself; without one the clock stands
/// before the epoch.
pub proof fn readings_are_the_time(reading: Option<u64>, time: Result<u64, String>)
    requires
        call_ensures(time_of, (reading,), time),
    ensures
        match time {
            Ok(secs) => reading == Some(secs),
            Err(error) => reading is None && error@ == "system clock before epoch"@,
        },
{
}

/// The name of a UUID is the UUID behind the prefix of such names.
pub proof fn uuid_names_end_in_the_uuid(uuid: &str, urn: String)
    requires
        call_ensures(urn_of, (uuid,), urn),
    ensures
        urn@.len() == 9 + uuid@.len(),
        urn@.take(9) == "urn:uuid:"@,
        urn@.skip(9) == uuid@,
{
    reveal_strlit("urn:uuid:");
    assert(urn@.take(9) =~= "urn:uuid:"@);
    assert(urn@.skip(9) =~= uuid@);
}

/// The characters of a text are all of them, in order.
pub proof fn characters_are_all_of_them(text: &str, list: Vec<char>)
    requires
        call_ensures(characters, (text,), list),
    ensures
        list@.len() == text@.len(),
        forall|i: int| 0 <= i < list@.len() ==> #[trigger] list@[i] == text@[i],
{
}

} // verus!
