//! Laws of keys and of the connector's own identity, stated on the documents
//! and on the JSON values that publish them.

use crate::dcp::DcpConfig;
use crate::did::{
    credential_service_url, find_verifying_key, jwk_to_verifying_key, DidDocument, Jwk,
};
use crate::es256::{SigningKey, VerifyingKey};
use crate::json::JsonContent;
use crate::verification::check_signed_by;
use serde_json::Value;
use vstd::prelude::*;

verus! {

/// Whether a JWK stands for the key at this point: its coordinates decode to
/// 32 bytes each, and the point is on the curve.
pub open spec fn stands_for_key(jwk: Jwk, x: Seq<u8>, y: Seq<u8>) -> bool {
    &&& crate::base64url::base64url_decoded(jwk.x@) matches Ok(bytes) && bytes == x
    &&& crate::base64url::base64url_decoded(jwk.y@) matches Ok(bytes) && bytes == y
    &&& x.len() == 32
    &&& y.len() == 32
    &&& crate::es256::on_curve(x, y)
}

/// Why a JWK stands for no key.
pub open spec fn no_key(jwk: Jwk) -> Seq<char> {
    match (
        crate::base64url::base64url_decoded(jwk.x@),
        crate::base64url::base64url_decoded(jwk.y@),
    ) {
        (Err(error), _) => "invalid base64url: "@ + error,
        (_, Err(error)) => "invalid base64url: "@ + error,
        (Ok(x), Ok(y)) => if x.len() == 32 && y.len() == 32 {
            "invalid EC point in JWK"@
        } else {
            "EC JWK x/y must be 32 bytes for P-256"@
        },
    }
}

proof fn lemma_stands_for_key(jwk: Jwk)
    ensures
        match crate::did::jwk_key(jwk@) {
            Ok(point) => stands_for_key(jwk, point.0, point.1),
            Err(error) => {
                &&& error == no_key(jwk)
                &&& forall|x: Seq<u8>, y: Seq<u8>| !#[trigger] stands_for_key(jwk, x, y)
            },
        },
{
}

/// A JWK is read as the key at the point that its coordinates decode to, or
/// refused for what is wrong with them.
pub proof fn jwks_stand_for_their_coordinates(jwk: &Jwk, key: Result<VerifyingKey, String>)
    requires
        call_ensures(jwk_to_verifying_key, (jwk,), key),
    ensures
        match key {
            Ok(key) => stands_for_key(*jwk, key@.0, key@.1),
            Err(error) => {
                &&& error@ == no_key(*jwk)
                &&& forall|x: Seq<u8>, y: Seq<u8>| !#[trigger] stands_for_key(*jwk, x, y)
            },
        },
{
    lemma_stands_for_key(*jwk);
}

/// Whether `i` is the first place where a document lists a method of this id.
pub open spec fn first_listed(doc: DidDocument, kid: Seq<char>, i: int) -> bool {
    &&& 0 <= i < doc.verification_method@.len()
    &&& doc.verification_method@[i].id@ == kid
    &&& forall|j: int| 0 <= j < i ==> (#[trigger] doc.verification_method@[j]).id@ != kid
}

/// Whether a document lists the key at this point under an id.
pub open spec fn lists_key(doc: DidDocument, kid: Seq<char>, x: Seq<u8>, y: Seq<u8>) -> bool {
    exists|i: int| #[trigger]
        first_listed(doc, kid, i) && (doc.verification_method@[i].public_key_jwk matches Some(jwk)
            && stands_for_key(jwk, x, y))
}

/// Why a document lists no key under an id.
pub open spec fn key_missing(doc: DidDocument, kid: Seq<char>, error: Seq<char>) -> bool {
    if exists|i: int| first_listed(doc, kid, i) {
        exists|i: int| #[trigger]
            first_listed(doc, kid, i) && match doc.verification_method@[i].public_key_jwk {
                Some(jwk) => error == no_key(jwk),
                None => error == "verification method '"@ + kid + "' has no publicKeyJwk"@,
            }
    } else {
        error == "no verification method '"@ + kid + "' in DID document"@
    }
}

proof fn lemma_first_method(
    doc: DidDocument,
    methods: Seq<crate::did::VerificationMethodView>,
    kid: Seq<char>,
    start: int,
)
    requires
        methods.len() == doc.verification_method@.len(),
        forall|i: int|
            0 <= i < methods.len() ==> #[trigger] methods[i] == doc.verification_method@[i]@,
        0 <= start <= methods.len(),
        forall|j: int| 0 <= j < start ==> (#[trigger] doc.verification_method@[j]).id@ != kid,
    ensures
        match crate::did::first_method(methods.skip(start), kid) {
            Some(method) => exists|i: int| #[trigger]
                first_listed(doc, kid, i) && doc.verification_method@[i]@ == method,
            None => forall|i: int| !#[trigger] first_listed(doc, kid, i),
        },
    decreases methods.len() - start,
{
    if start < methods.len() {
        assert(methods.skip(start)[0] == methods[start]);
        assert(methods.skip(start).skip(1) =~= methods.skip(start + 1));
        if doc.verification_method@[start].id@ == kid {
            assert(first_listed(doc, kid, start));
        } else {
            lemma_first_method(doc, methods, kid, start + 1);
        }
    }
}

proof fn lemma_one_first(doc: DidDocument, kid: Seq<char>, i: int, j: int)
    requires
        first_listed(doc, kid, i),
        first_listed(doc, kid, j),
    ensures
        i == j,
{
    if i < j {
        assert(doc.verification_method@[i].id@ != kid);
    }
    if j < i {
        assert(doc.verification_method@[j].id@ != kid);
    }
}

pub(crate) proof fn lemma_document_key(doc: DidDocument, kid: Seq<char>)
    ensures
        match crate::did::document_key(doc@, kid) {
            Ok(point) => lists_key(doc, kid, point.0, point.1),
            Err(error) => {
                &&& key_missing(doc, kid, error)
                &&& forall|x: Seq<u8>, y: Seq<u8>| !#[trigger] lists_key(doc, kid, x, y)
            },
        },
{
    let methods = doc@.verification_method;
    assert(methods.len() == doc.verification_method@.len());
    assert(methods.skip(0) =~= methods);
    lemma_first_method(doc, methods, kid, 0);
    if let Some(method) = crate::did::first_method(methods, kid) {
        let i = choose|i: int| #[trigger]
            first_listed(doc, kid, i) && doc.verification_method@[i]@ == method;
        if let Some(jwk) = doc.verification_method@[i].public_key_jwk {
            lemma_stands_for_key(jwk);
        }
        assert forall|x: Seq<u8>, y: Seq<u8>| #[trigger]
            lists_key(doc, kid, x, y) implies crate::did::document_key(doc@, kid) is Ok by {
            let j = choose|j: int| #[trigger]
                first_listed(doc, kid, j) && (
                doc.verification_method@[j].public_key_jwk matches Some(jwk) && stands_for_key(
                    jwk,
                    x,
                    y,
                ));
            lemma_one_first(doc, kid, i, j);
        }
    }
}

/// A document's key is the one that its first method of that id stands for; or
/// the error says why it stands for none.
pub proof fn the_first_listed_key_is_found(
    doc: &DidDocument,
    kid: &str,
    key: Result<VerifyingKey, String>,
)
    requires
        call_ensures(find_verifying_key, (doc, kid), key),
    ensures
        match key {
            Ok(key) => lists_key(*doc, kid@, key@.0, key@.1),
            Err(error) => {
                &&& key_missing(*doc, kid@, error@)
                &&& forall|x: Seq<u8>, y: Seq<u8>| !#[trigger] lists_key(*doc, kid@, x, y)
            },
        },
{
    lemma_document_key(*doc, kid@);
}

/// Whether a token is signed by the key that a document lists under an id.
pub open spec fn signed_under(token: Seq<char>, doc: DidDocument, kid: Seq<char>) -> bool {
    exists|x: Seq<u8>, y: Seq<u8>| #[trigger]
        lists_key(doc, kid, x, y) && crate::properties::tokens::accepted_at(token, x, y)
}

proof fn lemma_one_key(
    doc: DidDocument,
    kid: Seq<char>,
    x: Seq<u8>,
    y: Seq<u8>,
    u: Seq<u8>,
    v: Seq<u8>,
)
    requires
        lists_key(doc, kid, x, y),
        lists_key(doc, kid, u, v),
    ensures
        x == u,
        y == v,
{
    let i = choose|i: int| #[trigger]
        first_listed(doc, kid, i) && (doc.verification_method@[i].public_key_jwk matches Some(jwk)
            && stands_for_key(jwk, x, y));
    let j = choose|j: int| #[trigger]
        first_listed(doc, kid, j) && (doc.verification_method@[j].public_key_jwk matches Some(jwk)
            && stands_for_key(jwk, u, v));
    lemma_one_first(doc, kid, i, j);
}

/// Whether a token is refused properly: it is not signed under that key, and
/// the error says what is wrong with the token where the document lists such a
/// key, or else with the document.
pub open spec fn not_signed(
    token: Seq<char>,
    doc: DidDocument,
    kid: Seq<char>,
    error: Seq<char>,
) -> bool {
    &&& !signed_under(token, doc, kid)
    &&& if exists|x: Seq<u8>, y: Seq<u8>| lists_key(doc, kid, x, y) {
        error == crate::properties::tokens::refusal(token)
    } else {
        key_missing(doc, kid, error)
    }
}

pub(crate) proof fn lemma_signed_under(token: Seq<char>, doc: DidDocument, kid: Seq<char>)
    ensures
        match crate::verification::signed_by(token, doc@, kid) {
            Ok(_) => signed_under(token, doc, kid),
            Err(error) => not_signed(token, doc, kid, error),
        },
{
    lemma_document_key(doc, kid);
    if let Ok(point) = crate::did::document_key(doc@, kid) {
        crate::properties::tokens::lemma_verdict(token, point);
        if signed_under(token, doc, kid) {
            let (x, y) = choose|x: Seq<u8>, y: Seq<u8>| #[trigger]
                lists_key(doc, kid, x, y) && crate::properties::tokens::accepted_at(token, x, y);
            lemma_one_key(doc, kid, x, y, point.0, point.1);
        }
    }
}

/// A token is found to be signed exactly if the key that the document lists
/// under that id accepts it.
pub proof fn signatures_are_checked_under_the_listed_key(
    token: &str,
    doc: &DidDocument,
    kid: &str,
    checked: Result<(), String>,
)
    requires
        call_ensures(check_signed_by, (token, doc, kid), checked),
    ensures
        match checked {
            Ok(_) => signed_under(token@, *doc, kid@),
            Err(error) => not_signed(token@, *doc, kid@, error@),
        },
{
    lemma_signed_under(token@, *doc, kid@);
}

/// Whether `i` is the first place where a document lists a credential service.
pub open spec fn first_service(doc: DidDocument, i: int) -> bool {
    &&& 0 <= i < doc.service@.len()
    &&& doc.service@[i].ty@ == "CredentialService"@
    &&& forall|j: int| 0 <= j < i ==> (#[trigger] doc.service@[j]).ty@ != "CredentialService"@
}

proof fn lemma_first_service(
    doc: DidDocument,
    services: Seq<crate::did::DidServiceView>,
    start: int,
)
    requires
        services.len() == doc.service@.len(),
        forall|i: int| 0 <= i < services.len() ==> #[trigger] services[i] == doc.service@[i]@,
        0 <= start <= services.len(),
        forall|j: int| 0 <= j < start ==> (#[trigger] doc.service@[j]).ty@ != "CredentialService"@,
    ensures
        match crate::did::first_endpoint(services.skip(start), "CredentialService"@) {
            Some(endpoint) => exists|i: int| #[trigger]
                first_service(doc, i) && doc.service@[i].service_endpoint@ == endpoint,
            None => forall|i: int| !#[trigger] first_service(doc, i),
        },
    decreases services.len() - start,
{
    if start < services.len() {
        assert(services.skip(start)[0] == services[start]);
        assert(services.skip(start).skip(1) =~= services.skip(start + 1));
        if doc.service@[start].ty@ == "CredentialService"@ {
            assert(first_service(doc, start));
        } else {
            lemma_first_service(doc, services, start + 1);
        }
    }
}

pub(crate) proof fn lemma_presentation_endpoint(doc: DidDocument)
    ensures
        match crate::did::presentation_endpoint(doc@) {
            Ok(endpoint) => exists|i: int| #[trigger]
                first_service(doc, i) && doc.service@[i].service_endpoint@ == endpoint,
            Err(error) => {
                &&& error == "DID document has no CredentialService entry"@
                &&& forall|i: int| !#[trigger] first_service(doc, i)
            },
        },
{
    let services = doc@.service;
    assert(services.len() == doc.service@.len());
    assert(services.skip(0) =~= services);
    lemma_first_service(doc, services, 0);
}

/// A holder's Presentation API is at the endpoint of the first credential
/// service that its document lists.
pub proof fn the_first_credential_service_is_asked(
    doc: &DidDocument,
    url: Result<String, String>,
)
    requires
        call_ensures(credential_service_url, (doc,), url),
    ensures
        match url {
            Ok(url) => exists|i: int| #[trigger]
                first_service(*doc, i) && doc.service@[i].service_endpoint@ == url@,
            Err(error) => {
                &&& error@ == "DID document has no CredentialService entry"@
                &&& forall|i: int| !#[trigger] first_service(*doc, i)
            },
        },
{
    lemma_presentation_endpoint(*doc);
}

/// A verifying key is at the coordinates it was made from, and there is one
/// exactly for the points of the curve.
pub proof fn verifying_keys_are_at_their_coordinates(
    x: Vec<u8>,
    y: Vec<u8>,
    key: Option<VerifyingKey>,
)
    requires
        call_ensures(VerifyingKey::from_coordinates, (x, y), key),
    ensures
        match key {
            Some(key) => crate::es256::on_curve(x@, y@) && key@.0 == x@ && key@.1 == y@,
            None => !crate::es256::on_curve(x@, y@),
        },
{
}

/// A key accepts exactly the well-formed signatures that are accepted at its
/// point.
pub proof fn keys_accept_what_their_point_accepts(
    key: &VerifyingKey,
    message: &[u8],
    signature: &[u8],
    checked: Result<(), String>,
)
    requires
        call_ensures(VerifyingKey::verify, (key, message, signature), checked),
    ensures
        checked is Ok <==> crate::es256::valid_signature(signature@)
            && crate::es256::es256_accepts(key@.0, key@.1, message@, signature@),
{
}

/// A signing key makes the signature that its scalar makes, and one that its
/// own point accepts.
pub proof fn signatures_are_the_keys_own(
    key: &SigningKey,
    message: &[u8],
    made: Option<Vec<u8>>,
)
    requires
        call_ensures(SigningKey::sign, (key, message), made),
    ensures
        match made {
            Some(signature) => {
                let point = crate::es256::es256_public_point(key@);
                &&& crate::es256::es256_signature(key@, message@) == Some(signature@)
                &&& crate::es256::valid_signature(signature@)
                &&& crate::es256::es256_accepts(point.0, point.1, message@, signature@)
            },
            None => crate::es256::es256_signature(key@, message@) is None,
        },
{
}

// --- The connector's own identity -------------------------------------------

/// Whether a configuration is of this identity and key.
pub open spec fn is_configured(
    config: DcpConfig,
    own_did: Seq<char>,
    key: Seq<u8>,
    insecure_http: bool,
    required_scope: Seq<char>,
) -> bool {
    &&& config.own_did@ == own_did
    &&& config.own_key_id@ == own_did + "#dsp-key"@
    &&& config.signing_key_bytes@ == key
    &&& (config.public_key_xy.0@, config.public_key_xy.1@) == crate::es256::es256_public_point(key)
    &&& crate::es256::on_curve(config.public_key_xy.0@, config.public_key_xy.1@)
    &&& config.insecure_http == insecure_http
    &&& config.required_scope@ == required_scope
}

/// A configuration for a key has the identity it was given, names the key
/// after it, and has the key's own public point.
pub proof fn configurations_are_of_their_key(
    own_did: String,
    key: &SigningKey,
    insecure_http: bool,
    required_scope: String,
    config: DcpConfig,
)
    requires
        call_ensures(DcpConfig::with_key, (own_did, key, insecure_http, required_scope), config),
    ensures
        is_configured(config, own_did@, key@, insecure_http, required_scope@),
{
    assert(config@ == crate::dcp::config_with_key(
        own_did@,
        key@,
        insecure_http,
        required_scope@,
    ));
}

/// A generated configuration is one for a key that was drawn.
pub proof fn generated_configurations_have_a_drawn_key(
    own_did: String,
    insecure_http: bool,
    required_scope: String,
    config: DcpConfig,
)
    requires
        call_ensures(DcpConfig::generate, (own_did, insecure_http, required_scope), config),
    ensures
        is_configured(
            config,
            own_did@,
            config.signing_key_bytes@,
            insecure_http,
            required_scope@,
        ),
        crate::es256::valid_scalar(config.signing_key_bytes@),
        crate::es256::fresh_scalar(config.signing_key_bytes@),
{
    assert(config@.own_key_id == own_did@ + "#dsp-key"@);
}

/// The key of a configuration is the one with its secret bytes.
pub proof fn configurations_sign_with_their_key(config: &DcpConfig, key: SigningKey)
    requires
        call_ensures(DcpConfig::signing_key, (config,), key),
    ensures
        key@ == config.signing_key_bytes@,
{
}

/// Whether a JSON value is a JWK of the curve P-256 whose coordinates decode
/// to these bytes.
pub open spec fn publishes_point(jwk: JsonContent, x: Seq<u8>, y: Seq<u8>) -> bool {
    &&& crate::properties::tokens::has_only(jwk, set!["kty"@, "crv"@, "x"@, "y"@])
    &&& crate::properties::tokens::has_member(jwk, "kty"@, JsonContent::Text("EC"@))
    &&& crate::properties::tokens::has_member(jwk, "crv"@, JsonContent::Text("P-256"@))
    &&& exists|text: Seq<char>| #[trigger]
        crate::properties::tokens::has_member(jwk, "x"@, JsonContent::Text(text)) && (
        crate::base64url::base64url_decoded(text) matches Ok(bytes) && bytes == x)
    &&& exists|text: Seq<char>| #[trigger]
        crate::properties::tokens::has_member(jwk, "y"@, JsonContent::Text(text)) && (
        crate::base64url::base64url_decoded(text) matches Ok(bytes) && bytes == y)
}

/// The connector's DID document publishes, under the connector's key id, the
/// point of its key, and nothing else.
pub proof fn own_documents_publish_the_key(config: &DcpConfig, document: Value)
    requires
        call_ensures(DcpConfig::own_did_document, (config,), document),
    ensures
        ({
            let content = crate::json::json_content(document);
            let methods = crate::properties::tokens::within(
                Some(content),
                "verificationMethod"@,
            );
            let method = methods->0->Array_0[0];
            &&& crate::properties::tokens::has_only(
                content,
                set!["@context"@, "id"@, "verificationMethod"@, "service"@],
            )
            &&& crate::properties::tokens::has_member(
                content,
                "@context"@,
                JsonContent::Array(seq![JsonContent::Text("https://www.w3.org/ns/did/v1"@)]),
            )
            &&& crate::properties::tokens::has_member(
                content,
                "id"@,
                JsonContent::Text(config.own_did@),
            )
            &&& crate::properties::tokens::has_member(
                content,
                "service"@,
                JsonContent::Array(Seq::empty()),
            )
            &&& methods == Some(JsonContent::Array(seq![method]))
            &&& crate::properties::tokens::has_only(
                method,
                set!["id"@, "type"@, "controller"@, "publicKeyJwk"@],
            )
            &&& crate::properties::tokens::has_member(
                method,
                "id"@,
                JsonContent::Text(config.own_key_id@),
            )
            &&& crate::properties::tokens::has_member(
                method,
                "type"@,
                JsonContent::Text("JsonWebKey2020"@),
            )
            &&& crate::properties::tokens::has_member(
                method,
                "controller"@,
                JsonContent::Text(config.own_did@),
            )
            &&& crate::properties::tokens::within(Some(method), "publicKeyJwk"@) matches Some(jwk)
                && publishes_point(jwk, config.public_key_xy.0@, config.public_key_xy.1@)
        }),
{
    reveal_strlit("x");
    reveal_strlit("y");
    reveal_strlit("kty");
    reveal_strlit("crv");
    reveal_strlit("id");
    reveal_strlit("type");
    reveal_strlit("controller");
    reveal_strlit("publicKeyJwk");
    reveal_strlit("@context");
    reveal_strlit("verificationMethod");
    reveal_strlit("service");
    assert("x"@[0] != "y"@[0]);
    assert("kty"@[0] != "crv"@[0]);
    assert("id"@.len() < "type"@.len() < "controller"@.len() < "publicKeyJwk"@.len());
    assert("id"@.len() < "service"@.len() < "@context"@.len() < "verificationMethod"@.len());
    let content = crate::json::json_content(document);
    let methods = crate::properties::tokens::within(Some(content), "verificationMethod"@);
    let method = methods->0->Array_0[0];
    let jwk = crate::properties::tokens::within(Some(method), "publicKeyJwk"@)->0;
    assert(content->Object_0.dom() =~= set![
        "@context"@,
        "id"@,
        "verificationMethod"@,
        "service"@,
    ]);
    assert(method->Object_0.dom() =~= set!["id"@, "type"@, "controller"@, "publicKeyJwk"@]);
    assert(jwk->Object_0.dom() =~= set!["kty"@, "crv"@, "x"@, "y"@]);
    let published = crate::dcp::published_jwk(config@);
    assert(crate::properties::tokens::has_member(jwk, "x"@, JsonContent::Text(published.x)));
    assert(crate::properties::tokens::has_member(jwk, "y"@, JsonContent::Text(published.y)));
    assert(methods->0->Array_0 =~= seq![method]);
}

} // verus!
