//! Decentralized identifiers: `did:web` addresses and the documents found
//! there.

use crate::base64url::b64_decode;
use crate::es256::VerifyingKey;
use crate::json::JsonContent;
use crate::text::{characters, join, same_text, split, strip_prefix};
use vstd::prelude::*;

verus! {

/// The part of a DID document that verification reads.
#[derive(Debug)]
pub struct DidDocument {
    pub verification_method: Vec<VerificationMethod>,
    pub service: Vec<DidService>,
}

/// A key listed in a DID document.
#[derive(Debug)]
pub struct VerificationMethod {
    pub id: String,
    pub public_key_jwk: Option<Jwk>,
}

/// The coordinates of an EC public key, in base64url.
#[derive(Debug)]
pub struct Jwk {
    pub x: String,
    pub y: String,
}

/// A service listed in a DID document.
#[derive(Debug)]
pub struct DidService {
    pub ty: String,
    pub service_endpoint: String,
}

/// What a [`Jwk`] says.
pub struct JwkView {
    pub x: Seq<char>,
    pub y: Seq<char>,
}

/// What a [`VerificationMethod`] says.
pub struct VerificationMethodView {
    pub id: Seq<char>,
    pub public_key_jwk: Option<JwkView>,
}

/// What a [`DidService`] says.
pub struct DidServiceView {
    pub ty: Seq<char>,
    pub service_endpoint: Seq<char>,
}

/// What a [`DidDocument`] says.
pub struct DidDocumentView {
    pub verification_method: Seq<VerificationMethodView>,
    pub service: Seq<DidServiceView>,
}

impl View for Jwk {
    type V = JwkView;

    open spec fn view(&self) -> JwkView {
        JwkView { x: self.x@, y: self.y@ }
    }
}

impl View for VerificationMethod {
    type V = VerificationMethodView;

    open spec fn view(&self) -> VerificationMethodView {
        VerificationMethodView {
            id: self.id@,
            public_key_jwk: match self.public_key_jwk {
                Some(jwk) => Some(jwk@),
                None => None,
            },
        }
    }
}

impl View for DidService {
    type V = DidServiceView;

    open spec fn view(&self) -> DidServiceView {
        DidServiceView { ty: self.ty@, service_endpoint: self.service_endpoint@ }
    }
}

impl View for DidDocument {
    type V = DidDocumentView;

    open spec fn view(&self) -> DidDocumentView {
        DidDocumentView {
            verification_method: self.verification_method@.map_values(
                |method: VerificationMethod| method@,
            ),
            service: self.service@.map_values(|service: DidService| service@),
        }
    }
}

/// Whether a JSON value lists this verification method.
pub open spec fn shows_method(content: JsonContent, method: VerificationMethodView) -> bool {
    let jwk = crate::claims::member(Some(content), "publicKeyJwk"@);
    &&& crate::claims::text(crate::claims::member(Some(content), "id"@)) == Some(method.id)
    &&& match method.public_key_jwk {
        Some(key) => {
            &&& crate::claims::text(crate::claims::member(jwk, "x"@)) == Some(key.x)
            &&& crate::claims::text(crate::claims::member(jwk, "y"@)) == Some(key.y)
        },
        None => jwk is None,
    }
}

/// Whether a JSON value lists this service.
pub open spec fn shows_service(content: JsonContent, service: DidServiceView) -> bool {
    &&& crate::claims::text(crate::claims::member(Some(content), "type"@)) == Some(service.ty)
    &&& crate::claims::text(crate::claims::member(Some(content), "serviceEndpoint"@)) == Some(
        service.service_endpoint,
    )
}

/// Whether the members of a JSON value show this document: its verification
/// methods and its services, in order.
pub open spec fn shows_document(content: JsonContent, doc: DidDocumentView) -> bool {
    &&& crate::claims::member(Some(content), "verificationMethod"@) matches Some(
        JsonContent::Array(methods),
    ) && methods.len() == doc.verification_method.len() && forall|i: int|
        0 <= i < methods.len() ==> shows_method(
            #[trigger] methods[i],
            doc.verification_method[i],
        )
    &&& crate::claims::member(Some(content), "service"@) matches Some(JsonContent::Array(services))
        && services.len() == doc.service.len() && forall|i: int|
        0 <= i < services.len() ==> shows_service(#[trigger] services[i], doc.service[i])
}

/// A segment of a `did:web` identifier with each encoded colon, `%3A` or
/// `%3a`, written out.
pub open spec fn colons_decoded(segment: Seq<char>) -> Seq<char>
    decreases segment.len(),
{
    if segment.len() == 0 {
        Seq::empty()
    } else if encodes_colon(segment) {
        seq![':'] + colons_decoded(segment.skip(3))
    } else {
        seq![segment[0]] + colons_decoded(segment.skip(1))
    }
}

/// Whether a text begins with an encoded colon.
pub open spec fn encodes_colon(text: Seq<char>) -> bool {
    text.len() >= 3 && text[0] == '%' && text[1] == '3' && (text[2] == 'A' || text[2] == 'a')
}

/// Decodes one segment of a `did:web` identifier.
///
/// Only `:` is ever percent-encoded in practice, to embed a port number in
/// the host segment.
pub fn urlencoding_decode(segment: &str) -> (decoded: String)
    ensures
        decoded@ == colons_decoded(segment@),
{
    let list = characters(segment);
    let mut decoded: String = String::new();
    let mut i: usize = 0;
    assert(segment@.skip(0) =~= segment@);
    assert(decoded@ + colons_decoded(segment@) =~= colons_decoded(segment@));
    while i < list.len()
        invariant
            list@ == segment@,
            i <= list.len(),
            decoded@ + colons_decoded(segment@.skip(i as int)) == colons_decoded(segment@),
        decreases list.len() - i,
    {
        let ghost before = decoded@;
        let ghost rest = segment@.skip(i as int);
        if list.len() - i >= 3 && list[i] == '%' && list[i + 1] == '3' && (list[i + 2] == 'A'
            || list[i + 2] == 'a') {
            assert(encodes_colon(rest));
            decoded.push(':');
            i += 3;
            assert(rest.skip(3) =~= segment@.skip(i as int));
            assert(before + (seq![':'] + colons_decoded(rest.skip(3))) =~= decoded@
                + colons_decoded(rest.skip(3)));
        } else {
            assert(!encodes_colon(rest));
            decoded.push(list[i]);
            i += 1;
            assert(rest.skip(1) =~= segment@.skip(i as int));
            assert(before + (seq![rest[0]] + colons_decoded(rest.skip(1))) =~= decoded@
                + colons_decoded(rest.skip(1)));
        }
    }
    assert(segment@.skip(list.len() as int) =~= Seq::<char>::empty());
    assert(decoded@ + Seq::<char>::empty() =~= decoded@);
    decoded
}

/// Where a DID document is found: at the host's well-known place, or in the
/// directory that the path segments name.
pub open spec fn did_document_url(did: Seq<char>, insecure_http: bool) -> Result<
    Seq<char>,
    Seq<char>,
> {
    match crate::text::after_prefix(did, "did:web:"@) {
        None => Err("not a did:web DID"@),
        Some(rest) => {
            let segments = crate::text::pieces(rest, ':').map_values(
                |segment: Seq<char>| colons_decoded(segment),
            );
            let scheme = if insecure_http {
                "http"@
            } else {
                "https"@
            };
            let origin = scheme + "://"@ + segments[0];
            if segments.len() == 1 {
                Ok(origin + "/.well-known/did.json"@)
            } else {
                Ok(
                    origin + "/"@ + crate::text::joined(segments.skip(1), "/"@)
                        + "/did.json"@,
                )
            }
        },
    }
}

/// Simplified `did:web` resolution: `did:web:<host>[:<path segments>]` ->
/// `https://<host>/<path segments joined by "/">/did.json`, or
/// `https://<host>/.well-known/did.json` with no path segments.
pub fn did_web_to_url(did: &str, insecure_http: bool) -> (url: Result<String, String>)
    ensures
        match url {
            Ok(url) => did_document_url(did@, insecure_http) matches Ok(text) && text == url@,
            Err(error) => did_document_url(did@, insecure_http) matches Err(text) && text
                == error@,
        },
{
    let rest = match strip_prefix(did, "did:web:") {
        Some(rest) => rest,
        None => {
            return Err("not a did:web DID".to_owned());
        },
    };
    let encoded = split(rest.as_str(), ':');
    let ghost segments = crate::text::pieces(rest@, ':').map_values(
        |segment: Seq<char>| colons_decoded(segment),
    );
    let host = urlencoding_decode(encoded[0].as_str());
    let mut path: Vec<String> = Vec::new();
    let mut i: usize = 1;
    while i < encoded.len()
        invariant
            1 <= i <= encoded.len(),
            encoded@.len() == segments.len(),
            forall|j: int|
                0 <= j < encoded@.len() ==> colons_decoded((#[trigger] encoded@[j])@)
                    == segments[j],
            crate::text::texts(path@) == segments.skip(1).take(i - 1),
        decreases encoded.len() - i,
    {
        let ghost before = crate::text::texts(path@);
        let decoded = urlencoding_decode(encoded[i].as_str());
        path.push(decoded);
        assert(crate::text::texts(path@) =~= before.push(decoded@));
        assert(segments.skip(1).take(i as int) =~= before.push(segments[i as int]));
        i += 1;
    }
    assert(segments.skip(1).take(segments.len() - 1) =~= segments.skip(1));
    let scheme = if insecure_http {
        "http".to_owned()
    } else {
        "https".to_owned()
    };
    let origin = scheme.concat("://").concat(host.as_str());
    if path.len() == 0 {
        Ok(origin.concat("/.well-known/did.json"))
    } else {
        Ok(origin.concat("/").concat(join(&path, "/").as_str()).concat("/did.json"))
    }
}

/// The key that a JWK stands for, or why it stands for none.
pub open spec fn jwk_key(jwk: JwkView) -> Result<(Seq<u8>, Seq<u8>), Seq<char>> {
    match crate::base64url::segment_bytes(jwk.x) {
        Err(error) => Err(error),
        Ok(x) => match crate::base64url::segment_bytes(jwk.y) {
            Err(error) => Err(error),
            Ok(y) => if x.len() != 32 || y.len() != 32 {
                Err("EC JWK x/y must be 32 bytes for P-256"@)
            } else if !crate::es256::on_curve(x, y) {
                Err("invalid EC point in JWK"@)
            } else {
                Ok((x, y))
            },
        },
    }
}

/// Reads the P-256 public key out of a JWK.
pub fn jwk_to_verifying_key(jwk: &Jwk) -> (key: Result<VerifyingKey, String>)
    ensures
        match key {
            Ok(key) => jwk_key(jwk@) matches Ok(point) && point == key@,
            Err(error) => jwk_key(jwk@) matches Err(text) && text == error@,
        },
{
    let x = match b64_decode(jwk.x.as_str()) {
        Ok(x) => x,
        Err(error) => {
            return Err(error);
        },
    };
    let y = match b64_decode(jwk.y.as_str()) {
        Ok(y) => y,
        Err(error) => {
            return Err(error);
        },
    };
    if x.len() != 32 || y.len() != 32 {
        return Err("EC JWK x/y must be 32 bytes for P-256".to_owned());
    }
    match VerifyingKey::from_coordinates(x, y) {
        Some(key) => Ok(key),
        None => Err("invalid EC point in JWK".to_owned()),
    }
}

/// The first method with this id.
pub open spec fn first_method(methods: Seq<VerificationMethodView>, kid: Seq<char>) -> Option<
    VerificationMethodView,
>
    decreases methods.len(),
{
    if methods.len() == 0 {
        None
    } else if methods[0].id == kid {
        Some(methods[0])
    } else {
        first_method(methods.skip(1), kid)
    }
}

/// The key that a document lists under an id, or why it lists none.
pub open spec fn document_key(doc: DidDocumentView, kid: Seq<char>) -> Result<
    (Seq<u8>, Seq<u8>),
    Seq<char>,
> {
    match first_method(doc.verification_method, kid) {
        None => Err("no verification method '"@ + kid + "' in DID document"@),
        Some(method) => match method.public_key_jwk {
            None => Err("verification method '"@ + kid + "' has no publicKeyJwk"@),
            Some(jwk) => jwk_key(jwk),
        },
    }
}

/// Finds the key named `kid` in a DID document.
pub fn find_verifying_key(doc: &DidDocument, kid: &str) -> (key: Result<VerifyingKey, String>)
    ensures
        match key {
            Ok(key) => document_key(doc@, kid@) matches Ok(point) && point == key@,
            Err(error) => document_key(doc@, kid@) matches Err(text) && text == error@,
        },
{
    let ghost methods = doc@.verification_method;
    let mut i: usize = 0;
    assert(methods.skip(0) =~= methods);
    while i < doc.verification_method.len()
        invariant
            i <= doc.verification_method.len(),
            methods == doc@.verification_method,
            first_method(methods, kid@) == first_method(methods.skip(i as int), kid@),
        decreases doc.verification_method.len() - i,
    {
        let method = &doc.verification_method[i];
        assert(methods.skip(i as int)[0] == method@);
        if same_text(method.id.as_str(), kid) {
            return match &method.public_key_jwk {
                Some(jwk) => jwk_to_verifying_key(jwk),
                None => Err(
                    "verification method '".to_owned().concat(kid).concat("' has no publicKeyJwk"),
                ),
            };
        }
        assert(methods.skip(i as int).skip(1) =~= methods.skip(i + 1));
        i += 1;
    }
    Err("no verification method '".to_owned().concat(kid).concat("' in DID document"))
}

/// The endpoint of the first service of this type.
pub open spec fn first_endpoint(services: Seq<DidServiceView>, ty: Seq<char>) -> Option<Seq<char>>
    decreases services.len(),
{
    if services.len() == 0 {
        None
    } else if services[0].ty == ty {
        Some(services[0].service_endpoint)
    } else {
        first_endpoint(services.skip(1), ty)
    }
}

/// Where the holder of a document presents credentials, or that it says none.
pub open spec fn presentation_endpoint(doc: DidDocumentView) -> Result<Seq<char>, Seq<char>> {
    match first_endpoint(doc.service, "CredentialService"@) {
        Some(endpoint) => Ok(endpoint),
        None => Err("DID document has no CredentialService entry"@),
    }
}

/// Finds the endpoint of a document's credential service.
pub fn credential_service_url(doc: &DidDocument) -> (url: Result<String, String>)
    ensures
        match url {
            Ok(url) => presentation_endpoint(doc@) matches Ok(text) && text == url@,
            Err(error) => presentation_endpoint(doc@) matches Err(text) && text == error@,
        },
{
    let ghost services = doc@.service;
    let mut i: usize = 0;
    assert(services.skip(0) =~= services);
    while i < doc.service.len()
        invariant
            i <= doc.service.len(),
            services == doc@.service,
            first_endpoint(services, "CredentialService"@) == first_endpoint(
                services.skip(i as int),
                "CredentialService"@,
            ),
        decreases doc.service.len() - i,
    {
        let service = &doc.service[i];
        assert(services.skip(i as int)[0] == service@);
        if same_text(service.ty.as_str(), "CredentialService") {
            return Ok(service.service_endpoint.clone());
        }
        assert(services.skip(i as int).skip(1) =~= services.skip(i + 1));
        i += 1;
    }
    Err("DID document has no CredentialService entry".to_owned())
}

} // verus!
