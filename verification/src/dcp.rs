//! The connector's own identity in the Decentralized Claims Protocol (DCP):
//! its `did:web` identifier, the key it signs with, and the DID document that
//! publishes that key.

use crate::base64url::b64_encode;
use crate::es256::SigningKey;
use crate::json::{array_value, object_value, text_value, JsonContent};
use serde_json::Value;
use vstd::prelude::*;

verus! {

/// Configuration of DCP verification. It keeps only plain data; the signing
/// key is rebuilt from its bytes on demand.
#[derive(Debug)]
pub struct DcpConfig {
    /// This connector's own `did:web` identifier, e.g.
    /// `did:web:localhost%3A18080:dsp`. Incoming self-issued tokens must name
    /// it as their audience, and it issues the tokens sent onward.
    pub own_did: String,
    /// Full `<own_did>#<fragment>` form used as the `kid` of the tokens this
    /// connector signs, and as the id of the matching verification method in
    /// its DID document.
    pub own_key_id: String,
    /// The secret scalar, big-endian.
    pub signing_key_bytes: [u8; 32],
    /// The public point, as (x, y) big-endian.
    pub public_key_xy: ([u8; 32], [u8; 32]),
    /// Whether to resolve `did:web` identifiers over plain HTTP instead of
    /// HTTPS.
    pub insecure_http: bool,
    /// The DCP scope requested from the holder's Presentation API.
    pub required_scope: String,
}

/// What a [`DcpConfig`] says.
pub struct DcpConfigView {
    pub own_did: Seq<char>,
    pub own_key_id: Seq<char>,
    pub signing_key_bytes: Seq<u8>,
    pub public_key_xy: (Seq<u8>, Seq<u8>),
    pub insecure_http: bool,
    pub required_scope: Seq<char>,
}

impl View for DcpConfig {
    type V = DcpConfigView;

    open spec fn view(&self) -> DcpConfigView {
        DcpConfigView {
            own_did: self.own_did@,
            own_key_id: self.own_key_id@,
            signing_key_bytes: self.signing_key_bytes@,
            public_key_xy: (self.public_key_xy.0@, self.public_key_xy.1@),
            insecure_http: self.insecure_http,
            required_scope: self.required_scope@,
        }
    }
}

impl Clone for DcpConfig {
    fn clone(&self) -> (copy: DcpConfig)
        ensures
            copy@ == self@,
    {
        DcpConfig {
            own_did: self.own_did.clone(),
            own_key_id: self.own_key_id.clone(),
            signing_key_bytes: self.signing_key_bytes,
            public_key_xy: (self.public_key_xy.0, self.public_key_xy.1),
            insecure_http: self.insecure_http,
            required_scope: self.required_scope.clone(),
        }
    }
}

impl DcpConfigView {
    /// Whether the secret bytes are a key.
    pub open spec fn can_sign(self) -> bool {
        crate::es256::valid_scalar(self.signing_key_bytes)
    }

    /// Whether the public point belongs to the secret key.
    pub open spec fn well_formed(self) -> bool {
        &&& self.can_sign()
        &&& self.public_key_xy == crate::es256::es256_public_point(self.signing_key_bytes)
        &&& crate::es256::on_curve(self.public_key_xy.0, self.public_key_xy.1)
    }
}

/// The configuration of a connector with this identity and key.
pub open spec fn config_with_key(
    own_did: Seq<char>,
    key: Seq<u8>,
    insecure_http: bool,
    required_scope: Seq<char>,
) -> DcpConfigView {
    DcpConfigView {
        own_did,
        own_key_id: own_did + "#dsp-key"@,
        signing_key_bytes: key,
        public_key_xy: crate::es256::es256_public_point(key),
        insecure_http,
        required_scope,
    }
}

/// The public half of the connector's key, as its DID document publishes it.
pub open spec fn published_jwk(config: DcpConfigView) -> crate::did::JwkView {
    crate::did::JwkView {
        x: crate::base64url::base64url(config.public_key_xy.0),
        y: crate::base64url::base64url(config.public_key_xy.1),
    }
}

/// What a reader takes from the connector's DID document.
pub open spec fn published_document(config: DcpConfigView) -> crate::did::DidDocumentView {
    crate::did::DidDocumentView {
        verification_method: seq![
            crate::did::VerificationMethodView {
                id: config.own_key_id,
                public_key_jwk: Some(published_jwk(config)),
            },
        ],
        service: Seq::empty(),
    }
}

/// The connector's DID document.
pub open spec fn did_document(config: DcpConfigView) -> JsonContent {
    let jwk = JsonContent::Object(
        map![
            "kty"@ => JsonContent::Text("EC"@),
            "crv"@ => JsonContent::Text("P-256"@),
            "x"@ => JsonContent::Text(published_jwk(config).x),
            "y"@ => JsonContent::Text(published_jwk(config).y),
        ],
    );
    let method = JsonContent::Object(
        map![
            "id"@ => JsonContent::Text(config.own_key_id),
            "type"@ => JsonContent::Text("JsonWebKey2020"@),
            "controller"@ => JsonContent::Text(config.own_did),
            "publicKeyJwk"@ => jwk,
        ],
    );
    JsonContent::Object(
        map![
            "@context"@ => JsonContent::Array(
                seq![JsonContent::Text("https://www.w3.org/ns/did/v1"@)],
            ),
            "id"@ => JsonContent::Text(config.own_did),
            "verificationMethod"@ => JsonContent::Array(seq![method]),
            "service"@ => JsonContent::Array(Seq::empty()),
        ],
    )
}

proof fn lemma_document_shows_the_key(config: DcpConfigView)
    ensures
        crate::did::shows_document(did_document(config), published_document(config)),
{
    reveal_strlit("x");
    reveal_strlit("y");
    reveal_strlit("id");
    reveal_strlit("type");
    reveal_strlit("controller");
    reveal_strlit("publicKeyJwk");
    reveal_strlit("verificationMethod");
    reveal_strlit("service");
    assert("x"@[0] != "y"@[0]);
    assert("id"@.len() < "type"@.len() < "controller"@.len() < "publicKeyJwk"@.len());
    assert("service"@.len() < "verificationMethod"@.len());
}

impl DcpConfig {
    /// A configuration with a fresh random key.
    pub fn generate(own_did: String, insecure_http: bool, required_scope: String) -> (config:
        DcpConfig)
        ensures
            config@ == config_with_key(
                own_did@,
                config@.signing_key_bytes,
                insecure_http,
                required_scope@,
            ),
            config@.well_formed(),
            crate::es256::fresh_scalar(config@.signing_key_bytes),
    {
        DcpConfig::with_key(own_did, &SigningKey::random(), insecure_http, required_scope)
    }

    /// The configuration of a connector that signs with `key`.
    pub fn with_key(
        own_did: String,
        key: &SigningKey,
        insecure_http: bool,
        required_scope: String,
    ) -> (config: DcpConfig)
        ensures
            config@ == config_with_key(own_did@, key@, insecure_http, required_scope@),
            config@.well_formed(),
    {
        DcpConfig {
            own_key_id: own_did.clone().concat("#dsp-key"),
            own_did,
            signing_key_bytes: key.to_bytes(),
            public_key_xy: key.public_point(),
            insecure_http,
            required_scope,
        }
    }

    /// The key that this connector signs with.
    pub fn signing_key(&self) -> (key: SigningKey)
        requires
            self@.can_sign(),
        ensures
            key@ == self@.signing_key_bytes,
    {
        SigningKey::from_bytes(self.signing_key_bytes).unwrap()
    }

    /// This connector's own DID document, so that holders can resolve the key
    /// behind the tokens this connector sends them: a reader of the published
    /// key finds the connector's public point, and so accepts every token
    /// that the connector signs.
    pub fn own_did_document(&self) -> (document: Value)
        ensures
            crate::json::json_content(document) == did_document(self@),
            crate::did::shows_document(
                crate::json::json_content(document),
                published_document(self@),
            ),
            crate::base64url::base64url_decoded(published_jwk(self@).x) matches Ok(x) && x
                == self@.public_key_xy.0,
            crate::base64url::base64url_decoded(published_jwk(self@).y) matches Ok(y) && y
                == self@.public_key_xy.1,
            crate::es256::on_curve(self@.public_key_xy.0, self@.public_key_xy.1) ==> (
            crate::did::document_key(published_document(self@), self@.own_key_id) matches Ok(point)
                && point == self@.public_key_xy),
            self@.well_formed() ==> forall|token: Seq<char>|
                crate::jws::jws_verdict(
                    token,
                    crate::es256::es256_public_point(self@.signing_key_bytes),
                ) is Ok ==> #[trigger] crate::verification::signed_by(
                    token,
                    published_document(self@),
                    self@.own_key_id,
                ) is Ok,
    {
        let jwk_fields: Vec<(String, Value)> = vec![
            ("kty".to_owned(), text_value("EC".to_owned())),
            ("crv".to_owned(), text_value("P-256".to_owned())),
            ("x".to_owned(), text_value(b64_encode(self.public_key_xy.0.as_slice()))),
            ("y".to_owned(), text_value(b64_encode(self.public_key_xy.1.as_slice()))),
        ];
        proof {
            crate::json::lemma_four_members(crate::json::named_contents(jwk_fields@));
        }
        let jwk = object_value(jwk_fields);
        let method_fields: Vec<(String, Value)> = vec![
            ("id".to_owned(), text_value(self.own_key_id.clone())),
            ("type".to_owned(), text_value("JsonWebKey2020".to_owned())),
            ("controller".to_owned(), text_value(self.own_did.clone())),
            ("publicKeyJwk".to_owned(), jwk),
        ];
        proof {
            crate::json::lemma_four_members(crate::json::named_contents(method_fields@));
        }
        let method = object_value(method_fields);
        let contexts: Vec<Value> = vec![text_value("https://www.w3.org/ns/did/v1".to_owned())];
        let methods: Vec<Value> = vec![method];
        let services: Vec<Value> = Vec::new();
        assert(crate::json::json_contents(contexts@) =~= seq![
            JsonContent::Text("https://www.w3.org/ns/did/v1"@),
        ]);
        assert(crate::json::json_contents(methods@) =~= seq![crate::json::json_content(method)]);
        assert(crate::json::json_contents(services@) =~= Seq::<JsonContent>::empty());
        let fields: Vec<(String, Value)> = vec![
            ("@context".to_owned(), array_value(contexts)),
            ("id".to_owned(), text_value(self.own_did.clone())),
            ("verificationMethod".to_owned(), array_value(methods)),
            ("service".to_owned(), array_value(services)),
        ];
        proof {
            crate::json::lemma_four_members(crate::json::named_contents(fields@));
            lemma_document_shows_the_key(self@);
        }
        object_value(fields)
    }
}

} // verus!
