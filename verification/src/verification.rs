//! Verification of an incoming DCP self-issued bearer token.
//!
//! Verification alternates decisions with requests to other parties. Each
//! decision is a function here, from what is known and the reply that came
//! in to what is to be asked next:
//!
//! 1. [`begin_verification`] reads the caller's token and asks for the DID
//!    document of its issuer, the holder.
//! 2. [`AwaitingHolder::resolved`] checks the token against that document and
//!    asks the holder's Presentation API for a presentation. As proof of
//!    possession it sends the access token nested in the caller's token,
//!    re-packaged into a token signed with this connector's own key.
//! 3. [`AwaitingPresentation::received`] checks the presentation against the
//!    holder's document and turns to the credentials in it.
//! 4. [`AwaitingIssuer::resolved`] checks one credential against the document
//!    of its own issuer, which was asked for, and turns to the next.
//!
//! Once every credential has been checked, the datasets that the current
//! ones grant are the caller's.

use crate::claims::{CredentialClaims, PresentationClaims, TokenClaims};
use crate::claims::{CredentialClaimsView, TokenClaimsView};
use crate::clock::now_secs;
use crate::dcp::{DcpConfig, DcpConfigView};
use crate::did::{credential_service_url, did_web_to_url, find_verifying_key};
use crate::did::{DidDocument, DidDocumentView};
use crate::ids::draw_uuid;
use crate::json::{object_value, text_value, unsigned_value, JsonContent};
use crate::jws::{decode_jws_unverified, sign_jws, verify_jws_signature};
use crate::text::same_text;
use serde_json::Value;
use vstd::hash_set::StringHashSet;
use vstd::prelude::*;

verus! {

pub const PRESENTATION_QUERY_CONTEXT: &'static str = "https://w3id.org/dspace-dcp/v1.0/dcp.jsonld";

pub const EXPECTED_CREDENTIAL_TYPE: &'static str = "FederatedCatalogAccessCredential";

/// How long a re-packaged token is valid, in seconds.
pub const REPACKAGED_TOKEN_LIFETIME: u64 = 300;

/// The caller identity and dataset entitlements that a successful
/// verification establishes.
pub struct VerifiedCaller {
    pub holder_did: String,
    pub catalog_access: StringHashSet,
}

/// What a [`VerifiedCaller`] says.
pub struct VerifiedCallerView {
    pub holder_did: Seq<char>,
    pub catalog_access: Set<Seq<char>>,
}

impl View for VerifiedCaller {
    type V = VerifiedCallerView;

    open spec fn view(&self) -> VerifiedCallerView {
        VerifiedCallerView { holder_did: self.holder_did@, catalog_access: self.catalog_access@ }
    }
}

// --- Replies of other parties -------------------------------------------

/// What came of a request for a DID document.
pub enum DidReply {
    /// No answer: the client's error.
    Unreachable(String),
    /// An answer whose status, given here, is no success.
    Refused(String),
    /// An answer that is no DID document: the reader's error.
    Malformed(String),
    Document(DidDocument),
}

/// What a [`DidReply`] says.
pub enum DidReplyView {
    Unreachable(Seq<char>),
    Refused(Seq<char>),
    Malformed(Seq<char>),
    Document(DidDocumentView),
}

impl View for DidReply {
    type V = DidReplyView;

    open spec fn view(&self) -> DidReplyView {
        match self {
            DidReply::Unreachable(error) => DidReplyView::Unreachable(error@),
            DidReply::Refused(status) => DidReplyView::Refused(status@),
            DidReply::Malformed(error) => DidReplyView::Malformed(error@),
            DidReply::Document(doc) => DidReplyView::Document(doc@),
        }
    }
}

/// The document of `did` that a reply from `url` brings, or why it brings
/// none.
pub open spec fn resolved_document(did: Seq<char>, url: Seq<char>, reply: DidReplyView) -> Result<
    DidDocumentView,
    Seq<char>,
> {
    match reply {
        DidReplyView::Unreachable(error) => Err(
            "failed to resolve DID "@ + did + " at "@ + url + ": "@ + error,
        ),
        DidReplyView::Refused(status) => Err(
            "DID resolution for "@ + did + " returned HTTP "@ + status,
        ),
        DidReplyView::Malformed(error) => Err(
            "DID document for "@ + did + " was not valid: "@ + error,
        ),
        DidReplyView::Document(doc) => Ok(doc),
    }
}

/// Takes the document of `did` out of a reply from `url`.
pub fn resolve_did(did: &str, url: &str, reply: DidReply) -> (resolved: Result<
    DidDocument,
    String,
>)
    ensures
        match resolved {
            Ok(doc) => resolved_document(did@, url@, reply@) matches Ok(view) && view == doc@,
            Err(error) => resolved_document(did@, url@, reply@) matches Err(text) && text
                == error@,
        },
{
    match reply {
        DidReply::Unreachable(error) => Err(
            "failed to resolve DID ".to_owned().concat(did).concat(" at ").concat(url).concat(
                ": ",
            ).concat(error.as_str()),
        ),
        DidReply::Refused(status) => Err(
            "DID resolution for ".to_owned().concat(did).concat(" returned HTTP ").concat(
                status.as_str(),
            ),
        ),
        DidReply::Malformed(error) => Err(
            "DID document for ".to_owned().concat(did).concat(" was not valid: ").concat(
                error.as_str(),
            ),
        ),
        DidReply::Document(doc) => Ok(doc),
    }
}

/// What came of a presentation query.
pub enum PresentationReply {
    /// No answer: the client's error.
    Unreachable(String),
    /// An answer whose status is no success: the status and the body.
    Refused(String, String),
    /// An answer that is no presentation response: the reader's error.
    Malformed(String),
    Presentations(Vec<String>),
}

/// What a [`PresentationReply`] says.
pub enum PresentationReplyView {
    Unreachable(Seq<char>),
    Refused(Seq<char>, Seq<char>),
    Malformed(Seq<char>),
    Presentations(Seq<Seq<char>>),
}

impl View for PresentationReply {
    type V = PresentationReplyView;

    open spec fn view(&self) -> PresentationReplyView {
        match self {
            PresentationReply::Unreachable(error) => PresentationReplyView::Unreachable(error@),
            PresentationReply::Refused(status, body) => PresentationReplyView::Refused(
                status@,
                body@,
            ),
            PresentationReply::Malformed(error) => PresentationReplyView::Malformed(error@),
            PresentationReply::Presentations(list) => PresentationReplyView::Presentations(
                crate::text::texts(list@),
            ),
        }
    }
}

/// The presentation that a reply from `url` brings, or why it brings none.
pub open spec fn presented(url: Seq<char>, reply: PresentationReplyView) -> Result<
    Seq<char>,
    Seq<char>,
> {
    match reply {
        PresentationReplyView::Unreachable(error) => Err(
            "presentation query to "@ + url + " failed: "@ + error,
        ),
        PresentationReplyView::Refused(status, body) => Err(
            "presentation query returned HTTP "@ + status + ": "@ + body,
        ),
        PresentationReplyView::Malformed(error) => Err(
            "malformed presentation response: "@ + error,
        ),
        PresentationReplyView::Presentations(list) => if list.len() == 0 {
            Err("presentation response had no presentation"@)
        } else {
            Ok(list[0])
        },
    }
}

/// Takes the presentation out of a reply from `url`.
pub fn presentation_of(url: &str, reply: PresentationReply) -> (presentation: Result<
    String,
    String,
>)
    ensures
        match presentation {
            Ok(vp) => presented(url@, reply@) matches Ok(text) && text == vp@,
            Err(error) => presented(url@, reply@) matches Err(text) && text == error@,
        },
{
    match reply {
        PresentationReply::Unreachable(error) => Err(
            "presentation query to ".to_owned().concat(url).concat(" failed: ").concat(
                error.as_str(),
            ),
        ),
        PresentationReply::Refused(status, body) => Err(
            "presentation query returned HTTP ".to_owned().concat(status.as_str()).concat(
                ": ",
            ).concat(body.as_str()),
        ),
        PresentationReply::Malformed(error) => Err(
            "malformed presentation response: ".to_owned().concat(error.as_str()),
        ),
        PresentationReply::Presentations(list) => if list.len() == 0 {
            Err("presentation response had no presentation".to_owned())
        } else {
            assert(crate::text::texts(list@)[0] == list@[0]@);
            Ok(list[0].clone())
        },
    }
}

// --- The caller's token ---------------------------------------------------

/// Waiting for the holder's DID document, to be fetched from `url`.
pub struct AwaitingHolder {
    pub token: String,
    pub claims: TokenClaims,
    pub holder_did: String,
    pub kid: String,
    pub url: String,
}

/// What [`AwaitingHolder`] knows.
pub struct AwaitingHolderView {
    pub token: Seq<char>,
    pub claims: TokenClaimsView,
    pub holder_did: Seq<char>,
    pub kid: Seq<char>,
    pub url: Seq<char>,
}

impl View for AwaitingHolder {
    type V = AwaitingHolderView;

    open spec fn view(&self) -> AwaitingHolderView {
        AwaitingHolderView {
            token: self.token@,
            claims: self.claims@,
            holder_did: self.holder_did@,
            kid: self.kid@,
            url: self.url@,
        }
    }
}

/// What to wait for after reading these claims in a token, or what they lack.
pub open spec fn claimed(
    token: Seq<char>,
    claims: TokenClaimsView,
    insecure_http: bool,
) -> Result<AwaitingHolderView, Seq<char>> {
    match claims.iss {
        None => Err("token has no iss"@),
        Some(holder_did) => match claims.kid {
            None => Err("token has no kid"@),
            Some(kid) => match crate::did::did_document_url(holder_did, insecure_http) {
                Err(error) => Err(error),
                Ok(url) => Ok(AwaitingHolderView { token, claims, holder_did, kid, url }),
            },
        },
    }
}

/// What to wait for first, or why a token cannot be read.
pub open spec fn begun(token: Seq<char>, insecure_http: bool) -> Result<
    AwaitingHolderView,
    Seq<char>,
> {
    match crate::jws::jws_unverified(token) {
        Err(error) => Err(error),
        Ok(jws) => claimed(
            token,
            crate::claims::token_claims(jws.header, jws.payload),
            insecure_http,
        ),
    }
}

/// Turns to the holder that a token's claims name.
pub fn begin_with_claims(token: &str, claims: TokenClaims, insecure_http: bool) -> (begun: Result<
    AwaitingHolder,
    String,
>)
    ensures
        match begun {
            Ok(next) => claimed(token@, claims@, insecure_http) matches Ok(view) && view == next@,
            Err(error) => claimed(token@, claims@, insecure_http) matches Err(text) && text
                == error@,
        },
{
    let holder_did = match &claims.iss {
        Some(iss) => iss.clone(),
        None => {
            return Err("token has no iss".to_owned());
        },
    };
    let kid = match &claims.kid {
        Some(kid) => kid.clone(),
        None => {
            return Err("token has no kid".to_owned());
        },
    };
    match did_web_to_url(holder_did.as_str(), insecure_http) {
        Ok(url) => Ok(AwaitingHolder { token: token.to_owned(), claims, holder_did, kid, url }),
        Err(error) => Err(error),
    }
}

/// Reads an incoming self-issued token and turns to the holder it names.
pub fn begin_verification(token: &str, config: &DcpConfig) -> (begun: Result<
    AwaitingHolder,
    String,
>)
    ensures
        match begun {
            Ok(next) => self::begun(token@, config@.insecure_http) matches Ok(view) && view
                == next@,
            Err(error) => self::begun(token@, config@.insecure_http) matches Err(text) && text
                == error@,
        },
{
    match decode_jws_unverified(token) {
        Ok((_signing_input, header, payload)) => begin_with_claims(
            token,
            TokenClaims::read(&header, &payload),
            config.insecure_http,
        ),
        Err(error) => Err(error),
    }
}

/// Whether a token is meant for `own_did`, or for whom else.
pub open spec fn addressed(claims: TokenClaimsView, own_did: Seq<char>) -> Result<
    (),
    Seq<char>,
> {
    let aud = match claims.aud {
        Some(aud) => aud,
        None => ""@,
    };
    if aud != own_did {
        Err(
            "token audience '"@ + aud + "' does not match this connector's DID '"@ + own_did
                + "'"@,
        )
    } else {
        Ok(())
    }
}

/// Checks that a token is meant for `own_did`.
pub fn check_addressed(claims: &TokenClaims, own_did: &str) -> (checked: Result<(), String>)
    ensures
        match checked {
            Ok(_) => addressed(claims@, own_did@) is Ok,
            Err(error) => addressed(claims@, own_did@) matches Err(text) && text == error@,
        },
{
    let aud = match &claims.aud {
        Some(aud) => aud.clone(),
        None => "".to_owned(),
    };
    if !same_text(aud.as_str(), own_did) {
        return Err(
            "token audience '".to_owned().concat(aud.as_str()).concat(
                "' does not match this connector's DID '",
            ).concat(own_did).concat("'"),
        );
    }
    Ok(())
}

/// The access token nested in a token that is still current, or why it is not
/// to be used; a token without an expiry counts as expired.
pub open spec fn accepted_token(claims: TokenClaimsView, now: u64) -> Result<
    Seq<char>,
    Seq<char>,
> {
    if !(claims.exp matches Some(exp) && exp > now) {
        Err("token has expired"@)
    } else {
        match claims.token {
            Some(nested) => Ok(nested),
            None => Err("token has no nested presentation-access-token claim"@),
        }
    }
}

/// Checks the expiry of a token and takes out the access token nested in it.
pub fn accept_token(claims: &TokenClaims, now: u64) -> (accepted: Result<String, String>)
    ensures
        match accepted {
            Ok(nested) => accepted_token(claims@, now) matches Ok(text) && text == nested@,
            Err(error) => accepted_token(claims@, now) matches Err(text) && text == error@,
        },
{
    let exp: u64 = match claims.exp {
        Some(exp) => exp,
        None => 0,
    };
    if exp <= now {
        return Err("token has expired".to_owned());
    }
    match &claims.token {
        Some(nested) => Ok(nested.clone()),
        None => Err("token has no nested presentation-access-token claim".to_owned()),
    }
}

// --- The presentation query -----------------------------------------------

/// The message that asks a Presentation API for a presentation.
pub struct PresentationQueryMessage {
    pub context: String,
    pub ld_type: String,
    pub scope: Vec<String>,
}

/// What a [`PresentationQueryMessage`] says.
pub struct PresentationQueryMessageView {
    pub context: Seq<char>,
    pub ld_type: Seq<char>,
    pub scope: Seq<Seq<char>>,
}

impl View for PresentationQueryMessage {
    type V = PresentationQueryMessageView;

    open spec fn view(&self) -> PresentationQueryMessageView {
        PresentationQueryMessageView {
            context: self.context@,
            ld_type: self.ld_type@,
            scope: crate::text::texts(self.scope@),
        }
    }
}

/// The message that asks for one scope.
pub open spec fn query_for(scope: Seq<char>) -> PresentationQueryMessageView {
    PresentationQueryMessageView {
        context: PRESENTATION_QUERY_CONTEXT@,
        ld_type: "PresentationQueryMessage"@,
        scope: seq![scope],
    }
}

impl PresentationQueryMessage {
    /// Asks for one scope.
    pub fn new(scope: String) -> (message: PresentationQueryMessage)
        ensures
            message@ == query_for(scope@),
    {
        let ghost wanted = scope@;
        let message = PresentationQueryMessage {
            context: PRESENTATION_QUERY_CONTEXT.to_owned(),
            ld_type: "PresentationQueryMessage".to_owned(),
            scope: vec![scope],
        };
        assert(message@.scope =~= seq![wanted]);
        message
    }
}

/// The payload of the token that re-packages `nested` for the holder.
pub open spec fn repackaged_payload(
    own_did: Seq<char>,
    holder_did: Seq<char>,
    nested: Seq<char>,
    now: u64,
    jti: Seq<char>,
) -> JsonContent {
    JsonContent::Object(
        map![
            "iss"@ => JsonContent::Text(own_did),
            "sub"@ => JsonContent::Text(own_did),
            "aud"@ => JsonContent::Text(holder_did),
            "token"@ => JsonContent::Text(nested),
            "iat"@ => JsonContent::Unsigned(now),
            "nbf"@ => JsonContent::Unsigned(now),
            "exp"@ => JsonContent::Unsigned((now + REPACKAGED_TOKEN_LIFETIME) as u64),
            "jti"@ => JsonContent::Text(jti),
        ],
    )
}

proof fn lemma_repackaged_payload_is_plain(
    own_did: Seq<char>,
    holder_did: Seq<char>,
    nested: Seq<char>,
    now: u64,
    jti: Seq<char>,
)
    ensures
        crate::json::plain(repackaged_payload(own_did, holder_did, nested, now, jti), 127),
{
    let fields = repackaged_payload(own_did, holder_did, nested, now, jti)->Object_0;
    crate::json::lemma_raw_value_name_length();
    reveal_strlit("iss");
    reveal_strlit("sub");
    reveal_strlit("aud");
    reveal_strlit("token");
    reveal_strlit("iat");
    reveal_strlit("nbf");
    reveal_strlit("exp");
    reveal_strlit("jti");
    assert(!fields.contains_key(crate::json::RAW_VALUE_NAME@));
    assert forall|name: Seq<char>| #[trigger]
        fields.contains_key(name) implies crate::json::plain(fields[name], 126) by {}
}

/// Builds the payload of the token that re-packages `nested` for the holder:
/// issued by this connector now, valid for five minutes, and unique by `jti`.
pub fn repackage(own_did: &str, holder_did: &str, nested: &str, now: u64, jti: &str) -> (payload:
    Value)
    requires
        now + REPACKAGED_TOKEN_LIFETIME <= u64::MAX,
    ensures
        crate::json::json_content(payload) == repackaged_payload(
            own_did@,
            holder_did@,
            nested@,
            now,
            jti@,
        ),
{
    let fields: Vec<(String, Value)> = vec![
        ("iss".to_owned(), text_value(own_did.to_owned())),
        ("sub".to_owned(), text_value(own_did.to_owned())),
        ("aud".to_owned(), text_value(holder_did.to_owned())),
        ("token".to_owned(), text_value(nested.to_owned())),
        ("iat".to_owned(), unsigned_value(now)),
        ("nbf".to_owned(), unsigned_value(now)),
        ("exp".to_owned(), unsigned_value(now + REPACKAGED_TOKEN_LIFETIME)),
        ("jti".to_owned(), text_value(jti.to_owned())),
    ];
    proof {
        crate::json::lemma_eight_members(crate::json::named_contents(fields@));
    }
    object_value(fields)
}

/// Waiting for a presentation: `query` is to be posted to `query_url` with
/// `bearer_token`.
pub struct AwaitingPresentation {
    pub holder_did: String,
    pub holder_doc: DidDocument,
    pub query_url: String,
    pub bearer_token: String,
    pub query: PresentationQueryMessage,
}

/// What [`AwaitingPresentation`] knows.
pub struct AwaitingPresentationView {
    pub holder_did: Seq<char>,
    pub holder_doc: DidDocumentView,
    pub query_url: Seq<char>,
    pub bearer_token: Seq<char>,
    pub query: PresentationQueryMessageView,
}

impl View for AwaitingPresentation {
    type V = AwaitingPresentationView;

    open spec fn view(&self) -> AwaitingPresentationView {
        AwaitingPresentationView {
            holder_did: self.holder_did@,
            holder_doc: self.holder_doc@,
            query_url: self.query_url@,
            bearer_token: self.bearer_token@,
            query: self.query@,
        }
    }
}

/// Whether a token is signed by the key that a document lists under `kid`,
/// or what is wrong.
pub open spec fn signed_by(token: Seq<char>, doc: DidDocumentView, kid: Seq<char>) -> Result<
    (),
    Seq<char>,
> {
    match crate::did::document_key(doc, kid) {
        Err(error) => Err(error),
        Ok(key) => crate::jws::jws_verdict(token, key),
    }
}

/// Checks that a token is signed by the key that a document lists under
/// `kid`.
pub fn check_signed_by(token: &str, doc: &DidDocument, kid: &str) -> (checked: Result<(), String>)
    ensures
        match checked {
            Ok(_) => signed_by(token@, doc@, kid@) is Ok,
            Err(error) => signed_by(token@, doc@, kid@) matches Err(text) && text == error@,
        },
{
    match find_verifying_key(doc, kid) {
        Ok(key) => verify_jws_signature(token, &key),
        Err(error) => Err(error),
    }
}

/// The holder's document, if it shows that the holder signed the token, and
/// the token is meant for `own_did`; or what is wrong.
pub open spec fn holder_authenticated(
    state: AwaitingHolderView,
    reply: DidReplyView,
    own_did: Seq<char>,
) -> Result<DidDocumentView, Seq<char>> {
    match resolved_document(state.holder_did, state.url, reply) {
        Err(error) => Err(error),
        Ok(doc) => match signed_by(state.token, doc, state.kid) {
            Err(error) => Err(error),
            Ok(_) => match addressed(state.claims, own_did) {
                Err(error) => Err(error),
                Ok(_) => Ok(doc),
            },
        },
    }
}

/// What to wait for once the holder is authenticated by a document, or why the
/// token is refused.
pub open spec fn presentation_asked(
    state: AwaitingHolderView,
    doc: DidDocumentView,
    config: DcpConfigView,
    now: u64,
    jti: Seq<char>,
) -> Result<AwaitingPresentationView, Seq<char>> {
    match accepted_token(state.claims, now) {
        Err(error) => Err(error),
        Ok(nested) => match crate::jws::jws_signed(
            repackaged_payload(config.own_did, state.holder_did, nested, now, jti),
            config.signing_key_bytes,
            config.own_key_id,
        ) {
            None => Err("signature operation failed"@),
            Some(bearer_token) => match crate::did::presentation_endpoint(doc) {
                Err(error) => Err(error),
                Ok(endpoint) => Ok(
                    AwaitingPresentationView {
                        holder_did: state.holder_did,
                        holder_doc: doc,
                        query_url: endpoint + "/presentations/query"@,
                        bearer_token,
                        query: query_for(config.required_scope),
                    },
                ),
            },
        },
    }
}

/// What to wait for after the holder's reply, or why the token is refused.
pub open spec fn holder_checked(
    state: AwaitingHolderView,
    reply: DidReplyView,
    config: DcpConfigView,
    now: u64,
    jti: Seq<char>,
) -> Result<AwaitingPresentationView, Seq<char>> {
    match holder_authenticated(state, reply, config.own_did) {
        Err(error) => Err(error),
        Ok(doc) => presentation_asked(state, doc, config, now, jti),
    }
}

/// Whether a token reads as this payload under this connector's name, and is
/// accepted at the connector's public point.
pub open spec fn signed_by_connector(
    token: Seq<char>,
    config: DcpConfigView,
    payload: JsonContent,
) -> bool {
    &&& crate::jws::jws_unverified(token) matches Ok(jws) && jws.header == crate::jws::jws_header(
        config.own_key_id,
    ) && jws.payload == payload
    &&& crate::jws::jws_verdict(
        token,
        crate::es256::es256_public_point(config.signing_key_bytes),
    ) is Ok
}

/// Whether a token proves to the holder that this connector was given the
/// access token nested in the caller's.
pub open spec fn proves_possession(
    token: Seq<char>,
    state: AwaitingHolderView,
    config: DcpConfigView,
    now: u64,
    jti: Seq<char>,
) -> bool {
    accepted_token(state.claims, now) matches Ok(nested) && signed_by_connector(
        token,
        config,
        repackaged_payload(config.own_did, state.holder_did, nested, now, jti),
    )
}

/// Whether `asked` is what comes of an authenticated holder at this time.
pub open spec fn asking_outcome(
    asked: Result<AwaitingPresentation, String>,
    state: AwaitingHolderView,
    doc: DidDocumentView,
    config: DcpConfigView,
    now: u64,
    jti: Seq<char>,
) -> bool {
    match asked {
        Ok(next) => {
            &&& presentation_asked(state, doc, config, now, jti) matches Ok(view) && view == next@
            &&& proves_possession(next@.bearer_token, state, config, now, jti)
        },
        Err(error) => presentation_asked(state, doc, config, now, jti) matches Err(text) && text
            == error@,
    }
}

impl AwaitingHolder {
    /// Checks that the holder signed the token, and meant it for this
    /// connector.
    pub fn authenticate(&self, reply: DidReply, own_did: &str) -> (authenticated: Result<
        DidDocument,
        String,
    >)
        ensures
            match authenticated {
                Ok(doc) => holder_authenticated(self@, reply@, own_did@) matches Ok(view) && view
                    == doc@,
                Err(error) => holder_authenticated(self@, reply@, own_did@) matches Err(text)
                    && text == error@,
            },
    {
        let holder_doc = match resolve_did(self.holder_did.as_str(), self.url.as_str(), reply) {
            Ok(doc) => doc,
            Err(error) => {
                return Err(error);
            },
        };
        match check_signed_by(self.token.as_str(), &holder_doc, self.kid.as_str()) {
            Ok(_) => {},
            Err(error) => {
                return Err(error);
            },
        }
        match check_addressed(&self.claims, own_did) {
            Ok(_) => Ok(holder_doc),
            Err(error) => Err(error),
        }
    }

    /// Checks the token against the holder's document and prepares the
    /// presentation query, at the time the clock shows and with a fresh
    /// identifier for the re-packaged token.
    pub fn resolved(self, reply: DidReply, config: &DcpConfig) -> (checked: Result<
        AwaitingPresentation,
        String,
    >)
        requires
            config@.can_sign(),
        ensures
            match holder_authenticated(self@, reply@, config@.own_did) {
                Err(text) => checked matches Err(error) && error@ == text,
                Ok(doc) => exists|reading: Option<u64>| #[trigger]
                    crate::clock::clock_gave(reading) && match reading {
                        None => checked matches Err(error) && error@
                            == "system clock before epoch"@,
                        Some(now) => if now + REPACKAGED_TOKEN_LIFETIME > u64::MAX {
                            checked matches Err(error) && error@ == "system clock out of range"@
                        } else {
                            exists|jti: Seq<char>|
                                {
                                    &&& crate::ids::fresh_uuid(jti)
                                    &&& #[trigger] asking_outcome(
                                        checked,
                                        self@,
                                        doc,
                                        config@,
                                        now,
                                        jti,
                                    )
                                }
                        },
                    },
            },
    {
        let holder_doc = match self.authenticate(reply, config.own_did.as_str()) {
            Ok(doc) => doc,
            Err(error) => {
                return Err(error);
            },
        };
        let now: u64 = match now_secs() {
            Ok(now) => now,
            Err(error) => {
                return Err(error);
            },
        };
        if now > u64::MAX - REPACKAGED_TOKEN_LIFETIME {
            return Err("system clock out of range".to_owned());
        }
        let jti = draw_uuid();
        self.authenticated(holder_doc, config, now, jti.as_str())
    }

    /// Prepares the presentation query for the holder whom `holder_doc`
    /// authenticates, with `jti` to identify the re-packaged token.
    pub fn authenticated(
        self,
        holder_doc: DidDocument,
        config: &DcpConfig,
        now: u64,
        jti: &str,
    ) -> (asked: Result<AwaitingPresentation, String>)
        requires
            config@.can_sign(),
            now + REPACKAGED_TOKEN_LIFETIME <= u64::MAX,
        ensures
            asking_outcome(asked, self@, holder_doc@, config@, now, jti@),
    {
        let nested = match accept_token(&self.claims, now) {
            Ok(nested) => nested,
            Err(error) => {
                return Err(error);
            },
        };
        let payload = repackage(
            config.own_did.as_str(),
            self.holder_did.as_str(),
            nested.as_str(),
            now,
            jti,
        );
        proof {
            lemma_repackaged_payload_is_plain(
                config@.own_did,
                self@.holder_did,
                nested@,
                now,
                jti@,
            );
        }
        let bearer_token = match sign_jws(
            &payload,
            &config.signing_key(),
            config.own_key_id.as_str(),
        ) {
            Ok(token) => token,
            Err(error) => {
                return Err(error);
            },
        };
        match credential_service_url(&holder_doc) {
            Ok(endpoint) => Ok(
                AwaitingPresentation {
                    holder_did: self.holder_did,
                    holder_doc,
                    query_url: endpoint.concat("/presentations/query"),
                    bearer_token,
                    query: PresentationQueryMessage::new(config.required_scope.clone()),
                },
            ),
            Err(error) => Err(error),
        }
    }
}

// --- The credentials ------------------------------------------------------

/// How far the credentials of a presentation have been checked.
pub struct Progress {
    pub holder_did: String,
    pub credentials: Vec<Option<String>>,
    /// How many credentials have been checked.
    pub checked: usize,
    /// The datasets granted so far.
    pub granted: StringHashSet,
    /// Whether any credential so far had not expired.
    pub any_current: bool,
}

/// What [`Progress`] says.
pub struct ProgressView {
    pub holder_did: Seq<char>,
    pub credentials: Seq<Option<Seq<char>>>,
    pub checked: nat,
    pub granted: Set<Seq<char>>,
    pub any_current: bool,
}

impl View for Progress {
    type V = ProgressView;

    open spec fn view(&self) -> ProgressView {
        ProgressView {
            holder_did: self.holder_did@,
            credentials: crate::claims::optional_texts(self.credentials@),
            checked: self.checked as nat,
            granted: self.granted@,
            any_current: self.any_current,
        }
    }
}

/// Waiting for the DID document of a credential's issuer, to be fetched from
/// `url`.
pub struct AwaitingIssuer {
    pub progress: Progress,
    pub jws: String,
    pub claims: CredentialClaims,
    pub issuer_did: String,
    pub kid: String,
    pub url: String,
}

/// What [`AwaitingIssuer`] knows.
pub struct AwaitingIssuerView {
    pub progress: ProgressView,
    pub jws: Seq<char>,
    pub claims: CredentialClaimsView,
    pub issuer_did: Seq<char>,
    pub kid: Seq<char>,
    pub url: Seq<char>,
}

impl View for AwaitingIssuer {
    type V = AwaitingIssuerView;

    open spec fn view(&self) -> AwaitingIssuerView {
        AwaitingIssuerView {
            progress: self.progress@,
            jws: self.jws@,
            claims: self.claims@,
            issuer_did: self.issuer_did@,
            kid: self.kid@,
            url: self.url@,
        }
    }
}

impl AwaitingIssuerView {
    /// Whether there is a credential whose issuer is waited for.
    pub open spec fn well_formed(self) -> bool {
        self.progress.checked < self.progress.credentials.len()
    }
}

/// What follows the check of a credential.
pub enum CredentialStep {
    /// Another credential, whose issuer's document is to be fetched.
    Resolve(AwaitingIssuer),
    /// All credentials have been checked.
    Done(VerifiedCaller),
}

/// What a [`CredentialStep`] says.
pub enum CredentialStepView {
    Resolve(AwaitingIssuerView),
    Done(VerifiedCallerView),
}

impl View for CredentialStep {
    type V = CredentialStepView;

    open spec fn view(&self) -> CredentialStepView {
        match self {
            CredentialStep::Resolve(state) => CredentialStepView::Resolve(state@),
            CredentialStep::Done(caller) => CredentialStepView::Done(caller@),
        }
    }
}

/// Whether a credential has not expired; one without an expiry counts as
/// expired.
pub open spec fn current(claims: CredentialClaimsView, now: u64) -> bool {
    claims.exp matches Some(exp) && exp > now
}

/// The datasets that a credential grants: those it names, if it has not
/// expired and is of the expected type.
pub open spec fn grants(claims: CredentialClaimsView, now: u64) -> Set<Seq<char>> {
    if current(claims, now) && claims.types.contains(Some(EXPECTED_CREDENTIAL_TYPE@)) {
        Set::new(|id: Seq<char>| claims.catalog_access.contains(Some(id)))
    } else {
        Set::empty()
    }
}

/// Whether a list of optional texts holds a text.
fn holds_text(list: &Vec<Option<String>>, wanted: &str) -> (holds: bool)
    ensures
        holds == crate::claims::optional_texts(list@).contains(Some(wanted@)),
{
    let ghost all = crate::claims::optional_texts(list@);
    let mut i: usize = 0;
    while i < list.len()
        invariant
            i <= list.len(),
            all == crate::claims::optional_texts(list@),
            forall|j: int| 0 <= j < i ==> #[trigger] all[j] != Some(wanted@),
        decreases list.len() - i,
    {
        match &list[i] {
            Some(text) => if same_text(text.as_str(), wanted) {
                assert(all[i as int] == Some(wanted@));
                return true;
            },
            None => {},
        }
        i += 1;
    }
    false
}

/// Adds what a verified credential grants, and says whether it is current.
pub fn count_credential(
    granted: &mut StringHashSet,
    claims: &CredentialClaims,
    now: u64,
) -> (is_current: bool)
    ensures
        is_current == current(claims@, now),
        final(granted)@ == old(granted)@.union(grants(claims@, now)),
{
    let exp: u64 = match claims.exp {
        Some(exp) => exp,
        None => 0,
    };
    if exp <= now {
        assert(granted@ =~= granted@.union(Set::empty()));
        return false;
    }
    if !holds_text(&claims.types, EXPECTED_CREDENTIAL_TYPE) {
        assert(granted@ =~= granted@.union(Set::empty()));
        return true;
    }
    let ghost before = granted@;
    let ghost all = crate::claims::optional_texts(claims.catalog_access@);
    let mut i: usize = 0;
    while i < claims.catalog_access.len()
        invariant
            i <= claims.catalog_access.len(),
            all == crate::claims::optional_texts(claims.catalog_access@),
            forall|id: Seq<char>| #[trigger]
                granted@.contains(id) <==> before.contains(id) || all.take(i as int).contains(
                    Some(id),
                ),
        decreases claims.catalog_access.len() - i,
    {
        let ghost seen = all.take(i as int);
        let ghost now_seen = all.take(i + 1);
        proof {
            assert(now_seen =~= seen.push(all[i as int]));
            assert forall|id: Seq<char>| #[trigger]
                now_seen.contains(Some(id)) <==> seen.contains(Some(id)) || all[i as int] == Some(
                    id,
                ) by {
                if now_seen.contains(Some(id)) {
                    let k = choose|k: int| 0 <= k < now_seen.len() && now_seen[k] == Some(id);
                    if k < i {
                        assert(seen[k] == Some(id));
                    }
                }
                if seen.contains(Some(id)) {
                    let k = choose|k: int| 0 <= k < seen.len() && seen[k] == Some(id);
                    assert(now_seen[k] == Some(id));
                }
                if all[i as int] == Some(id) {
                    assert(now_seen[i as int] == Some(id));
                }
            }
        }
        match &claims.catalog_access[i] {
            Some(id) => {
                granted.insert(id.clone());
            },
            None => {},
        }
        i += 1;
    }
    assert(all.take(all.len() as int) =~= all);
    assert(granted@ =~= before.union(grants(claims@, now)));
    true
}

/// What to wait for after reading these claims in a credential, or what they
/// lack.
pub open spec fn credential_claimed(
    progress: ProgressView,
    jws: Seq<char>,
    claims: CredentialClaimsView,
    insecure_http: bool,
) -> Result<CredentialStepView, Seq<char>> {
    match claims.iss {
        None => Err("VC has no iss"@),
        Some(issuer_did) => match claims.kid {
            None => Err("VC has no kid"@),
            Some(kid) => match crate::did::did_document_url(issuer_did, insecure_http) {
                Err(error) => Err(error),
                Ok(url) => Ok(
                    CredentialStepView::Resolve(
                        AwaitingIssuerView { progress, jws, claims, issuer_did, kid, url },
                    ),
                ),
            },
        },
    }
}

/// What comes of a presentation once all its credentials have been checked:
/// one whose credentials have all expired establishes nothing.
pub open spec fn concluded(progress: ProgressView) -> Result<VerifiedCallerView, Seq<char>> {
    if progress.any_current {
        Ok(
            VerifiedCallerView {
                holder_did: progress.holder_did,
                catalog_access: progress.granted,
            },
        )
    } else {
        Err("all presented credentials have expired"@)
    }
}

/// What is to be done next with the credentials of a presentation.
pub open spec fn turned_to_next(progress: ProgressView, insecure_http: bool) -> Result<
    CredentialStepView,
    Seq<char>,
> {
    if progress.checked >= progress.credentials.len() {
        match concluded(progress) {
            Ok(caller) => Ok(CredentialStepView::Done(caller)),
            Err(error) => Err(error),
        }
    } else {
        match progress.credentials[progress.checked as int] {
            None => Err("verifiableCredential entry was not a string"@),
            Some(jws) => match crate::jws::jws_unverified(jws) {
                Err(error) => Err(error),
                Ok(vc) => credential_claimed(
                    progress,
                    jws,
                    crate::claims::credential_claims(vc.header, vc.payload),
                    insecure_http,
                ),
            },
        }
    }
}

impl Progress {
    /// Turns to the issuer that a credential's claims name.
    pub fn with_claims(self, jws: String, claims: CredentialClaims, insecure_http: bool) -> (next:
        Result<CredentialStep, String>)
        ensures
            match next {
                Ok(step) => credential_claimed(self@, jws@, claims@, insecure_http) matches Ok(
                    view,
                ) && view == step@,
                Err(error) => credential_claimed(self@, jws@, claims@, insecure_http) matches Err(
                    text,
                ) && text == error@,
            },
    {
        let issuer_did = match &claims.iss {
            Some(iss) => iss.clone(),
            None => {
                return Err("VC has no iss".to_owned());
            },
        };
        let kid = match &claims.kid {
            Some(kid) => kid.clone(),
            None => {
                return Err("VC has no kid".to_owned());
            },
        };
        match did_web_to_url(issuer_did.as_str(), insecure_http) {
            Ok(url) => Ok(
                CredentialStep::Resolve(
                    AwaitingIssuer { progress: self, jws, claims, issuer_did, kid, url },
                ),
            ),
            Err(error) => Err(error),
        }
    }

    /// Concludes what the credentials establish.
    pub fn conclude(self) -> (conclusion: Result<VerifiedCaller, String>)
        ensures
            match conclusion {
                Ok(caller) => concluded(self@) matches Ok(view) && view == caller@,
                Err(error) => concluded(self@) matches Err(text) && text == error@,
            },
    {
        if self.any_current {
            Ok(VerifiedCaller { holder_did: self.holder_did, catalog_access: self.granted })
        } else {
            Err("all presented credentials have expired".to_owned())
        }
    }

    /// Turns to the next credential, or concludes if there is none.
    pub fn next(self, insecure_http: bool) -> (next: Result<CredentialStep, String>)
        ensures
            match next {
                Ok(step) => turned_to_next(self@, insecure_http) matches Ok(view) && view == step@,
                Err(error) => turned_to_next(self@, insecure_http) matches Err(text) && text
                    == error@,
            },
            next matches Ok(CredentialStep::Resolve(state)) ==> state@.well_formed(),
    {
        if self.checked >= self.credentials.len() {
            return match self.conclude() {
                Ok(caller) => Ok(CredentialStep::Done(caller)),
                Err(error) => Err(error),
            };
        }
        assert(self@.credentials[self.checked as int] == crate::catalog::optional_text(
            self.credentials@[self.checked as int],
        ));
        let jws = match &self.credentials[self.checked] {
            Some(jws) => jws.clone(),
            None => {
                return Err("verifiableCredential entry was not a string".to_owned());
            },
        };
        match decode_jws_unverified(jws.as_str()) {
            Ok((_signing_input, header, payload)) => {
                let claims = CredentialClaims::read(&header, &payload);
                self.with_claims(jws, claims, insecure_http)
            },
            Err(error) => Err(error),
        }
    }
}

/// The progress at the start of a presentation's credentials.
pub open spec fn started(
    holder_did: Seq<char>,
    credentials: Seq<Option<Seq<char>>>,
) -> ProgressView {
    ProgressView {
        holder_did,
        credentials,
        checked: 0,
        granted: Set::empty(),
        any_current: false,
    }
}

/// What to do after the Presentation API's reply, or why the presentation is
/// refused.
pub open spec fn presentation_checked(
    state: AwaitingPresentationView,
    reply: PresentationReplyView,
    insecure_http: bool,
) -> Result<CredentialStepView, Seq<char>> {
    match presented(state.query_url, reply) {
        Err(error) => Err(error),
        Ok(vp) => match crate::jws::jws_unverified(vp) {
            Err(error) => Err(error),
            Ok(jws) => {
                let claims = crate::claims::presentation_claims(jws.header, jws.payload);
                match claims.kid {
                    None => Err("VP has no kid"@),
                    Some(kid) => match signed_by(vp, state.holder_doc, kid) {
                        Err(error) => Err(error),
                        Ok(_) => if claims.credentials.len() == 0 {
                            Err("VerifiablePresentation contained no credentials"@)
                        } else {
                            turned_to_next(
                                started(state.holder_did, claims.credentials),
                                insecure_http,
                            )
                        },
                    },
                }
            },
        },
    }
}

impl AwaitingPresentation {
    /// Checks the presentation, which the holder must have signed, and turns
    /// to the credentials in it.
    pub fn received(self, reply: PresentationReply, config: &DcpConfig) -> (checked: Result<
        CredentialStep,
        String,
    >)
        ensures
            match checked {
                Ok(step) => presentation_checked(
                    self@,
                    reply@,
                    config@.insecure_http,
                ) matches Ok(view) && view == step@,
                Err(error) => presentation_checked(
                    self@,
                    reply@,
                    config@.insecure_http,
                ) matches Err(text) && text == error@,
            },
            checked matches Ok(CredentialStep::Resolve(state)) ==> state@.well_formed(),
    {
        let vp = match presentation_of(self.query_url.as_str(), reply) {
            Ok(vp) => vp,
            Err(error) => {
                return Err(error);
            },
        };
        let claims = match decode_jws_unverified(vp.as_str()) {
            Ok((_signing_input, header, payload)) => PresentationClaims::read(&header, &payload),
            Err(error) => {
                return Err(error);
            },
        };
        let kid = match &claims.kid {
            Some(kid) => kid.clone(),
            None => {
                return Err("VP has no kid".to_owned());
            },
        };
        match check_signed_by(vp.as_str(), &self.holder_doc, kid.as_str()) {
            Ok(_) => {},
            Err(error) => {
                return Err(error);
            },
        }
        if claims.credentials.len() == 0 {
            return Err("VerifiablePresentation contained no credentials".to_owned());
        }
        let progress = Progress {
            holder_did: self.holder_did,
            credentials: claims.credentials,
            checked: 0,
            granted: StringHashSet::new(),
            any_current: false,
        };
        progress.next(config.insecure_http)
    }
}

/// The progress after a verified credential has been counted.
pub open spec fn counted(
    progress: ProgressView,
    claims: CredentialClaimsView,
    now: u64,
) -> ProgressView {
    ProgressView {
        checked: progress.checked + 1,
        granted: progress.granted.union(grants(claims, now)),
        any_current: progress.any_current || current(claims, now),
        ..progress
    }
}

/// Whether the issuer's document that a reply brings shows that the issuer
/// signed the credential, or what is wrong.
pub open spec fn issuer_authenticated(state: AwaitingIssuerView, reply: DidReplyView) -> Result<
    (),
    Seq<char>,
> {
    match resolved_document(state.issuer_did, state.url, reply) {
        Err(error) => Err(error),
        Ok(doc) => signed_by(state.jws, doc, state.kid),
    }
}

/// What to do after an issuer's reply, or why the credential is refused.
pub open spec fn credential_checked(
    state: AwaitingIssuerView,
    reply: DidReplyView,
    now: u64,
    insecure_http: bool,
) -> Result<CredentialStepView, Seq<char>> {
    match issuer_authenticated(state, reply) {
        Err(error) => Err(error),
        Ok(_) => turned_to_next(counted(state.progress, state.claims, now), insecure_http),
    }
}

/// Whether `checked` is what comes of a signed credential at this time.
pub open spec fn counting_outcome(
    checked: Result<CredentialStep, String>,
    state: AwaitingIssuerView,
    now: u64,
    insecure_http: bool,
) -> bool {
    let next = turned_to_next(counted(state.progress, state.claims, now), insecure_http);
    match checked {
        Ok(step) => next matches Ok(view) && view == step@,
        Err(error) => next matches Err(text) && text == error@,
    }
}

impl AwaitingIssuer {
    /// Checks that the issuer signed the credential.
    pub fn authenticate(&self, reply: DidReply) -> (authenticated: Result<(), String>)
        ensures
            match authenticated {
                Ok(_) => issuer_authenticated(self@, reply@) is Ok,
                Err(error) => issuer_authenticated(self@, reply@) matches Err(text) && text
                    == error@,
            },
    {
        match resolve_did(self.issuer_did.as_str(), self.url.as_str(), reply) {
            Ok(doc) => check_signed_by(self.jws.as_str(), &doc, self.kid.as_str()),
            Err(error) => Err(error),
        }
    }

    /// Checks the credential, which its own issuer must have signed, at the
    /// time the clock shows, and turns to the next one.
    pub fn resolved(self, reply: DidReply, config: &DcpConfig) -> (checked: Result<
        CredentialStep,
        String,
    >)
        requires
            self@.well_formed(),
        ensures
            match issuer_authenticated(self@, reply@) {
                Err(text) => checked matches Err(error) && error@ == text,
                Ok(_) => exists|reading: Option<u64>| #[trigger]
                    crate::clock::clock_gave(reading) && match reading {
                        None => checked matches Err(error) && error@
                            == "system clock before epoch"@,
                        Some(now) => counting_outcome(
                            checked,
                            self@,
                            now,
                            config@.insecure_http,
                        ),
                    },
            },
            checked matches Ok(CredentialStep::Resolve(state)) ==> state@.well_formed(),
    {
        match self.authenticate(reply) {
            Ok(_) => {},
            Err(error) => {
                return Err(error);
            },
        }
        match now_secs() {
            Ok(now) => self.authenticated(config, now),
            Err(error) => Err(error),
        }
    }

    /// Counts the credential, which its own issuer has signed, and turns to
    /// the next one.
    pub fn authenticated(self, config: &DcpConfig, now: u64) -> (checked: Result<
        CredentialStep,
        String,
    >)
        requires
            self@.well_formed(),
        ensures
            counting_outcome(checked, self@, now, config@.insecure_http),
            checked matches Ok(CredentialStep::Resolve(state)) ==> state@.well_formed(),
    {
        let mut progress = self.progress;
        assert(progress.checked < progress.credentials.len());
        let is_current = count_credential(&mut progress.granted, &self.claims, now);
        progress.checked = progress.checked + 1;
        progress.any_current = progress.any_current || is_current;
        progress.next(config.insecure_http)
    }
}

} // verus!
