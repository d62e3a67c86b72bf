//! Laws of each step of a token's verification, stated on the tokens that come
//! in and go out, and on the members of the JSON values in them.

use crate::claims::{CredentialClaims, TokenClaims};
use crate::dcp::DcpConfig;
use crate::did::DidDocument;
use crate::json::JsonContent;
use crate::verification::{
    accept_token, begin_verification, begin_with_claims, check_addressed, count_credential,
    presentation_of, repackage, resolve_did,
};
use crate::verification::{
    AwaitingHolder, AwaitingIssuer, AwaitingPresentation, CredentialStep, DidReply,
    PresentationQueryMessage, PresentationReply, Progress, ProgressView, VerifiedCaller,
};
use serde_json::Value;
use vstd::hash_set::StringHashSet;
use vstd::prelude::*;

verus! {

// --- Replies ----------------------------------------------------------------

/// Why a reply about an identifier brings no document, if it brings none.
pub open spec fn no_document(did: Seq<char>, url: Seq<char>, reply: DidReply) -> Option<Seq<char>> {
    match reply {
        DidReply::Document(_) => None,
        DidReply::Unreachable(error) => Some(
            "failed to resolve DID "@ + did + " at "@ + url + ": "@ + error@,
        ),
        DidReply::Refused(status) => Some(
            "DID resolution for "@ + did + " returned HTTP "@ + status@,
        ),
        DidReply::Malformed(error) => Some(
            "DID document for "@ + did + " was not valid: "@ + error@,
        ),
    }
}

/// A DID document is taken out of the reply that brings one; the other replies
/// are named as what they are.
pub proof fn replies_about_identifiers_are_told_apart(
    did: &str,
    url: &str,
    reply: DidReply,
    resolved: Result<DidDocument, String>,
)
    requires
        call_ensures(resolve_did, (did, url, reply), resolved),
    ensures
        match resolved {
            Ok(doc) => reply matches DidReply::Document(sent) && doc@ == sent@,
            Err(error) => no_document(did@, url@, reply) == Some(error@),
        },
{
}

/// Why a reply to a presentation query brings no presentation, if it brings
/// none.
pub open spec fn no_presentation(url: Seq<char>, reply: PresentationReply) -> Option<Seq<char>> {
    match reply {
        PresentationReply::Presentations(list) => if list@.len() == 0 {
            Some("presentation response had no presentation"@)
        } else {
            None
        },
        PresentationReply::Unreachable(error) => Some(
            "presentation query to "@ + url + " failed: "@ + error@,
        ),
        PresentationReply::Refused(status, body) => Some(
            "presentation query returned HTTP "@ + status@ + ": "@ + body@,
        ),
        PresentationReply::Malformed(error) => Some(
            "malformed presentation response: "@ + error@,
        ),
    }
}

/// The presentation is the first one that the reply brings; the other replies
/// are named as what they are.
pub proof fn replies_with_presentations_are_told_apart(
    url: &str,
    reply: PresentationReply,
    presentation: Result<String, String>,
)
    requires
        call_ensures(presentation_of, (url, reply), presentation),
    ensures
        match presentation {
            Ok(first) => reply matches PresentationReply::Presentations(list) && list@.len() > 0
                && first@ == list@[0]@,
            Err(error) => no_presentation(url@, reply) == Some(error@),
        },
{
    if let PresentationReply::Presentations(list) = reply {
        assert(crate::text::texts(list@).len() == list@.len());
        if list@.len() > 0 {
            assert(crate::text::texts(list@)[0] == list@[0]@);
        }
    }
}

/// What two documents say is the same only if they list the same keys and the
/// same services.
pub proof fn documents_say_all_they_hold(a: DidDocument, b: DidDocument)
    requires
        a@ == b@,
    ensures
        a.verification_method@.len() == b.verification_method@.len(),
        forall|i: int|
            0 <= i < a.verification_method@.len() ==> {
                &&& (#[trigger] a.verification_method@[i]).id@ == b.verification_method@[i].id@
                &&& match (
                    a.verification_method@[i].public_key_jwk,
                    b.verification_method@[i].public_key_jwk,
                ) {
                    (Some(x), Some(y)) => x.x@ == y.x@ && x.y@ == y.y@,
                    (None, None) => true,
                    _ => false,
                }
            },
        a.service@.len() == b.service@.len(),
        forall|i: int|
            0 <= i < a.service@.len() ==> (#[trigger] a.service@[i]).ty@ == b.service@[i].ty@
                && a.service@[i].service_endpoint@ == b.service@[i].service_endpoint@,
{
    assert(a@.verification_method.len() == a.verification_method@.len());
    assert(b@.verification_method.len() == b.verification_method@.len());
    assert(a@.service.len() == a.service@.len());
    assert(b@.service.len() == b.service@.len());
    assert forall|i: int| 0 <= i < a.verification_method@.len() implies {
        &&& (#[trigger] a.verification_method@[i]).id@ == b.verification_method@[i].id@
        &&& match (
            a.verification_method@[i].public_key_jwk,
            b.verification_method@[i].public_key_jwk,
        ) {
            (Some(x), Some(y)) => x.x@ == y.x@ && x.y@ == y.y@,
            (None, None) => true,
            _ => false,
        }
    } by {
        assert(a@.verification_method[i] == a.verification_method@[i]@);
        assert(b@.verification_method[i] == b.verification_method@[i]@);
    }
    assert forall|i: int| 0 <= i < a.service@.len() implies (#[trigger] a.service@[i]).ty@
        == b.service@[i].ty@ && a.service@[i].service_endpoint@
        == b.service@[i].service_endpoint@ by {
        assert(a@.service[i] == a.service@[i]@);
        assert(b@.service[i] == b.service@[i]@);
    }
}

// --- The caller's token -----------------------------------------------------

/// Whether claims are the members of those names in a token's header and
/// payload.
pub open spec fn are_the_claims_in(claims: TokenClaims, token: Seq<char>) -> bool {
    let header = crate::properties::tokens::header_in(token);
    let payload = crate::properties::tokens::payload_in(token);
    &&& crate::properties::tokens::is_text_member(claims.kid, header, "kid"@)
    &&& crate::properties::tokens::is_text_member(claims.iss, payload, "iss"@)
    &&& crate::properties::tokens::is_text_member(claims.aud, payload, "aud"@)
    &&& crate::properties::tokens::is_number_member(claims.exp, payload, "exp"@)
    &&& crate::properties::tokens::is_text_member(claims.token, payload, "token"@)
}

/// What two sets of a token's claims say is the same only if each claim is.
pub proof fn token_claims_say_all_they_hold(a: TokenClaims, b: TokenClaims)
    requires
        a@ == b@,
    ensures
        crate::properties::documents::same_option(a.kid, b.kid),
        crate::properties::documents::same_option(a.iss, b.iss),
        crate::properties::documents::same_option(a.aud, b.aud),
        a.exp == b.exp,
        crate::properties::documents::same_option(a.token, b.token),
{
}

/// Whether a payload names an issuer that is no `did:web` identity.
pub open spec fn issuer_has_no_address(payload: JsonContent) -> bool {
    forall|rest: Seq<char>|
        !#[trigger] crate::properties::tokens::has_member(
            payload,
            "iss"@,
            JsonContent::Text("did:web:"@ + rest),
        )
}

/// Whether a JSON value has a text member of this name.
pub open spec fn has_text(content: JsonContent, name: Seq<char>) -> bool {
    exists|text: Seq<char>| #[trigger]
        crate::properties::tokens::has_member(content, name, JsonContent::Text(text))
}

/// A verification begins for a token that can be read, names its issuer and
/// its key, and whose issuer has an address. It waits for the issuer's
/// document at that address, with the token and its claims kept as they are.
pub proof fn verification_begins_with_the_issuer(
    token: &str,
    config: &DcpConfig,
    begun: Result<AwaitingHolder, String>,
)
    requires
        call_ensures(begin_verification, (token, config), begun),
    ensures
        ({
            let header = crate::properties::tokens::header_in(token@);
            let payload = crate::properties::tokens::payload_in(token@);
            match begun {
                Ok(state) => {
                    &&& crate::properties::tokens::unreadable(token@) is None
                    &&& state.token@ == token@
                    &&& are_the_claims_in(state.claims, token@)
                    &&& crate::properties::tokens::has_member(
                        payload,
                        "iss"@,
                        JsonContent::Text(state.holder_did@),
                    )
                    &&& crate::properties::tokens::has_member(
                        header,
                        "kid"@,
                        JsonContent::Text(state.kid@),
                    )
                    &&& crate::properties::identity::found_at(
                        state.holder_did@,
                        config.insecure_http,
                        state.url@,
                    )
                },
                Err(error) => match crate::properties::tokens::unreadable(token@) {
                    Some(reason) => error@ == reason,
                    None => if !has_text(payload, "iss"@) {
                        error@ == "token has no iss"@
                    } else if !has_text(header, "kid"@) {
                        error@ == "token has no kid"@
                    } else {
                        error@ == "not a did:web DID"@ && issuer_has_no_address(payload)
                    },
                },
            }
        }),
{
    crate::properties::tokens::lemma_readable(token@);
    if let Ok(jws) = crate::jws::jws_unverified(token@) {
        let claims = crate::claims::token_claims(jws.header, jws.payload);
        if let Some(holder_did) = claims.iss {
            crate::properties::identity::lemma_found_at(holder_did, config.insecure_http);
            assert(crate::properties::tokens::has_member(
                jws.payload,
                "iss"@,
                JsonContent::Text(holder_did),
            ));
        }
        if let Some(kid) = claims.kid {
            assert(crate::properties::tokens::has_member(
                jws.header,
                "kid"@,
                JsonContent::Text(kid),
            ));
        }
        if let Ok(state) = begun {
            assert(state@.claims == claims);
            crate::properties::tokens::lemma_token_claims(
                state.claims,
                jws.header,
                jws.payload,
            );
        }
    }
}

/// Claims lead to the issuer and key that they name.
pub proof fn claims_lead_to_the_issuer(
    token: &str,
    claims: TokenClaims,
    insecure_http: bool,
    begun: Result<AwaitingHolder, String>,
)
    requires
        call_ensures(begin_with_claims, (token, claims, insecure_http), begun),
    ensures
        match begun {
            Ok(state) => {
                &&& state.token@ == token@
                &&& state.claims@ == claims@
                &&& claims.iss matches Some(iss) && iss@ == state.holder_did@
                &&& claims.kid matches Some(kid) && kid@ == state.kid@
                &&& crate::properties::identity::found_at(
                    state.holder_did@,
                    insecure_http,
                    state.url@,
                )
            },
            Err(error) => if claims.iss is None {
                error@ == "token has no iss"@
            } else if claims.kid is None {
                error@ == "token has no kid"@
            } else {
                &&& error@ == "not a did:web DID"@
                &&& forall|rest: Seq<char>| (claims.iss->0)@ != #[trigger] ("did:web:"@ + rest)
            },
        },
{
    if let Some(iss) = claims.iss {
        crate::properties::identity::lemma_found_at(iss@, insecure_http);
    }
}

/// Whether a token's claims address it to this identity; one without an
/// audience counts as addressed to the empty text.
pub open spec fn is_addressed(claims: TokenClaims, own_did: Seq<char>) -> bool {
    match claims.aud {
        Some(aud) => aud@ == own_did,
        None => own_did.len() == 0,
    }
}

/// What is said of a token that is addressed to another.
pub open spec fn wrong_audience(claims: TokenClaims, own_did: Seq<char>) -> Seq<char> {
    let aud = match claims.aud {
        Some(aud) => aud@,
        None => Seq::empty(),
    };
    "token audience '"@ + aud + "' does not match this connector's DID '"@ + own_did + "'"@
}

proof fn lemma_addressed(claims: TokenClaims, own_did: Seq<char>)
    ensures
        crate::verification::addressed(claims@, own_did) is Ok <==> is_addressed(claims, own_did),
        crate::verification::addressed(claims@, own_did) matches Err(error) ==> error
            == wrong_audience(claims, own_did),
{
    reveal_strlit("");
    assert(""@ =~= Seq::<char>::empty());
    if own_did.len() == 0 {
        assert(own_did =~= Seq::<char>::empty());
    }
}

/// A token is refused exactly if it is addressed to another.
pub proof fn tokens_for_others_are_refused(
    claims: &TokenClaims,
    own_did: &str,
    checked: Result<(), String>,
)
    requires
        call_ensures(check_addressed, (claims, own_did), checked),
    ensures
        checked is Ok <==> is_addressed(*claims, own_did@),
        checked matches Err(error) ==> error@ == wrong_audience(*claims, own_did@),
{
    lemma_addressed(*claims, own_did@);
}

/// A token gives out the access token nested in it, unchanged, as long as its
/// expiry is still to come.
pub proof fn current_tokens_give_out_the_nested_one(
    claims: &TokenClaims,
    now: u64,
    accepted: Result<String, String>,
)
    requires
        call_ensures(accept_token, (claims, now), accepted),
    ensures
        match accepted {
            Ok(nested) => {
                &&& claims.exp matches Some(exp) && now < exp
                &&& claims.token matches Some(token) && nested@ == token@
            },
            Err(error) => if claims.exp matches Some(exp) && now < exp {
                claims.token is None && error@
                    == "token has no nested presentation-access-token claim"@
            } else {
                error@ == "token has expired"@
            },
        },
{
}

/// Whether a reply authenticates the holder: it brings a document under whose
/// key, of the id that the token names, the token is signed, and the token is
/// addressed to this identity.
pub open spec fn authenticates(state: AwaitingHolder, reply: DidReply, own_did: Seq<char>) -> bool {
    &&& reply matches DidReply::Document(doc) && crate::properties::keys::signed_under(
        state.token@,
        doc,
        state.kid@,
    )
    &&& is_addressed(state.claims, own_did)
}

/// Why a reply authenticates nobody.
pub open spec fn unauthenticated(
    error: Seq<char>,
    token: Seq<char>,
    kid: Seq<char>,
    did: Seq<char>,
    url: Seq<char>,
    reply: DidReply,
) -> bool {
    match reply {
        DidReply::Document(doc) => crate::properties::keys::not_signed(token, doc, kid, error),
        _ => no_document(did, url, reply) == Some(error),
    }
}

/// Why a reply does not authenticate the holder: it shows no signature, or it
/// does and the token is addressed to another.
pub open spec fn refuses_holder(
    error: Seq<char>,
    state: AwaitingHolder,
    reply: DidReply,
    own_did: Seq<char>,
) -> bool {
    if reply matches DidReply::Document(doc) && crate::properties::keys::signed_under(
        state.token@,
        doc,
        state.kid@,
    ) {
        !is_addressed(state.claims, own_did) && error == wrong_audience(state.claims, own_did)
    } else {
        unauthenticated(
            error,
            state.token@,
            state.kid@,
            state.holder_did@,
            state.url@,
            reply,
        )
    }
}

proof fn lemma_authenticates(state: AwaitingHolder, reply: DidReply, own_did: Seq<char>)
    ensures
        match crate::verification::holder_authenticated(state@, reply@, own_did) {
            Ok(view) => authenticates(state, reply, own_did) && view
                == (reply->Document_0)@,
            Err(error) => !authenticates(state, reply, own_did) && refuses_holder(
                error,
                state,
                reply,
                own_did,
            ),
        },
{
    if let DidReply::Document(doc) = reply {
        crate::properties::keys::lemma_signed_under(state.token@, doc, state.kid@);
    }
    lemma_addressed(state.claims, own_did);
}

/// A holder is authenticated exactly by a document under whose key, of the id
/// that the token names, the token is signed, for a token that is addressed to
/// this connector.
pub proof fn holders_are_authenticated_by_their_signature(
    state: &AwaitingHolder,
    reply: DidReply,
    own_did: &str,
    authenticated: Result<DidDocument, String>,
)
    requires
        call_ensures(AwaitingHolder::authenticate, (state, reply, own_did), authenticated),
    ensures
        authenticated is Ok <==> authenticates(*state, reply, own_did@),
        match authenticated {
            Ok(doc) => doc@ == (reply->Document_0)@,
            Err(error) => refuses_holder(error@, *state, reply, own_did@),
        },
{
    lemma_authenticates(*state, reply, own_did@);
}

// --- The presentation query -------------------------------------------------

/// Whether a bearer token is this connector's: three segments, a header that
/// names the connector's key, and a signature of the first two segments, with
/// the dot between them, that is accepted at the key's public point.
pub open spec fn is_the_connectors(token: Seq<char>, config: DcpConfig) -> bool {
    let point = crate::es256::es256_public_point(config.signing_key_bytes@);
    &&& crate::properties::tokens::unreadable(token) is None
    &&& is_header(crate::properties::tokens::header_in(token), config.own_key_id@)
    &&& crate::properties::tokens::accepted_at(token, point.0, point.1)
}

/// Whether a payload is from this connector to the holder, carries the nested
/// token unchanged, and is valid for five minutes from now; and holds nothing
/// else.
pub open spec fn repackages(
    payload: JsonContent,
    own_did: Seq<char>,
    holder_did: Seq<char>,
    nested: Seq<char>,
    now: u64,
    jti: Seq<char>,
) -> bool {
    &&& crate::properties::tokens::has_only(
        payload,
        set!["iss"@, "sub"@, "aud"@, "token"@, "iat"@, "nbf"@, "exp"@, "jti"@],
    )
    &&& crate::properties::tokens::has_member(payload, "iss"@, JsonContent::Text(own_did))
    &&& crate::properties::tokens::has_member(payload, "sub"@, JsonContent::Text(own_did))
    &&& crate::properties::tokens::has_member(payload, "aud"@, JsonContent::Text(holder_did))
    &&& crate::properties::tokens::has_member(payload, "token"@, JsonContent::Text(nested))
    &&& crate::properties::tokens::has_member(payload, "iat"@, JsonContent::Unsigned(now))
    &&& crate::properties::tokens::has_member(payload, "nbf"@, JsonContent::Unsigned(now))
    &&& exists|exp: u64| #[trigger]
        crate::properties::tokens::has_member(payload, "exp"@, JsonContent::Unsigned(exp)) && exp
            == now + 300
    &&& crate::properties::tokens::has_member(payload, "jti"@, JsonContent::Text(jti))
}

/// The payload that re-packages a token says from whom to whom it is, carries
/// the nested token unchanged, and is valid for five minutes.
pub proof fn repackaging_keeps_the_nested_token(
    own_did: &str,
    holder_did: &str,
    nested: &str,
    now: u64,
    jti: &str,
    payload: Value,
)
    requires
        now + 300 <= u64::MAX,
        call_ensures(repackage, (own_did, holder_did, nested, now, jti), payload),
    ensures
        repackages(
            crate::json::json_content(payload),
            own_did@,
            holder_did@,
            nested@,
            now,
            jti@,
        ),
{
    lemma_repackaged_payload(own_did@, holder_did@, nested@, now, jti@);
}

/// A query asks for one scope, under the protocol's context and name for such
/// a message.
pub proof fn queries_ask_for_their_scope(scope: String, message: PresentationQueryMessage)
    requires
        call_ensures(PresentationQueryMessage::new, (scope,), message),
    ensures
        is_query(message, scope@),
{
    lemma_query(message, scope@);
}

/// Whether a message asks for this scope.
pub open spec fn is_query(message: PresentationQueryMessage, scope: Seq<char>) -> bool {
    &&& message.context@ == "https://w3id.org/dspace-dcp/v1.0/dcp.jsonld"@
    &&& message.ld_type@ == "PresentationQueryMessage"@
    &&& message.scope@.len() == 1
    &&& message.scope@[0]@ == scope
}

proof fn lemma_query(message: PresentationQueryMessage, scope: Seq<char>)
    requires
        message@ == crate::verification::query_for(scope),
    ensures
        is_query(message, scope),
{
    assert(crate::text::texts(message.scope@).len() == message.scope@.len());
    assert(crate::text::texts(message.scope@)[0] == message.scope@[0]@);
}

/// Whether the key makes no signature of the token that would re-package this
/// one.
pub open spec fn cannot_repackage(
    config: DcpConfig,
    holder_did: Seq<char>,
    nested: Seq<char>,
    now: u64,
    jti: Seq<char>,
) -> bool {
    exists|header: JsonContent, payload: JsonContent|
        {
            &&& #[trigger] is_header(header, config.own_key_id@)
            &&& #[trigger] repackages(payload, config.own_did@, holder_did, nested, now, jti)
            &&& crate::es256::es256_signature(
                config.signing_key_bytes@,
                vstd::utf8::encode_utf8(
                    crate::base64url::base64url(crate::properties::tokens::written(header))
                        + seq!['.'] + crate::base64url::base64url(
                        crate::properties::tokens::written(payload),
                    ),
                ),
            ) is None
        }
}

/// Whether a header names the key and the scheme, and nothing else.
pub open spec fn is_header(header: JsonContent, kid: Seq<char>) -> bool {
    &&& crate::properties::tokens::has_only(header, set!["kid"@, "alg"@])
    &&& crate::properties::tokens::has_member(header, "kid"@, JsonContent::Text(kid))
    &&& crate::properties::tokens::has_member(header, "alg"@, JsonContent::Text("ES256"@))
}

proof fn lemma_header(kid: Seq<char>)
    ensures
        is_header(crate::jws::jws_header(kid), kid),
{
    lemma_member_names();
    assert(crate::jws::jws_header(kid)->Object_0.dom() =~= set!["kid"@, "alg"@]);
}

/// Whether a holder is asked properly for a presentation: at the first
/// credential service of its document, for the scope that is required, with a
/// bearer token of this connector that carries the token nested in the
/// caller's.
pub open spec fn asks_properly(
    next: AwaitingPresentation,
    state: AwaitingHolder,
    doc: DidDocument,
    config: DcpConfig,
    now: u64,
    jti: Seq<char>,
) -> bool {
    &&& state.claims.exp matches Some(exp) && now < exp
    &&& state.claims.token matches Some(nested) && repackages(
        crate::properties::tokens::payload_in(next.bearer_token@),
        config.own_did@,
        state.holder_did@,
        nested@,
        now,
        jti,
    )
    &&& is_the_connectors(next.bearer_token@, config)
    &&& next.holder_did@ == state.holder_did@
    &&& next.holder_doc@ == doc@
    &&& exists|i: int| #[trigger]
        crate::properties::keys::first_service(doc, i) && next.query_url@
            == doc.service@[i].service_endpoint@ + "/presentations/query"@
    &&& is_query(next.query, config.required_scope@)
}

/// Whether a holder is refused properly, in place of being asked: the token is
/// not current or carries none, the key makes no signature, or the document
/// lists no credential service.
pub open spec fn refuses_properly(
    error: Seq<char>,
    state: AwaitingHolder,
    doc: DidDocument,
    config: DcpConfig,
    now: u64,
    jti: Seq<char>,
) -> bool {
    if !(state.claims.exp matches Some(exp) && now < exp) {
        error == "token has expired"@
    } else {
        match state.claims.token {
            None => error == "token has no nested presentation-access-token claim"@,
            Some(nested) => {
                ||| error == "signature operation failed"@ && cannot_repackage(
                    config,
                    state.holder_did@,
                    nested@,
                    now,
                    jti,
                )
                ||| error == "DID document has no CredentialService entry"@ && forall|i: int|
                    !#[trigger] crate::properties::keys::first_service(doc, i)
            },
        }
    }
}

proof fn lemma_repackaged_payload(
    own_did: Seq<char>,
    holder_did: Seq<char>,
    nested: Seq<char>,
    now: u64,
    jti: Seq<char>,
)
    requires
        now + 300 <= u64::MAX,
    ensures
        repackages(
            crate::verification::repackaged_payload(own_did, holder_did, nested, now, jti),
            own_did,
            holder_did,
            nested,
            now,
            jti,
        ),
{
    lemma_member_names();
    let payload = crate::verification::repackaged_payload(own_did, holder_did, nested, now, jti);
    let names = set!["iss"@, "sub"@, "aud"@, "token"@, "iat"@, "nbf"@, "exp"@, "jti"@];
    assert(payload->Object_0.dom() =~= names);
    assert(crate::properties::tokens::has_member(
        payload,
        "exp"@,
        JsonContent::Unsigned((now + 300) as u64),
    ));
}

proof fn lemma_member_names()
    ensures
        "kid"@ != "alg"@,
        "iss"@ != "sub"@,
        "iss"@ != "aud"@,
        "iss"@ != "token"@,
        "iss"@ != "iat"@,
        "iss"@ != "nbf"@,
        "iss"@ != "exp"@,
        "iss"@ != "jti"@,
        "sub"@ != "aud"@,
        "sub"@ != "token"@,
        "sub"@ != "iat"@,
        "sub"@ != "nbf"@,
        "sub"@ != "exp"@,
        "sub"@ != "jti"@,
        "aud"@ != "token"@,
        "aud"@ != "iat"@,
        "aud"@ != "nbf"@,
        "aud"@ != "exp"@,
        "aud"@ != "jti"@,
        "token"@ != "iat"@,
        "token"@ != "nbf"@,
        "token"@ != "exp"@,
        "token"@ != "jti"@,
        "iat"@ != "nbf"@,
        "iat"@ != "exp"@,
        "iat"@ != "jti"@,
        "nbf"@ != "exp"@,
        "nbf"@ != "jti"@,
        "exp"@ != "jti"@,
{
    reveal_strlit("kid");
    reveal_strlit("alg");
    reveal_strlit("iss");
    reveal_strlit("sub");
    reveal_strlit("aud");
    reveal_strlit("token");
    reveal_strlit("iat");
    reveal_strlit("nbf");
    reveal_strlit("exp");
    reveal_strlit("jti");
    assert("kid"@[0] == 'k' && "alg"@[0] == 'a');
    assert("iss"@[1] == 's' && "sub"@[1] == 'u' && "aud"@[1] == 'u' && "iat"@[1] == 'a');
    assert("nbf"@[1] == 'b' && "exp"@[1] == 'x' && "jti"@[1] == 't');
    assert("sub"@[0] == 's' && "aud"@[0] == 'a');
    assert("token"@.len() == 5);
}

proof fn lemma_asks_properly(
    asked: Result<AwaitingPresentation, String>,
    state: AwaitingHolder,
    doc: DidDocument,
    config: DcpConfig,
    now: u64,
    jti: Seq<char>,
)
    requires
        now + 300 <= u64::MAX,
        crate::verification::asking_outcome(asked, state@, doc@, config@, now, jti),
    ensures
        proceeds_with_holder(asked, state, doc, config, now, jti),
{
    crate::properties::keys::lemma_presentation_endpoint(doc);
    lemma_header(config.own_key_id@);
    reveal_strlit(".");
    assert("."@ =~= seq!['.']);
    if let Some(nested) = state.claims.token {
        lemma_repackaged_payload(config.own_did@, state.holder_did@, nested@, now, jti);
    }
    if let Ok(next) = asked {
        let token = next.bearer_token@;
        crate::properties::tokens::lemma_readable(token);
        crate::properties::tokens::lemma_verdict(
            token,
            crate::es256::es256_public_point(config.signing_key_bytes@),
        );
        lemma_query(next.query, config.required_scope@);
    }
}

/// Whether an authenticated holder is asked properly, or refused properly.
pub open spec fn proceeds_with_holder(
    asked: Result<AwaitingPresentation, String>,
    state: AwaitingHolder,
    doc: DidDocument,
    config: DcpConfig,
    now: u64,
    jti: Seq<char>,
) -> bool {
    match asked {
        Ok(next) => asks_properly(next, state, doc, config, now, jti),
        Err(error) => refuses_properly(error@, state, doc, config, now, jti),
    }
}

/// An authenticated holder is asked for a presentation as long as the token is
/// current: at its credential service, with a bearer token of this connector
/// that carries the token nested in the caller's, unchanged.
pub proof fn authenticated_holders_are_asked_properly(
    state: AwaitingHolder,
    doc: DidDocument,
    config: &DcpConfig,
    now: u64,
    jti: &str,
    asked: Result<AwaitingPresentation, String>,
)
    requires
        now + 300 <= u64::MAX,
        call_ensures(AwaitingHolder::authenticated, (state, doc, config, now, jti), asked),
    ensures
        proceeds_with_holder(asked, state, doc, *config, now, jti@),
{
    lemma_asks_properly(asked, state, doc, *config, now, jti@);
}

/// A holder is asked only once authenticated, at a time that the clock gave
/// and under an identifier that was drawn; and then properly.
pub proof fn resolved_holders_are_asked_properly(
    state: AwaitingHolder,
    reply: DidReply,
    config: &DcpConfig,
    checked: Result<AwaitingPresentation, String>,
)
    requires
        call_ensures(AwaitingHolder::resolved, (state, reply, config), checked),
    ensures
        if authenticates(state, reply, config.own_did@) {
            exists|reading: Option<u64>| #[trigger]
                crate::clock::clock_gave(reading) && match reading {
                    None => checked matches Err(error) && error@ == "system clock before epoch"@,
                    Some(now) => if now + 300 > u64::MAX {
                        checked matches Err(error) && error@ == "system clock out of range"@
                    } else {
                        exists|jti: Seq<char>|
                            {
                                &&& crate::ids::fresh_uuid(jti)
                                &&& #[trigger] proceeds_with_holder(
                                    checked,
                                    state,
                                    reply->Document_0,
                                    *config,
                                    now,
                                    jti,
                                )
                            }
                    },
                }
        } else {
            checked matches Err(error) && refuses_holder(
                error@,
                state,
                reply,
                config.own_did@,
            )
        },
{
    lemma_authenticates(state, reply, config.own_did@);
    if authenticates(state, reply, config.own_did@) {
        let doc = reply->Document_0;
        let reading = choose|reading: Option<u64>| #[trigger]
            crate::clock::clock_gave(reading) && match reading {
                None => checked matches Err(error) && error@ == "system clock before epoch"@,
                Some(now) => if now + 300 > u64::MAX {
                    checked matches Err(error) && error@ == "system clock out of range"@
                } else {
                    exists|jti: Seq<char>|
                        {
                            &&& crate::ids::fresh_uuid(jti)
                            &&& #[trigger] crate::verification::asking_outcome(
                                checked,
                                state@,
                                doc@,
                                config@,
                                now,
                                jti,
                            )
                        }
                },
            };
        if let Some(now) = reading {
            if now + 300 <= u64::MAX {
                let jti = choose|jti: Seq<char>|
                    {
                        &&& crate::ids::fresh_uuid(jti)
                        &&& #[trigger] crate::verification::asking_outcome(
                            checked,
                            state@,
                            doc@,
                            config@,
                            now,
                            jti,
                        )
                    };
                lemma_asks_properly(checked, state, doc, *config, now, jti);
            }
        }
    }
}

/// From the caller's token to the query: the bearer token that is sent with
/// the query is addressed to the issuer of the caller's token, comes from this
/// connector, and carries the text that the caller's token has as its member
/// `token`, unchanged.
pub proof fn the_nested_token_is_sent_back_unchanged(
    token: &str,
    config: &DcpConfig,
    state: AwaitingHolder,
    doc: DidDocument,
    now: u64,
    jti: &str,
    next: AwaitingPresentation,
    nested: Seq<char>,
    issuer: Seq<char>,
)
    requires
        now + 300 <= u64::MAX,
        call_ensures(begin_verification, (token, config), Ok(state)),
        call_ensures(AwaitingHolder::authenticated, (state, doc, config, now, jti), Ok(next)),
        crate::properties::tokens::has_member(
            crate::properties::tokens::payload_in(token@),
            "token"@,
            JsonContent::Text(nested),
        ),
        crate::properties::tokens::has_member(
            crate::properties::tokens::payload_in(token@),
            "iss"@,
            JsonContent::Text(issuer),
        ),
    ensures
        ({
            let payload = crate::properties::tokens::payload_in(next.bearer_token@);
            &&& crate::properties::tokens::has_member(
                payload,
                "token"@,
                JsonContent::Text(nested),
            )
            &&& crate::properties::tokens::has_member(payload, "aud"@, JsonContent::Text(issuer))
            &&& crate::properties::tokens::has_member(
                payload,
                "iss"@,
                JsonContent::Text(config.own_did@),
            )
            &&& crate::properties::tokens::has_member(
                payload,
                "sub"@,
                JsonContent::Text(config.own_did@),
            )
        }),
{
    verification_begins_with_the_issuer(token, config, Ok(state));
    authenticated_holders_are_asked_properly(state, doc, config, now, jti, Ok(next));
}

// --- The credentials --------------------------------------------------------

/// Whether a list holds these texts, each at its place.
pub open spec fn holds_texts(list: Seq<Option<String>>, texts: Seq<Option<Seq<char>>>) -> bool {
    list.len() == texts.len() && forall|i: int|
        0 <= i < list.len() ==> match #[trigger] list[i] {
            Some(text) => texts[i] == Some(text@),
            None => texts[i] is None,
        }
}

proof fn lemma_holds_texts(list: Seq<Option<String>>)
    ensures
        holds_texts(list, crate::claims::optional_texts(list)),
{
    let texts = crate::claims::optional_texts(list);
    assert(texts.len() == list.len());
    assert forall|i: int| 0 <= i < list.len() implies match #[trigger] list[i] {
        Some(text) => texts[i] == Some(text@),
        None => texts[i] is None,
    } by {
        assert(texts[i] == crate::catalog::optional_text(list[i]));
    }
}

/// What two sets of a credential's claims say is the same only if each claim
/// is.
pub proof fn credential_claims_say_all_they_hold(a: CredentialClaims, b: CredentialClaims)
    requires
        a@ == b@,
    ensures
        crate::properties::documents::same_option(a.kid, b.kid),
        crate::properties::documents::same_option(a.iss, b.iss),
        a.exp == b.exp,
        a.types@.len() == b.types@.len(),
        forall|i: int|
            0 <= i < a.types@.len() ==> crate::properties::documents::same_option(
                #[trigger] a.types@[i],
                b.types@[i],
            ),
        a.catalog_access@.len() == b.catalog_access@.len(),
        forall|i: int|
            0 <= i < a.catalog_access@.len() ==> crate::properties::documents::same_option(
                #[trigger] a.catalog_access@[i],
                b.catalog_access@[i],
            ),
{
    lemma_holds_texts(a.types@);
    lemma_holds_texts(b.types@);
    lemma_holds_texts(a.catalog_access@);
    lemma_holds_texts(b.catalog_access@);
    assert forall|i: int| 0 <= i < a.types@.len() implies crate::properties::documents::same_option(
        #[trigger] a.types@[i],
        b.types@[i],
    ) by {
        assert(b.types@[i] is Some || b.types@[i] is None);
    }
    assert forall|i: int|
        0 <= i < a.catalog_access@.len() implies crate::properties::documents::same_option(
        #[trigger] a.catalog_access@[i],
        b.catalog_access@[i],
    ) by {
        assert(b.catalog_access@[i] is Some || b.catalog_access@[i] is None);
    }
}

/// Whether claims are those in a credential: the members of those names, and
/// every type and dataset that it lists.
pub open spec fn are_the_credentials_claims(claims: CredentialClaims, jws: Seq<char>) -> bool {
    let header = crate::properties::tokens::header_in(jws);
    let payload = crate::properties::tokens::payload_in(jws);
    let body = crate::properties::tokens::within(Some(payload), "vc"@);
    &&& crate::properties::tokens::is_text_member(claims.kid, header, "kid"@)
    &&& crate::properties::tokens::is_text_member(claims.iss, payload, "iss"@)
    &&& crate::properties::tokens::is_number_member(claims.exp, payload, "exp"@)
    &&& crate::properties::tokens::is_every_item(
        claims.types@,
        crate::properties::tokens::within(body, "type"@),
    )
    &&& crate::properties::tokens::is_every_item(
        claims.catalog_access@,
        crate::properties::tokens::within(
            crate::properties::tokens::within(body, "credentialSubject"@),
            "catalogAccess"@,
        ),
    )
}

/// How far the credentials of a presentation have been checked, and with what
/// result.
pub struct Standing {
    pub holder_did: Seq<char>,
    pub credentials: Seq<Option<Seq<char>>>,
    pub checked: int,
    pub granted: Set<Seq<char>>,
    pub any_current: bool,
}

/// Whether the next step is taken properly. With credentials left to check, it
/// turns to the next one's issuer, at its address and with the claims in the
/// credential; or says why it cannot. With none left, the caller is the holder
/// and may see what was granted, unless every credential had expired.
pub open spec fn proceeds(
    next: Result<CredentialStep, String>,
    standing: Standing,
    insecure_http: bool,
) -> bool {
    if standing.checked >= standing.credentials.len() {
        if standing.any_current {
            next matches Ok(CredentialStep::Done(caller)) && caller.holder_did@
                == standing.holder_did && caller.catalog_access@ == standing.granted
        } else {
            next matches Err(error) && error@ == "all presented credentials have expired"@
        }
    } else {
        match standing.credentials[standing.checked] {
            None => next matches Err(error) && error@
                == "verifiableCredential entry was not a string"@,
            Some(jws) => {
                let header = crate::properties::tokens::header_in(jws);
                let payload = crate::properties::tokens::payload_in(jws);
                match next {
                    Ok(CredentialStep::Done(_)) => false,
                    Ok(CredentialStep::Resolve(state)) => {
                        &&& state.progress.holder_did@ == standing.holder_did
                        &&& holds_texts(state.progress.credentials@, standing.credentials)
                        &&& state.progress.checked == standing.checked
                        &&& state.progress.granted@ == standing.granted
                        &&& state.progress.any_current == standing.any_current
                        &&& crate::properties::tokens::unreadable(jws) is None
                        &&& state.jws@ == jws
                        &&& are_the_credentials_claims(state.claims, jws)
                        &&& crate::properties::tokens::has_member(
                            payload,
                            "iss"@,
                            JsonContent::Text(state.issuer_did@),
                        )
                        &&& crate::properties::tokens::has_member(
                            header,
                            "kid"@,
                            JsonContent::Text(state.kid@),
                        )
                        &&& crate::properties::identity::found_at(
                            state.issuer_did@,
                            insecure_http,
                            state.url@,
                        )
                    },
                    Err(error) => match crate::properties::tokens::unreadable(jws) {
                        Some(reason) => error@ == reason,
                        None => if !has_text(payload, "iss"@) {
                            error@ == "VC has no iss"@
                        } else if !has_text(header, "kid"@) {
                            error@ == "VC has no kid"@
                        } else {
                            error@ == "not a did:web DID"@ && issuer_has_no_address(payload)
                        },
                    },
                }
            },
        }
    }
}

proof fn lemma_proceeds(
    next: Result<CredentialStep, String>,
    progress: ProgressView,
    standing: Standing,
    insecure_http: bool,
)
    requires
        match next {
            Ok(step) => crate::verification::turned_to_next(
                progress,
                insecure_http,
            ) matches Ok(view) && view == step@,
            Err(error) => crate::verification::turned_to_next(
                progress,
                insecure_http,
            ) matches Err(text) && text == error@,
        },
        progress.holder_did == standing.holder_did,
        progress.credentials == standing.credentials,
        progress.checked == standing.checked,
        progress.granted == standing.granted,
        progress.any_current == standing.any_current,
    ensures
        proceeds(next, standing, insecure_http),
{
    if standing.checked < standing.credentials.len() {
        let i = standing.checked;
        if let Some(jws) = standing.credentials[i] {
            crate::properties::tokens::lemma_readable(jws);
            if let Ok(vc) = crate::jws::jws_unverified(jws) {
                let claims = crate::claims::credential_claims(vc.header, vc.payload);
                if let Some(issuer) = claims.iss {
                    crate::properties::identity::lemma_found_at(issuer, insecure_http);
                    assert(crate::properties::tokens::has_member(
                        vc.payload,
                        "iss"@,
                        JsonContent::Text(issuer),
                    ));
                }
                if let Some(kid) = claims.kid {
                    assert(crate::properties::tokens::has_member(
                        vc.header,
                        "kid"@,
                        JsonContent::Text(kid),
                    ));
                }
                if let Ok(CredentialStep::Resolve(state)) = next {
                    assert(state@.claims == claims);
                    crate::properties::tokens::lemma_credential_claims(
                        state.claims,
                        vc.header,
                        vc.payload,
                    );
                    assert(state@.progress == progress);
                    lemma_holds_texts(state.progress.credentials@);
                }
            }
        }
    }
}

/// How far a progress is.
pub open spec fn standing_of(progress: Progress) -> Standing {
    Standing {
        holder_did: progress.holder_did@,
        credentials: Seq::new(
            progress.credentials@.len(),
            |i: int|
                match progress.credentials@[i] {
                    Some(text) => Some(text@),
                    None => None,
                },
        ),
        checked: progress.checked as int,
        granted: progress.granted@,
        any_current: progress.any_current,
    }
}

proof fn lemma_standing(progress: Progress)
    ensures
        progress@.credentials == standing_of(progress).credentials,
{
    let texts = crate::claims::optional_texts(progress.credentials@);
    let standing = standing_of(progress);
    assert(texts.len() == standing.credentials.len());
    assert forall|i: int| 0 <= i < texts.len() implies texts[i] == standing.credentials[i] by {
        assert(texts[i] == crate::catalog::optional_text(progress.credentials@[i]));
    }
    assert(texts =~= standing.credentials);
}

/// The next step is taken properly from wherever the checks stand.
pub proof fn next_steps_are_taken_properly(
    progress: Progress,
    insecure_http: bool,
    next: Result<CredentialStep, String>,
)
    requires
        call_ensures(Progress::next, (progress, insecure_http), next),
    ensures
        proceeds(next, standing_of(progress), insecure_http),
{
    lemma_standing(progress);
    lemma_proceeds(next, progress@, standing_of(progress), insecure_http);
}

/// With every credential checked, the caller is the holder and may see what
/// was granted, unless every credential had expired.
pub proof fn conclusions_grant_what_was_counted(
    progress: Progress,
    conclusion: Result<VerifiedCaller, String>,
)
    requires
        call_ensures(Progress::conclude, (progress,), conclusion),
    ensures
        match conclusion {
            Ok(caller) => progress.any_current && caller.holder_did@ == progress.holder_did@
                && caller.catalog_access@ == progress.granted@,
            Err(error) => !progress.any_current && error@
                == "all presented credentials have expired"@,
        },
{
}

/// The value at `vp.verifiableCredential` in a presentation.
pub open spec fn credentials_of(vp: Seq<char>) -> Option<JsonContent> {
    crate::properties::tokens::within(
        crate::properties::tokens::within(Some(crate::properties::tokens::payload_in(vp)), "vp"@),
        "verifiableCredential"@,
    )
}

/// Whether a presentation is signed by the holder: under the key of the
/// holder's document that the presentation itself names.
pub open spec fn is_holders(vp: Seq<char>, holder_doc: DidDocument) -> bool {
    exists|kid: Seq<char>| #[trigger]
        crate::properties::tokens::has_member(
            crate::properties::tokens::header_in(vp),
            "kid"@,
            JsonContent::Text(kid),
        ) && crate::properties::keys::signed_under(vp, holder_doc, kid)
}

/// Whether the signature of a presentation is refused properly.
pub open spec fn is_not_holders(
    error: Seq<char>,
    vp: Seq<char>,
    holder_doc: DidDocument,
) -> bool {
    exists|kid: Seq<char>| #[trigger]
        crate::properties::tokens::has_member(
            crate::properties::tokens::header_in(vp),
            "kid"@,
            JsonContent::Text(kid),
        ) && crate::properties::keys::not_signed(vp, holder_doc, kid, error)
}

/// The items of an array, each with its text if it is one.
pub open spec fn texts_among(items: Seq<JsonContent>) -> Seq<Option<Seq<char>>> {
    Seq::new(
        items.len(),
        |i: int|
            match items[i] {
                JsonContent::Text(text) => Some(text),
                _ => None,
            },
    )
}

/// A presentation is gone through only if it can be read, names a key, is
/// signed under that key of the holder's document, and has credentials: from
/// the first of all of them, with nothing granted yet.
pub proof fn presentations_are_gone_through_from_the_start(
    state: AwaitingPresentation,
    reply: PresentationReply,
    config: &DcpConfig,
    checked: Result<CredentialStep, String>,
)
    requires
        call_ensures(AwaitingPresentation::received, (state, reply, config), checked),
    ensures
        match no_presentation(state.query_url@, reply) {
            Some(reason) => checked matches Err(error) && error@ == reason,
            None => {
                let vp = (reply->Presentations_0)@[0]@;
                match crate::properties::tokens::unreadable(vp) {
                    Some(reason) => checked matches Err(error) && error@ == reason,
                    None => if !has_text(crate::properties::tokens::header_in(vp), "kid"@) {
                        checked matches Err(error) && error@ == "VP has no kid"@
                    } else if !is_holders(vp, state.holder_doc) {
                        checked matches Err(error) && is_not_holders(error@, vp, state.holder_doc)
                    } else if credentials_of(vp) matches Some(JsonContent::Array(items))
                        && items.len() > 0 {
                        proceeds(
                            checked,
                            Standing {
                                holder_did: state.holder_did@,
                                credentials: texts_among(
                                    (credentials_of(vp)->0)->Array_0,
                                ),
                                checked: 0,
                                granted: Set::empty(),
                                any_current: false,
                            },
                            config.insecure_http,
                        )
                    } else {
                        checked matches Err(error) && error@
                            == "VerifiablePresentation contained no credentials"@
                    },
                }
            },
        },
{
    if let PresentationReply::Presentations(list) = reply {
        assert(crate::text::texts(list@).len() == list@.len());
        if list@.len() > 0 {
            assert(crate::text::texts(list@)[0] == list@[0]@);
            lemma_presentation(state, list@[0]@, config.insecure_http, checked);
        }
    }
}

proof fn lemma_presentation(
    state: AwaitingPresentation,
    vp: Seq<char>,
    insecure_http: bool,
    checked: Result<CredentialStep, String>,
)
    requires
        match (checked, crate::jws::jws_unverified(vp)) {
            (Err(error), Err(text)) => text == error@,
            (_, Ok(jws)) => {
                let claims = crate::claims::presentation_claims(jws.header, jws.payload);
                match claims.kid {
                    None => checked matches Err(error) && error@ == "VP has no kid"@,
                    Some(kid) => match crate::verification::signed_by(vp, state.holder_doc@, kid) {
                        Err(text) => checked matches Err(error) && error@ == text,
                        Ok(_) => if claims.credentials.len() == 0 {
                            checked matches Err(error) && error@
                                == "VerifiablePresentation contained no credentials"@
                        } else {
                            let next = crate::verification::turned_to_next(
                                crate::verification::started(
                                    state.holder_did@,
                                    claims.credentials,
                                ),
                                insecure_http,
                            );
                            match checked {
                                Ok(step) => next matches Ok(view) && view == step@,
                                Err(error) => next matches Err(text) && text == error@,
                            }
                        },
                    },
                }
            },
            _ => false,
        },
    ensures
        match crate::properties::tokens::unreadable(vp) {
            Some(reason) => checked matches Err(error) && error@ == reason,
            None => if !has_text(crate::properties::tokens::header_in(vp), "kid"@) {
                checked matches Err(error) && error@ == "VP has no kid"@
            } else if !is_holders(vp, state.holder_doc) {
                checked matches Err(error) && is_not_holders(error@, vp, state.holder_doc)
            } else if credentials_of(vp) matches Some(JsonContent::Array(items)) && items.len()
                > 0 {
                proceeds(
                    checked,
                    Standing {
                        holder_did: state.holder_did@,
                        credentials: texts_among((credentials_of(vp)->0)->Array_0),
                        checked: 0,
                        granted: Set::empty(),
                        any_current: false,
                    },
                    insecure_http,
                )
            } else {
                checked matches Err(error) && error@
                    == "VerifiablePresentation contained no credentials"@
            },
        },
{
    crate::properties::tokens::lemma_readable(vp);
    if let Ok(jws) = crate::jws::jws_unverified(vp) {
        let claims = crate::claims::presentation_claims(jws.header, jws.payload);
        if let Some(kid) = claims.kid {
            assert(crate::properties::tokens::has_member(
                jws.header,
                "kid"@,
                JsonContent::Text(kid),
            ));
            crate::properties::keys::lemma_signed_under(vp, state.holder_doc, kid);
            if let Some(JsonContent::Array(items)) = credentials_of(vp) {
                assert(claims.credentials =~= texts_among(items));
                if is_holders(vp, state.holder_doc) && items.len() > 0 {
                    lemma_proceeds(
                        checked,
                        crate::verification::started(state.holder_did@, claims.credentials),
                        Standing {
                            holder_did: state.holder_did@,
                            credentials: texts_among(items),
                            checked: 0,
                            granted: Set::empty(),
                            any_current: false,
                        },
                        insecure_http,
                    );
                }
            }
        }
    }
}

/// Claims lead to the issuer and key that they name, with the progress kept as
/// it is.
pub proof fn credential_claims_lead_to_the_issuer(
    progress: Progress,
    jws: String,
    claims: CredentialClaims,
    insecure_http: bool,
    next: Result<CredentialStep, String>,
)
    requires
        call_ensures(Progress::with_claims, (progress, jws, claims, insecure_http), next),
    ensures
        match next {
            Ok(CredentialStep::Done(_)) => false,
            Ok(CredentialStep::Resolve(state)) => {
                &&& state.progress.holder_did@ == progress.holder_did@
                &&& holds_texts(
                    state.progress.credentials@,
                    standing_of(progress).credentials,
                )
                &&& state.progress.checked == progress.checked
                &&& state.progress.granted@ == progress.granted@
                &&& state.progress.any_current == progress.any_current
                &&& state.jws@ == jws@
                &&& state.claims@ == claims@
                &&& claims.iss matches Some(iss) && iss@ == state.issuer_did@
                &&& claims.kid matches Some(kid) && kid@ == state.kid@
                &&& crate::properties::identity::found_at(
                    state.issuer_did@,
                    insecure_http,
                    state.url@,
                )
            },
            Err(error) => if claims.iss is None {
                error@ == "VC has no iss"@
            } else if claims.kid is None {
                error@ == "VC has no kid"@
            } else {
                &&& error@ == "not a did:web DID"@
                &&& forall|rest: Seq<char>| (claims.iss->0)@ != #[trigger] ("did:web:"@ + rest)
            },
        },
{
    if let Some(iss) = claims.iss {
        crate::properties::identity::lemma_found_at(iss@, insecure_http);
    }
    if let Ok(CredentialStep::Resolve(state)) = next {
        lemma_standing(progress);
        lemma_holds_texts(state.progress.credentials@);
        assert(state@.progress == progress@);
    }
}

/// Whether a credential's expiry is still to come.
pub open spec fn is_current(claims: CredentialClaims, now: u64) -> bool {
    claims.exp matches Some(exp) && now < exp
}

/// Whether a list names this text.
pub open spec fn names(list: Seq<Option<String>>, wanted: Seq<char>) -> bool {
    exists|i: int|
        0 <= i < list.len() && (#[trigger] list[i] matches Some(text) && text@ == wanted)
}

/// Whether a credential grants a dataset: it is current, of the type that
/// grants access, and names the dataset.
pub open spec fn is_granted(claims: CredentialClaims, now: u64, id: Seq<char>) -> bool {
    &&& is_current(claims, now)
    &&& names(claims.types@, "FederatedCatalogAccessCredential"@)
    &&& names(claims.catalog_access@, id)
}

proof fn lemma_names(list: Seq<Option<String>>, wanted: Seq<char>)
    ensures
        crate::claims::optional_texts(list).contains(Some(wanted)) <==> names(list, wanted),
{
    let texts = crate::claims::optional_texts(list);
    lemma_holds_texts(list);
    if names(list, wanted) {
        let i = choose|i: int|
            0 <= i < list.len() && (#[trigger] list[i] matches Some(text) && text@ == wanted);
        assert(texts[i] == Some(wanted));
    }
    if texts.contains(Some(wanted)) {
        let i = choose|i: int| 0 <= i < texts.len() && texts[i] == Some(wanted);
        assert(list[i] is Some);
    }
}

proof fn lemma_granted(claims: CredentialClaims, now: u64, id: Seq<char>)
    ensures
        crate::verification::grants(claims@, now).contains(id) <==> is_granted(claims, now, id),
        crate::verification::current(claims@, now) == is_current(claims, now),
{
    lemma_names(claims.types@, "FederatedCatalogAccessCredential"@);
    lemma_names(claims.catalog_access@, id);
}

/// Counting a credential adds exactly the datasets that it grants to those
/// granted before, and says whether the credential is current.
pub proof fn counting_adds_exactly_the_grants(
    granted: &mut StringHashSet,
    claims: &CredentialClaims,
    now: u64,
    counted: bool,
)
    requires
        call_ensures(count_credential, (granted, claims, now), counted),
    ensures
        counted == is_current(*claims, now),
        forall|id: Seq<char>| #[trigger]
            final(granted)@.contains(id) <==> old(granted)@.contains(id) || is_granted(
                *claims,
                now,
                id,
            ),
{
    assert forall|id: Seq<char>| #[trigger]
        final(granted)@.contains(id) <==> old(granted)@.contains(id) || is_granted(
            *claims,
            now,
            id,
        ) by {
        lemma_granted(*claims, now, id);
    }
    lemma_granted(*claims, now, Seq::empty());
}

/// An issuer is authenticated exactly by a document under whose key, of the id
/// that the credential names, the credential is signed.
pub proof fn issuers_are_authenticated_by_their_signature(
    state: &AwaitingIssuer,
    reply: DidReply,
    authenticated: Result<(), String>,
)
    requires
        call_ensures(AwaitingIssuer::authenticate, (state, reply), authenticated),
    ensures
        authenticated is Ok <==> is_issuers(*state, reply),
        authenticated matches Err(error) ==> unauthenticated(
            error@,
            state.jws@,
            state.kid@,
            state.issuer_did@,
            state.url@,
            reply,
        ),
{
    lemma_issuers(*state, reply);
}

/// Whether a reply shows that the issuer signed the credential.
pub open spec fn is_issuers(state: AwaitingIssuer, reply: DidReply) -> bool {
    reply matches DidReply::Document(doc) && crate::properties::keys::signed_under(
        state.jws@,
        doc,
        state.kid@,
    )
}

proof fn lemma_issuers(state: AwaitingIssuer, reply: DidReply)
    ensures
        match crate::verification::issuer_authenticated(state@, reply@) {
            Ok(_) => is_issuers(state, reply),
            Err(error) => !is_issuers(state, reply) && unauthenticated(
                error,
                state.jws@,
                state.kid@,
                state.issuer_did@,
                state.url@,
                reply,
            ),
        },
{
    if let DidReply::Document(doc) = reply {
        crate::properties::keys::lemma_signed_under(state.jws@, doc, state.kid@);
    }
}

/// How far the checks are once this credential is counted.
pub open spec fn standing_after(state: AwaitingIssuer, now: u64) -> Standing {
    let before = standing_of(state.progress);
    Standing {
        holder_did: before.holder_did,
        credentials: before.credentials,
        checked: before.checked + 1,
        granted: Set::new(
            |id: Seq<char>| before.granted.contains(id) || is_granted(state.claims, now, id),
        ),
        any_current: before.any_current || is_current(state.claims, now),
    }
}

proof fn lemma_counted(
    checked: Result<CredentialStep, String>,
    state: AwaitingIssuer,
    now: u64,
    insecure_http: bool,
)
    requires
        crate::verification::counting_outcome(checked, state@, now, insecure_http),
    ensures
        proceeds(checked, standing_after(state, now), insecure_http),
{
    let progress = crate::verification::counted(state.progress@, state.claims@, now);
    let standing = standing_after(state, now);
    lemma_standing(state.progress);
    assert forall|id: Seq<char>| #[trigger]
        progress.granted.contains(id) == standing.granted.contains(id) by {
        lemma_granted(state.claims, now, id);
    }
    lemma_granted(state.claims, now, Seq::empty());
    assert(progress.granted =~= standing.granted);
    lemma_proceeds(checked, progress, standing, insecure_http);
}

/// A credential whose issuer signed it adds exactly the datasets that it
/// grants, and the next step is taken properly from there.
pub proof fn signed_credentials_are_counted(
    state: AwaitingIssuer,
    config: &DcpConfig,
    now: u64,
    checked: Result<CredentialStep, String>,
)
    requires
        call_ensures(AwaitingIssuer::authenticated, (state, config, now), checked),
    ensures
        proceeds(checked, standing_after(state, now), config.insecure_http),
{
    lemma_counted(checked, state, now, config.insecure_http);
}

/// A credential is counted only if its issuer signed it, at a time that the
/// clock gave; one that its issuer did not sign ends the verification.
pub proof fn only_signed_credentials_are_counted(
    state: AwaitingIssuer,
    reply: DidReply,
    config: &DcpConfig,
    checked: Result<CredentialStep, String>,
)
    requires
        call_ensures(AwaitingIssuer::resolved, (state, reply, config), checked),
    ensures
        if is_issuers(state, reply) {
            exists|reading: Option<u64>| #[trigger]
                crate::clock::clock_gave(reading) && match reading {
                    None => checked matches Err(error) && error@ == "system clock before epoch"@,
                    Some(now) => proceeds(
                        checked,
                        standing_after(state, now),
                        config.insecure_http,
                    ),
                }
        } else {
            checked matches Err(error) && unauthenticated(
                error@,
                state.jws@,
                state.kid@,
                state.issuer_did@,
                state.url@,
                reply,
            )
        },
{
    lemma_issuers(state, reply);
    if is_issuers(state, reply) {
        let reading = choose|reading: Option<u64>| #[trigger]
            crate::clock::clock_gave(reading) && match reading {
                None => checked matches Err(error) && error@ == "system clock before epoch"@,
                Some(now) => crate::verification::counting_outcome(
                    checked,
                    state@,
                    now,
                    config@.insecure_http,
                ),
            };
        if let Some(now) = reading {
            lemma_counted(checked, state, now, config.insecure_http);
        }
    }
}

} // verus!
