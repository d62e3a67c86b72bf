use base64::engine::general_purpose::URL_SAFE_NO_PAD;
use base64::Engine;
use federated_catalog::clock::{now_secs, time_of};
use federated_catalog::dcp::DcpConfig;
use federated_catalog::did::{DidDocument, DidService, Jwk, VerificationMethod};
use federated_catalog::es256::SigningKey;
use federated_catalog::jws::{decode_jws_unverified, sign_jws, verify_jws_signature};
use federated_catalog::verification::{
    begin_verification, AwaitingHolder, AwaitingIssuer, AwaitingPresentation, CredentialStep,
    DidReply, PresentationReply, VerifiedCaller,
};
use serde_json::Value;

const NOW: u64 = 1_700_000_000;
const SCOPE: &str = "org.eclipse.dspace.dcp.vc.type:FederatedCatalogAccessCredential:read";
const HOLDER: &str = "did:web:127.0.0.1%3A9000:dsp:holder";
const OWN: &str = "did:web:127.0.0.1%3A8080:dsp";
const ISSUER: &str = "did:web:issuer.example.org";

fn key(seed: u8) -> SigningKey {
    SigningKey::from_bytes([seed; 32]).unwrap()
}

fn config() -> DcpConfig {
    DcpConfig::with_key(OWN.to_string(), &key(1), true, SCOPE.to_string())
}

fn json(text: &str) -> Value {
    serde_json::from_str(text).unwrap()
}

fn document(did: &str, key: &SigningKey, endpoint: Option<&str>) -> DidDocument {
    let (x, y) = key.public_point();
    DidDocument {
        verification_method: vec![VerificationMethod {
            id: format!("{did}#key"),
            public_key_jwk: Some(Jwk {
                x: URL_SAFE_NO_PAD.encode(x),
                y: URL_SAFE_NO_PAD.encode(y),
            }),
        }],
        service: endpoint
            .map(|endpoint| DidService {
                ty: "CredentialService".to_string(),
                service_endpoint: endpoint.to_string(),
            })
            .into_iter()
            .collect(),
    }
}

fn holder_document() -> DidDocument {
    document(HOLDER, &key(2), Some("http://127.0.0.1:9000/dsp/holder"))
}

fn signed(payload: &str, did: &str, key: &SigningKey) -> String {
    sign_jws(&json(payload), key, &format!("{did}#key")).unwrap()
}

fn token_with(aud: &str, exp: u64) -> String {
    signed(
        &format!(
            r#"{{"iss":"{HOLDER}","sub":"{HOLDER}","aud":"{aud}","exp":{exp},"token":"nested"}}"#
        ),
        HOLDER,
        &key(2),
    )
}

fn token() -> String {
    token_with(OWN, NOW + 1)
}

fn credential(types: &str, access: &str, exp: u64) -> String {
    signed(
        &format!(
            r#"{{"iss":"{ISSUER}","sub":"{HOLDER}","exp":{exp},"vc":{{"type":{types},
                "credentialSubject":{{"catalogAccess":{access}}}}}}}"#
        ),
        ISSUER,
        &key(3),
    )
}

fn access_credential(access: &str, exp: u64) -> String {
    credential(r#"["VerifiableCredential","FederatedCatalogAccessCredential"]"#, access, exp)
}

fn presentation(credentials: &[String]) -> String {
    let list: Vec<String> = credentials.iter().map(|vc| format!("\"{vc}\"")).collect();
    signed(
        &format!(r#"{{"vp":{{"verifiableCredential":[{}]}}}}"#, list.join(",")),
        HOLDER,
        &key(2),
    )
}

/// Takes the holder's reply at a fixed time, with a fixed identifier.
fn resolve_holder(
    waiting: AwaitingHolder,
    reply: DidReply,
) -> Result<AwaitingPresentation, String> {
    let config = config();
    let document = waiting.authenticate(reply, &config.own_did)?;
    waiting.authenticated(document, &config, NOW, "jti-1")
}

/// Takes an issuer's reply at a fixed time.
fn resolve_issuer(waiting: AwaitingIssuer, reply: DidReply) -> Result<CredentialStep, String> {
    waiting.authenticate(reply)?;
    waiting.authenticated(&config(), NOW)
}

fn asked() -> AwaitingPresentation {
    let waiting = begin_verification(&token(), &config()).unwrap_or_else(|e| panic!("{e}"));
    resolve_holder(waiting, DidReply::Document(holder_document()))
        .unwrap_or_else(|e| panic!("{e}"))
}

fn issuer_document() -> DidDocument {
    document(ISSUER, &key(3), None)
}

/// Answers every issuer with its document.
fn finish(step: Result<CredentialStep, String>) -> Result<VerifiedCaller, String> {
    let mut step = step?;
    loop {
        match step {
            CredentialStep::Done(caller) => return Ok(caller),
            CredentialStep::Resolve(waiting) => {
                assert_eq!(waiting.issuer_did, ISSUER);
                assert_eq!(waiting.url, "http://issuer.example.org/.well-known/did.json");
                step = resolve_issuer(waiting, DidReply::Document(issuer_document()))?;
            }
        }
    }
}

fn verify(credentials: &[String]) -> Result<VerifiedCaller, String> {
    let reply = PresentationReply::Presentations(vec![presentation(credentials)]);
    finish(asked().received(reply, &config()))
}

fn error<T>(result: Result<T, String>) -> String {
    match result {
        Ok(_) => panic!("an error was expected"),
        Err(error) => error,
    }
}

fn begin_error(payload: &str, header_kid: bool) -> String {
    let config = config();
    let token = if header_kid {
        signed(payload, HOLDER, &key(2))
    } else {
        format!(
            "{}.{}.AAAA",
            URL_SAFE_NO_PAD.encode(r#"{"alg":"ES256"}"#),
            URL_SAFE_NO_PAD.encode(payload)
        )
    };
    error(begin_verification(&token, &config))
}

fn holder_error(token: &str, reply: DidReply) -> String {
    let config = config();
    let waiting = begin_verification(token, &config).unwrap_or_else(|e| panic!("{e}"));
    error(resolve_holder(waiting, reply))
}

#[test]
fn a_granted_dataset_is_visible_and_no_other() {
    let caller = match verify(&[access_credential(r#"["GATED-01"]"#, NOW + 3600)]) {
        Ok(caller) => caller,
        Err(error) => panic!("{error}"),
    };
    assert_eq!(caller.holder_did, HOLDER);
    assert!(caller.catalog_access.contains("GATED-01"));
    assert!(!caller.catalog_access.contains("GATED-02"));
    assert_eq!(caller.catalog_access.len(), 1);
}

#[test]
fn an_expired_credential_is_no_silent_empty_success() {
    let refused = verify(&[access_credential(r#"["GATED-01"]"#, NOW - 3600)]);
    assert_eq!(error(refused), "all presented credentials have expired");
    let at_the_limit = verify(&[access_credential(r#"["GATED-01"]"#, NOW)]);
    assert_eq!(error(at_the_limit), "all presented credentials have expired");
    let without_expiry = signed(
        &format!(r#"{{"iss":"{ISSUER}","vc":{{"type":["FederatedCatalogAccessCredential"]}}}}"#),
        ISSUER,
        &key(3),
    );
    assert_eq!(error(verify(&[without_expiry])), "all presented credentials have expired");
}

#[test]
fn credentials_add_up_and_expired_ones_grant_nothing() {
    let caller = verify(&[
        access_credential(r#"["A","B"]"#, NOW + 10),
        access_credential(r#"["EXPIRED"]"#, NOW),
        access_credential(r#"["B","C",7,null]"#, NOW + 10),
    ])
    .unwrap_or_else(|e| panic!("{e}"));
    assert_eq!(caller.catalog_access.len(), 3);
    for id in ["A", "B", "C"] {
        assert!(caller.catalog_access.contains(id));
    }
    assert!(!caller.catalog_access.contains("EXPIRED"));
}

#[test]
fn current_credentials_of_another_type_grant_nothing() {
    let caller = verify(&[credential(r#"["VerifiableCredential"]"#, r#"["A"]"#, NOW + 10)])
        .unwrap_or_else(|e| panic!("{e}"));
    assert_eq!(caller.catalog_access.len(), 0);
    let untyped = verify(&[credential("7", r#"["A"]"#, NOW + 10)])
        .unwrap_or_else(|e| panic!("{e}"));
    assert_eq!(untyped.catalog_access.len(), 0);
    let no_list = verify(&[access_credential("\"A\"", NOW + 10)])
        .unwrap_or_else(|e| panic!("{e}"));
    assert_eq!(no_list.catalog_access.len(), 0);
}

#[test]
fn the_holder_is_asked_at_its_well_known_place() {
    let waiting = begin_verification(&token(), &config()).unwrap_or_else(|e| panic!("{e}"));
    assert_eq!(waiting.holder_did, HOLDER);
    assert_eq!(waiting.kid, format!("{HOLDER}#key"));
    assert_eq!(waiting.url, "http://127.0.0.1:9000/dsp/holder/did.json");
}

#[test]
fn credential_service_endpoint_is_the_real_reachable_presentation_api() {
    let host = "127.0.0.1:9000";
    assert_eq!(asked().query_url, format!("http://{host}/dsp/holder/presentations/query"));
}

#[test]
fn the_nested_token_is_repackaged_under_the_own_key() {
    let next = asked();
    assert_eq!(next.query.context, "https://w3id.org/dspace-dcp/v1.0/dcp.jsonld");
    assert_eq!(next.query.ld_type, "PresentationQueryMessage");
    assert_eq!(next.query.scope, vec![SCOPE.to_string()]);

    let (_, header, payload) = decode_jws_unverified(&next.bearer_token).unwrap();
    assert_eq!(header["kid"].as_str(), Some(config().own_key_id.as_str()));
    assert_eq!(header["alg"].as_str(), Some("ES256"));
    let fields = payload.as_object().unwrap();
    assert_eq!(fields.len(), 8);
    assert_eq!(payload["iss"].as_str(), Some(OWN));
    assert_eq!(payload["sub"].as_str(), Some(OWN));
    assert_eq!(payload["aud"].as_str(), Some(HOLDER));
    assert_eq!(payload["token"].as_str(), Some("nested"));
    assert_eq!(payload["iat"].as_u64(), Some(NOW));
    assert_eq!(payload["nbf"].as_u64(), Some(NOW));
    assert_eq!(payload["exp"].as_u64(), Some(NOW + 300));
    assert_eq!(payload["jti"].as_str(), Some("jti-1"));

    let (x, y) = key(1).public_point();
    let own = federated_catalog::es256::VerifyingKey::from_coordinates(x.to_vec(), y.to_vec());
    assert_eq!(verify_jws_signature(&next.bearer_token, &own.unwrap()), Ok(()));
}

#[test]
fn the_clock_dates_the_repackaged_token_under_a_fresh_identifier() {
    let config = config();
    let exp = now_secs().unwrap() + 3600;
    let ask = || {
        let next = begin_verification(&token_with(OWN, exp), &config)
            .unwrap_or_else(|e| panic!("{e}"))
            .resolved(DidReply::Document(holder_document()), &config)
            .unwrap_or_else(|e| panic!("{e}"));
        let (_, _, payload) = decode_jws_unverified(&next.bearer_token).unwrap();
        payload
    };
    let before = now_secs().unwrap();
    let first = ask();
    let after = now_secs().unwrap();
    let iat = first["iat"].as_u64().unwrap();
    assert!(before <= iat && iat <= after);
    assert_eq!(first["exp"].as_u64(), Some(iat + 300));
    let jti = first["jti"].as_str().unwrap();
    assert_eq!(uuid::Uuid::parse_str(jti).unwrap().get_version_num(), 4);
    assert_ne!(ask()["jti"], first["jti"]);
}

#[test]
fn a_clock_before_the_epoch_shows_no_time() {
    assert_eq!(time_of(Some(NOW)), Ok(NOW));
    assert_eq!(time_of(Some(0)), Ok(0));
    assert_eq!(time_of(None), Err("system clock before epoch".to_string()));
}

#[test]
fn the_clock_decides_which_credentials_are_current() {
    let config = config();
    let now = now_secs().unwrap();
    assert!(now > NOW);
    let outcome = |exp: u64| {
        let vp = presentation(&[access_credential(r#"["A"]"#, exp)]);
        match asked().received(PresentationReply::Presentations(vec![vp]), &config) {
            Ok(CredentialStep::Resolve(waiting)) => {
                waiting.resolved(DidReply::Document(issuer_document()), &config)
            }
            _ => panic!("the issuer was not asked for"),
        }
    };
    match outcome(now + 3600) {
        Ok(CredentialStep::Done(caller)) => assert!(caller.catalog_access.contains("A")),
        _ => panic!("the credential was refused"),
    }
    assert_eq!(error(outcome(now - 3600)), "all presented credentials have expired");
}

#[test]
fn a_given_identifier_makes_the_repackaged_token_reproducible() {
    assert_eq!(asked().bearer_token, asked().bearer_token);
}

#[test]
fn tokens_that_lack_claims_are_refused() {
    assert_eq!(begin_error("{}", true), "token has no iss");
    assert_eq!(begin_error(r#"{"iss":5}"#, true), "token has no iss");
    assert_eq!(begin_error(&format!(r#"{{"iss":"{HOLDER}"}}"#), false), "token has no kid");
    assert_eq!(begin_error(r#"{"iss":"did:key:x"}"#, true), "not a did:web DID");
    assert_eq!(
        error(begin_verification("no token", &config())),
        "missing JWS payload"
    );
}

#[test]
fn tokens_for_others_or_out_of_date_are_refused() {
    let reply = || DidReply::Document(holder_document());
    assert_eq!(
        holder_error(&token_with("did:web:other", NOW + 1), reply()),
        format!(
            "token audience 'did:web:other' does not match this connector's DID '{OWN}'"
        )
    );
    assert_eq!(holder_error(&token_with(OWN, NOW), reply()), "token has expired");
    let no_exp = signed(
        &format!(r#"{{"iss":"{HOLDER}","aud":"{OWN}","token":"t"}}"#),
        HOLDER,
        &key(2),
    );
    assert_eq!(holder_error(&no_exp, reply()), "token has expired");
    let no_aud = signed(&format!(r#"{{"iss":"{HOLDER}"}}"#), HOLDER, &key(2));
    assert_eq!(
        holder_error(&no_aud, reply()),
        format!("token audience '' does not match this connector's DID '{OWN}'")
    );
    let no_nested = signed(
        &format!(r#"{{"iss":"{HOLDER}","aud":"{OWN}","exp":{}}}"#, NOW + 1),
        HOLDER,
        &key(2),
    );
    assert_eq!(
        holder_error(&no_nested, reply()),
        "token has no nested presentation-access-token claim"
    );
}

#[test]
fn tokens_not_signed_by_the_holder_are_refused() {
    let forged = document(HOLDER, &key(9), Some("http://127.0.0.1:9000/dsp/holder"));
    assert_eq!(
        holder_error(&token(), DidReply::Document(forged)),
        "signature verification failed: signature error"
    );
    let without_key = DidDocument { verification_method: Vec::new(), service: Vec::new() };
    assert_eq!(
        holder_error(&token(), DidReply::Document(without_key)),
        format!("no verification method '{HOLDER}#key' in DID document")
    );
    let without_service = document(HOLDER, &key(2), None);
    assert_eq!(
        holder_error(&token(), DidReply::Document(without_service)),
        "DID document has no CredentialService entry"
    );
}

#[test]
fn failed_did_resolutions_are_named() {
    assert_eq!(
        holder_error(&token(), DidReply::Unreachable("no route".to_string())),
        format!(
            "failed to resolve DID {HOLDER} at http://127.0.0.1:9000/dsp/holder/did.json: no route"
        )
    );
    assert_eq!(
        holder_error(&token(), DidReply::Refused("404 Not Found".to_string())),
        format!("DID resolution for {HOLDER} returned HTTP 404 Not Found")
    );
    assert_eq!(
        holder_error(&token(), DidReply::Malformed("eof".to_string())),
        format!("DID document for {HOLDER} was not valid: eof")
    );
}

#[test]
fn failed_presentation_queries_are_named() {
    let url = "http://127.0.0.1:9000/dsp/holder/presentations/query";
    let refused = |reply| error(asked().received(reply, &config()));
    assert_eq!(
        refused(PresentationReply::Unreachable("down".to_string())),
        format!("presentation query to {url} failed: down")
    );
    assert_eq!(
        refused(PresentationReply::Refused("401 Unauthorized".to_string(), "no".to_string())),
        "presentation query returned HTTP 401 Unauthorized: no"
    );
    assert_eq!(
        refused(PresentationReply::Malformed("eof".to_string())),
        "malformed presentation response: eof"
    );
    assert_eq!(
        refused(PresentationReply::Presentations(Vec::new())),
        "presentation response had no presentation"
    );
    assert_eq!(
        refused(PresentationReply::Presentations(vec!["junk".to_string()])),
        "missing JWS payload"
    );
}

#[test]
fn presentations_must_be_signed_by_the_holder_and_hold_credentials() {
    let refused = |vp: String| {
        error(asked().received(PresentationReply::Presentations(vec![vp]), &config()))
    };
    assert_eq!(refused(presentation(&[])), "VerifiablePresentation contained no credentials");
    assert_eq!(
        refused(signed("{}", HOLDER, &key(2))),
        "VerifiablePresentation contained no credentials"
    );
    assert_eq!(
        refused(signed("{}", HOLDER, &key(3))),
        "signature verification failed: signature error"
    );
    assert_eq!(
        refused(signed("{}", ISSUER, &key(2))),
        format!("no verification method '{ISSUER}#key' in DID document")
    );
    let no_kid = format!("{}.e30.AAAA", URL_SAFE_NO_PAD.encode("{}"));
    assert_eq!(refused(no_kid), "VP has no kid");
    assert_eq!(
        refused(signed(r#"{"vp":{"verifiableCredential":[5]}}"#, HOLDER, &key(2))),
        "verifiableCredential entry was not a string"
    );
}

#[test]
fn credentials_must_be_signed_by_their_own_issuer() {
    let forged = signed(
        &format!(r#"{{"iss":"{ISSUER}","exp":{}}}"#, NOW + 10),
        ISSUER,
        &key(2),
    );
    assert_eq!(error(verify(&[forged])), "signature verification failed: signature error");
    let no_iss = signed("{}", ISSUER, &key(3));
    assert_eq!(error(verify(&[no_iss])), "VC has no iss");
    let payload = URL_SAFE_NO_PAD.encode(format!(r#"{{"iss":"{ISSUER}"}}"#));
    let no_kid = format!("e30.{payload}.AAAA");
    assert_eq!(error(verify(&[no_kid])), "VC has no kid");
    let unreadable = access_credential(r#"["A"]"#, NOW + 10) + ".x";
    assert_eq!(error(verify(&[unreadable])), "JWS has more than 3 segments");
}

#[test]
fn one_unverifiable_credential_spoils_the_presentation() {
    let good = access_credential(r#"["A"]"#, NOW + 10);
    let forged = signed(&format!(r#"{{"iss":"{ISSUER}","exp":1}}"#), ISSUER, &key(2));
    assert_eq!(
        error(verify(&[good, forged])),
        "signature verification failed: signature error"
    );
}

#[test]
fn an_issuer_that_cannot_be_resolved_refuses_the_credential() {
    let reply = PresentationReply::Presentations(vec![presentation(&[access_credential(
        r#"["A"]"#,
        NOW + 10,
    )])]);
    let config = config();
    match asked().received(reply, &config) {
        Ok(CredentialStep::Resolve(waiting)) => assert_eq!(
            error(resolve_issuer(waiting, DidReply::Refused("500".to_string()))),
            format!("DID resolution for {ISSUER} returned HTTP 500")
        ),
        _ => panic!("the issuer was not asked for"),
    }
}
