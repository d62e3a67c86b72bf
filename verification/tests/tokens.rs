use base64::engine::general_purpose::URL_SAFE_NO_PAD;
use base64::Engine;
use federated_catalog::base64url::b64_decode;
use federated_catalog::dcp::DcpConfig;
use federated_catalog::did::{
    credential_service_url, did_web_to_url, find_verifying_key, jwk_to_verifying_key,
    urlencoding_decode, DidDocument, DidService, Jwk, VerificationMethod,
};
use federated_catalog::es256::{SigningKey, VerifyingKey};
use federated_catalog::ids::{new_urn_uuid, urn_of};
use federated_catalog::json::RAW_VALUE_NAME;
use federated_catalog::jws::{decode_jws_unverified, sign_jws, verify_jws_signature};
use serde_json::Value;

fn hex(text: &str) -> Vec<u8> {
    (0..text.len() / 2)
        .map(|i| u8::from_str_radix(&text[2 * i..2 * i + 2], 16).unwrap())
        .collect()
}

fn hex32(text: &str) -> [u8; 32] {
    hex(text).try_into().unwrap()
}

/// The key of the P-256 examples in RFC 6979, A.2.5.
fn rfc_key() -> SigningKey {
    let scalar = hex32("c9afa9d845ba75166b5c215767b1d6934e50c3db36e89b127b8a622b120f6721");
    SigningKey::from_bytes(scalar).unwrap()
}

fn json(text: &str) -> Value {
    serde_json::from_str(text).unwrap()
}

fn encoded(text: &str) -> String {
    URL_SAFE_NO_PAD.encode(text)
}

fn verifying_key(key: &SigningKey) -> VerifyingKey {
    let (x, y) = key.public_point();
    VerifyingKey::from_coordinates(x.to_vec(), y.to_vec()).unwrap()
}

fn jwk(key: &SigningKey) -> Jwk {
    let (x, y) = key.public_point();
    Jwk { x: URL_SAFE_NO_PAD.encode(x), y: URL_SAFE_NO_PAD.encode(y) }
}

fn error<T>(result: Result<T, String>) -> String {
    match result {
        Ok(_) => panic!("an error was expected"),
        Err(error) => error,
    }
}

#[test]
fn public_point_of_the_example_key() {
    let (x, y) = rfc_key().public_point();
    assert_eq!(x, hex32("60fed4ba255a9d31c961eb74c6356d68c049b8923b61fa6ce669622e60f29fb6"));
    assert_eq!(y, hex32("7903fe1008b8bc99a41ae9e95628bc64f2f1b20c2d7e9f5177a3c294d4462299"));
}

#[test]
fn signature_of_the_example_message() {
    let signature = rfc_key().sign(b"sample").unwrap();
    assert_eq!(
        signature,
        hex(
            "efd48b2aacb6a8fd1140dd9cd45e81d69d2c877b56aaf991c34d0ea84eaf3716\
             f7cb1c942d657c41d436c7a1b6e29f65f3e900dbb9aff4064dc4ab2f843acda8"
        )
    );
    let key = verifying_key(&rfc_key());
    assert_eq!(key.verify(b"sample", &signature), Ok(()));
    assert_eq!(
        key.verify(b"simple", &signature),
        Err("signature verification failed: signature error".to_string())
    );
}

#[test]
fn malformed_signatures_are_told_from_wrong_ones() {
    let key = verifying_key(&rfc_key());
    let malformed = Err("malformed signature: signature error".to_string());
    assert_eq!(key.verify(b"m", &[1; 63]), malformed);
    assert_eq!(key.verify(b"m", &[0; 64]), malformed);
    assert_eq!(key.verify(b"m", &[0xff; 64]), malformed);
    assert_eq!(
        key.verify(b"m", &[1; 64]),
        Err("signature verification failed: signature error".to_string())
    );
}

#[test]
fn only_scalars_below_the_order_are_keys() {
    assert!(SigningKey::from_bytes([0; 32]).is_none());
    assert!(SigningKey::from_bytes([0xff; 32]).is_none());
    let order = hex32("ffffffff00000000ffffffffffffffffbce6faada7179e84f3b9cac2fc632551");
    assert!(SigningKey::from_bytes(order).is_none());
    let below = hex32("ffffffff00000000ffffffffffffffffbce6faada7179e84f3b9cac2fc632550");
    let key = SigningKey::from_bytes(below).unwrap();
    assert_eq!(key.to_bytes(), below);
}

#[test]
fn random_keys_sign_and_differ() {
    let key = SigningKey::random();
    assert_ne!(key.to_bytes(), SigningKey::random().to_bytes());
    let signature = key.sign(b"message").unwrap();
    assert_eq!(verifying_key(&key).verify(b"message", &signature), Ok(()));
    assert!(verifying_key(&rfc_key()).verify(b"message", &signature).is_err());
}

#[test]
fn only_points_of_the_curve_are_verifying_keys() {
    let (x, y) = rfc_key().public_point();
    assert!(VerifyingKey::from_coordinates(x.to_vec(), y.to_vec()).is_some());
    assert!(VerifyingKey::from_coordinates(y.to_vec(), x.to_vec()).is_none());
    assert!(VerifyingKey::from_coordinates(vec![0; 32], vec![0; 32]).is_none());
    assert!(VerifyingKey::from_coordinates(vec![0xff; 32], y.to_vec()).is_none());
}

#[test]
fn base64url_is_decoded_without_padding() {
    assert_eq!(b64_decode("-_-_"), Ok(vec![0xfb, 0xff, 0xbf]));
    assert_eq!(b64_decode(""), Ok(Vec::new()));
    assert!(error(b64_decode("YQ==")).starts_with("invalid base64url: "));
    assert!(error(b64_decode("a b")).starts_with("invalid base64url: "));
}

#[test]
fn signed_tokens_are_read_back_and_verify() {
    let payload = json(r#"{"iss":"did:web:a","exp":12345,"list":["x",{"y":null}],"ok":true}"#);
    let token = sign_jws(&payload, &rfc_key(), "did:web:a#key").unwrap();
    let segments: Vec<&str> = token.split('.').collect();
    assert_eq!(segments.len(), 3);
    assert_eq!(segments[0], encoded(r#"{"alg":"ES256","kid":"did:web:a#key"}"#));
    let (signing_input, header, read) = decode_jws_unverified(&token).unwrap();
    assert_eq!(signing_input, format!("{}.{}", segments[0], segments[1]));
    assert_eq!(header, json(r#"{"kid":"did:web:a#key","alg":"ES256"}"#));
    assert_eq!(read, payload);
    assert_eq!(verify_jws_signature(&token, &verifying_key(&rfc_key())), Ok(()));
}

#[test]
fn payloads_are_read_back_up_to_the_nesting_limit() {
    let nested = |depth: usize| {
        let mut value = Value::from(u64::MAX);
        for _ in 0..depth {
            value = Value::from(vec![value]);
        }
        value
    };
    let deep = nested(127);
    let token = sign_jws(&deep, &rfc_key(), "k").unwrap();
    assert_eq!(decode_jws_unverified(&token).unwrap().2, deep);
    let too_deep = sign_jws(&nested(128), &rfc_key(), "k").unwrap();
    assert!(decode_jws_unverified(&too_deep).is_err());
    let texts = Value::from(vec!["", "\u{0}\n\"\\", "é😀\u{2028}"]);
    let token = sign_jws(&texts, &rfc_key(), "k\"\n").unwrap();
    let (_, header, read) = decode_jws_unverified(&token).unwrap();
    assert_eq!(header["kid"].as_str(), Some("k\"\n"));
    assert_eq!(read, texts);
}

#[test]
fn integers_are_read_back() {
    let payload = json(r#"{"a":-1,"b":-9223372036854775808,"c":18446744073709551615,"d":0}"#);
    let token = sign_jws(&payload, &rfc_key(), "k").unwrap();
    let (_, _, read) = decode_jws_unverified(&token).unwrap();
    assert_eq!(read, payload);
    assert_eq!(read["b"].as_i64(), Some(i64::MIN));
    assert_eq!(read["c"].as_u64(), Some(u64::MAX));
}

#[test]
fn an_object_that_begins_as_raw_json_is_read_as_that_json() {
    let object = |members: Vec<(&str, &str)>| {
        Value::from_iter(members.into_iter().map(|(name, text)| (name.to_string(), text)))
    };
    let read = |payload: &Value| {
        let token = sign_jws(payload, &rfc_key(), "k").unwrap();
        decode_jws_unverified(&token)
    };
    let marked = object(vec![(RAW_VALUE_NAME, "1")]);
    assert_eq!(read(&marked).unwrap().2, Value::from(1));
    assert!(read(&object(vec![(RAW_VALUE_NAME, "1"), ("z", "")])).is_err());
    let preceded = object(vec![("", ""), (RAW_VALUE_NAME, "1"), ("z", "")]);
    assert_eq!(read(&preceded).unwrap().2, preceded);
}

#[test]
fn tokens_under_another_key_or_tampered_with_are_refused() {
    let token = sign_jws(&json(r#"{"a":1}"#), &rfc_key(), "k").unwrap();
    let refused = Err("signature verification failed: signature error".to_string());
    let other = SigningKey::from_bytes([7; 32]).unwrap();
    assert_eq!(verify_jws_signature(&token, &verifying_key(&other)), refused);
    let segments: Vec<&str> = token.split('.').collect();
    let tampered = format!("{}.{}.{}", segments[0], encoded(r#"{"a":2}"#), segments[2]);
    assert_eq!(verify_jws_signature(&tampered, &verifying_key(&rfc_key())), refused);
}

#[test]
fn tokens_without_three_segments_are_refused() {
    let key = verifying_key(&rfc_key());
    assert_eq!(error(decode_jws_unverified("")), "missing JWS payload");
    assert_eq!(error(decode_jws_unverified("a")), "missing JWS payload");
    assert_eq!(error(decode_jws_unverified("a.b")), "missing JWS signature");
    assert_eq!(error(decode_jws_unverified("a.b.c.d")), "JWS has more than 3 segments");
    assert_eq!(error(verify_jws_signature("a", &key)), "missing JWS payload");
    assert_eq!(error(verify_jws_signature("a.b", &key)), "missing JWS signature");
    assert_eq!(
        error(verify_jws_signature("a.b.", &key)),
        "malformed signature: signature error"
    );
    assert!(error(verify_jws_signature("a.b.!", &key)).starts_with("invalid base64url: "));
}

#[test]
fn signature_check_ignores_further_segments() {
    let token = sign_jws(&json("{}"), &rfc_key(), "k").unwrap();
    let longer = format!("{token}.more");
    assert_eq!(verify_jws_signature(&longer, &verifying_key(&rfc_key())), Ok(()));
    assert_eq!(error(decode_jws_unverified(&longer)), "JWS has more than 3 segments");
}

#[test]
fn segments_must_be_base64url_and_json() {
    assert!(error(decode_jws_unverified("!.e30.x")).starts_with("invalid base64url: "));
    assert!(error(decode_jws_unverified("e30.!.x")).starts_with("invalid base64url: "));
    let not_json = error(decode_jws_unverified(&format!("{}.e30.x", encoded("nope"))));
    assert_eq!(not_json, serde_json::from_slice::<Value>(b"nope").unwrap_err().to_string());
}

#[test]
fn resolve_did_reaches_the_real_dsp_did_routes() {
    let host = "127.0.0.1:18080";
    let base = format!("http://{host}");
    let encoded_host = host.replace(':', "%3A");
    let holder_did = format!("did:web:{encoded_host}:dsp:holder");
    let verifier_did = format!("did:web:{encoded_host}:dsp");

    let holder_url = did_web_to_url(&holder_did, true).expect("did_web_to_url");
    assert_eq!(holder_url, format!("{base}/dsp/holder/did.json"));

    let verifier_url = did_web_to_url(&verifier_did, true).expect("did_web_to_url");
    assert_eq!(verifier_url, format!("{base}/dsp/did.json"));
}

#[test]
fn did_web_urls() {
    assert_eq!(
        did_web_to_url("did:web:example.org", false).unwrap(),
        "https://example.org/.well-known/did.json"
    );
    assert_eq!(
        did_web_to_url("did:web:localhost%3a8080", true).unwrap(),
        "http://localhost:8080/.well-known/did.json"
    );
    assert_eq!(
        did_web_to_url("did:web:example.org:a:b%3Ac", false).unwrap(),
        "https://example.org/a/b:c/did.json"
    );
    assert_eq!(did_web_to_url("did:web:", false).unwrap(), "https:///.well-known/did.json");
    assert_eq!(error(did_web_to_url("did:key:z6Mk", false)), "not a did:web DID");
    assert_eq!(error(did_web_to_url("", true)), "not a did:web DID");
}

#[test]
fn encoded_colons_are_written_out() {
    assert_eq!(urlencoding_decode("localhost%3A8080"), "localhost:8080");
    assert_eq!(urlencoding_decode("%3a%3A"), "::");
    assert_eq!(urlencoding_decode("%3%3Aa%20"), "%3:a%20");
    assert_eq!(urlencoding_decode("%3"), "%3");
    assert_eq!(urlencoding_decode("é%3Aü"), "é:ü");
    assert_eq!(urlencoding_decode("%%3A3A"), "%:3A");
}

#[test]
fn hosts_survive_encoding_and_decoding() {
    for host in ["localhost", "127.0.0.1:8080", "[::1]:80", "a%20b", "%3", "%", "3A:", ""] {
        let decoded = urlencoding_decode(&host.replace(':', "%3A"));
        assert_eq!(decoded, host);
        assert_eq!(urlencoding_decode(&decoded), decoded);
    }
    assert_eq!(urlencoding_decode("%3A"), ":");
}

#[test]
fn tokens_are_three_unpadded_segments_whatever_the_payload() {
    for payload in ["1.5", "-7", "\"é\"", "[[],{}]", "null", "{\"a\":1e300}"] {
        let token = sign_jws(&json(payload), &rfc_key(), "kid.with=dots").unwrap();
        let segments: Vec<&str> = token.split('.').collect();
        assert_eq!(segments.len(), 3);
        for segment in segments {
            assert!(!segment.is_empty());
            assert!(segment.bytes().all(|b| b.is_ascii_alphanumeric() || b == b'-' || b == b'_'));
        }
    }
}

#[test]
fn keys_are_read_from_jwks() {
    let key = rfc_key();
    let read = jwk_to_verifying_key(&jwk(&key));
    let token = sign_jws(&json("{}"), &key, "k").unwrap();
    match read {
        Ok(read) => assert_eq!(verify_jws_signature(&token, &read), Ok(())),
        Err(error) => panic!("{error}"),
    }
    let short = Jwk { x: "AAAA".to_string(), ..jwk(&key) };
    assert_eq!(error(jwk_to_verifying_key(&short)), "EC JWK x/y must be 32 bytes for P-256");
    let swapped = Jwk { x: jwk(&key).y, y: jwk(&key).x };
    assert_eq!(error(jwk_to_verifying_key(&swapped)), "invalid EC point in JWK");
    let bad_x = Jwk { x: "=".to_string(), ..jwk(&key) };
    assert!(error(jwk_to_verifying_key(&bad_x)).starts_with("invalid base64url: "));
    let bad_y = Jwk { y: "=".to_string(), ..jwk(&key) };
    assert!(error(jwk_to_verifying_key(&bad_y)).starts_with("invalid base64url: "));
}

#[test]
fn keys_are_found_in_documents_by_id() {
    let document = DidDocument {
        verification_method: vec![
            VerificationMethod { id: "#bare".to_string(), public_key_jwk: None },
            VerificationMethod {
                id: "#key".to_string(),
                public_key_jwk: Some(jwk(&rfc_key())),
            },
        ],
        service: Vec::new(),
    };
    assert!(find_verifying_key(&document, "#key").is_ok());
    assert_eq!(
        error(find_verifying_key(&document, "#other")),
        "no verification method '#other' in DID document"
    );
    assert_eq!(
        error(find_verifying_key(&document, "#bare")),
        "verification method '#bare' has no publicKeyJwk"
    );
}

#[test]
fn the_first_credential_service_is_used() {
    let service = |ty: &str, endpoint: &str| DidService {
        ty: ty.to_string(),
        service_endpoint: endpoint.to_string(),
    };
    let document = DidDocument {
        verification_method: Vec::new(),
        service: vec![
            service("Other", "https://other"),
            service("CredentialService", "https://first"),
            service("CredentialService", "https://second"),
        ],
    };
    assert_eq!(credential_service_url(&document).unwrap(), "https://first");
    let none = DidDocument {
        verification_method: Vec::new(),
        service: vec![service("Other", "https://other")],
    };
    assert_eq!(
        error(credential_service_url(&none)),
        "DID document has no CredentialService entry"
    );
}

#[test]
fn own_did_document_publishes_the_key() {
    let did = "did:web:localhost%3A18080:dsp";
    let config = DcpConfig::with_key(did.to_string(), &rfc_key(), true, "scope".to_string());
    assert_eq!(config.own_key_id, format!("{did}#dsp-key"));
    let jwk = jwk(&rfc_key());
    let expected = format!(
        r#"{{"@context":["https://www.w3.org/ns/did/v1"],"id":"{did}","verificationMethod":[{{
            "id":"{did}#dsp-key","type":"JsonWebKey2020","controller":"{did}","publicKeyJwk":{{
            "kty":"EC","crv":"P-256","x":"{}","y":"{}"}}}}],"service":[]}}"#,
        jwk.x, jwk.y
    );
    assert_eq!(config.own_did_document(), json(&expected));
}

#[test]
fn generated_configs_sign_with_the_published_key() {
    let config = DcpConfig::generate("did:web:a".to_string(), false, "scope".to_string());
    let copy = config.clone();
    assert_eq!(copy.own_did, "did:web:a");
    assert!(!copy.insecure_http);
    assert_eq!(copy.required_scope, "scope");
    assert_eq!(copy.signing_key_bytes, config.signing_key_bytes);
    let other = DcpConfig::generate("did:web:a".to_string(), false, "scope".to_string());
    assert_ne!(other.signing_key_bytes, config.signing_key_bytes);

    let token = sign_jws(&json("{}"), &config.signing_key(), &config.own_key_id).unwrap();
    let document = config.own_did_document();
    let method = &document["verificationMethod"][0];
    assert_eq!(method["id"].as_str(), Some("did:web:a#dsp-key"));
    let published = Jwk {
        x: method["publicKeyJwk"]["x"].as_str().unwrap().to_string(),
        y: method["publicKeyJwk"]["y"].as_str().unwrap().to_string(),
    };
    let read = DidDocument {
        verification_method: vec![VerificationMethod {
            id: "did:web:a#dsp-key".to_string(),
            public_key_jwk: Some(published),
        }],
        service: Vec::new(),
    };
    let key = match find_verifying_key(&read, &config.own_key_id) {
        Ok(key) => key,
        Err(error) => panic!("{error}"),
    };
    assert_eq!(verify_jws_signature(&token, &key), Ok(()));
}

#[test]
fn a_urn_is_the_prefix_and_the_uuid() {
    let uuid = "123e4567-e89b-42d3-a456-426614174000";
    assert_eq!(urn_of(uuid), format!("urn:uuid:{uuid}"));
}

#[test]
fn urns_are_version_four_uuids() {
    let urn = new_urn_uuid();
    let uuid = urn.strip_prefix("urn:uuid:").unwrap();
    let parsed = uuid::Uuid::parse_str(uuid).unwrap();
    assert_eq!(parsed.get_version_num(), 4);
    assert_eq!(parsed.to_string(), uuid);
}
