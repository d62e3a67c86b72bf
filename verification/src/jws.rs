//! Compact JWS tokens signed with ES256.
//!
//! A token is three base64url segments joined by dots: a JSON header, a JSON
//! payload, and the signature of the first two as they are written.

use crate::base64url::{b64_decode, b64_encode};
use crate::es256::{SigningKey, VerifyingKey};
use crate::json::{object_value, parse_json, text_value, write_json, JsonContent};
use crate::text::split;
use serde_json::Value;
use vstd::prelude::*;

verus! {

/// What a token holds: what is signed, the header and the payload.
pub struct JwsView {
    pub signing_input: Seq<char>,
    pub header: JsonContent,
    pub payload: JsonContent,
}

/// The JSON value in a segment, or why there is none.
pub open spec fn segment_json(segment: Seq<char>) -> Result<JsonContent, Seq<char>> {
    match crate::base64url::segment_bytes(segment) {
        Ok(document) => crate::json::json_parsed(document),
        Err(error) => Err(error),
    }
}

/// What is signed of a token with these segments.
pub open spec fn signing_input(header: Seq<char>, payload: Seq<char>) -> Seq<char> {
    header + "."@ + payload
}

/// What a token holds, before anything is verified, or why it cannot be read.
pub open spec fn jws_unverified(token: Seq<char>) -> Result<JwsView, Seq<char>> {
    let segments = crate::text::pieces(token, '.');
    if segments.len() < 2 {
        Err("missing JWS payload"@)
    } else if segments.len() < 3 {
        Err("missing JWS signature"@)
    } else if segments.len() > 3 {
        Err("JWS has more than 3 segments"@)
    } else {
        match segment_json(segments[0]) {
            Err(error) => Err(error),
            Ok(header) => match segment_json(segments[1]) {
                Err(error) => Err(error),
                Ok(payload) => Ok(
                    JwsView {
                        signing_input: signing_input(segments[0], segments[1]),
                        header,
                        payload,
                    },
                ),
            },
        }
    }
}

/// Reads the JSON value in a segment.
fn decode_segment_json(segment: &str) -> (decoded: Result<Value, String>)
    ensures
        match decoded {
            Ok(value) => segment_json(segment@) matches Ok(content) && content
                == crate::json::json_content(value),
            Err(error) => segment_json(segment@) matches Err(text) && text == error@,
        },
{
    match b64_decode(segment) {
        Ok(document) => parse_json(document.as_slice()),
        Err(error) => Err(error),
    }
}

/// Splits a compact JWS into (signing_input, header, payload) without
/// verifying anything - used to peek at `iss`/`kid` before it is known which
/// key to verify against.
pub fn decode_jws_unverified(token: &str) -> (decoded: Result<(String, Value, Value), String>)
    ensures
        match decoded {
            Ok(parts) => jws_unverified(token@) matches Ok(jws) && jws == (JwsView {
                signing_input: parts.0@,
                header: crate::json::json_content(parts.1),
                payload: crate::json::json_content(parts.2),
            }),
            Err(error) => jws_unverified(token@) matches Err(text) && text == error@,
        },
{
    let segments = split(token, '.');
    if segments.len() < 2 {
        return Err("missing JWS payload".to_owned());
    }
    if segments.len() < 3 {
        return Err("missing JWS signature".to_owned());
    }
    if segments.len() > 3 {
        return Err("JWS has more than 3 segments".to_owned());
    }
    let input = segments[0].clone().concat(".").concat(segments[1].as_str());
    let header = match decode_segment_json(segments[0].as_str()) {
        Ok(header) => header,
        Err(error) => {
            return Err(error);
        },
    };
    let payload = match decode_segment_json(segments[1].as_str()) {
        Ok(payload) => payload,
        Err(error) => {
            return Err(error);
        },
    };
    Ok((input, header, payload))
}

/// What becomes of the signature of a token under a key.
pub open spec fn jws_verdict(token: Seq<char>, key: (Seq<u8>, Seq<u8>)) -> Result<
    (),
    Seq<char>,
> {
    let segments = crate::text::pieces(token, '.');
    if segments.len() < 2 {
        Err("missing JWS payload"@)
    } else if segments.len() < 3 {
        Err("missing JWS signature"@)
    } else {
        match crate::base64url::segment_bytes(segments[2]) {
            Err(error) => Err(error),
            Ok(signature) => crate::es256::signature_verdict(
                key,
                vstd::utf8::encode_utf8(signing_input(segments[0], segments[1])),
                signature,
            ),
        }
    }
}

/// Checks that `verifying_key` accepts the signature of a token.
pub fn verify_jws_signature(token: &str, verifying_key: &VerifyingKey) -> (checked: Result<
    (),
    String,
>)
    ensures
        match checked {
            Ok(_) => jws_verdict(token@, verifying_key@) is Ok,
            Err(error) => jws_verdict(token@, verifying_key@) matches Err(text) && text == error@,
        },
{
    let segments = split(token, '.');
    if segments.len() < 2 {
        return Err("missing JWS payload".to_owned());
    }
    if segments.len() < 3 {
        return Err("missing JWS signature".to_owned());
    }
    let input = segments[0].clone().concat(".").concat(segments[1].as_str());
    match b64_decode(segments[2].as_str()) {
        Ok(signature) => verifying_key.verify(input.as_str().as_bytes(), signature.as_slice()),
        Err(error) => Err(error),
    }
}

/// The header of a token signed with the key named `kid`.
pub open spec fn jws_header(kid: Seq<char>) -> JsonContent {
    JsonContent::Object(
        map![
            "kid"@ => JsonContent::Text(kid),
            "alg"@ => JsonContent::Text("ES256"@),
        ],
    )
}

/// A JSON value as a segment.
pub open spec fn json_segment(content: JsonContent) -> Seq<char> {
    crate::base64url::base64url(vstd::utf8::encode_utf8(crate::json::json_written(content)))
}

/// The token with this payload that the key signs, if it signs at all.
pub open spec fn jws_signed(payload: JsonContent, key: Seq<u8>, kid: Seq<char>) -> Option<
    Seq<char>,
> {
    let input = signing_input(json_segment(jws_header(kid)), json_segment(payload));
    match crate::es256::es256_signature(key, vstd::utf8::encode_utf8(input)) {
        Some(signature) => Some(input + "."@ + crate::base64url::base64url(signature)),
        None => None,
    }
}

/// Whether every character of a segment is in the URL-safe alphabet, so that
/// it holds neither a dot nor padding.
pub open spec fn url_safe(segment: Seq<char>) -> bool {
    forall|i: int| 0 <= i < segment.len() ==> crate::base64url::in_alphabet(#[trigger] segment[i])
}

/// Whether a token is three segments, each in the URL-safe alphabet.
pub open spec fn three_segments(token: Seq<char>) -> bool {
    let segments = crate::text::pieces(token, '.');
    &&& segments.len() == 3
    &&& forall|i: int| 0 <= i < 3 ==> url_safe(#[trigger] segments[i])
}

/// What the parser makes of a JSON value as it is written.
pub open spec fn reparsed(content: JsonContent) -> Result<JsonContent, Seq<char>> {
    crate::json::json_parsed(vstd::utf8::encode_utf8(crate::json::json_written(content)))
}

/// Whether a token reads as the header that names the key `kid` and what the
/// parser makes of the payload, or fails to be read as the payload does.
pub open spec fn reads_as_signed(token: Seq<char>, payload: JsonContent, kid: Seq<char>) -> bool {
    match reparsed(payload) {
        Ok(read) => jws_unverified(token) matches Ok(jws) && jws == (JwsView {
            signing_input: signing_input(json_segment(jws_header(kid)), json_segment(payload)),
            header: jws_header(kid),
            payload: read,
        }),
        Err(error) => jws_unverified(token) matches Err(text) && text == error,
    }
}

/// Writes a JSON value as a segment.
fn encode_segment_json(value: &Value) -> (segment: String)
    ensures
        segment@ == json_segment(crate::json::json_content(*value)),
        url_safe(segment@),
        !segment@.contains('.'),
        segment_json(segment@) == reparsed(crate::json::json_content(*value)),
        crate::base64url::base64url_decoded(segment@) matches Ok(document) && document
            == vstd::utf8::encode_utf8(
            crate::json::json_written(crate::json::json_content(*value)),
        ),
        crate::json::plain(crate::json::json_content(*value), 127) ==> (segment_json(
            segment@,
        ) matches Ok(content) && content == crate::json::json_content(*value)),
{
    let document = write_json(value);
    let segment = b64_encode(document.as_str().as_bytes());
    assert forall|i: int| 0 <= i < segment@.len() implies segment@[i] != '.' by {
        assert(crate::base64url::in_alphabet(segment@[i]));
    }
    segment
}

proof fn lemma_three_segments(header: Seq<char>, payload: Seq<char>, signature: Seq<char>)
    requires
        !header.contains('.'),
        !payload.contains('.'),
        !signature.contains('.'),
    ensures
        crate::text::pieces(signing_input(header, payload) + "."@ + signature, '.') == seq![
            header,
            payload,
            signature,
        ],
{
    reveal_strlit(".");
    assert("."@ =~= seq!['.']);
    crate::text::lemma_pieces_single(header, '.');
    crate::text::lemma_pieces_push(header, '.', payload);
    let input = signing_input(header, payload);
    assert(header.push('.') + payload =~= input);
    crate::text::lemma_pieces_push(input, '.', signature);
    assert(input.push('.') + signature =~= input + "."@ + signature);
    assert(seq![header].push(payload).push(signature) =~= seq![header, payload, signature]);
}

/// Signs a payload, naming the key `kid` in the header.
///
/// The token is three unpadded segments, and the key's own public point accepts
/// it. It reads as what the parser makes of the payload as it is written; that
/// is the payload itself where it is plain and nests less deeply than the
/// parser's limit.
pub fn sign_jws(payload: &Value, signing_key: &SigningKey, kid: &str) -> (signed: Result<
    String,
    String,
>)
    ensures
        match signed {
            Ok(token) => {
                &&& jws_signed(
                    crate::json::json_content(*payload),
                    signing_key@,
                    kid@,
                ) == Some(token@)
                &&& three_segments(token@)
                &&& crate::base64url::base64url_decoded(
                    crate::text::pieces(token@, '.')[0],
                ) matches Ok(document) && document == vstd::utf8::encode_utf8(
                    crate::json::json_written(jws_header(kid@)),
                )
                &&& reparsed(jws_header(kid@)) matches Ok(header) && header == jws_header(kid@)
                &&& crate::base64url::base64url_decoded(
                    crate::text::pieces(token@, '.')[1],
                ) matches Ok(document) && document == vstd::utf8::encode_utf8(
                    crate::json::json_written(crate::json::json_content(*payload)),
                )
                &&& crate::base64url::base64url_decoded(
                    crate::text::pieces(token@, '.')[2],
                ) matches Ok(signature) && crate::es256::es256_signature(
                    signing_key@,
                    vstd::utf8::encode_utf8(
                        crate::text::pieces(token@, '.')[0] + "."@ + crate::text::pieces(
                            token@,
                            '.',
                        )[1],
                    ),
                ) == Some(signature)
                &&& reads_as_signed(token@, crate::json::json_content(*payload), kid@)
                &&& jws_verdict(
                    token@,
                    crate::es256::es256_public_point(signing_key@),
                ) is Ok
                &&& crate::json::plain(crate::json::json_content(*payload), 127) ==> (
                jws_unverified(token@) matches Ok(jws) && jws.header == jws_header(kid@)
                    && jws.payload == crate::json::json_content(*payload))
            },
            Err(error) => {
                &&& jws_signed(crate::json::json_content(*payload), signing_key@, kid@) is None
                &&& error@ == "signature operation failed"@
            },
        },
{
    let fields: Vec<(String, Value)> = vec![
        ("kid".to_owned(), text_value(kid.to_owned())),
        ("alg".to_owned(), text_value("ES256".to_owned())),
    ];
    let ghost listed = crate::json::named_contents(fields@);
    let header = object_value(fields);
    proof {
        crate::json::lemma_two_members(listed);
        assert(crate::json::json_content(header) == jws_header(kid@));
        assert(crate::json::plain(jws_header(kid@), 127)) by {
            let fields = jws_header(kid@)->Object_0;
            crate::json::lemma_raw_value_name_length();
            reveal_strlit("kid");
            reveal_strlit("alg");
            assert(!fields.contains_key(crate::json::RAW_VALUE_NAME@));
            assert forall|name: Seq<char>| #[trigger]
                fields.contains_key(name) implies crate::json::plain(fields[name], 126) by {}
        }
    }
    let header_segment = encode_segment_json(&header);
    let payload_segment = encode_segment_json(payload);
    let input = header_segment.clone().concat(".").concat(payload_segment.as_str());
    match signing_key.sign(input.as_str().as_bytes()) {
        Some(signature) => {
            let signature_segment = b64_encode(signature.as_slice());
            let token = input.clone().concat(".").concat(signature_segment.as_str());
            proof {
                assert forall|i: int|
                    0 <= i < signature_segment@.len() implies signature_segment@[i] != '.' by {
                    assert(crate::base64url::in_alphabet(signature_segment@[i]));
                }
                lemma_three_segments(header_segment@, payload_segment@, signature_segment@);
            }
            Ok(token)
        },
        None => Err("signature operation failed".to_owned()),
    }
}

} // verus!
