//! Laws of tokens and of the claims in them, stated on the segments of a token
//! and on the members of the JSON values in it.

use crate::base64url::b64_decode;
use crate::claims::{CredentialClaims, PresentationClaims, TokenClaims};
use crate::es256::{SigningKey, VerifyingKey};
use crate::json::JsonContent;
use crate::jws::{decode_jws_unverified, sign_jws, verify_jws_signature};
use serde_json::Value;
use vstd::prelude::*;

verus! {

/// Whether the key at a point accepts a token: the token's third segment is a
/// signature of its first two as they are written, with the dot between them.
pub open spec fn accepted_at(token: Seq<char>, x: Seq<u8>, y: Seq<u8>) -> bool {
    let segments = crate::text::pieces(token, '.');
    &&& segments.len() >= 3
    &&& crate::base64url::base64url_decoded(segments[2]) matches Ok(signature)
        && crate::es256::valid_signature(signature) && crate::es256::es256_accepts(
        x,
        y,
        vstd::utf8::encode_utf8(segments[0] + seq!['.'] + segments[1]),
        signature,
    )
}

/// Why a token without three segments, or whose third segment is no signature,
/// is refused.
pub open spec fn refusal(token: Seq<char>) -> Seq<char> {
    let segments = crate::text::pieces(token, '.');
    if segments.len() < 2 {
        "missing JWS payload"@
    } else if segments.len() < 3 {
        "missing JWS signature"@
    } else {
        match crate::base64url::base64url_decoded(segments[2]) {
            Err(error) => "invalid base64url: "@ + error,
            Ok(signature) => if crate::es256::valid_signature(signature) {
                "signature verification failed: signature error"@
            } else {
                "malformed signature: signature error"@
            },
        }
    }
}

pub(crate) proof fn lemma_verdict(token: Seq<char>, key: (Seq<u8>, Seq<u8>))
    ensures
        match crate::jws::jws_verdict(token, key) {
            Ok(_) => accepted_at(token, key.0, key.1),
            Err(error) => !accepted_at(token, key.0, key.1) && error == refusal(token),
        },
{
    reveal_strlit(".");
    assert("."@ =~= seq!['.']);
    reveal_strlit("malformed signature: ");
    reveal_strlit("signature verification failed: ");
    reveal_strlit("signature error");
    reveal_strlit("malformed signature: signature error");
    reveal_strlit("signature verification failed: signature error");
    assert("malformed signature: "@ + "signature error"@
        =~= "malformed signature: signature error"@);
    assert("signature verification failed: "@ + "signature error"@
        =~= "signature verification failed: signature error"@);
}

/// A key accepts a token exactly if the token's third segment is a signature
/// that the key accepts of the first two segments as they are written, with
/// the dot between them; else the refusal says what is wrong.
pub proof fn signature_covers_header_and_payload(
    token: &str,
    key: &VerifyingKey,
    checked: Result<(), String>,
)
    requires
        call_ensures(verify_jws_signature, (token, key), checked),
    ensures
        match checked {
            Ok(_) => accepted_at(token@, key@.0, key@.1),
            Err(error) => !accepted_at(token@, key@.0, key@.1) && error@ == refusal(token@),
        },
{
    lemma_verdict(token@, key@);
}

/// The text of a JSON document in a segment decodes to a value that has a
/// member of this name with this value.
pub open spec fn has_member(content: JsonContent, name: Seq<char>, value: JsonContent) -> bool {
    content matches JsonContent::Object(fields) && fields.contains_key(name) && fields[name]
        == value
}

/// Whether an object has no other members than these.
pub open spec fn has_only(content: JsonContent, names: Set<Seq<char>>) -> bool {
    content matches JsonContent::Object(fields) && fields.dom() == names
}

/// The JSON value that a segment stands for, if it stands for one.
pub open spec fn value_in(segment: Seq<char>) -> Option<JsonContent> {
    match crate::base64url::base64url_decoded(segment) {
        Ok(document) => match crate::json::json_parsed(document) {
            Ok(content) => Some(content),
            Err(_) => None,
        },
        Err(_) => None,
    }
}

/// A token that was made is three segments. The first stands for a header that
/// names the key and the scheme and nothing else; the second for the payload
/// as it is written; the third for the key's signature of the first two as
/// they are written, with the dot between them, which the key's own public
/// point accepts.
pub proof fn made_tokens_are_signed_over_header_and_payload(
    payload: &Value,
    key: &SigningKey,
    kid: &str,
    token: String,
)
    requires
        call_ensures(sign_jws, (payload, key, kid), Ok(token)),
    ensures
        ({
            let segments = crate::text::pieces(token@, '.');
            let covered = vstd::utf8::encode_utf8(segments[0] + seq!['.'] + segments[1]);
            let point = crate::es256::es256_public_point(key@);
            &&& segments.len() == 3
            &&& value_in(segments[0]) matches Some(header) && {
                &&& has_only(header, set!["kid"@, "alg"@])
                &&& has_member(header, "kid"@, JsonContent::Text(kid@))
                &&& has_member(header, "alg"@, JsonContent::Text("ES256"@))
            }
            &&& crate::base64url::base64url_decoded(segments[1]) matches Ok(document) && document
                == vstd::utf8::encode_utf8(
                crate::json::json_written(crate::json::json_content(*payload)),
            )
            &&& crate::base64url::base64url_decoded(segments[2]) matches Ok(signature)
                && crate::es256::es256_signature(key@, covered) == Some(signature)
            &&& accepted_at(token@, point.0, point.1)
        }),
{
    lemma_verdict(token@, crate::es256::es256_public_point(key@));
    reveal_strlit(".");
    assert("."@ =~= seq!['.']);
    reveal_strlit("kid");
    reveal_strlit("alg");
    assert("kid"@[0] != "alg"@[0]);
    let header = value_in(crate::text::pieces(token@, '.')[0])->0;
    assert(header->Object_0.dom() =~= set!["kid"@, "alg"@]);
}

/// The document that a JSON value is written as, as bytes.
pub open spec fn written(content: JsonContent) -> Seq<u8> {
    vstd::utf8::encode_utf8(crate::json::json_written(content))
}

/// A token cannot be made only where the key makes no signature of what it
/// would cover, and the error says so.
pub proof fn tokens_are_refused_only_without_a_signature(
    payload: &Value,
    key: &SigningKey,
    kid: &str,
    error: String,
)
    requires
        call_ensures(sign_jws, (payload, key, kid), Err(error)),
    ensures
        error@ == "signature operation failed"@,
        crate::es256::es256_signature(
            key@,
            vstd::utf8::encode_utf8(
                crate::base64url::base64url(
                    written(
                        JsonContent::Object(
                            map![
                                "kid"@ => JsonContent::Text(kid@),
                                "alg"@ => JsonContent::Text("ES256"@),
                            ],
                        ),
                    ),
                ) + seq!['.'] + crate::base64url::base64url(
                    written(crate::json::json_content(*payload)),
                ),
            ),
        ) is None,
{
    reveal_strlit(".");
    assert("."@ =~= seq!['.']);
}

/// What reads back of a token that was made is the payload itself, where it
/// holds texts, truth values, nulls and integers, in arrays and objects nested
/// no deeper than the parser goes.
pub proof fn made_tokens_read_back(
    payload: &Value,
    key: &SigningKey,
    kid: &str,
    token: String,
    read_from: &str,
    decoded: Result<(String, Value, Value), String>,
)
    requires
        call_ensures(sign_jws, (payload, key, kid), Ok(token)),
        crate::json::plain(crate::json::json_content(*payload), 127),
        read_from@ == token@,
        call_ensures(decode_jws_unverified, (read_from,), decoded),
    ensures
        decoded matches Ok(parts) && {
            &&& crate::json::json_content(parts.2) == crate::json::json_content(*payload)
            &&& has_member(
                crate::json::json_content(parts.1),
                "kid"@,
                JsonContent::Text(kid@),
            )
        },
{
    reveal_strlit("kid");
    reveal_strlit("alg");
    assert("kid"@[0] != "alg"@[0]);
}

/// What reads back: nulls, truth values, texts and integers; arrays of what
/// reads back; and objects of what reads back, unless the least of their names
/// is the mark for raw JSON.
pub proof fn what_reads_back(content: JsonContent, depth: nat)
    ensures
        content is Null || content is Bool || content is Text || content is Unsigned
            || content is Negative ==> crate::json::plain(content, depth),
        content matches JsonContent::Array(items) ==> ((forall|i: int|
            0 <= i < items.len() ==> crate::json::plain(#[trigger] items[i], depth))
            ==> crate::json::plain(content, depth + 1)),
        content matches JsonContent::Object(fields) ==> ((forall|name: Seq<char>| #[trigger]
            fields.contains_key(name) ==> crate::json::plain(fields[name], depth)) && (
        exists|name: Seq<char>| #[trigger]
            fields.contains_key(name) && !crate::properties::texts::ascending(
                "$serde_json::private::RawValue"@,
                name,
            )) ==> crate::json::plain(content, depth + 1)),
        content matches JsonContent::Object(fields) ==> ((forall|name: Seq<char>| #[trigger]
            fields.contains_key(name) ==> crate::json::plain(fields[name], depth))
            && !fields.contains_key("$serde_json::private::RawValue"@)
            ==> crate::json::plain(content, depth + 1)),
{
    if let JsonContent::Object(fields) = content {
        assert forall|name: Seq<char>| #[trigger] fields.contains_key(name) implies (
        crate::text::text_le("$serde_json::private::RawValue"@, name)
            == crate::properties::texts::ascending("$serde_json::private::RawValue"@, name)) by {
            crate::properties::texts::text_order_is_decided_by_the_first_difference(
                "$serde_json::private::RawValue"@,
                name,
            );
        }
    }
}

/// A segment decodes to its bytes, or the error names the decoder's.
pub proof fn segments_decode_to_their_bytes(segment: &str, decoded: Result<Vec<u8>, String>)
    requires
        call_ensures(b64_decode, (segment,), decoded),
    ensures
        match decoded {
            Ok(data) => crate::base64url::base64url_decoded(segment@) matches Ok(bytes) && bytes
                == data@,
            Err(error) => crate::base64url::base64url_decoded(segment@) matches Err(text)
                && error@ == "invalid base64url: "@ + text,
        },
{
}

/// A token is read exactly if it is three segments of which the first two
/// stand for JSON values. What is read is those two values, and what the
/// signature covers: the two segments as they are written, with the dot
/// between them.
pub proof fn tokens_are_read_segment_by_segment(
    token: &str,
    decoded: Result<(String, Value, Value), String>,
)
    requires
        call_ensures(decode_jws_unverified, (token,), decoded),
    ensures
        ({
            let segments = crate::text::pieces(token@, '.');
            match decoded {
                Ok(parts) => {
                    &&& segments.len() == 3
                    &&& parts.0@ == segments[0] + seq!['.'] + segments[1]
                    &&& value_in(segments[0]) == Some(crate::json::json_content(parts.1))
                    &&& value_in(segments[1]) == Some(crate::json::json_content(parts.2))
                },
                Err(error) => if segments.len() < 2 {
                    error@ == "missing JWS payload"@
                } else if segments.len() < 3 {
                    error@ == "missing JWS signature"@
                } else if segments.len() > 3 {
                    error@ == "JWS has more than 3 segments"@
                } else if value_in(segments[0]) is None {
                    error@ == unread(segments[0])
                } else {
                    value_in(segments[1]) is None && error@ == unread(segments[1])
                },
            }
        }),
{
    reveal_strlit(".");
    assert("."@ =~= seq!['.']);
}

/// Why a token cannot be read, if it cannot.
pub open spec fn unreadable(token: Seq<char>) -> Option<Seq<char>> {
    let segments = crate::text::pieces(token, '.');
    if segments.len() < 2 {
        Some("missing JWS payload"@)
    } else if segments.len() < 3 {
        Some("missing JWS signature"@)
    } else if segments.len() > 3 {
        Some("JWS has more than 3 segments"@)
    } else if value_in(segments[0]) is None {
        Some(unread(segments[0]))
    } else if value_in(segments[1]) is None {
        Some(unread(segments[1]))
    } else {
        None
    }
}

/// The header of a token that can be read.
pub open spec fn header_in(token: Seq<char>) -> JsonContent {
    value_in(crate::text::pieces(token, '.')[0])->0
}

/// The payload of a token that can be read.
pub open spec fn payload_in(token: Seq<char>) -> JsonContent {
    value_in(crate::text::pieces(token, '.')[1])->0
}

pub(crate) proof fn lemma_readable(token: Seq<char>)
    ensures
        match crate::jws::jws_unverified(token) {
            Ok(jws) => {
                &&& unreadable(token) is None
                &&& crate::text::pieces(token, '.').len() == 3
                &&& jws.header == header_in(token)
                &&& jws.payload == payload_in(token)
            },
            Err(error) => unreadable(token) == Some(error),
        },
{
}

/// Why a segment stands for no JSON value.
pub open spec fn unread(segment: Seq<char>) -> Seq<char> {
    match crate::base64url::base64url_decoded(segment) {
        Err(error) => "invalid base64url: "@ + error,
        Ok(document) => match crate::json::json_parsed(document) {
            Err(error) => error,
            Ok(_) => arbitrary(),
        },
    }
}

/// Whether a claim is the text that the member of this name holds; there is
/// none exactly where that member holds no text.
pub open spec fn is_text_member(
    claim: Option<String>,
    content: JsonContent,
    name: Seq<char>,
) -> bool {
    match claim {
        Some(text) => has_member(content, name, JsonContent::Text(text@)),
        None => forall|text: Seq<char>| !#[trigger] has_member(
            content,
            name,
            JsonContent::Text(text),
        ),
    }
}

/// Whether a claim is the number that the member of this name holds; there is
/// none exactly where that member holds no unsigned integer.
pub open spec fn is_number_member(
    claim: Option<u64>,
    content: JsonContent,
    name: Seq<char>,
) -> bool {
    match claim {
        Some(number) => has_member(content, name, JsonContent::Unsigned(number)),
        None => forall|number: u64| !#[trigger] has_member(
            content,
            name,
            JsonContent::Unsigned(number),
        ),
    }
}

/// The value of the member of this name, if there is an object that has one.
pub open spec fn within(content: Option<JsonContent>, name: Seq<char>) -> Option<JsonContent> {
    match content {
        Some(JsonContent::Object(fields)) => if fields.contains_key(name) {
            Some(fields[name])
        } else {
            None
        },
        _ => None,
    }
}

/// Whether a list has an entry for each item of an array: the item's text, or
/// none exactly where the item is no text. Where there is no array it is empty.
pub open spec fn is_every_item(list: Seq<Option<String>>, value: Option<JsonContent>) -> bool {
    match value {
        Some(JsonContent::Array(items)) => {
            &&& list.len() == items.len()
            &&& forall|i: int|
                0 <= i < items.len() ==> match #[trigger] list[i] {
                    Some(text) => items[i] == JsonContent::Text(text@),
                    None => !(items[i] is Text),
                }
        },
        _ => list.len() == 0,
    }
}

/// The claims of a self-issued token are the members of those names: the key
/// in the header, the others in the payload.
pub proof fn token_claims_are_the_members(header: &Value, payload: &Value, claims: TokenClaims)
    requires
        call_ensures(TokenClaims::read, (header, payload), claims),
    ensures
        is_text_member(claims.kid, crate::json::json_content(*header), "kid"@),
        is_text_member(claims.iss, crate::json::json_content(*payload), "iss"@),
        is_text_member(claims.aud, crate::json::json_content(*payload), "aud"@),
        is_number_member(claims.exp, crate::json::json_content(*payload), "exp"@),
        is_text_member(claims.token, crate::json::json_content(*payload), "token"@),
{
    lemma_token_claims(
        claims,
        crate::json::json_content(*header),
        crate::json::json_content(*payload),
    );
}

pub(crate) proof fn lemma_token_claims(
    claims: TokenClaims,
    header: JsonContent,
    payload: JsonContent,
)
    requires
        claims@ == crate::claims::token_claims(header, payload),
    ensures
        is_text_member(claims.kid, header, "kid"@),
        is_text_member(claims.iss, payload, "iss"@),
        is_text_member(claims.aud, payload, "aud"@),
        is_number_member(claims.exp, payload, "exp"@),
        is_text_member(claims.token, payload, "token"@),
{
}

/// The claims of a presentation are the key named in the header, and every
/// item of the array `vp.verifiableCredential` in the payload.
pub proof fn presentation_claims_are_the_members(
    header: &Value,
    payload: &Value,
    claims: PresentationClaims,
)
    requires
        call_ensures(PresentationClaims::read, (header, payload), claims),
    ensures
        is_text_member(claims.kid, crate::json::json_content(*header), "kid"@),
        is_every_item(
            claims.credentials@,
            within(
                within(Some(crate::json::json_content(*payload)), "vp"@),
                "verifiableCredential"@,
            ),
        ),
{
    let content = crate::json::json_content(*payload);
    assert(claims@ == crate::claims::presentation_claims(
        crate::json::json_content(*header),
        content,
    ));
    lemma_every_item(
        claims.credentials@,
        within(within(Some(content), "vp"@), "verifiableCredential"@),
    );
}

pub(crate) proof fn lemma_every_item(list: Seq<Option<String>>, value: Option<JsonContent>)
    requires
        crate::claims::optional_texts(list) == crate::claims::text_items(value),
    ensures
        is_every_item(list, value),
{
    assert(crate::claims::optional_texts(list).len() == list.len());
    if let Some(JsonContent::Array(items)) = value {
        assert forall|i: int| 0 <= i < items.len() implies match #[trigger] list[i] {
            Some(text) => items[i] == JsonContent::Text(text@),
            None => !(items[i] is Text),
        } by {
            assert(crate::claims::optional_texts(list)[i] == crate::claims::text_items(value)[i]);
        }
    }
}

/// The claims of a credential are the key named in the header, issuer and
/// expiry in the payload, and every item of the arrays `vc.type` and
/// `vc.credentialSubject.catalogAccess` there.
pub proof fn credential_claims_are_the_members(
    header: &Value,
    payload: &Value,
    claims: CredentialClaims,
)
    requires
        call_ensures(CredentialClaims::read, (header, payload), claims),
    ensures
        is_text_member(claims.kid, crate::json::json_content(*header), "kid"@),
        is_text_member(claims.iss, crate::json::json_content(*payload), "iss"@),
        is_number_member(claims.exp, crate::json::json_content(*payload), "exp"@),
        is_every_item(
            claims.types@,
            within(within(Some(crate::json::json_content(*payload)), "vc"@), "type"@),
        ),
        is_every_item(
            claims.catalog_access@,
            within(
                within(
                    within(Some(crate::json::json_content(*payload)), "vc"@),
                    "credentialSubject"@,
                ),
                "catalogAccess"@,
            ),
        ),
{
    lemma_credential_claims(
        claims,
        crate::json::json_content(*header),
        crate::json::json_content(*payload),
    );
}

pub(crate) proof fn lemma_credential_claims(
    claims: CredentialClaims,
    header: JsonContent,
    payload: JsonContent,
)
    requires
        claims@ == crate::claims::credential_claims(header, payload),
    ensures
        is_text_member(claims.kid, header, "kid"@),
        is_text_member(claims.iss, payload, "iss"@),
        is_number_member(claims.exp, payload, "exp"@),
        is_every_item(claims.types@, within(within(Some(payload), "vc"@), "type"@)),
        is_every_item(
            claims.catalog_access@,
            within(
                within(within(Some(payload), "vc"@), "credentialSubject"@),
                "catalogAccess"@,
            ),
        ),
{
    let body = within(Some(payload), "vc"@);
    lemma_every_item(claims.types@, within(body, "type"@));
    lemma_every_item(
        claims.catalog_access@,
        within(within(body, "credentialSubject"@), "catalogAccess"@),
    );
}

} // verus!
