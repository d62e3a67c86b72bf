//! The claims that verification reads out of tokens, as plain values.

use crate::json::{json_items, json_member, json_text, json_unsigned, JsonContent};
use serde_json::Value;
use vstd::prelude::*;

verus! {

/// The member of this name, if there is a value and it is an object that has
/// one.
pub open spec fn member(content: Option<JsonContent>, name: Seq<char>) -> Option<JsonContent> {
    match content {
        Some(JsonContent::Object(fields)) => if fields.contains_key(name) {
            Some(fields[name])
        } else {
            None
        },
        _ => None,
    }
}

/// The text, if there is a value and it is one.
pub open spec fn text(content: Option<JsonContent>) -> Option<Seq<char>> {
    match content {
        Some(JsonContent::Text(text)) => Some(text),
        _ => None,
    }
}

/// The number, if there is a value and it is an unsigned integer.
pub open spec fn unsigned(content: Option<JsonContent>) -> Option<u64> {
    match content {
        Some(JsonContent::Unsigned(number)) => Some(number),
        _ => None,
    }
}

/// The items of an array, each with its text if it is one. What is no array
/// has no items.
pub open spec fn text_items(content: Option<JsonContent>) -> Seq<Option<Seq<char>>> {
    match content {
        Some(JsonContent::Array(items)) => items.map_values(|item: JsonContent| text(Some(item))),
        _ => Seq::empty(),
    }
}

/// What an optional value holds.
pub open spec fn optional_content(value: Option<&Value>) -> Option<JsonContent> {
    match value {
        Some(value) => Some(crate::json::json_content(*value)),
        None => None,
    }
}

/// The texts of a list of optional texts.
pub open spec fn optional_texts(list: Seq<Option<String>>) -> Seq<Option<Seq<char>>> {
    list.map_values(|item: Option<String>| crate::catalog::optional_text(item))
}

fn read_member<'a>(value: Option<&'a Value>, name: &str) -> (found: Option<&'a Value>)
    ensures
        optional_content(found) == member(optional_content(value), name@),
{
    match value {
        Some(value) => json_member(value, name),
        None => None,
    }
}

fn read_text(value: Option<&Value>) -> (found: Option<String>)
    ensures
        crate::catalog::optional_text(found) == text(optional_content(value)),
{
    match value {
        Some(value) => match json_text(value) {
            Some(text) => Some(text.to_owned()),
            None => None,
        },
        None => None,
    }
}

fn read_unsigned(value: Option<&Value>) -> (found: Option<u64>)
    ensures
        found == unsigned(optional_content(value)),
{
    match value {
        Some(value) => json_unsigned(value),
        None => None,
    }
}

fn read_text_items(value: Option<&Value>) -> (found: Vec<Option<String>>)
    ensures
        optional_texts(found@) == text_items(optional_content(value)),
{
    let mut found: Vec<Option<String>> = Vec::new();
    let items = match value {
        Some(value) => json_items(value),
        None => None,
    };
    match items {
        Some(items) => {
            let mut i: usize = 0;
            let ghost all = text_items(optional_content(value));
            while i < items.len()
                invariant
                    i <= items.len(),
                    all.len() == items.len(),
                    forall|j: int|
                        0 <= j < items.len() ==> #[trigger] all[j] == text(
                            Some(crate::json::json_content(items@[j])),
                        ),
                    optional_texts(found@) == all.take(i as int),
                decreases items.len() - i,
            {
                let ghost before = optional_texts(found@);
                let item = read_text(Some(&items[i]));
                found.push(item);
                assert(optional_texts(found@) =~= before.push(
                    crate::catalog::optional_text(item),
                ));
                assert(all.take(i + 1) =~= all.take(i as int).push(all[i as int]));
                i += 1;
            }
            assert(all.take(all.len() as int) =~= all);
        },
        None => {
            assert(optional_texts(found@) =~= Seq::<Option<Seq<char>>>::empty());
        },
    }
    found
}

/// The claims of a self-issued token.
pub struct TokenClaims {
    pub kid: Option<String>,
    pub iss: Option<String>,
    pub aud: Option<String>,
    pub exp: Option<u64>,
    pub token: Option<String>,
}

/// What [`TokenClaims`] say.
pub struct TokenClaimsView {
    pub kid: Option<Seq<char>>,
    pub iss: Option<Seq<char>>,
    pub aud: Option<Seq<char>>,
    pub exp: Option<u64>,
    pub token: Option<Seq<char>>,
}

impl View for TokenClaims {
    type V = TokenClaimsView;

    open spec fn view(&self) -> TokenClaimsView {
        TokenClaimsView {
            kid: crate::catalog::optional_text(self.kid),
            iss: crate::catalog::optional_text(self.iss),
            aud: crate::catalog::optional_text(self.aud),
            exp: self.exp,
            token: crate::catalog::optional_text(self.token),
        }
    }
}

/// The claims in the header and payload of a self-issued token.
pub open spec fn token_claims(header: JsonContent, payload: JsonContent) -> TokenClaimsView {
    TokenClaimsView {
        kid: text(member(Some(header), "kid"@)),
        iss: text(member(Some(payload), "iss"@)),
        aud: text(member(Some(payload), "aud"@)),
        exp: unsigned(member(Some(payload), "exp"@)),
        token: text(member(Some(payload), "token"@)),
    }
}

impl TokenClaims {
    /// Reads the claims of a self-issued token.
    pub fn read(header: &Value, payload: &Value) -> (claims: TokenClaims)
        ensures
            claims@ == token_claims(
                crate::json::json_content(*header),
                crate::json::json_content(*payload),
            ),
    {
        TokenClaims {
            kid: read_text(read_member(Some(header), "kid")),
            iss: read_text(read_member(Some(payload), "iss")),
            aud: read_text(read_member(Some(payload), "aud")),
            exp: read_unsigned(read_member(Some(payload), "exp")),
            token: read_text(read_member(Some(payload), "token")),
        }
    }
}

/// The claims of a verifiable presentation.
pub struct PresentationClaims {
    pub kid: Option<String>,
    /// The embedded credentials; an entry that is no text is `None`.
    pub credentials: Vec<Option<String>>,
}

/// What [`PresentationClaims`] say.
pub struct PresentationClaimsView {
    pub kid: Option<Seq<char>>,
    pub credentials: Seq<Option<Seq<char>>>,
}

impl View for PresentationClaims {
    type V = PresentationClaimsView;

    open spec fn view(&self) -> PresentationClaimsView {
        PresentationClaimsView {
            kid: crate::catalog::optional_text(self.kid),
            credentials: optional_texts(self.credentials@),
        }
    }
}

/// The claims in the header and payload of a verifiable presentation.
pub open spec fn presentation_claims(
    header: JsonContent,
    payload: JsonContent,
) -> PresentationClaimsView {
    PresentationClaimsView {
        kid: text(member(Some(header), "kid"@)),
        credentials: text_items(member(member(Some(payload), "vp"@), "verifiableCredential"@)),
    }
}

impl PresentationClaims {
    /// Reads the claims of a verifiable presentation.
    pub fn read(header: &Value, payload: &Value) -> (claims: PresentationClaims)
        ensures
            claims@ == presentation_claims(
                crate::json::json_content(*header),
                crate::json::json_content(*payload),
            ),
    {
        let presentation = read_member(Some(payload), "vp");
        PresentationClaims {
            kid: read_text(read_member(Some(header), "kid")),
            credentials: read_text_items(read_member(presentation, "verifiableCredential")),
        }
    }
}

/// The claims of a verifiable credential.
pub struct CredentialClaims {
    pub kid: Option<String>,
    pub iss: Option<String>,
    pub exp: Option<u64>,
    /// The credential's types; an entry that is no text is `None`.
    pub types: Vec<Option<String>>,
    /// The datasets it grants; an entry that is no text is `None`.
    pub catalog_access: Vec<Option<String>>,
}

/// What [`CredentialClaims`] say.
pub struct CredentialClaimsView {
    pub kid: Option<Seq<char>>,
    pub iss: Option<Seq<char>>,
    pub exp: Option<u64>,
    pub types: Seq<Option<Seq<char>>>,
    pub catalog_access: Seq<Option<Seq<char>>>,
}

impl View for CredentialClaims {
    type V = CredentialClaimsView;

    open spec fn view(&self) -> CredentialClaimsView {
        CredentialClaimsView {
            kid: crate::catalog::optional_text(self.kid),
            iss: crate::catalog::optional_text(self.iss),
            exp: self.exp,
            types: optional_texts(self.types@),
            catalog_access: optional_texts(self.catalog_access@),
        }
    }
}

/// The claims in the header and payload of a verifiable credential.
pub open spec fn credential_claims(
    header: JsonContent,
    payload: JsonContent,
) -> CredentialClaimsView {
    let body = member(Some(payload), "vc"@);
    CredentialClaimsView {
        kid: text(member(Some(header), "kid"@)),
        iss: text(member(Some(payload), "iss"@)),
        exp: unsigned(member(Some(payload), "exp"@)),
        types: text_items(member(body, "type"@)),
        catalog_access: text_items(
            member(member(body, "credentialSubject"@), "catalogAccess"@),
        ),
    }
}

impl CredentialClaims {
    /// Reads the claims of a verifiable credential.
    pub fn read(header: &Value, payload: &Value) -> (claims: CredentialClaims)
        ensures
            claims@ == credential_claims(
                crate::json::json_content(*header),
                crate::json::json_content(*payload),
            ),
    {
        let body = read_member(Some(payload), "vc");
        let subject = read_member(body, "credentialSubject");
        CredentialClaims {
            kid: read_text(read_member(Some(header), "kid")),
            iss: read_text(read_member(Some(payload), "iss")),
            exp: read_unsigned(read_member(Some(payload), "exp")),
            types: read_text_items(read_member(body, "type")),
            catalog_access: read_text_items(read_member(subject, "catalogAccess")),
        }
    }
}

} // verus!
