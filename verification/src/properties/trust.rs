//! Laws of token verification: what the whole exchange with the holder and
//! the issuers establishes.

use crate::claims::CredentialClaimsView;
use crate::dcp::DcpConfigView;
use crate::did::DidDocumentView;
use crate::verification::{
    AwaitingIssuerView, CredentialStepView, DidReplyView, PresentationReplyView, ProgressView,
    VerifiedCallerView,
};
use vstd::prelude::*;

verus! {

/// The claims of a presented credential that can be read.
pub open spec fn claims_of(credential: Option<Seq<char>>) -> CredentialClaimsView {
    match credential {
        Some(jws) => match crate::jws::jws_unverified(jws) {
            Ok(vc) => crate::claims::credential_claims(vc.header, vc.payload),
            Err(_) => arbitrary(),
        },
        None => arbitrary(),
    }
}

/// Whether a presented credential can be read, names its issuer and a key,
/// and is signed by that key according to the document that came for its
/// issuer.
pub open spec fn vouched_for(
    credential: Option<Seq<char>>,
    reply: DidReplyView,
    insecure_http: bool,
) -> bool {
    &&& credential matches Some(jws) && crate::jws::jws_unverified(jws) is Ok
    &&& claims_of(credential).iss matches Some(issuer) && crate::did::did_document_url(
        issuer,
        insecure_http,
    ) is Ok
    &&& reply is Document
    &&& claims_of(credential).kid matches Some(kid) && crate::verification::signed_by(
        credential->0,
        reply->Document_0,
        kid,
    ) is Ok
}

/// How many credentials are still to be checked.
pub open spec fn remaining(step: Result<CredentialStepView, Seq<char>>) -> nat {
    match step {
        Ok(CredentialStepView::Resolve(state)) => if state.well_formed() {
            (state.progress.credentials.len() - state.progress.checked) as nat
        } else {
            0
        },
        _ => 0,
    }
}

/// What comes of checking the rest of a presentation's credentials, where
/// `replies` holds for each credential the reply that came for its issuer,
/// and when.
pub open spec fn run(
    step: Result<CredentialStepView, Seq<char>>,
    replies: Seq<(DidReplyView, u64)>,
    insecure_http: bool,
) -> Result<VerifiedCallerView, Seq<char>>
    decreases remaining(step),
{
    match step {
        Err(error) => Err(error),
        Ok(CredentialStepView::Done(caller)) => Ok(caller),
        Ok(CredentialStepView::Resolve(state)) => if state.well_formed() {
            let (reply, now) = replies[state.progress.checked as int];
            run(
                crate::verification::credential_checked(state, reply, now, insecure_http),
                replies,
                insecure_http,
            )
        } else {
            arbitrary()
        },
    }
}

/// Whether credential `i` grants a dataset at the time it was checked.
pub open spec fn grants_at(
    credentials: Seq<Option<Seq<char>>>,
    replies: Seq<(DidReplyView, u64)>,
    i: int,
    id: Seq<char>,
) -> bool {
    crate::verification::grants(claims_of(credentials[i]), replies[i].1).contains(id)
}

/// Whether credential `i` had not expired when it was checked.
pub open spec fn current_at(
    credentials: Seq<Option<Seq<char>>>,
    replies: Seq<(DidReplyView, u64)>,
    i: int,
) -> bool {
    crate::verification::current(claims_of(credentials[i]), replies[i].1)
}

/// Whether every credential from `start` on is vouched for.
pub open spec fn all_vouched_for(
    credentials: Seq<Option<Seq<char>>>,
    replies: Seq<(DidReplyView, u64)>,
    insecure_http: bool,
    start: int,
) -> bool {
    forall|i: int|
        start <= i < credentials.len() ==> vouched_for(
            #[trigger] credentials[i],
            replies[i].0,
            insecure_http,
        )
}

/// Whether some credential from `start` on had not expired.
pub open spec fn some_current(
    credentials: Seq<Option<Seq<char>>>,
    replies: Seq<(DidReplyView, u64)>,
    start: int,
) -> bool {
    exists|i: int| start <= i < credentials.len() && #[trigger] current_at(credentials, replies, i)
}

/// The datasets that the credentials from `start` on grant.
pub open spec fn all_grants(
    credentials: Seq<Option<Seq<char>>>,
    replies: Seq<(DidReplyView, u64)>,
    start: int,
) -> Set<Seq<char>> {
    Set::new(
        |id: Seq<char>|
            exists|i: int|
                start <= i < credentials.len() && #[trigger] grants_at(credentials, replies, i, id),
    )
}

proof fn lemma_grants_from(
    credentials: Seq<Option<Seq<char>>>,
    replies: Seq<(DidReplyView, u64)>,
    start: int,
)
    requires
        0 <= start < credentials.len(),
    ensures
        all_grants(credentials, replies, start) == crate::verification::grants(
            claims_of(credentials[start]),
            replies[start].1,
        ).union(all_grants(credentials, replies, start + 1)),
{
    let first = crate::verification::grants(claims_of(credentials[start]), replies[start].1);
    let all = all_grants(credentials, replies, start);
    let later = all_grants(credentials, replies, start + 1);
    assert forall|id: Seq<char>| #[trigger]
        all.contains(id) <==> first.contains(id) || later.contains(id) by {
        if all.contains(id) {
            let i = choose|i: int|
                start <= i < credentials.len() && #[trigger] grants_at(credentials, replies, i, id);
            assert(i == start || start + 1 <= i);
        }
        if first.contains(id) {
            assert(grants_at(credentials, replies, start, id));
        }
        if later.contains(id) {
            let i = choose|i: int|
                start + 1 <= i < credentials.len() && #[trigger] grants_at(
                    credentials,
                    replies,
                    i,
                    id,
                );
            assert(grants_at(credentials, replies, i, id));
        }
    }
    assert(all =~= first.union(later));
}

proof fn lemma_current_from(
    credentials: Seq<Option<Seq<char>>>,
    replies: Seq<(DidReplyView, u64)>,
    start: int,
)
    requires
        0 <= start < credentials.len(),
    ensures
        some_current(credentials, replies, start) == (current_at(credentials, replies, start)
            || some_current(credentials, replies, start + 1)),
{
    if some_current(credentials, replies, start) {
        let i = choose|i: int|
            start <= i < credentials.len() && #[trigger] current_at(credentials, replies, i);
        assert(i == start || start + 1 <= i);
    }
    if some_current(credentials, replies, start + 1) {
        let i = choose|i: int|
            start + 1 <= i < credentials.len() && #[trigger] current_at(credentials, replies, i);
        assert(current_at(credentials, replies, i));
    }
}

proof fn lemma_run(progress: ProgressView, replies: Seq<(DidReplyView, u64)>, insecure_http: bool)
    requires
        progress.checked <= progress.credentials.len(),
        replies.len() == progress.credentials.len(),
    ensures
        ({
            let start = progress.checked as int;
            let ran = run(
                crate::verification::turned_to_next(progress, insecure_http),
                replies,
                insecure_http,
            );
            if all_vouched_for(progress.credentials, replies, insecure_http, start) {
                ran == crate::verification::concluded(
                    ProgressView {
                        checked: progress.credentials.len(),
                        granted: progress.granted.union(
                            all_grants(progress.credentials, replies, start),
                        ),
                        any_current: progress.any_current || some_current(
                            progress.credentials,
                            replies,
                            start,
                        ),
                        ..progress
                    },
                )
            } else {
                ran is Err
            }
        }),
    decreases progress.credentials.len() - progress.checked,
{
    let credentials = progress.credentials;
    let start = progress.checked as int;
    let step = crate::verification::turned_to_next(progress, insecure_http);
    if start == credentials.len() {
        assert(progress.granted.union(all_grants(credentials, replies, start))
            =~= progress.granted);
    } else {
        let (reply, now) = replies[start];
        let credential = credentials[start];
        let claims = claims_of(credential);
        let later = crate::verification::counted(progress, claims, now);
        lemma_run(later, replies, insecure_http);
        if vouched_for(credential, reply, insecure_http) {
            let url = crate::did::did_document_url(claims.iss->0, insecure_http)->Ok_0;
            let state = AwaitingIssuerView {
                progress,
                jws: credential->0,
                claims,
                issuer_did: claims.iss->0,
                kid: claims.kid->0,
                url,
            };
            assert(step == Ok::<CredentialStepView, Seq<char>>(
                CredentialStepView::Resolve(state),
            ));
            assert(crate::verification::credential_checked(state, reply, now, insecure_http)
                == crate::verification::turned_to_next(later, insecure_http));
            assert(run(step, replies, insecure_http) == run(
                crate::verification::turned_to_next(later, insecure_http),
                replies,
                insecure_http,
            ));
            assert(all_vouched_for(credentials, replies, insecure_http, start)
                == all_vouched_for(credentials, replies, insecure_http, start + 1));
            lemma_grants_from(credentials, replies, start);
            lemma_current_from(credentials, replies, start);
            assert(later.granted.union(all_grants(credentials, replies, start + 1))
                =~= progress.granted.union(all_grants(credentials, replies, start)));
        } else {
            assert(!all_vouched_for(credentials, replies, insecure_http, start));
            reveal_with_fuel(run, 2);
            match step {
                Err(_) => {},
                Ok(CredentialStepView::Resolve(state)) => {
                    assert(crate::verification::credential_checked(
                        state,
                        reply,
                        now,
                        insecure_http,
                    ) is Err);
                },
                Ok(CredentialStepView::Done(_)) => {},
            }
        }
    }
}

/// The credentials of a presentation establish a caller exactly if each of
/// them is vouched for by its own issuer and at least one has not expired.
/// The caller may then see exactly the datasets that some credential grants,
/// a current one of the expected type that names them.
pub proof fn credentials_establish_exactly_what_they_grant(
    holder_did: Seq<char>,
    credentials: Seq<Option<Seq<char>>>,
    replies: Seq<(DidReplyView, u64)>,
    insecure_http: bool,
)
    requires
        replies.len() == credentials.len(),
    ensures
        ({
            let ran = run(
                crate::verification::turned_to_next(
                    crate::verification::started(holder_did, credentials),
                    insecure_http,
                ),
                replies,
                insecure_http,
            );
            &&& ran is Ok <==> {
                &&& all_vouched_for(credentials, replies, insecure_http, 0)
                &&& some_current(credentials, replies, 0)
            }
            &&& ran matches Ok(caller) ==> {
                &&& caller.holder_did == holder_did
                &&& caller.catalog_access == all_grants(credentials, replies, 0)
            }
        }),
{
    let progress = crate::verification::started(holder_did, credentials);
    lemma_run(progress, replies, insecure_http);
    assert(Set::<Seq<char>>::empty().union(all_grants(credentials, replies, 0)) =~= all_grants(
        credentials,
        replies,
        0,
    ));
}

/// A presentation whose credentials are all vouched for, but have all
/// expired, is refused as such: it does not pass for one that grants nothing.
pub proof fn expired_credentials_are_refused(
    holder_did: Seq<char>,
    credentials: Seq<Option<Seq<char>>>,
    replies: Seq<(DidReplyView, u64)>,
    insecure_http: bool,
)
    requires
        replies.len() == credentials.len(),
        all_vouched_for(credentials, replies, insecure_http, 0),
        !some_current(credentials, replies, 0),
    ensures
        run(
            crate::verification::turned_to_next(
                crate::verification::started(holder_did, credentials),
                insecure_http,
            ),
            replies,
            insecure_http,
        ) == Err::<VerifiedCallerView, Seq<char>>("all presented credentials have expired"@),
{
    lemma_run(crate::verification::started(holder_did, credentials), replies, insecure_http);
}

/// Nothing is granted by a credential that has expired or is of another type.
pub proof fn only_current_credentials_of_the_type_grant(
    claims: CredentialClaimsView,
    now: u64,
    id: Seq<char>,
)
    ensures
        crate::verification::grants(claims, now).contains(id) <==> {
            &&& claims.exp matches Some(exp) && exp > now
            &&& claims.types.contains(Some(crate::verification::EXPECTED_CREDENTIAL_TYPE@))
            &&& claims.catalog_access.contains(Some(id))
        },
{
}

/// What comes of a whole verification, given the replies of the other
/// parties and the identifier of the re-packaged token.
pub open spec fn verification(
    token: Seq<char>,
    config: DcpConfigView,
    now: u64,
    jti: Seq<char>,
    holder_reply: DidReplyView,
    presentation_reply: PresentationReplyView,
    replies: Seq<(DidReplyView, u64)>,
) -> Result<VerifiedCallerView, Seq<char>> {
    match crate::verification::begun(token, config.insecure_http) {
        Err(error) => Err(error),
        Ok(begun) => match crate::verification::holder_checked(
            begun,
            holder_reply,
            config,
            now,
            jti,
        ) {
            Err(error) => Err(error),
            Ok(asked) => run(
                crate::verification::presentation_checked(
                    asked,
                    presentation_reply,
                    config.insecure_http,
                ),
                replies,
                config.insecure_http,
            ),
        },
    }
}

/// The holder who issued a token, where one can be read in it.
pub open spec fn holder_of(token: Seq<char>) -> Seq<char> {
    match crate::jws::jws_unverified(token) {
        Ok(jws) => match crate::claims::token_claims(jws.header, jws.payload).iss {
            Some(holder_did) => holder_did,
            None => arbitrary(),
        },
        Err(_) => arbitrary(),
    }
}

/// Whether a token is readable and names its issuer, is signed by the key it
/// names according to the issuer's document, is addressed to this connector,
/// has not expired, and has an access token nested in it.
pub open spec fn proves_identity(
    token: Seq<char>,
    config: DcpConfigView,
    now: u64,
    holder_reply: DidReplyView,
) -> bool {
    &&& crate::jws::jws_unverified(token) matches Ok(jws) && {
        let claims = crate::claims::token_claims(jws.header, jws.payload);
        &&& claims.iss is Some
        &&& crate::did::did_document_url(holder_of(token), config.insecure_http) is Ok
        &&& holder_reply is Document
        &&& claims.kid matches Some(kid) && crate::verification::signed_by(
            token,
            holder_reply->Document_0,
            kid,
        ) is Ok
        &&& match claims.aud {
            Some(aud) => aud == config.own_did,
            None => config.own_did == ""@,
        }
        &&& claims.exp matches Some(exp) && exp > now
        &&& claims.token is Some
    }
}

/// Whether the holder can be asked for a presentation: the re-packaged token
/// can be signed, and the holder's document names a Presentation API.
pub open spec fn can_be_asked(
    token: Seq<char>,
    config: DcpConfigView,
    now: u64,
    jti: Seq<char>,
    holder_doc: DidDocumentView,
) -> bool {
    &&& crate::did::presentation_endpoint(holder_doc) is Ok
    &&& crate::jws::jws_unverified(token) matches Ok(jws) && {
        let claims = crate::claims::token_claims(jws.header, jws.payload);
        crate::jws::jws_signed(
            crate::verification::repackaged_payload(
                config.own_did,
                holder_of(token),
                claims.token->0,
                now,
                jti,
            ),
            config.signing_key_bytes,
            config.own_key_id,
        ) is Some
    }
}

/// The credentials in the presentation that a reply brings, where one can be
/// read in it.
pub open spec fn credentials_in(reply: PresentationReplyView) -> Seq<Option<Seq<char>>> {
    match reply {
        PresentationReplyView::Presentations(list) => if list.len() == 0 {
            Seq::empty()
        } else {
            match crate::jws::jws_unverified(list[0]) {
                Ok(jws) => crate::claims::presentation_claims(
                    jws.header,
                    jws.payload,
                ).credentials,
                Err(_) => Seq::empty(),
            }
        },
        _ => Seq::empty(),
    }
}

/// Whether a reply brings a readable presentation of one or more credentials
/// that is signed by the key it names according to the holder's document.
pub open spec fn presents(reply: PresentationReplyView, holder_doc: DidDocumentView) -> bool {
    &&& reply matches PresentationReplyView::Presentations(list) && list.len() > 0 && (
    crate::jws::jws_unverified(list[0]) matches Ok(jws) && {
        let claims = crate::claims::presentation_claims(jws.header, jws.payload);
        claims.kid matches Some(kid) && crate::verification::signed_by(
            list[0],
            holder_doc,
            kid,
        ) is Ok
    })
    &&& credentials_in(reply).len() > 0
}

/// A verification succeeds exactly if the token proves its issuer's identity
/// to this connector, that holder could be asked for a presentation and
/// signed the one that came, every credential in it is vouched for by its own
/// issuer, and one at least has not expired. The caller is then the holder,
/// and may see exactly what the credentials grant.
pub proof fn verified_callers_are_entitled(
    token: Seq<char>,
    config: DcpConfigView,
    now: u64,
    jti: Seq<char>,
    holder_reply: DidReplyView,
    presentation_reply: PresentationReplyView,
    replies: Seq<(DidReplyView, u64)>,
)
    requires
        replies.len() == credentials_in(presentation_reply).len(),
    ensures
        ({
            let credentials = credentials_in(presentation_reply);
            let outcome = verification(
                token,
                config,
                now,
                jti,
                holder_reply,
                presentation_reply,
                replies,
            );
            &&& outcome is Ok <==> {
                &&& proves_identity(token, config, now, holder_reply)
                &&& can_be_asked(token, config, now, jti, holder_reply->Document_0)
                &&& presents(presentation_reply, holder_reply->Document_0)
                &&& all_vouched_for(credentials, replies, config.insecure_http, 0)
                &&& some_current(credentials, replies, 0)
            }
            &&& outcome matches Ok(caller) ==> {
                &&& caller.holder_did == holder_of(token)
                &&& caller.catalog_access == all_grants(credentials, replies, 0)
            }
        }),
{
    credentials_establish_exactly_what_they_grant(
        holder_of(token),
        credentials_in(presentation_reply),
        replies,
        config.insecure_http,
    );
}

} // verus!
