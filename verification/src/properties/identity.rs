//! Laws of identifiers: where a `did:web` identifier's document is found.

use crate::did::{did_web_to_url, urlencoding_decode};
use vstd::prelude::*;

verus! {

/// Only `did:web` identifiers have a place, which is always a `did.json`
/// under the scheme asked for.
pub proof fn documents_are_at_did_json(did: Seq<char>, insecure_http: bool)
    ensures
        crate::did::did_document_url(did, insecure_http) is Ok <==> crate::text::after_prefix(
            did,
            "did:web:"@,
        ) is Some,
        crate::did::did_document_url(did, insecure_http) matches Ok(url) ==> {
            &&& crate::text::after_prefix(
                url,
                if insecure_http {
                    "http://"@
                } else {
                    "https://"@
                },
            ) is Some
            &&& url.len() >= "/did.json"@.len()
            &&& url.skip(url.len() - "/did.json"@.len()) == "/did.json"@
        },
{
    reveal_strlit("did:web:");
    reveal_strlit("http");
    reveal_strlit("https");
    reveal_strlit("://");
    reveal_strlit("http://");
    reveal_strlit("https://");
    reveal_strlit("/did.json");
    reveal_strlit("/.well-known/did.json");
    if let Ok(url) = crate::did::did_document_url(did, insecure_http) {
        let prefix = if insecure_http {
            "http://"@
        } else {
            "https://"@
        };
        assert(url.take(prefix.len() as int) =~= prefix);
        assert(url.skip(url.len() - 9) =~= "/did.json"@);
    }
}

proof fn lemma_pieces_of_joined(segments: Seq<Seq<char>>)
    requires
        segments.len() > 0,
        forall|i: int| 0 <= i < segments.len() ==> !(#[trigger] segments[i]).contains(':'),
    ensures
        crate::text::pieces(crate::text::joined(segments, ":"@), ':') == segments,
    decreases segments.len(),
{
    reveal_strlit(":");
    if segments.len() == 1 {
        assert(!segments[0].contains(':'));
        crate::text::lemma_pieces_single(segments[0], ':');
        assert(seq![segments[0]] =~= segments);
    } else {
        let shorter = segments.drop_last();
        assert forall|i: int| 0 <= i < shorter.len() implies !(
        #[trigger] shorter[i]).contains(':') by {
            assert(!segments[i].contains(':'));
        }
        assert(!segments[segments.len() - 1].contains(':'));
        lemma_pieces_of_joined(shorter);
        let head = crate::text::joined(shorter, ":"@);
        crate::text::lemma_pieces_push(head, ':', segments.last());
        assert(head.push(':') + segments.last() =~= crate::text::joined(segments, ":"@));
        assert(shorter.push(segments.last()) =~= segments);
    }
}

/// The identifier `did:web:<host>` has its document at the host's well-known
/// place, and `did:web:<host>:<path segments>` in the directory that the path
/// segments name; encoded colons are written out in each segment.
pub proof fn did_web_names_its_document(segments: Seq<Seq<char>>, insecure_http: bool)
    requires
        segments.len() > 0,
        forall|i: int| 0 <= i < segments.len() ==> !(#[trigger] segments[i]).contains(':'),
    ensures
        ({
            let scheme = if insecure_http {
                "http"@
            } else {
                "https"@
            };
            let host = crate::did::colons_decoded(segments[0]);
            let path = segments.skip(1).map_values(
                |segment: Seq<char>| crate::did::colons_decoded(segment),
            );
            crate::did::did_document_url(
                "did:web:"@ + crate::text::joined(segments, ":"@),
                insecure_http,
            ) == Ok::<Seq<char>, Seq<char>>(
                if segments.len() == 1 {
                    scheme + "://"@ + host + "/.well-known/did.json"@
                } else {
                    scheme + "://"@ + host + "/"@ + crate::text::joined(path, "/"@)
                        + "/did.json"@
                },
            )
        }),
{
    let rest = crate::text::joined(segments, ":"@);
    let did = "did:web:"@ + rest;
    assert(did.take("did:web:"@.len() as int) =~= "did:web:"@);
    assert(did.skip("did:web:"@.len() as int) =~= rest);
    lemma_pieces_of_joined(segments);
    let path = segments.skip(1).map_values(
        |segment: Seq<char>| crate::did::colons_decoded(segment),
    );
    let decoded = segments.map_values(|segment: Seq<char>| crate::did::colons_decoded(segment));
    assert(decoded.skip(1) =~= path);
}

/// Whether an encoded colon, `%3A` or `%3a`, stands at this place of a text.
pub open spec fn colon_encoded_at(text: Seq<char>, i: int) -> bool {
    &&& 0 <= i
    &&& i + 2 < text.len()
    &&& text[i] == '%'
    &&& text[i + 1] == '3'
    &&& text[i + 2] == 'A' || text[i + 2] == 'a'
}

/// Whether a text holds an encoded colon.
pub open spec fn holds_encoded_colon(text: Seq<char>) -> bool {
    exists|i: int| #[trigger] colon_encoded_at(text, i)
}

/// What holds no encoded colon holds none after its first character, either.
proof fn lemma_rest_holds_none(text: Seq<char>)
    requires
        text.len() > 0,
        !holds_encoded_colon(text),
    ensures
        !crate::did::encodes_colon(text),
        !holds_encoded_colon(text.skip(1)),
{
    assert(!colon_encoded_at(text, 0));
    let rest = text.skip(1);
    assert forall|i: int| !#[trigger] colon_encoded_at(rest, i) by {
        if colon_encoded_at(rest, i) {
            assert(colon_encoded_at(text, i + 1));
        }
    }
}

/// A segment without an encoded colon is left as it is.
pub proof fn segments_without_encoded_colons_are_kept(segment: Seq<char>)
    requires
        !holds_encoded_colon(segment),
    ensures
        crate::did::colons_decoded(segment) == segment,
    decreases segment.len(),
{
    if segment.len() > 0 {
        lemma_rest_holds_none(segment);
        segments_without_encoded_colons_are_kept(segment.skip(1));
        assert(seq![segment[0]] + segment.skip(1) =~= segment);
    } else {
        assert(crate::did::colons_decoded(segment) =~= segment);
    }
}

/// No decoded segment holds an encoded colon.
pub proof fn decoded_segments_hold_no_encoded_colon(segment: Seq<char>)
    ensures
        !holds_encoded_colon(crate::did::colons_decoded(segment)),
    decreases segment.len(),
{
    if segment.len() > 0 {
        let decoded = crate::did::colons_decoded(segment);
        let rest = if crate::did::encodes_colon(segment) {
            segment.skip(3)
        } else {
            segment.skip(1)
        };
        decoded_segments_hold_no_encoded_colon(rest);
        let decoded_rest = crate::did::colons_decoded(rest);
        assert(decoded.skip(1) =~= decoded_rest);
        assert forall|i: int| !#[trigger] colon_encoded_at(decoded, i) by {
            if colon_encoded_at(decoded, i) {
                if i > 0 {
                    assert(colon_encoded_at(decoded_rest, i - 1));
                } else {
                    lemma_first_decoded(rest, '3');
                    lemma_first_decoded(rest.skip(1), decoded[2]);
                    assert(decoded_rest.skip(1)[0] == decoded[2]);
                    assert(crate::did::encodes_colon(segment));
                }
            }
        }
    }
}

/// A decoded segment that begins with another character than a colon is the
/// decoding of one that begins with it.
proof fn lemma_first_decoded(segment: Seq<char>, first: char)
    requires
        first != ':',
        crate::did::colons_decoded(segment).len() > 0,
        crate::did::colons_decoded(segment)[0] == first,
    ensures
        segment.len() > 0,
        segment[0] == first,
        crate::did::colons_decoded(segment).skip(1) == crate::did::colons_decoded(
            segment.skip(1),
        ),
{
    assert(!crate::did::encodes_colon(segment));
    assert(crate::did::colons_decoded(segment).skip(1) =~= crate::did::colons_decoded(
        segment.skip(1),
    ));
}

/// Decoding a segment twice changes nothing more.
pub proof fn decoding_twice_changes_nothing(segment: Seq<char>)
    ensures
        crate::did::colons_decoded(crate::did::colons_decoded(segment))
            == crate::did::colons_decoded(segment),
{
    decoded_segments_hold_no_encoded_colon(segment);
    segments_without_encoded_colons_are_kept(crate::did::colons_decoded(segment));
}

/// A text with every colon encoded, as a `did:web` identifier embeds it in a
/// segment.
pub open spec fn colons_encoded(text: Seq<char>) -> Seq<char>
    decreases text.len(),
{
    if text.len() == 0 {
        Seq::empty()
    } else if text[0] == ':' {
        seq!['%', '3', 'A'] + colons_encoded(text.skip(1))
    } else {
        seq![text[0]] + colons_encoded(text.skip(1))
    }
}

/// An encoded text holds no colon, so that it is one segment.
pub proof fn encoded_texts_hold_no_colon(text: Seq<char>)
    ensures
        !colons_encoded(text).contains(':'),
    decreases text.len(),
{
    if text.len() > 0 {
        encoded_texts_hold_no_colon(text.skip(1));
        let rest = colons_encoded(text.skip(1));
        let encoded = colons_encoded(text);
        assert forall|i: int| 0 <= i < encoded.len() implies encoded[i] != ':' by {
            let shift: int = if text[0] == ':' { 3 } else { 1 };
            if i >= shift {
                assert(encoded[i] == rest[i - shift]);
            }
        }
    }
}

/// A host survives encoding and decoding, unless it held an encoded colon to
/// begin with.
pub proof fn encoded_hosts_are_decoded(host: Seq<char>)
    requires
        !holds_encoded_colon(host),
    ensures
        crate::did::colons_decoded(colons_encoded(host)) == host,
    decreases host.len(),
{
    let encoded = colons_encoded(host);
    if host.len() > 0 {
        lemma_rest_holds_none(host);
        let rest = host.skip(1);
        encoded_hosts_are_decoded(rest);
        if host[0] == ':' {
            assert(crate::did::encodes_colon(encoded));
            assert(encoded.skip(3) =~= colons_encoded(rest));
            assert(seq![':'] + rest =~= host);
        } else {
            assert(encoded.skip(1) =~= colons_encoded(rest));
            if crate::did::encodes_colon(encoded) {
                lemma_first_encoded(rest, '3');
                lemma_first_encoded(rest.skip(1), encoded[2]);
                assert(crate::did::encodes_colon(host));
            }
            assert(seq![host[0]] + rest =~= host);
        }
    } else {
        assert(crate::did::colons_decoded(encoded) =~= host);
    }
}

/// An encoded text that begins with another character than a percent sign is
/// the encoding of one that begins with it.
proof fn lemma_first_encoded(text: Seq<char>, first: char)
    requires
        first != '%',
        colons_encoded(text).len() > 0,
        colons_encoded(text)[0] == first,
    ensures
        text.len() > 0,
        text[0] == first,
        colons_encoded(text).skip(1) == colons_encoded(text.skip(1)),
{
    assert(text[0] != ':');
    assert(colons_encoded(text).skip(1) =~= colons_encoded(text.skip(1)));
}

/// An encoded colon, in either case, is written out wherever it stands, and
/// what stands before and after it is decoded by itself.
pub proof fn encoded_colon_is_written_out(before: Seq<char>, mark: Seq<char>, after: Seq<char>)
    requires
        mark == "%3A"@ || mark == "%3a"@,
    ensures
        crate::did::colons_decoded(before + mark + after) == crate::did::colons_decoded(before)
            + ":"@ + crate::did::colons_decoded(after),
    decreases before.len(),
{
    reveal_strlit("%3A");
    reveal_strlit("%3a");
    reveal_strlit(":");
    let whole = before + mark + after;
    let decoded_after = crate::did::colons_decoded(after);
    if before.len() == 0 {
        assert(crate::did::encodes_colon(whole));
        assert(whole.skip(3) =~= after);
        assert(seq![':'] + decoded_after =~= crate::did::colons_decoded(before) + ":"@
            + decoded_after);
    } else if crate::did::encodes_colon(before) {
        let rest = before.skip(3);
        encoded_colon_is_written_out(rest, mark, after);
        assert(crate::did::encodes_colon(whole));
        assert(whole.skip(3) =~= rest + mark + after);
        let decoded_rest = crate::did::colons_decoded(rest);
        assert(seq![':'] + (decoded_rest + ":"@ + decoded_after) =~= seq![':'] + decoded_rest
            + ":"@ + decoded_after);
    } else {
        let rest = before.skip(1);
        encoded_colon_is_written_out(rest, mark, after);
        if before.len() == 1 {
            assert(whole[1] == '%');
        } else if before.len() == 2 {
            assert(whole[2] == '%');
        } else {
            assert(whole[1] == before[1] && whole[2] == before[2]);
        }
        assert(!crate::did::encodes_colon(whole));
        assert(whole[0] == before[0]);
        assert(whole.skip(1) =~= rest + mark + after);
        let decoded_rest = crate::did::colons_decoded(rest);
        assert(seq![before[0]] + (decoded_rest + ":"@ + decoded_after) =~= seq![before[0]]
            + decoded_rest + ":"@ + decoded_after);
    }
}

/// Whether the document of an identifier is found at this address: the text
/// after `did:web:` is a host and path segments with colons between them, and
/// with encoded colons written out in each of them the address is the scheme,
/// the host, the path segments with slashes between them, and `did.json`;
/// without path segments, it is in the host's `.well-known`.
pub open spec fn found_at(did: Seq<char>, insecure_http: bool, url: Seq<char>) -> bool {
    exists|rest: Seq<char>|
        {
            let segments = crate::text::pieces(rest, ':');
            let decoded = Seq::new(
                segments.len(),
                |i: int| crate::did::colons_decoded(segments[i]),
            );
            let origin = if insecure_http {
                "http://"@ + decoded[0]
            } else {
                "https://"@ + decoded[0]
            };
            &&& did == #[trigger] ("did:web:"@ + rest)
            &&& url == if segments.len() == 1 {
                origin + "/.well-known/did.json"@
            } else {
                origin + "/"@ + crate::properties::texts::interleaved(decoded.skip(1), "/"@)
                    + "/did.json"@
            }
        }
}

pub(crate) proof fn lemma_found_at(did: Seq<char>, insecure_http: bool)
    ensures
        match crate::did::did_document_url(did, insecure_http) {
            Ok(url) => found_at(did, insecure_http, url),
            Err(error) => {
                &&& error == "not a did:web DID"@
                &&& forall|rest: Seq<char>| did != #[trigger] ("did:web:"@ + rest)
            },
        },
{
    reveal_strlit("http");
    reveal_strlit("https");
    reveal_strlit("://");
    reveal_strlit("http://");
    reveal_strlit("https://");
    match crate::did::did_document_url(did, insecure_http) {
        Ok(url) => {
            let rest = crate::text::after_prefix(did, "did:web:"@)->0;
            assert(did =~= "did:web:"@ + rest);
            let segments = crate::text::pieces(rest, ':');
            let decoded = Seq::new(
                segments.len(),
                |i: int| crate::did::colons_decoded(segments[i]),
            );
            assert(decoded =~= segments.map_values(
                |segment: Seq<char>| crate::did::colons_decoded(segment),
            ));
            crate::properties::texts::joined_interleaves(decoded.skip(1), "/"@);
            assert("http"@ + "://"@ =~= "http://"@);
            assert("https"@ + "://"@ =~= "https://"@);
        },
        Err(_) => {
            assert forall|rest: Seq<char>| did != #[trigger] ("did:web:"@ + rest) by {
                if did == "did:web:"@ + rest {
                    assert(did.take("did:web:"@.len() as int) =~= "did:web:"@);
                }
            }
        },
    }
}

/// An identifier leads to the address of its document; one that is no
/// `did:web` identifier is refused as such.
pub proof fn identifiers_lead_to_their_documents(
    did: &str,
    insecure_http: bool,
    url: Result<String, String>,
)
    requires
        call_ensures(did_web_to_url, (did, insecure_http), url),
    ensures
        match url {
            Ok(url) => found_at(did@, insecure_http, url@),
            Err(error) => {
                &&& error@ == "not a did:web DID"@
                &&& forall|rest: Seq<char>| did@ != #[trigger] ("did:web:"@ + rest)
            },
        },
{
    lemma_found_at(did@, insecure_http);
}

/// What a decoded segment is: the segment where it holds no encoded colon, and
/// in any case free of them; decoding it again changes nothing.
pub proof fn segments_are_decoded_once(
    segment: &str,
    decoded: String,
    again_from: &str,
    again: String,
)
    requires
        call_ensures(urlencoding_decode, (segment,), decoded),
        again_from@ == decoded@,
        call_ensures(urlencoding_decode, (again_from,), again),
    ensures
        !holds_encoded_colon(segment@) ==> decoded@ == segment@,
        !holds_encoded_colon(decoded@),
        again@ == decoded@,
{
    if !holds_encoded_colon(segment@) {
        segments_without_encoded_colons_are_kept(segment@);
    }
    decoded_segments_hold_no_encoded_colon(segment@);
    decoding_twice_changes_nothing(segment@);
}

/// A text in which colons were encoded decodes to the text.
pub proof fn encoded_texts_are_decoded(text: Seq<char>, segment: &str, decoded: String)
    requires
        !holds_encoded_colon(text),
        segment@ == colons_encoded(text),
        call_ensures(urlencoding_decode, (segment,), decoded),
    ensures
        decoded@ == text,
{
    encoded_hosts_are_decoded(text);
}

/// A text between two others that decodes to a colon does so where it stands,
/// and the others are decoded as by themselves.
pub proof fn encoded_colons_separate_what_is_decoded(
    before: &str,
    mark: Seq<char>,
    after: &str,
    whole: &str,
    decoded_before: String,
    decoded_after: String,
    decoded: String,
)
    requires
        mark == seq!['%', '3', 'A'] || mark == seq!['%', '3', 'a'],
        whole@ == before@ + mark + after@,
        call_ensures(urlencoding_decode, (before,), decoded_before),
        call_ensures(urlencoding_decode, (after,), decoded_after),
        call_ensures(urlencoding_decode, (whole,), decoded),
    ensures
        decoded@ == decoded_before@ + seq![':'] + decoded_after@,
{
    reveal_strlit("%3A");
    reveal_strlit("%3a");
    reveal_strlit(":");
    assert("%3A"@ =~= seq!['%', '3', 'A']);
    assert("%3a"@ =~= seq!['%', '3', 'a']);
    assert(":"@ =~= seq![':']);
    encoded_colon_is_written_out(before@, mark, after@);
}

} // verus!
