//! Fresh identifiers.

use vstd::prelude::*;

verus! {

/// Whether a character is a lower-case hexadecimal digit.
pub open spec fn hex_digit(c: char) -> bool {
    '0' <= c <= '9' || 'a' <= c <= 'f'
}

/// Whether a text is a version 4 UUID in hyphenated lower-case form.
pub open spec fn uuid_v4(text: Seq<char>) -> bool {
    &&& text.len() == 36
    &&& forall|i: int|
        0 <= i < 36 ==> if i == 8 || i == 13 || i == 18 || i == 23 {
            #[trigger] text[i] == '-'
        } else {
            hex_digit(text[i])
        }
    &&& text[14] == '4'
    &&& text[19] == '8' || text[19] == '9' || text[19] == 'a' || text[19] == 'b'
}

/// `Uuid::new_v4`, as text: some version 4 UUID. Which one is left to chance.
/// Where the operating system has no random numbers to give, the call panics.
#[verifier::external_body]
fn new_uuid() -> (uuid: String)
    ensures
        uuid_v4(uuid@),
{
    uuid::Uuid::new_v4().to_string()
}

/// Whether a text is one that `Uuid::new_v4` drew.
pub closed spec fn drawn(text: Seq<char>) -> bool {
    exists|uuid: String| #[trigger] call_ensures(new_uuid, (), uuid) && uuid@ == text
}

/// Whether a text is a version 4 UUID that was drawn.
pub open spec fn fresh_uuid(text: Seq<char>) -> bool {
    uuid_v4(text) && drawn(text)
}

/// Whether a text is the URN of a version 4 UUID that was drawn.
pub open spec fn fresh_urn(text: Seq<char>) -> bool {
    crate::text::after_prefix(text, "urn:uuid:"@) matches Some(uuid) && fresh_uuid(uuid)
}

/// Draws a UUID.
pub(crate) fn draw_uuid() -> (uuid: String)
    ensures
        fresh_uuid(uuid@),
{
    new_uuid()
}

/// The URN of a fresh UUID.
pub fn new_urn_uuid() -> (urn: String)
    ensures
        fresh_urn(urn@),
{
    let uuid = draw_uuid();
    let urn = urn_of(uuid.as_str());
    proof {
        reveal_strlit("urn:uuid:");
        assert(urn@.take(9) =~= "urn:uuid:"@);
        assert(urn@.skip(9) =~= uuid@);
    }
    urn
}

/// The URN of a UUID.
pub fn urn_of(uuid: &str) -> (urn: String)
    ensures
        urn@ == "urn:uuid:"@ + uuid@,
{
    "urn:uuid:".to_owned().concat(uuid)
}

/// A UUID that counts as drawn was given by a call of the generator.
proof fn drawn_uuids_come_from_the_generator(text: Seq<char>)
    requires
        fresh_uuid(text),
    ensures
        exists|uuid: String| #[trigger] call_ensures(new_uuid, (), uuid) && uuid@ == text,
{
}

/// A new URN is the prefix of such names and a UUID that a call of the
/// generator gave.
proof fn new_urns_come_from_the_generator(urn: String)
    requires
        call_ensures(new_urn_uuid, (), urn),
    ensures
        exists|uuid: String| #[trigger]
            call_ensures(new_uuid, (), uuid) && urn@ == "urn:uuid:"@ + uuid@,
{
    reveal_strlit("urn:uuid:");
    let text = crate::text::after_prefix(urn@, "urn:uuid:"@)->0;
    assert(urn@ =~= "urn:uuid:"@ + text);
    drawn_uuids_come_from_the_generator(text);
}

} // verus!
