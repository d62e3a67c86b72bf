//! JSON values, as `serde_json` holds them.
//!
//! A [`serde_json::Value`] is opaque to proofs. What it holds is named by
//! [`json_content`], and each operation that reads or builds one is stated
//! over that content.

use serde_json::Value;
use vstd::prelude::*;

verus! {

#[verifier::external_type_specification]
#[verifier::external_body]
pub struct ExValue(serde_json::Value);

/// What a JSON value holds.
pub enum JsonContent {
    Null,
    Bool(bool),
    /// An integer from 0 to `u64::MAX`, written without fraction or exponent.
    Unsigned(u64),
    /// An integer from `i64::MIN` to -1, written without fraction or exponent.
    Negative(i64),
    /// Any other number, as it is written.
    OtherNumber(Seq<char>),
    Text(Seq<char>),
    Array(Seq<JsonContent>),
    Object(Map<Seq<char>, JsonContent>),
}

/// What a `serde_json::Value` holds.
pub uninterp spec fn json_content(value: serde_json::Value) -> JsonContent;

/// What `serde_json::from_slice` makes of a document: its content, or the
/// text of the error.
pub uninterp spec fn json_parsed(document: Seq<u8>) -> Result<JsonContent, Seq<char>>;

/// What `Value::to_string` writes for a value with this content.
pub uninterp spec fn json_written(content: JsonContent) -> Seq<char>;

/// The contents of a list of values.
pub open spec fn json_contents(values: Seq<Value>) -> Seq<JsonContent> {
    values.map_values(|value: Value| json_content(value))
}

/// The object with these members; of two with the same name the later counts.
pub open spec fn members(list: Seq<(Seq<char>, JsonContent)>) -> Map<Seq<char>, JsonContent>
    decreases list.len(),
{
    if list.len() == 0 {
        Map::empty()
    } else {
        members(list.drop_last()).insert(list.last().0, list.last().1)
    }
}

/// The names and contents of a list of named values.
pub open spec fn named_contents(fields: Seq<(String, Value)>) -> Seq<(Seq<char>, JsonContent)> {
    fields.map_values(|field: (String, Value)| (field.0@, json_content(field.1)))
}

/// One more member is inserted into the object.
pub proof fn lemma_members_push(
    list: Seq<(Seq<char>, JsonContent)>,
    name: Seq<char>,
    content: JsonContent,
)
    ensures
        members(list.push((name, content))) == members(list).insert(name, content),
{
    assert(list.push((name, content)).drop_last() =~= list);
}

/// An object that is listed with two members.
pub proof fn lemma_two_members(list: Seq<(Seq<char>, JsonContent)>)
    requires
        list.len() == 2,
    ensures
        members(list) == map![list[0].0 => list[0].1, list[1].0 => list[1].1],
{
    let none = Seq::<(Seq<char>, JsonContent)>::empty();
    lemma_members_push(none, list[0].0, list[0].1);
    lemma_members_push(none.push(list[0]), list[1].0, list[1].1);
    assert(none.push(list[0]).push(list[1]) =~= list);
}

/// An object that is listed with four members.
pub proof fn lemma_four_members(list: Seq<(Seq<char>, JsonContent)>)
    requires
        list.len() == 4,
    ensures
        members(list) == map![
            list[0].0 => list[0].1,
            list[1].0 => list[1].1,
            list[2].0 => list[2].1,
            list[3].0 => list[3].1,
        ],
{
    let two = list.take(2);
    lemma_two_members(two);
    lemma_members_push(two, list[2].0, list[2].1);
    lemma_members_push(two.push(list[2]), list[3].0, list[3].1);
    assert(two.push(list[2]).push(list[3]) =~= list);
}

/// An object that is listed with eight members.
pub proof fn lemma_eight_members(list: Seq<(Seq<char>, JsonContent)>)
    requires
        list.len() == 8,
    ensures
        members(list) == map![
            list[0].0 => list[0].1,
            list[1].0 => list[1].1,
            list[2].0 => list[2].1,
            list[3].0 => list[3].1,
            list[4].0 => list[4].1,
            list[5].0 => list[5].1,
            list[6].0 => list[6].1,
            list[7].0 => list[7].1,
        ],
{
    let four = list.take(4);
    lemma_four_members(four);
    lemma_members_push(four, list[4].0, list[4].1);
    lemma_members_push(four.push(list[4]), list[5].0, list[5].1);
    lemma_members_push(four.push(list[4]).push(list[5]), list[6].0, list[6].1);
    lemma_members_push(
        four.push(list[4]).push(list[5]).push(list[6]),
        list[7].0,
        list[7].1,
    );
    assert(four.push(list[4]).push(list[5]).push(list[6]).push(list[7]) =~= list);
}

/// The member name that marks a piece of raw JSON to `serde_json`, when it is
/// built with its feature `raw_value`.
pub const RAW_VALUE_NAME: &'static str = "$serde_json::private::RawValue";

/// The mark for raw JSON has thirty characters.
pub proof fn lemma_raw_value_name_length()
    ensures
        RAW_VALUE_NAME@.len() == 30,
{
    reveal_strlit("$serde_json::private::RawValue");
}

/// Whether an object, written with its members in the order of their names,
/// begins with the mark for raw JSON.
pub open spec fn begins_as_raw_value(fields: Map<Seq<char>, JsonContent>) -> bool {
    &&& fields.contains_key(RAW_VALUE_NAME@)
    &&& forall|name: Seq<char>| #[trigger]
        fields.contains_key(name) ==> crate::text::text_le(RAW_VALUE_NAME@, name)
}

/// Whether a value nests at most `depth` arrays and objects, holds no number
/// but integers from `i64::MIN` to `u64::MAX`, and no object that begins with
/// the mark for raw JSON.
pub open spec fn plain(content: JsonContent, depth: nat) -> bool
    decreases depth,
{
    match content {
        JsonContent::OtherNumber(_) => false,
        JsonContent::Array(items) => depth > 0 && forall|i: int|
            0 <= i < items.len() ==> plain(#[trigger] items[i], (depth - 1) as nat),
        JsonContent::Object(fields) => {
            &&& depth > 0
            &&& !begins_as_raw_value(fields)
            &&& forall|name: Seq<char>| #[trigger]
                fields.contains_key(name) ==> plain(fields[name], (depth - 1) as nat)
        },
        _ => true,
    }
}

/// Whether a document parses to `content`, where that is plain and nests less
/// deeply than the parser's limit.
pub open spec fn reads_back(document: Seq<char>, content: JsonContent) -> bool {
    plain(content, 127) ==> (json_parsed(vstd::utf8::encode_utf8(document)) matches Ok(parsed)
        && parsed == content)
}

/// `serde_json::from_slice` into a `Value`.
#[verifier::external_body]
pub(crate) fn parse_json(document: &[u8]) -> (parsed: Result<Value, String>)
    ensures
        match parsed {
            Ok(value) => json_parsed(document@) matches Ok(content) && content == json_content(
                value,
            ),
            Err(error) => json_parsed(document@) matches Err(text) && text == error@,
        },
{
    serde_json::from_slice(document).map_err(|error| error.to_string())
}

/// `Value::to_string`: the compact document, which for a plain value that
/// nests less deeply than the parser's limit parses back to the same content.
///
/// Members are written in the order of their names. `serde_json` is built here
/// with its feature `raw_value`, under which the parser takes an object whose
/// first member has the name [`RAW_VALUE_NAME`] for the JSON in that member's
/// text; such an object does not parse back. Of numbers with a fraction or an
/// exponent nothing is claimed, since the parser may round them.
#[verifier::external_body]
pub(crate) fn write_json(value: &Value) -> (document: String)
    ensures
        document@ == json_written(json_content(*value)),
        reads_back(document@, json_content(*value)),
{
    value.to_string()
}

/// `Value::get` with a text: the member of that name, if the value is an
/// object that has one.
#[verifier::external_body]
pub(crate) fn json_member<'a>(value: &'a Value, name: &str) -> (member: Option<&'a Value>)
    ensures
        match member {
            Some(found) => json_content(*value) matches JsonContent::Object(fields)
                && fields.contains_key(name@) && fields[name@] == json_content(*found),
            None => json_content(*value) matches JsonContent::Object(fields)
                ==> !fields.contains_key(name@),
        },
{
    value.get(name)
}

/// `Value::as_str`: the text, if the value is one.
#[verifier::external_body]
pub(crate) fn json_text(value: &Value) -> (text: Option<&str>)
    ensures
        match text {
            Some(text) => json_content(*value) == JsonContent::Text(text@),
            None => !(json_content(*value) is Text),
        },
{
    value.as_str()
}

/// `Value::as_u64`: the number, if the value is one that fits.
#[verifier::external_body]
pub(crate) fn json_unsigned(value: &Value) -> (number: Option<u64>)
    ensures
        match number {
            Some(number) => json_content(*value) == JsonContent::Unsigned(number),
            None => !(json_content(*value) is Unsigned),
        },
{
    value.as_u64()
}

/// `Value::as_array`: the items, if the value is an array.
#[verifier::external_body]
pub(crate) fn json_items(value: &Value) -> (items: Option<&Vec<Value>>)
    ensures
        match items {
            Some(items) => json_content(*value) == JsonContent::Array(json_contents(items@)),
            None => !(json_content(*value) is Array),
        },
{
    value.as_array()
}

/// `Value::from` a text.
#[verifier::external_body]
pub(crate) fn text_value(text: String) -> (value: Value)
    ensures
        json_content(value) == JsonContent::Text(text@),
{
    Value::from(text)
}

/// `Value::from` an unsigned integer.
#[verifier::external_body]
pub(crate) fn unsigned_value(number: u64) -> (value: Value)
    ensures
        json_content(value) == JsonContent::Unsigned(number),
{
    Value::from(number)
}

/// `Value::from` a list of values: the array of them.
#[verifier::external_body]
pub(crate) fn array_value(items: Vec<Value>) -> (value: Value)
    ensures
        json_content(value) == JsonContent::Array(json_contents(items@)),
{
    Value::from(items)
}

/// `Value::from_iter` over named values: the object with these members.
#[verifier::external_body]
pub(crate) fn object_value(fields: Vec<(String, Value)>) -> (value: Value)
    ensures
        json_content(value) == JsonContent::Object(members(named_contents(fields@))),
{
    Value::from_iter(fields)
}

} // verus!
