//! JSON values.
//!
//! A value is a `serde_json::Value`. Contracts speak of what a value holds, [`Json`], through
//! [`json_view`], and of its encoding through [`json_text`].

use serde_json::Value;
use vstd::prelude::*;

verus! {

#[verifier::external_type_specification]
#[verifier::external_body]
pub struct ExValue(serde_json::Value);

#[verifier::external_type_specification]
#[verifier::external_body]
pub struct ExJsonError(serde_json::Error);

/// What a JSON value holds. A number is its text and, where it is a whole number that fits in 64
/// bits without a sign, that number.
pub enum Json {
    Null,
    Bool(bool),
    Number { text: Seq<char>, unsigned: Option<u64> },
    Text(Seq<char>),
    Array(Seq<Json>),
    Object(Map<Seq<char>, Json>),
}

/// What `value` holds.
pub uninterp spec fn json_view(value: Value) -> Json;

/// The compact encoding of `value`, or `None` where the encoder fails.
pub uninterp spec fn json_text(value: Value) -> Option<Seq<char>>;

/// What the JSON document `text` holds, or the parser's message where it is not one.
pub uninterp spec fn json_parse(text: Seq<char>) -> Result<Json, Seq<char>>;

impl Json {
    /// The member `key` of an object.
    pub open spec fn member(self, key: Seq<char>) -> Option<Json> {
        match self {
            Json::Object(members) if members.dom().contains(key) => Some(members[key]),
            _ => None,
        }
    }

    pub open spec fn as_bool(self) -> Option<bool> {
        match self {
            Json::Bool(b) => Some(b),
            _ => None,
        }
    }

    pub open spec fn as_text(self) -> Option<Seq<char>> {
        match self {
            Json::Text(text) => Some(text),
            _ => None,
        }
    }

    pub open spec fn as_unsigned(self) -> Option<u64> {
        match self {
            Json::Number { unsigned, .. } => unsigned,
            _ => None,
        }
    }
}

/// The members of an object listed as pairs.
pub open spec fn members_of(pairs: Seq<(String, Value)>) -> Map<Seq<char>, Json>
    decreases pairs.len(),
{
    if pairs.len() == 0 {
        Map::empty()
    } else {
        members_of(pairs.drop_last()).insert(pairs.last().0@, json_view(pairs.last().1))
    }
}

/// `serde_json::from_str::<Value>`: the document's value, or the parser's message.
#[verifier::external_body]
pub(crate) fn parse(text: &str) -> (parsed: Result<Value, String>)
    ensures
        (match parsed {
            Ok(value) => Ok(json_view(value)),
            Err(message) => Err(message@),
        }) == json_parse(text@),
{
    serde_json::from_str(text).map_err(|error| error.to_string())
}

/// `serde_json::to_string`: the compact encoding of a value.
#[verifier::external_body]
pub(crate) fn encode(value: &Value) -> (encoded: Result<String, serde_json::Error>)
    ensures
        (match encoded {
            Ok(text) => Some(text@),
            Err(_) => None,
        }) == json_text(*value),
{
    serde_json::to_string(value)
}

/// `serde_json::to_writer` into the bytes of `room`: where the compact encoding fits, it is written
/// from the front, and the number of bytes that stay free comes back. Where it does not fit, the
/// error is one of writing, which `true` stands for; nothing is said of the bytes then.
#[verifier::external_body]
pub(crate) fn encode_into(value: &Value, room: &mut Vec<u8>) -> (free: Result<usize, bool>)
    ensures
        final(room)@.len() == old(room)@.len(),
        match json_text(*value) {
            Some(text) => if crate::text::utf8_len(text) <= old(room)@.len() {
                &&& free matches Ok(n)
                &&& n == old(room)@.len() - crate::text::utf8_len(text)
                &&& final(room)@.take(crate::text::utf8_len(text) as int)
                    == vstd::utf8::encode_utf8(text)
            } else {
                free == Err::<usize, bool>(true)
            },
            None => free is Err,
        },
{
    let mut rest: &mut [u8] = room;
    match serde_json::to_writer(&mut rest, value) {
        Ok(()) => Ok(rest.len()),
        Err(error) => Err(error.is_io()),
    }
}

/// `Value::get` with a text key: the member of that key where the value is an object that has
/// one, and nothing otherwise.
#[verifier::external_body]
pub(crate) fn member<'a>(value: &'a Value, key: &str) -> (found: Option<&'a Value>)
    ensures
        (match found {
            Some(inner) => Some(json_view(*inner)),
            None => None,
        }) == json_view(*value).member(key@),
{
    value.get(key)
}

/// `Value::as_bool`: the boolean that the value is.
pub assume_specification[ Value::as_bool ](value: &Value) -> (b: Option<bool>)
    ensures
        b == json_view(*value).as_bool(),
;

/// `Value::as_u64`: the number, where the value is a whole number that fits.
pub assume_specification[ Value::as_u64 ](value: &Value) -> (n: Option<u64>)
    ensures
        n == json_view(*value).as_unsigned(),
;

/// `Value::as_str`: the text that the value is.
pub assume_specification[ Value::as_str ](value: &Value) -> (text: Option<&str>)
    ensures
        (match text {
            Some(inner) => Some(inner@),
            None => None,
        }) == json_view(*value).as_text(),
;

/// `Value::clone`: a copy that holds and encodes the same.
pub assume_specification[ <Value as Clone>::clone ](value: &Value) -> (copy: Value)
    ensures
        json_view(copy) == json_view(*value),
        json_text(copy) == json_text(*value),
;

/// `Value::Null`.
#[verifier::external_body]
pub(crate) fn null() -> (value: Value)
    ensures
        json_view(value) == Json::Null,
{
    Value::Null
}

/// `Value::Bool`.
#[verifier::external_body]
pub(crate) fn boolean(b: bool) -> (value: Value)
    ensures
        json_view(value) == Json::Bool(b),
{
    Value::Bool(b)
}

/// `Value::String`.
#[verifier::external_body]
pub(crate) fn string(text: String) -> (value: Value)
    ensures
        json_view(value) == Json::Text(text@),
{
    Value::String(text)
}

/// `Value::Array`.
#[verifier::external_body]
pub(crate) fn array(items: Vec<Value>) -> (value: Value)
    ensures
        json_view(value) == Json::Array(items@.map_values(|item: Value| json_view(item))),
{
    Value::Array(items)
}

/// Whether no key is listed twice.
pub open spec fn keys_differ(pairs: Seq<(String, Value)>) -> bool {
    forall|i: int, j: int|
        0 <= i < j < pairs.len() ==> (#[trigger] pairs[i]).0@ != (#[trigger] pairs[j]).0@
}

/// `Value::Object` over the map that `serde_json::Map`'s `FromIterator` builds of pairs with
/// different keys: each pair is a member, and there is no other.
#[verifier::external_body]
pub(crate) fn object(pairs: Vec<(String, Value)>) -> (value: Value)
    requires
        keys_differ(pairs@),
    ensures
        json_view(value) == Json::Object(members_of(pairs@)),
{
    Value::Object(pairs.into_iter().collect())
}

/// What a failed tool result holds: one text block and the error flag.
pub open spec fn error_json(text: Seq<char>) -> Json {
    Json::Object(
        map![
            "content"@ => Json::Array(seq![Json::Object(map![
                "type"@ => Json::Text("text"@),
                "text"@ => Json::Text(text),
            ])]),
            "isError"@ => Json::Bool(true),
        ],
    )
}

/// A downstream result counts as failed only when its `isError` member is `true`.
pub open spec fn is_ok_json(result: Json) -> bool {
    !(result.member("isError"@) matches Some(flag) && flag.as_bool() == Some(true))
}

/// The encoded size of a value in bytes; zero where it cannot be encoded.
pub open spec fn encoded_len(value: Value) -> nat {
    match json_text(value) {
        Some(text) => crate::text::utf8_len(text),
        None => 0,
    }
}

/// A tool result that reports `error`.
pub fn error_result(error: &str) -> (result: Value)
    ensures
        json_view(result) == error_json(error@),
{
    proof {
        reveal_strlit("type");
        reveal_strlit("text");
        reveal_strlit("content");
        reveal_strlit("isError");
        assert("type"@[1] != "text"@[1]);
        assert("content"@[0] != "isError"@[0]);
    }
    let block_pairs = vec![
        ("type".to_owned(), string("text".to_owned())),
        ("text".to_owned(), string(error.to_owned())),
    ];
    let ghost block_seq = block_pairs@;
    let block = object(block_pairs);
    let blocks = vec![block];
    let ghost blocks_seq = blocks@;
    let content = array(blocks);
    let pairs = vec![("content".to_owned(), content), ("isError".to_owned(), boolean(true))];
    let ghost pairs_seq = pairs@;
    let result = object(pairs);
    proof {
        lemma_two_members(block_seq);
        lemma_two_members(pairs_seq);
        let want = Json::Object(
            map!["type"@ => Json::Text("text"@), "text"@ => Json::Text(error@)],
        );
        assert(json_view(block) == want);
        assert(blocks_seq.map_values(|item: Value| json_view(item)) =~= seq![want]);
    }
    result
}

proof fn lemma_two_members(pairs: Seq<(String, Value)>)
    requires
        pairs.len() == 2,
    ensures
        members_of(pairs) == map![
            pairs[0].0@ => json_view(pairs[0].1),
            pairs[1].0@ => json_view(pairs[1].1),
        ],
{
    reveal_with_fuel(members_of, 3);
}

/// True unless the downstream result carried `isError: true`.
pub fn result_ok(result: &Value) -> (ok: bool)
    ensures
        ok == is_ok_json(json_view(*result)),
{
    match member(result, "isError") {
        Some(flag) => match flag.as_bool() {
            Some(failed) => !failed,
            None => true,
        },
        None => true,
    }
}

/// A result that reports an error does not count as a success.
pub proof fn law_error_results_are_not_ok(text: Seq<char>)
    ensures
        !is_ok_json(error_json(text)),
{
}

/// The encoding of a value, where it can be encoded.
pub(crate) fn encoding(value: &Value) -> (encoded: Option<String>)
    ensures
        (match encoded {
            Some(text) => Some(text@),
            None => None,
        }) == json_text(*value),
{
    match encode(value) {
        Ok(text) => Some(text),
        Err(_) => None,
    }
}

/// The size of an encoding in bytes; zero where there is none.
pub fn encoding_len(encoded: &Option<String>) -> (len: usize)
    ensures
        len == (match *encoded {
            Some(text) => crate::text::utf8_len(text@),
            None => 0,
        }),
{
    match encoded {
        Some(text) => crate::text::byte_len(text.as_str()),
        None => 0,
    }
}

/// The encoded size of `value` in bytes.
pub fn serialized_len(value: &Value) -> (len: usize)
    ensures
        len == encoded_len(*value),
{
    encoding_len(&encoding(value))
}

/// Only an object has members, and each key has the value that it is mapped to; and a boolean, a
/// text or a number is read as itself, and as nothing else.
pub proof fn law_values_are_read_as_they_are(value: Json, key: Seq<char>)
    ensures
        match value {
            Json::Object(members) => {
                &&& members.dom().contains(key) ==> value.member(key) == Some(members[key])
                &&& !members.dom().contains(key) ==> value.member(key) is None
                &&& value.as_bool() is None && value.as_text() is None
                &&& value.as_unsigned() is None
            },
            Json::Bool(b) => value.as_bool() == Some(b) && value.member(key) is None
                && value.as_text() is None && value.as_unsigned() is None,
            Json::Text(text) => value.as_text() == Some(text) && value.member(key) is None
                && value.as_bool() is None && value.as_unsigned() is None,
            Json::Number { unsigned, .. } => value.as_unsigned() == unsigned && value.member(key)
                is None && value.as_bool() is None && value.as_text() is None,
            _ => value.member(key) is None && value.as_bool() is None && value.as_text() is None
                && value.as_unsigned() is None,
        },
{
}

/// An object made of pairs with different keys has each pair as a member, and no other member.
pub proof fn law_pairs_are_the_members(pairs: Seq<(String, Value)>, key: Seq<char>)
    requires
        forall|i: int, j: int|
            0 <= i < j < pairs.len() ==> (#[trigger] pairs[i]).0@ != (#[trigger] pairs[j]).0@,
    ensures
        members_of(pairs).dom().contains(key) <==> exists|i: int|
            0 <= i < pairs.len() && (#[trigger] pairs[i]).0@ == key,
        forall|i: int|
            0 <= i < pairs.len() && (#[trigger] pairs[i]).0@ == key ==> members_of(pairs)[key]
                == json_view(pairs[i].1),
    decreases pairs.len(),
{
    if pairs.len() > 0 {
        let front = pairs.drop_last();
        assert(forall|i: int| 0 <= i < front.len() ==> #[trigger] front[i] == pairs[i]);
        law_pairs_are_the_members(front, key);
        let last = pairs[pairs.len() - 1];
        if last.0@ == key {
            assert(pairs[pairs.len() - 1].0@ == key);
        }
        if exists|i: int| 0 <= i < pairs.len() && (#[trigger] pairs[i]).0@ == key {
            let i = choose|i: int| 0 <= i < pairs.len() && (#[trigger] pairs[i]).0@ == key;
            if i < front.len() {
                assert(front[i].0@ == key);
            }
        }
        if exists|i: int| 0 <= i < front.len() && (#[trigger] front[i]).0@ == key {
            let i = choose|i: int| 0 <= i < front.len() && (#[trigger] front[i]).0@ == key;
            assert(pairs[i].0@ == key);
        }
    }
}

/// An error result has two members: the error flag, and content that is one text block with the
/// error's text.
pub proof fn law_error_result_holds_its_text(text: Seq<char>)
    ensures
        error_json(text) matches Json::Object(members) && {
            &&& members.dom() == set!["content"@, "isError"@]
            &&& members["isError"@] == Json::Bool(true)
            &&& members["content"@] matches Json::Array(blocks)
            &&& blocks.len() == 1
            &&& blocks[0] matches Json::Object(block)
            &&& block.dom() == set!["type"@, "text"@]
            &&& block["type"@] == Json::Text("text"@)
            &&& block["text"@] == Json::Text(text)
        },
{
    reveal_strlit("type");
    reveal_strlit("text");
    reveal_strlit("content");
    reveal_strlit("isError");
    assert("type"@[1] != "text"@[1]);
    assert("content"@[0] != "isError"@[0]);
    let members = error_json(text)->Object_0;
    assert(members.dom() =~= set!["content"@, "isError"@]);
    let block = members["content"@]->Array_0[0]->Object_0;
    assert(block.dom() =~= set!["type"@, "text"@]);
}

/// A result is failed exactly where it is an object whose `isError` member is `true`.
pub proof fn law_only_the_error_flag_fails_a_result(result: Json)
    ensures
        !is_ok_json(result) <==> (result matches Json::Object(members) && members.dom().contains(
            "isError"@,
        ) && members["isError"@] == Json::Bool(true)),
{
}

/// The size of a value is the size of its encoding.
pub proof fn law_size_is_that_of_the_encoding(value: Value)
    ensures
        json_text(value) matches Some(text) ==> encoded_len(value) == vstd::utf8::encode_utf8(
            text,
        ).len(),
        json_text(value) is None ==> encoded_len(value) == 0,
{
}

} // verus!
