//! A JSON document as plain values, and the two calls into serde_json that
//! turn text into such a document and back.
use vstd::prelude::*;

use crate::text::str_eq;

verus! {

#[verifier::external_type_specification]
#[verifier::external_body]
pub struct ExSerdeValue(serde_json::Value);

#[verifier::external_type_specification]
#[verifier::external_body]
pub struct ExSerdeNumber(serde_json::Number);

/// A JSON number: a non-negative integer, a negative integer, or (opaque
/// to this library) any other number as serde_json holds it.
pub enum JsonNumber {
    PosInt(u64),
    NegInt(i64),
    Float(serde_json::Number),
}

/// The number as a `u64`, when it is one.
pub open spec fn u64_of(n: JsonNumber) -> Option<u64> {
    match n {
        JsonNumber::PosInt(u) => Some(u),
        _ => None,
    }
}

/// The number as an `i64`, when it is one.
pub open spec fn i64_of(n: JsonNumber) -> Option<i64> {
    match n {
        JsonNumber::PosInt(u) => if u <= i64::MAX as u64 {
            Some(u as i64)
        } else {
            None
        },
        JsonNumber::NegInt(i) => Some(i),
        JsonNumber::Float(_) => None,
    }
}

impl JsonNumber {
    /// Relies on `serde_json::Number::as_u64` and `as_i64`: a non-negative
    /// integer, a negative integer, or any other number kept as it is.
    #[verifier::external_body]
    fn from_serde(n: &serde_json::Number) -> JsonNumber {
        match (n.as_u64(), n.as_i64()) {
            (Some(u), _) => JsonNumber::PosInt(u),
            (None, Some(i)) => JsonNumber::NegInt(i),
            (None, None) => JsonNumber::Float(n.clone()),
        }
    }

    /// Relies on `serde_json::Number`'s `From<u64>` and `From<i64>`: the
    /// number serde_json writes for this one.
    #[verifier::external_body]
    fn to_serde(&self) -> serde_json::Number {
        match self {
            JsonNumber::PosInt(u) => serde_json::Number::from(*u),
            JsonNumber::NegInt(i) => serde_json::Number::from(*i),
            JsonNumber::Float(n) => n.clone(),
        }
    }

    /// The number as a `u64`, when it is one.
    pub fn as_u64(&self) -> (r: Option<u64>)
        ensures
            r == u64_of(*self),
    {
        match self {
            JsonNumber::PosInt(u) => Some(*u),
            _ => None,
        }
    }

    /// The number as an `i64`, when it is one.
    pub fn as_i64(&self) -> (r: Option<i64>)
        ensures
            r == i64_of(*self),
    {
        match self {
            JsonNumber::PosInt(u) => if *u <= 9223372036854775807u64 {
                Some(*u as i64)
            } else {
                None
            },
            JsonNumber::NegInt(i) => Some(*i),
            JsonNumber::Float(_) => None,
        }
    }
}

/// A JSON value. Object members keep the order in which the decoder handed
/// them over; a key is looked up by its first occurrence.
pub enum JsonValue {
    Null,
    Bool(bool),
    Number(JsonNumber),
    Str(String),
    Array(Vec<JsonValue>),
    Object(Vec<(String, JsonValue)>),
}

/// The value stored under `key` among `members`: the first member with that key.
pub open spec fn member_of(members: Seq<(String, JsonValue)>, key: Seq<char>) -> Option<JsonValue>
    decreases members.len(),
{
    if members.len() == 0 {
        None
    } else if members[0].0@ == key {
        Some(members[0].1)
    } else {
        member_of(members.drop_first(), key)
    }
}

/// `v[key]` where `v` is an object; `None` for any other value or a missing key.
pub open spec fn field(v: JsonValue, key: Seq<char>) -> Option<JsonValue> {
    match v {
        JsonValue::Object(members) => member_of(members@, key),
        _ => None,
    }
}

/// The text of a JSON string; `None` for any other value.
pub open spec fn text_of(v: Option<JsonValue>) -> Option<Seq<char>> {
    match v {
        Some(JsonValue::Str(s)) => Some(s@),
        _ => None,
    }
}

/// The field `key` of `v`, when it is present and a string.
pub open spec fn text_field(v: JsonValue, key: Seq<char>) -> Option<Seq<char>> {
    text_of(field(v, key))
}

/// The first element of `v`, when `v` is a non-empty array.
pub open spec fn first_elem(v: Option<JsonValue>) -> Option<JsonValue> {
    match v {
        Some(JsonValue::Array(items)) => if items@.len() > 0 {
            Some(items@[0])
        } else {
            None
        },
        _ => None,
    }
}

/// `v[key]` after `v` itself was looked up: absent stays absent.
pub open spec fn field_opt(v: Option<JsonValue>, key: Seq<char>) -> Option<JsonValue> {
    match v {
        Some(x) => field(x, key),
        None => None,
    }
}

/// The document that serde_json reads from `text`, or `None` where `text` is not JSON.
pub uninterp spec fn decoded_json(text: Seq<char>) -> Option<JsonValue>;

/// The compact text that serde_json writes for `v`.
pub uninterp spec fn encoded_json(v: JsonValue) -> Seq<char>;

/// Relies on serde_json::from_str::<serde_json::Value>: one JSON document per text,
/// the same for the same text.
#[verifier::external_body]
pub(crate) fn decode_json(text: &str) -> (r: Option<JsonValue>)
    ensures
        r == decoded_json(text@),
{
    serde_json::from_str::<serde_json::Value>(text).ok().map(|v| JsonValue::from_serde(&v))
}

/// Relies on serde_json::Value's `Display` (serde_json::to_string): compact JSON text.
#[verifier::external_body]
pub(crate) fn encode_json(v: &JsonValue) -> (r: String)
    ensures
        r@ == encoded_json(*v),
{
    v.to_serde().to_string()
}

/// The JSON document that `text` holds, if it holds one.
pub fn parse_document(text: &str) -> (r: Option<JsonValue>)
    ensures
        r == decoded_json(text@),
{
    decode_json(text)
}

impl JsonValue {
    /// Relies on serde_json::Value's variants: copies a parsed value into this
    /// model, variant for variant and member for member.
    #[verifier::external_body]
    fn from_serde(v: &serde_json::Value) -> JsonValue {
        match v {
            serde_json::Value::Null => JsonValue::Null,
            serde_json::Value::Bool(b) => JsonValue::Bool(*b),
            serde_json::Value::Number(n) => JsonValue::Number(JsonNumber::from_serde(n)),
            serde_json::Value::String(s) => JsonValue::Str(s.clone()),
            serde_json::Value::Array(a) => JsonValue::Array(a.iter().map(JsonValue::from_serde).collect()),
            serde_json::Value::Object(m) => JsonValue::Object(
                m.iter().map(|(k, x)| (k.clone(), JsonValue::from_serde(x))).collect(),
            ),
        }
    }

    /// Relies on serde_json::Value's variants: builds serde_json's value from
    /// this model, variant for variant and member for member.
    #[verifier::external_body]
    fn to_serde(&self) -> serde_json::Value {
        match self {
            JsonValue::Null => serde_json::Value::Null,
            JsonValue::Bool(b) => serde_json::Value::Bool(*b),
            JsonValue::Number(n) => serde_json::Value::Number(n.to_serde()),
            JsonValue::Str(s) => serde_json::Value::String(s.clone()),
            JsonValue::Array(a) => serde_json::Value::Array(a.iter().map(|x| x.to_serde()).collect()),
            JsonValue::Object(m) => serde_json::Value::Object(
                m.iter().map(|(k, x)| (k.clone(), x.to_serde())).collect(),
            ),
        }
    }

    /// The value stored under `key`, when `self` is an object that has it.
    pub fn get(&self, key: &str) -> (r: Option<&JsonValue>)
        ensures
            match r {
                Some(x) => field(*self, key@) == Some(*x),
                None => field(*self, key@) is None,
            },
    {
        match self {
            JsonValue::Object(members) => {
                let mut i: usize = 0;
                assert(members@.subrange(0, members@.len() as int) =~= members@);
                while i < members.len()
                    invariant
                        0 <= i <= members@.len(),
                        *self == JsonValue::Object(*members),
                        member_of(members@, key@) == member_of(members@.subrange(i as int, members@.len() as int), key@),
                    decreases members@.len() - i,
                {
                    proof {
                        let rest = members@.subrange(i as int, members@.len() as int);
                        assert(rest.drop_first() =~= members@.subrange(i + 1, members@.len() as int));
                    }
                    if str_eq(members[i].0.as_str(), key) {
                        proof {
                            let rest = members@.subrange(i as int, members@.len() as int);
                            assert(rest[0] == members@[i as int]);
                        }
                        return Some(&members[i].1);
                    }
                    i = i + 1;
                }
                None
            },
            _ => None,
        }
    }

    /// Takes the value stored under `key` out of `self`, when `self` is an
    /// object that has it.
    pub fn into_field(self, key: &str) -> (r: Option<JsonValue>)
        ensures
            r == field(self, key@),
    {
        let ghost target = field(self, key@);
        match self {
            JsonValue::Object(members) => {
                let ghost all = members@;
                assert(target == member_of(all, key@));
                let mut members = members;
                let mut i: usize = 0;
                assert(all.subrange(0, all.len() as int) =~= all);
                while i < members.len()
                    invariant
                        members@ == all,
                        target == member_of(all, key@),
                        target == field(self, key@),
                        0 <= i <= all.len(),
                        member_of(all, key@) == member_of(all.subrange(i as int, all.len() as int), key@),
                    decreases all.len() - i,
                {
                    proof {
                        let rest = all.subrange(i as int, all.len() as int);
                        assert(rest.drop_first() =~= all.subrange(i + 1, all.len() as int));
                        assert(rest[0] == all[i as int]);
                    }
                    if str_eq(members[i].0.as_str(), key) {
                        let ghost at = i as int;
                        let pair = members.remove(i);
                        proof {
                            assert(pair == all[at]);
                            assert(member_of(all.subrange(at, all.len() as int), key@) == Some(all[at].1));
                        }
                        let (_k, v) = pair;
                        return Some(v);
                    }
                    i = i + 1;
                }
                None
            },
            _ => None,
        }
    }

    /// The text of `self`, when it is a JSON string.
    pub fn as_text(&self) -> (r: Option<&String>)
        ensures
            match r {
                Some(s) => text_of(Some(*self)) == Some(s@),
                None => text_of(Some(*self)) is None,
            },
    {
        match self {
            JsonValue::Str(s) => Some(s),
            _ => None,
        }
    }

    /// The text of the field `key`, when it is present and a string.
    pub fn text_field(&self, key: &str) -> (r: Option<&String>)
        ensures
            match r {
                Some(s) => text_field(*self, key@) == Some(s@),
                None => text_field(*self, key@) is None,
            },
    {
        match self.get(key) {
            Some(v) => v.as_text(),
            None => None,
        }
    }

    /// The first element of `self`, when it is a non-empty array.
    pub fn first(&self) -> (r: Option<&JsonValue>)
        ensures
            match r {
                Some(x) => first_elem(Some(*self)) == Some(*x),
                None => first_elem(Some(*self)) is None,
            },
    {
        match self {
            JsonValue::Array(items) => if items.len() > 0 {
                Some(&items[0])
            } else {
                None
            },
            _ => None,
        }
    }
}

/// The keys of some members.
pub open spec fn keys_of(members: Seq<(String, JsonValue)>) -> Seq<Seq<char>> {
    members.map_values(|m: (String, JsonValue)| m.0@)
}

/// In an object whose keys are distinct, a key is found at the one member
/// that has it; a key that no member has is absent.
pub proof fn lemma_member_at(members: Seq<(String, JsonValue)>, key: Seq<char>)
    requires
        keys_of(members).no_duplicates(),
    ensures
        forall|k: int| 0 <= k < members.len() && #[trigger] members[k].0@ == key ==> member_of(members, key) == Some(members[k].1),
        !keys_of(members).contains(key) ==> member_of(members, key) is None,
    decreases members.len(),
{
    if members.len() > 0 {
        let rest = members.drop_first();
        assert(keys_of(rest) =~= keys_of(members).drop_first());
        assert(keys_of(rest).no_duplicates()) by {
            assert forall|a: int, b: int| 0 <= a < b < keys_of(rest).len() implies keys_of(rest)[a] != keys_of(rest)[b] by {
                assert(keys_of(rest)[a] == keys_of(members)[a + 1]);
                assert(keys_of(rest)[b] == keys_of(members)[b + 1]);
            }
        }
        lemma_member_at(rest, key);
        assert forall|k: int| 0 <= k < members.len() && #[trigger] members[k].0@ == key implies member_of(members, key) == Some(members[k].1) by {
            if k > 0 {
                assert(keys_of(members)[0] != keys_of(members)[k]);
                assert(rest[k - 1] == members[k]);
            }
        }
        if !keys_of(members).contains(key) {
            assert(keys_of(members)[0] == members[0].0@);
            if keys_of(rest).contains(key) {
                let j = choose|j: int| 0 <= j < keys_of(rest).len() && keys_of(rest)[j] == key;
                assert(keys_of(members)[j + 1] == key);
            }
        }
    }
}

} // verus!
