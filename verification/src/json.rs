//! Reading JSON documents.

use vstd::prelude::*;

verus! {

#[verifier::external_type_specification]
#[verifier::external_body]
pub struct ExValue(serde_json::Value);

/// What a JSON value holds.
pub enum Json {
    Null,
    Bool(bool),
    /// A number, with its value where that is an integer in the range of `i64`.
    Number(Option<i64>),
    Text(Seq<char>),
    List(Seq<Json>),
    Object(Map<Seq<char>, Json>),
}

impl Json {
    /// The member `key` of an object.
    pub open spec fn field(self, key: Seq<char>) -> Option<Json> {
        match self {
            Json::Object(members) => if members.dom().contains(key) {
                Some(members[key])
            } else {
                None
            },
            _ => None,
        }
    }

    pub open spec fn text(self) -> Option<Seq<char>> {
        match self {
            Json::Text(s) => Some(s),
            _ => None,
        }
    }

    pub open spec fn boolean(self) -> Option<bool> {
        match self {
            Json::Bool(b) => Some(b),
            _ => None,
        }
    }

    pub open spec fn integer(self) -> Option<i64> {
        match self {
            Json::Number(n) => n,
            _ => None,
        }
    }

    pub open spec fn list(self) -> Option<Seq<Json>> {
        match self {
            Json::List(items) => Some(items),
            _ => None,
        }
    }

    /// The integer member `key` of an object.
    pub open spec fn integer_field(self, key: Seq<char>) -> Option<i64> {
        match self.field(key) {
            Some(v) => v.integer(),
            None => None,
        }
    }

    /// The member `key` of an object is the boolean `true`.
    pub open spec fn flag(self, key: Seq<char>) -> bool {
        self.field(key) matches Some(v) && v.boolean() == Some(true)
    }
}

/// What a parsed value holds.
pub uninterp spec fn json_of(v: serde_json::Value) -> Json;

/// What the JSON document in `bytes` says; `None` where it is not one.
pub uninterp spec fn json_text(bytes: Seq<u8>) -> Option<Json>;

/// `serde_json::from_slice` into its untyped tree. Claimed of it: whether the bytes
/// parse, and what they then hold, depends on the bytes alone.
#[verifier::external_body]
pub(crate) fn parse(bytes: &[u8]) -> (r: Option<serde_json::Value>)
    ensures
        match r {
            Some(v) => json_text(bytes@) == Some(json_of(v)),
            None => json_text(bytes@) is None,
        },
{
    serde_json::from_slice(bytes).ok()
}

/// `serde_json::Value::get` with a key: the member of that name where the value is an
/// object that has it, and `None` otherwise.
#[verifier::external_body]
pub(crate) fn field<'a>(v: &'a serde_json::Value, key: &str) -> (r: Option<&'a serde_json::Value>)
    ensures
        match r {
            Some(x) => json_of(*v).field(key@) == Some(json_of(*x)),
            None => json_of(*v).field(key@) is None,
        },
{
    v.get(key)
}

/// `serde_json::Value::as_str`: the text where the value is a string.
#[verifier::external_body]
pub(crate) fn as_text(v: &serde_json::Value) -> (r: Option<&str>)
    ensures
        match r {
            Some(s) => json_of(*v).text() == Some(s@),
            None => json_of(*v).text() is None,
        },
{
    v.as_str()
}

/// `serde_json::Value::as_bool`: the truth value where the value is a boolean.
#[verifier::external_body]
pub(crate) fn as_boolean(v: &serde_json::Value) -> (r: Option<bool>)
    ensures
        r == json_of(*v).boolean(),
{
    v.as_bool()
}

/// `serde_json::Value::as_i64`: the number where the value is an integer in the range
/// of `i64`.
#[verifier::external_body]
pub(crate) fn as_integer(v: &serde_json::Value) -> (r: Option<i64>)
    ensures
        r == json_of(*v).integer(),
{
    v.as_i64()
}

/// `serde_json::Value::as_array`: the items, in order, where the value is an array.
#[verifier::external_body]
pub(crate) fn as_list(v: &serde_json::Value) -> (r: Option<&Vec<serde_json::Value>>)
    ensures
        match r {
            Some(items) => json_of(*v).list() == Some(
                items@.map_values(|x: serde_json::Value| json_of(x)),
            ),
            None => json_of(*v).list() is None,
        },
{
    v.as_array()
}

/// The integer member `key` of an object.
pub(crate) fn integer_field(v: &serde_json::Value, key: &str) -> (r: Option<i64>)
    ensures
        r == json_of(*v).integer_field(key@),
{
    match field(v, key) {
        Some(x) => as_integer(x),
        None => None,
    }
}

/// Whether the member `key` of an object is the boolean `true`.
pub(crate) fn flag(v: &serde_json::Value, key: &str) -> (r: bool)
    ensures
        r == json_of(*v).flag(key@),
{
    match field(v, key) {
        Some(x) => match as_boolean(x) {
            Some(b) => b,
            None => false,
        },
        None => false,
    }
}

/// The integers among `items`, in order.
pub open spec fn integers(items: Seq<Json>) -> Seq<i64>
    decreases items.len(),
{
    if items.len() == 0 {
        Seq::empty()
    } else {
        let rest = integers(items.drop_last());
        match items.last().integer() {
            Some(n) => rest.push(n),
            None => rest,
        }
    }
}

/// The integers in the array that is the member `key` of an object; `None` where
/// there is no such array.
pub open spec fn integer_list(v: Json, key: Seq<char>) -> Option<Seq<i64>> {
    match v.field(key) {
        Some(x) => match x.list() {
            Some(items) => Some(integers(items)),
            None => None,
        },
        None => None,
    }
}

pub(crate) fn integers_in(v: &serde_json::Value, key: &str) -> (r: Option<Vec<i64>>)
    ensures
        match r {
            Some(out) => integer_list(json_of(*v), key@) == Some(out@),
            None => integer_list(json_of(*v), key@) is None,
        },
{
    let items: &Vec<serde_json::Value> = match field(v, key) {
        None => {
            return None;
        },
        Some(x) => match as_list(x) {
            None => {
                return None;
            },
            Some(items) => items,
        },
    };
    let ghost all = items@.map_values(|x: serde_json::Value| json_of(x));
    let n: usize = items.len();
    let mut out: Vec<i64> = Vec::new();
    let mut i: usize = 0;
    while i < n
        invariant
            n == items@.len(),
            i <= n,
            all == items@.map_values(|x: serde_json::Value| json_of(x)),
            out@ == integers(all.subrange(0, i as int)),
        decreases n - i,
    {
        assert(all.subrange(0, i + 1).drop_last() =~= all.subrange(0, i as int));
        if let Some(k) = as_integer(&items[i]) {
            out.push(k);
        }
        i = i + 1;
    }
    assert(all.subrange(0, n as int) =~= all);
    Some(out)
}

/// The integers of a list are those of its parts, one after the other: a whole number gives
/// itself, anything else nothing, and the order stays.
pub proof fn law_integers_are_taken_in_order(a: Seq<Json>, b: Seq<Json>, n: i64, other: Json)
    requires
        other is Null || other is Bool || other is Text || other is List || other is Object || other
            == Json::Number(None),
    ensures
        integers(a + b) == integers(a) + integers(b),
        integers(seq![Json::Number(Some(n))]) == seq![n],
        integers(seq![other]).len() == 0,
    decreases b.len(),
{
    reveal_with_fuel(integers, 2);
    let one = seq![Json::Number(Some(n))];
    assert(one.drop_last() =~= Seq::<Json>::empty());
    assert(integers(one) =~= seq![n]);
    assert(seq![other].drop_last() =~= Seq::<Json>::empty());
    if b.len() == 0 {
        assert(a + b =~= a);
        assert(integers(a) + integers(b) =~= integers(a));
    } else {
        law_integers_are_taken_in_order(a, b.drop_last(), n, other);
        assert((a + b).drop_last() =~= a + b.drop_last());
        assert((a + b).last() == b.last());
        assert(integers(a + b) =~= integers(a) + integers(b));
    }
}

} // verus!
