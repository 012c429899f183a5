//! JSON values as the protocol carries them: an executable value type and
//! its mathematical view.
use vstd::prelude::*;
use crate::text::{str_eq, string_from};

verus! {

/// The mathematical view of a JSON value.
pub enum Json {
    Null,
    Bool(bool),
    /// A non-negative integer.
    UInt(u64),
    /// A negative integer.
    Int(i64),
    /// Any other number, as its JSON text.
    Float(Seq<char>),
    Str(Seq<char>),
    Array(Seq<Json>),
    /// Members in order; when a key occurs twice the later member counts.
    Object(Seq<(Seq<char>, Json)>),
}

/// A JSON value.
#[derive(Debug)]
pub enum JsonValue {
    Null,
    Bool(bool),
    /// A non-negative integer.
    UInt(u64),
    /// A negative integer.
    Int(i64),
    /// Any other number (one with a fraction or an exponent), as its JSON text.
    Float(String),
    Str(String),
    Array(Vec<JsonValue>),
    /// Members in order; when a key occurs twice the later member counts.
    Object(Vec<(String, JsonValue)>),
}

pub open spec fn json_view(v: JsonValue) -> Json
    decreases v,
{
    match v {
        JsonValue::Null => Json::Null,
        JsonValue::Bool(b) => Json::Bool(b),
        JsonValue::UInt(u) => Json::UInt(u),
        JsonValue::Int(i) => Json::Int(i),
        JsonValue::Float(s) => Json::Float(s@),
        JsonValue::Str(s) => Json::Str(s@),
        JsonValue::Array(items) => Json::Array(
            Seq::new(
                items@.len(),
                |i: int|
                    if 0 <= i < items@.len() {
                        json_view(items@[i])
                    } else {
                        Json::Null
                    },
            ),
        ),
        JsonValue::Object(fields) => Json::Object(
            Seq::new(
                fields@.len(),
                |i: int|
                    if 0 <= i < fields@.len() {
                        (fields@[i].0@, json_view(fields@[i].1))
                    } else {
                        (Seq::empty(), Json::Null)
                    },
            ),
        ),
    }
}

impl View for JsonValue {
    type V = Json;

    open spec fn view(&self) -> Json {
        json_view(*self)
    }
}

/// The view of a sequence of values.
pub open spec fn items_view(items: Seq<JsonValue>) -> Seq<Json> {
    Seq::new(items.len(), |i: int| items[i]@)
}

/// The view of a sequence of members.
pub open spec fn fields_view(fields: Seq<(String, JsonValue)>) -> Seq<(Seq<char>, Json)> {
    Seq::new(fields.len(), |i: int| (fields[i].0@, fields[i].1@))
}

pub proof fn lemma_array_view(items: Vec<JsonValue>)
    ensures
        JsonValue::Array(items)@ == Json::Array(items_view(items@)),
{
    assert(JsonValue::Array(items)@->Array_0 =~= items_view(items@));
}

pub proof fn lemma_object_view(fields: Vec<(String, JsonValue)>)
    ensures
        JsonValue::Object(fields)@ == Json::Object(fields_view(fields@)),
{
    assert(JsonValue::Object(fields)@->Object_0 =~= fields_view(fields@));
}

/// The member that `key` names in a sequence of members: the last one.
pub open spec fn fields_lookup(fields: Seq<(Seq<char>, Json)>, key: Seq<char>) -> Option<Json>
    decreases fields.len(),
{
    if fields.len() == 0 {
        None
    } else if fields.last().0 == key {
        Some(fields.last().1)
    } else {
        fields_lookup(fields.drop_last(), key)
    }
}

/// `value.get(key)`: the member of an object, `None` for anything else.
pub open spec fn json_get(j: Json, key: Seq<char>) -> Option<Json> {
    match j {
        Json::Object(fields) => fields_lookup(fields, key),
        _ => None,
    }
}

/// `value.as_str()`.
pub open spec fn json_as_str(j: Json) -> Option<Seq<char>> {
    match j {
        Json::Str(s) => Some(s),
        _ => None,
    }
}

/// `value.as_u64()`: the value of an integer that is not negative.
pub open spec fn json_as_u64(j: Json) -> Option<u64> {
    match j {
        Json::UInt(u) => Some(u),
        Json::Int(i) => if i >= 0 {
            Some(i as u64)
        } else {
            None
        },
        _ => None,
    }
}

/// `value.as_bool()`.
pub open spec fn json_as_bool(j: Json) -> Option<bool> {
    match j {
        Json::Bool(b) => Some(b),
        _ => None,
    }
}

/// `value.as_array()`.
pub open spec fn json_as_array(j: Json) -> Option<Seq<Json>> {
    match j {
        Json::Array(a) => Some(a),
        _ => None,
    }
}

/// `Option::and_then(|p| p.get(key))` over optional parameters.
pub open spec fn opt_get(params: Option<Json>, key: Seq<char>) -> Option<Json> {
    match params {
        Some(p) => json_get(p, key),
        None => None,
    }
}

/// The view of optional parameters.
pub open spec fn opt_view(params: Option<JsonValue>) -> Option<Json> {
    match params {
        Some(p) => Some(p@),
        None => None,
    }
}

/// An object under construction with no members yet.
pub fn new_fields() -> (f: Vec<(String, JsonValue)>)
    ensures
        fields_view(f@) == Seq::<(Seq<char>, Json)>::empty(),
{
    let f: Vec<(String, JsonValue)> = Vec::new();
    assert(fields_view(f@) =~= Seq::<(Seq<char>, Json)>::empty());
    f
}

/// Appends a member to an object under construction.
pub fn push_field(fields: &mut Vec<(String, JsonValue)>, key: &str, value: JsonValue)
    ensures
        fields_view(final(fields)@) == fields_view(old(fields)@).push((key@, value@)),
{
    let k = string_from(key);
    fields.push((k, value));
    assert(fields_view(fields@) =~= fields_view(old(fields)@).push((key@, value@)));
}

/// An array under construction with no items yet.
pub fn new_items() -> (a: Vec<JsonValue>)
    ensures
        items_view(a@) == Seq::<Json>::empty(),
{
    let a: Vec<JsonValue> = Vec::new();
    assert(items_view(a@) =~= Seq::<Json>::empty());
    a
}

/// Appends an item to an array under construction.
pub fn push_item(items: &mut Vec<JsonValue>, value: JsonValue)
    ensures
        items_view(final(items)@) == items_view(old(items)@).push(value@),
{
    items.push(value);
    assert(items_view(items@) =~= items_view(old(items)@).push(items@.last()@));
}

/// A JSON string holding the characters of `s`.
pub fn jstr(s: &str) -> (r: JsonValue)
    ensures
        r@ == Json::Str(s@),
{
    JsonValue::Str(string_from(s))
}

impl JsonValue {
    /// The member that `key` names, if `self` is an object that has one.
    #[verifier::loop_isolation(false)]
    pub fn get(&self, key: &str) -> (r: Option<&JsonValue>)
        ensures
            match json_get(self@, key@) {
                Some(j) => r matches Some(x) && x@ == j,
                None => r is None,
            },
    {
        match self {
            JsonValue::Object(fields) => {
                proof {
                    lemma_object_view(*fields);
                }
                let ghost fv = fields_view(fields@);
                let mut i = fields.len();
                assert(fv.take(fv.len() as int) =~= fv);
                while i > 0
                    invariant
                        i <= fields@.len(),
                        fv == fields_view(fields@),
                        fields_lookup(fv, key@) == fields_lookup(fv.take(i as int), key@),
                    decreases i,
                {
                    let ghost pre = fv.take(i as int);
                    assert(pre.drop_last() =~= fv.take(i - 1));
                    assert(pre.last() == (fields@[i - 1].0@, fields@[i - 1].1@));
                    if str_eq(fields[i - 1].0.as_str(), key) {
                        return Some(&fields[i - 1].1);
                    }
                    i = i - 1;
                }
                None
            },
            _ => None,
        }
    }

    /// The text of a JSON string.
    pub fn as_str(&self) -> (r: Option<&str>)
        ensures
            match json_as_str(self@) {
                Some(s) => r matches Some(x) && x@ == s,
                None => r is None,
            },
    {
        match self {
            JsonValue::Str(s) => Some(s.as_str()),
            _ => None,
        }
    }

    /// The value of a JSON integer that is not negative.
    pub fn as_u64(&self) -> (r: Option<u64>)
        ensures
            r == json_as_u64(self@),
    {
        match self {
            JsonValue::UInt(u) => Some(*u),
            JsonValue::Int(i) => if *i >= 0 {
                Some(*i as u64)
            } else {
                None
            },
            _ => None,
        }
    }

    /// The value of a JSON boolean.
    pub fn as_bool(&self) -> (r: Option<bool>)
        ensures
            r == json_as_bool(self@),
    {
        match self {
            JsonValue::Bool(b) => Some(*b),
            _ => None,
        }
    }

    /// The items of a JSON array.
    pub fn as_array(&self) -> (r: Option<&Vec<JsonValue>>)
        ensures
            match json_as_array(self@) {
                Some(a) => r matches Some(v) && items_view(v@) == a,
                None => r is None,
            },
    {
        match self {
            JsonValue::Array(items) => {
                proof {
                    lemma_array_view(*items);
                }
                Some(items)
            },
            _ => None,
        }
    }

    /// A copy of the value.
    #[verifier::loop_isolation(false)]
    pub fn deep_clone(&self) -> (r: JsonValue)
        ensures
            r@ == self@,
        decreases self,
    {
        match self {
            JsonValue::Null => JsonValue::Null,
            JsonValue::Bool(b) => JsonValue::Bool(*b),
            JsonValue::UInt(u) => JsonValue::UInt(*u),
            JsonValue::Int(i) => JsonValue::Int(*i),
            JsonValue::Float(s) => JsonValue::Float(s.clone()),
            JsonValue::Str(s) => JsonValue::Str(s.clone()),
            JsonValue::Array(items) => {
                let mut out: Vec<JsonValue> = Vec::new();
                let mut i: usize = 0;
                while i < items.len()
                    invariant
                        i <= items@.len(),
                        out@.len() == i,
                        forall|k: int| 0 <= k < i ==> (#[trigger] out@[k])@ == items@[k]@,
                    decreases items@.len() - i,
                {
                    assert(decreases_to!(*items => items[i as int]));
                    let c = items[i].deep_clone();
                    out.push(c);
                    i = i + 1;
                }
                proof {
                    lemma_array_view(*items);
                    lemma_array_view(out);
                    assert(items_view(out@) =~= items_view(items@));
                }
                JsonValue::Array(out)
            },
            JsonValue::Object(fields) => {
                let mut out: Vec<(String, JsonValue)> = Vec::new();
                let mut i: usize = 0;
                while i < fields.len()
                    invariant
                        i <= fields@.len(),
                        out@.len() == i,
                        forall|k: int|
                            0 <= k < i ==> (#[trigger] out@[k]).0@ == fields@[k].0@ && out@[k].1@
                                == fields@[k].1@,
                    decreases fields@.len() - i,
                {
                    assert(decreases_to!(*fields => fields[i as int]));
                    let c = fields[i].1.deep_clone();
                    out.push((fields[i].0.clone(), c));
                    i = i + 1;
                }
                proof {
                    lemma_object_view(*fields);
                    lemma_object_view(out);
                    assert(fields_view(out@) =~= fields_view(fields@));
                }
                JsonValue::Object(out)
            },
        }
    }
}


/// The object `{key: true}`.
pub open spec fn flag_json(key: Seq<char>) -> Json {
    Json::Object(Seq::empty().push((key, Json::Bool(true))))
}

/// The object `{key: true}`.
pub fn flag_value(key: &str) -> (r: JsonValue)
    ensures
        r@ == flag_json(key@),
{
    let mut f = new_fields();
    push_field(&mut f, key, JsonValue::Bool(true));
    proof {
        lemma_object_view(f);
    }
    JsonValue::Object(f)
}

} // verus!
