//! JSON values as `serde_json` reads and writes them, with each number kept
//! as the text `serde_json` prints for it, and the text-level functions of
//! the built-in `_JSON` module: reading a document, listing an object's
//! keys, looking up a key or an index, and setting a key.
use vstd::prelude::*;
use vstd::string::StringExecFns;
use crate::text::{push_decimal, str_eq, str_trim, trim, decimal};

verus! {

#[verifier::external_type_specification]
#[verifier::external_body]
pub struct ExSerdeValue(serde_json::Value);

/// A JSON value; a number is kept as its text.
#[derive(Debug, PartialEq)]
pub enum Json {
    Null,
    Bool(bool),
    Number(String),
    Str(String),
    Array(Vec<Json>),
    Object(Vec<(String, Json)>),
}

/// The mathematical mirror of a JSON value.
pub enum SJson {
    Null,
    Bool(bool),
    Number(Seq<char>),
    Str(Seq<char>),
    Array(Seq<SJson>),
    Object(Seq<(Seq<char>, SJson)>),
}

pub open spec fn json_view(j: Json) -> SJson
    decreases j,
{
    match j {
        Json::Null => SJson::Null,
        Json::Bool(b) => SJson::Bool(b),
        Json::Number(t) => SJson::Number(t@),
        Json::Str(s) => SJson::Str(s@),
        Json::Array(v) => SJson::Array(
            Seq::new(
                v.len() as nat,
                |i: int|
                    if 0 <= i < v.len() {
                        proof {
                            vstd::std_specs::vec::axiom_vec_index_decreases(v, i);
                        }
                        json_view(v[i])
                    } else {
                        SJson::Null
                    },
            ),
        ),
        Json::Object(v) => SJson::Object(
            Seq::new(
                v.len() as nat,
                |i: int|
                    if 0 <= i < v.len() {
                        proof {
                            vstd::std_specs::vec::axiom_vec_index_decreases(v, i);
                        }
                        (v[i].0@, json_view(v[i].1))
                    } else {
                        (Seq::empty(), SJson::Null)
                    },
            ),
        ),
    }
}

impl View for Json {
    type V = SJson;

    open spec fn view(&self) -> SJson {
        json_view(*self)
    }
}

// ---------------------------------------------------------------------
// Outside code: serde_json.

/// The value `serde_json` reads from a text, or none when the text is not
/// JSON; numbers by the text `serde_json` prints for them, an object's
/// fields in the order of its map (ascending keys).
pub uninterp spec fn serde_json_parse(text: Seq<char>) -> Option<SJson>;

/// The message of the error `serde_json` reports for text it cannot read.
pub uninterp spec fn serde_json_error_text(text: Seq<char>) -> Seq<char>;

/// The compact text `serde_json` writes for a value.
pub uninterp spec fn serde_json_text(v: SJson) -> Seq<char>;

/// A `serde_json` value in this library's form: each number by its printed
/// text, an object's fields in its map's order.
#[verifier::external_body]
fn from_serde(v: serde_json::Value) -> Json {
    match v {
        serde_json::Value::Null => Json::Null,
        serde_json::Value::Bool(b) => Json::Bool(b),
        serde_json::Value::Number(n) => Json::Number(n.to_string()),
        serde_json::Value::String(s) => Json::Str(s),
        serde_json::Value::Array(a) => Json::Array(a.into_iter().map(from_serde).collect()),
        serde_json::Value::Object(m) => Json::Object(m.into_iter().map(|(k, x)| (k, from_serde(x))).collect()),
    }
}

/// A value of this library in `serde_json`'s form: each number read back
/// from its text (a text that is no JSON number becomes null), the fields
/// of an object gathered into a map, a later field replacing an earlier one
/// of the same key.
#[verifier::external_body]
fn to_serde(j: &Json) -> serde_json::Value {
    match j {
        Json::Null => serde_json::Value::Null,
        Json::Bool(b) => serde_json::Value::Bool(*b),
        Json::Number(t) => t.parse::<serde_json::Number>().map(serde_json::Value::Number).unwrap_or(serde_json::Value::Null),
        Json::Str(s) => serde_json::Value::String(s.clone()),
        Json::Array(a) => serde_json::Value::Array(a.iter().map(to_serde).collect()),
        Json::Object(f) => serde_json::Value::Object(f.iter().map(|(k, x)| (k.clone(), to_serde(x))).collect()),
    }
}

/// `serde_json::from_str` into a `serde_json::Value`: the value read is
/// named `serde_json_parse` of the text, the error's message
/// `serde_json_error_text`; the JSON grammar is not restated.
#[verifier::external_body]
fn serde_read(text: &str) -> (r: Result<Json, String>)
    ensures
        match r {
            Ok(j) => serde_json_parse(text@) == Some(j@),
            Err(m) => serde_json_parse(text@) is None && m@ == serde_json_error_text(text@),
        },
{
    match serde_json::from_str::<serde_json::Value>(text) {
        Ok(v) => Ok(from_serde(v)),
        Err(e) => Err(e.to_string()),
    }
}

/// The `Display` of a `serde_json::Value` (its compact JSON text): named
/// `serde_json_text` of the value; the writer is not restated.
#[verifier::external_body]
fn serde_write(j: &Json) -> (r: String)
    ensures
        r@ == serde_json_text(j@),
{
    to_serde(j).to_string()
}

// ---------------------------------------------------------------------
// The `_JSON` functions.

/// The compact JSON text of a value, as `serde_json` writes it.
pub fn json_to_string(j: &Json) -> (r: String)
    ensures
        r@ == serde_json_text(j@),
{
    serde_write(j)
}

/// `JSON_PARSE`: the value of a JSON text, white space around it ignored.
pub fn json_parse(text: &str) -> (r: Result<Json, String>)
    ensures
        match serde_json_parse(trim(text@)) {
            Some(v) => r matches Ok(j) && j@ == v,
            None => r matches Err(m) && m@ == "JSON_PARSE error: "@ + serde_json_error_text(trim(text@)),
        },
{
    let t = str_trim(text);
    match serde_read(t.as_str()) {
        Ok(j) => Ok(j),
        Err(e) => {
            let mut m = String::from_str("JSON_PARSE error: ");
            m.append(e.as_str());
            Err(m)
        },
    }
}

/// The keys of an object's fields, in order.
pub open spec fn field_keys(fs: Seq<(Seq<char>, SJson)>) -> Seq<Seq<char>> {
    fs.map_values(|f: (Seq<char>, SJson)| f.0)
}

/// `JSON_KEYS`: the keys of the object a JSON text holds, in its order.
pub fn json_keys(text: &str) -> (r: Result<Vec<String>, String>)
    ensures
        match serde_json_parse(trim(text@)) {
            Some(SJson::Object(fs)) => r matches Ok(v) && v@.map_values(|k: String| k@) == field_keys(fs),
            Some(_) => r matches Err(m) && m@ == "JSON_KEYS requires a JSON object"@,
            None => r matches Err(m) && m@ == "JSON_KEYS parse error: "@ + serde_json_error_text(trim(text@)),
        },
{
    let t = str_trim(text);
    match serde_read(t.as_str()) {
        Ok(j) => {
            let ghost v = j@;
            match j {
                Json::Object(fields) => {
                    let ghost fv = field_keys(v->Object_0);
                    let mut keys: Vec<String> = Vec::new();
                    let mut i: usize = 0;
                    assert(keys@.map_values(|k: String| k@) =~= fv.take(0));
                    while i < fields.len()
                        invariant
                            i <= fields.len(),
                            fv.len() == fields.len(),
                            forall|k: int| 0 <= k < fields.len() ==> (#[trigger] fv[k]) == fields@[k].0@,
                            keys@.map_values(|k: String| k@) == fv.take(i as int),
                        decreases fields.len() - i,
                    {
                        let ghost before = keys@.map_values(|k: String| k@);
                        keys.push(fields[i].0.clone());
                        assert(keys@.map_values(|k: String| k@) =~= before.push(fv[i as int]));
                        assert(fv.take(i + 1) =~= fv.take(i as int).push(fv[i as int]));
                        i = i + 1;
                    }
                    assert(fv.take(fields.len() as int) =~= fv);
                    Ok(keys)
                },
                _ => Err(String::from_str("JSON_KEYS requires a JSON object")),
            }
        },
        Err(e) => {
            let mut m = String::from_str("JSON_KEYS parse error: ");
            m.append(e.as_str());
            Err(m)
        },
    }
}

/// The value of the first field of an object with this key.
pub open spec fn field_value(v: SJson, key: Seq<char>) -> Option<SJson> {
    match v {
        SJson::Object(fs) => if exists|i: int| 0 <= i < fs.len() && (#[trigger] fs[i]).0 == key {
            let i = choose|i: int|
                0 <= i < fs.len() && (#[trigger] fs[i]).0 == key && forall|k: int| 0 <= k < i ==> (#[trigger] fs[k]).0 != key;
            Some(fs[i].1)
        } else {
            None
        },
        _ => None,
    }
}

/// Where the first field with this key stands.
fn find_field(fields: &Vec<(String, Json)>, key: &str) -> (r: Option<usize>)
    ensures
        match r {
            Some(i) => i < fields.len() && fields@[i as int].0@ == key@ && forall|k: int|
                0 <= k < i ==> (#[trigger] fields@[k]).0@ != key@,
            None => forall|k: int| 0 <= k < fields.len() ==> (#[trigger] fields@[k]).0@ != key@,
        },
{
    let mut i: usize = 0;
    while i < fields.len()
        invariant
            i <= fields.len(),
            forall|k: int| 0 <= k < i ==> (#[trigger] fields@[k]).0@ != key@,
        decreases fields.len() - i,
    {
        if str_eq(fields[i].0.as_str(), key) {
            return Some(i);
        }
        i = i + 1;
    }
    None
}

proof fn lemma_field_value(fs: Seq<(Seq<char>, SJson)>, key: Seq<char>, i: int)
    requires
        0 <= i < fs.len(),
        fs[i].0 == key,
        forall|k: int| 0 <= k < i ==> (#[trigger] fs[k]).0 != key,
    ensures
        field_value(SJson::Object(fs), key) == Some(fs[i].1),
{
    assert(exists|i: int| 0 <= i < fs.len() && (#[trigger] fs[i]).0 == key);
    let c = choose|c: int|
        0 <= c < fs.len() && (#[trigger] fs[c]).0 == key && forall|k: int| 0 <= k < c ==> (#[trigger] fs[k]).0 != key;
    if c < i {
        assert(fs[c].0 != key);
    } else if c > i {
        assert(fs[i].0 != key);
    }
}

pub open spec fn key_not_found(key: Seq<char>) -> Seq<char> {
    "Key '"@ + key + "' not found"@
}

/// `JSON_GET` with a key: the value of the first field with that key of
/// the object a JSON text holds.
pub fn json_get_key(text: &str, key: &str) -> (r: Result<Json, String>)
    ensures
        match serde_json_parse(trim(text@)) {
            Some(v) => match field_value(v, key@) {
                Some(x) => r matches Ok(j) && j@ == x,
                None => r matches Err(m) && m@ == key_not_found(key@),
            },
            None => r matches Err(m) && m@ == "JSON_GET parse error: "@ + serde_json_error_text(trim(text@)),
        },
{
    let t = str_trim(text);
    let mut nf = String::from_str("Key '");
    nf.append(key);
    nf.append("' not found");
    match serde_read(t.as_str()) {
        Ok(j) => {
            let ghost v = j@;
            match j {
                Json::Object(mut fields) => {
                    let ghost fs = v->Object_0;
                    assert(forall|k: int| 0 <= k < fields.len() ==> (#[trigger] fs[k]) == (fields@[k].0@, json_view(fields@[k].1)));
                    match find_field(&fields, key) {
                        Some(i) => {
                            proof {
                                assert(fs[i as int].0 == key@);
                                assert forall|k: int| 0 <= k < i implies (#[trigger] fs[k]).0 != key@ by {
                                    assert(fields@[k].0@ != key@);
                                }
                                lemma_field_value(fs, key@, i as int);
                            }
                            let (_, x) = fields.remove(i);
                            Ok(x)
                        },
                        None => {
                            assert forall|k: int| 0 <= k < fs.len() implies (#[trigger] fs[k]).0 != key@ by {
                                assert(fields@[k].0@ != key@);
                            }
                            Err(nf)
                        },
                    }
                },
                _ => Err(nf),
            }
        },
        Err(e) => {
            let mut m = String::from_str("JSON_GET parse error: ");
            m.append(e.as_str());
            Err(m)
        },
    }
}

/// The element at an index of an array.
pub open spec fn element_at(v: SJson, index: nat) -> Option<SJson> {
    match v {
        SJson::Array(a) => if index < a.len() {
            Some(a[index as int])
        } else {
            None
        },
        _ => None,
    }
}

pub open spec fn index_out_of_bounds(index: nat) -> Seq<char> {
    "Index "@ + decimal(index) + " out of bounds"@
}

/// `JSON_GET` with an index: the element at that index of the array a JSON
/// text holds.
pub fn json_get_index(text: &str, index: usize) -> (r: Result<Json, String>)
    ensures
        match serde_json_parse(trim(text@)) {
            Some(v) => match element_at(v, index as nat) {
                Some(x) => r matches Ok(j) && j@ == x,
                None => r matches Err(m) && m@ == index_out_of_bounds(index as nat),
            },
            None => r matches Err(m) && m@ == "JSON_GET parse error: "@ + serde_json_error_text(trim(text@)),
        },
{
    let t = str_trim(text);
    let mut oob = String::from_str("Index ");
    push_decimal(&mut oob, index);
    oob.append(" out of bounds");
    match serde_read(t.as_str()) {
        Ok(j) => {
            let ghost v = j@;
            match j {
                Json::Array(mut items) => {
                    if index < items.len() {
                        let x = items.remove(index);
                        Ok(x)
                    } else {
                        Err(oob)
                    }
                },
                _ => Err(oob),
            }
        },
        Err(e) => {
            let mut m = String::from_str("JSON_GET parse error: ");
            m.append(e.as_str());
            Err(m)
        },
    }
}

/// An object's fields with a key set: the first field with that key gets
/// the value, or a new field comes last.
pub open spec fn object_insert(fs: Seq<(Seq<char>, SJson)>, key: Seq<char>, x: SJson) -> Seq<(Seq<char>, SJson)> {
    if exists|i: int| 0 <= i < fs.len() && (#[trigger] fs[i]).0 == key {
        let i = choose|i: int|
            0 <= i < fs.len() && (#[trigger] fs[i]).0 == key && forall|k: int| 0 <= k < i ==> (#[trigger] fs[k]).0 != key;
        fs.update(i, (key, x))
    } else {
        fs.push((key, x))
    }
}

/// `JSON_SET`: the JSON text of the object a JSON text holds, with a key
/// set to a value.
pub fn json_set(text: &str, key: String, value: Json) -> (r: Result<String, String>)
    ensures
        match serde_json_parse(trim(text@)) {
            Some(SJson::Object(fs)) => r matches Ok(t) && t@ == serde_json_text(
                SJson::Object(object_insert(fs, key@, value@)),
            ),
            Some(_) => r matches Err(m) && m@ == "JSON_SET requires a JSON object as first argument"@,
            None => r matches Err(m) && m@ == "JSON_SET parse error: "@ + serde_json_error_text(trim(text@)),
        },
{
    let t = str_trim(text);
    match serde_read(t.as_str()) {
        Ok(j) => {
            let ghost v = j@;
            match j {
                Json::Object(mut fields) => {
                    let ghost fs = v->Object_0;
                    let ghost kv = key@;
                    let ghost xv = value@;
                    assert(forall|k: int| 0 <= k < fields.len() ==> (#[trigger] fs[k]) == (fields@[k].0@, json_view(fields@[k].1)));
                    let ghost expected = object_insert(fs, kv, xv);
                    match find_field(&fields, key.as_str()) {
                        Some(i) => {
                            proof {
                                assert(fs[i as int].0 == kv);
                                assert forall|k: int| 0 <= k < i implies (#[trigger] fs[k]).0 != kv by {
                                    assert(fields@[k].0@ != kv);
                                }
                                let c = choose|c: int|
                                    0 <= c < fs.len() && (#[trigger] fs[c]).0 == kv && forall|k: int|
                                        0 <= k < c ==> (#[trigger] fs[k]).0 != kv;
                                if c < i {
                                    assert(fs[c].0 != kv);
                                } else if c > i {
                                    assert(fs[i as int].0 != kv);
                                }
                                assert(expected == fs.update(i as int, (kv, xv)));
                            }
                            fields.set(i, (key, value));
                        },
                        None => {
                            proof {
                                assert forall|k: int| 0 <= k < fs.len() implies (#[trigger] fs[k]).0 != kv by {
                                    assert(fields@[k].0@ != kv);
                                }
                                assert(expected == fs.push((kv, xv)));
                            }
                            fields.push((key, value));
                        },
                    }
                    let obj = Json::Object(fields);
                    assert(obj@->Object_0 =~= expected);
                    Ok(serde_write(&obj))
                },
                _ => Err(String::from_str("JSON_SET requires a JSON object as first argument")),
            }
        },
        Err(e) => {
            let mut m = String::from_str("JSON_SET parse error: ");
            m.append(e.as_str());
            Err(m)
        },
    }
}

} // verus!
