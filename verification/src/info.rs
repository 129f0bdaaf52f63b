//! Asset description files: a JSON document next to a scanned asset
//! gives its display name, tags and categories.
//!
//! The JSON text is parsed by serde_json; what a parsed document holds is
//! modeled by `JsonData`, and the extraction of the name, tag and
//! category fields is verified against that model.

use vstd::prelude::*;

verus! {

/// Model of a parsed JSON document: what a `serde_json::Value` holds.
/// Numbers are opaque — nothing here reads one.
pub enum JsonData {
    Null,
    Bool(bool),
    Num,
    Str(Seq<char>),
    Arr(Seq<JsonData>),
    Obj(Map<Seq<char>, JsonData>),
}

/// The document a `serde_json::Value` holds.
pub uninterp spec fn json_view(v: serde_json::Value) -> JsonData;

/// The document that parsing a text yields, if parsing succeeds; the
/// result depends on the text alone.
pub uninterp spec fn json_parse(s: Seq<char>) -> Option<JsonData>;

#[verifier::external_type_specification]
#[verifier::external_body]
pub struct ExValue(serde_json::Value);

/// Relies on serde_json::from_str for Value: it parses the text and
/// returns the document it describes, deterministically.
#[verifier::external_body]
fn parse_json(s: &str) -> (r: Option<serde_json::Value>)
    ensures
        r is Some <==> json_parse(s@) is Some,
        match r {
            Some(v) => json_parse(s@) == Some(json_view(v)),
            None => true,
        },
{
    match serde_json::from_str::<serde_json::Value>(s) {
        Ok(v) => Some(v),
        Err(_) => None,
    }
}

/// Relies on serde_json::Value::get with a string index: on an object it
/// looks the key up in the map; on anything else it returns nothing.
#[verifier::external_body]
fn value_get<'a>(v: &'a serde_json::Value, key: &str) -> (r: Option<&'a serde_json::Value>)
    ensures
        match json_view(*v) {
            JsonData::Obj(m) => {
                &&& r is Some <==> m.contains_key(key@)
                &&& match r {
                    Some(x) => m.contains_key(key@) && json_view(*x) == m[key@],
                    None => true,
                }
            },
            _ => r is None,
        },
{
    v.get(key)
}

/// Relies on serde_json::Value::as_str: the string slice of a String
/// value, and nothing for any other value.
#[verifier::external_body]
fn value_as_str<'a>(v: &'a serde_json::Value) -> (r: Option<&'a str>)
    ensures
        match json_view(*v) {
            JsonData::Str(s) => r matches Some(x) && x@ == s,
            _ => r is None,
        },
{
    v.as_str()
}

/// Relies on serde_json::Value::as_array: the element vector of an Array
/// value, and nothing for any other value.
#[verifier::external_body]
fn value_as_array<'a>(v: &'a serde_json::Value) -> (r: Option<&'a Vec<serde_json::Value>>)
    ensures
        match json_view(*v) {
            JsonData::Arr(a) => r matches Some(vec) && vec@.len() == a.len() && (forall|i: int|
                0 <= i < a.len() ==> json_view(#[trigger] vec@[i]) == a[i]),
            _ => r is None,
        },
{
    v.as_array()
}

/// The texts of the string elements of a JSON array, in order; elements
/// of any other kind are skipped.
pub open spec fn spec_strings_of(a: Seq<JsonData>) -> Seq<Seq<char>>
    decreases a.len(),
{
    if a.len() == 0 {
        Seq::empty()
    } else {
        spec_strings_of(a.drop_last()) + (match a.last() {
            JsonData::Str(s) => seq![s],
            _ => Seq::empty(),
        })
    }
}

/// Mathematical image of an asset description.
pub struct InfoI {
    pub name: Seq<char>,
    pub tags: Seq<Seq<char>>,
    pub categories: Seq<Seq<char>>,
}

/// The string elements of the array under `key`, or nothing when the key
/// is absent or not an array.
pub open spec fn spec_list_field(m: Map<Seq<char>, JsonData>, key: Seq<char>) -> Seq<Seq<char>> {
    if m.contains_key(key) {
        match m[key] {
            JsonData::Arr(a) => spec_strings_of(a),
            _ => Seq::empty(),
        }
    } else {
        Seq::empty()
    }
}

/// The description a JSON document carries: it must be an object with a
/// string under `name`; `tags` and `categories` contribute the string
/// elements of their arrays, and default to empty.
pub open spec fn spec_info_of(j: JsonData) -> Option<InfoI> {
    match j {
        JsonData::Obj(m) => {
            if m.contains_key("name"@) && m["name"@] is Str {
                Some(
                    InfoI {
                        name: m["name"@]->Str_0,
                        tags: spec_list_field(m, "tags"@),
                        categories: spec_list_field(m, "categories"@),
                    },
                )
            } else {
                None
            }
        },
        _ => None,
    }
}

/// The description a text describes: parse, then extract.
pub open spec fn spec_parse_info(s: Seq<char>) -> Option<InfoI> {
    match json_parse(s) {
        Some(j) => spec_info_of(j),
        None => None,
    }
}

/// An asset's description: display name, tags and categories.
#[derive(Debug)]
pub struct AssetInfo {
    pub name: String,
    pub tags: Vec<String>,
    pub categories: Vec<String>,
}

fn collect_strings(vec: &Vec<serde_json::Value>, Ghost(a): Ghost<Seq<JsonData>>) -> (r: Vec<
    String,
>)
    requires
        vec@.len() == a.len(),
        forall|i: int| 0 <= i < a.len() ==> json_view(#[trigger] vec@[i]) == a[i],
    ensures
        r@.map_values(|s: String| s@) == spec_strings_of(a),
{
    let n = vec.len();
    let mut out: Vec<String> = Vec::new();
    let mut i: usize = 0;
    while i < n
        invariant
            n == vec@.len(),
            n == a.len(),
            forall|k: int| 0 <= k < a.len() ==> json_view(#[trigger] vec@[k]) == a[k],
            i <= n,
            out@.map_values(|s: String| s@) =~= spec_strings_of(a.take(i as int)),
        decreases n - i,
    {
        let ghost pre = out@;
        match value_as_str(&vec[i]) {
            Some(s) => {
                out.push(s.to_string());
                proof {
                    assert(pre.map_values(|s: String| s@).len() == pre.len());
                    assert(out@ == pre.push(out@.last()));
                    assert forall|z: int|
                        0 <= z < out@.len() implies out@.map_values(|s: String| s@)[z]
                        == out@[z]@ by {}
                    assert forall|z: int|
                        0 <= z < pre.len() implies pre.map_values(|s: String| s@)[z]
                        == pre[z]@ by {}
                }
            },
            None => {},
        }
        proof {
            assert(a.take(i + 1).drop_last() =~= a.take(i as int));
            assert(a.take(i + 1).last() == a[i as int]);
            assert(out@.map_values(|s: String| s@) =~= spec_strings_of(a.take(i + 1)));
        }
        i = i + 1;
    }
    proof {
        assert(a.take(n as int) =~= a);
    }
    out
}

/// Extract the string elements of the array under `key` of object `v`.
fn list_field(v: &serde_json::Value, key: &str, Ghost(m): Ghost<Map<Seq<char>, JsonData>>) -> (r:
    Vec<String>)
    requires
        json_view(*v) == JsonData::Obj(m),
    ensures
        r@.map_values(|s: String| s@) == spec_list_field(m, key@),
{
    match value_get(v, key) {
        Some(field) => {
            let ghost fd = json_view(*field);
            match value_as_array(field) {
                Some(arr) => {
                    let ghost a = (match fd {
                        JsonData::Arr(a) => a,
                        _ => Seq::empty(),
                    });
                    collect_strings(arr, Ghost(a))
                },
                None => Vec::new(),
            }
        },
        None => Vec::new(),
    }
}

/// Parse an asset description text.  The result is exactly what the
/// text's JSON document carries: its `name` string (required), and the
/// string elements of its `tags` and `categories` arrays.
pub fn parse_asset_info(content: &str) -> (r: Option<AssetInfo>)
    ensures
        match spec_parse_info(content@) {
            Some(info) => r matches Some(ai) && ai.name@ == info.name && ai.tags@.map_values(
                |s: String| s@,
            ) == info.tags && ai.categories@.map_values(|s: String| s@) == info.categories,
            None => r is None,
        },
{
    let json = match parse_json(content) {
        Some(v) => v,
        None => {
            return None;
        },
    };
    let ghost m = (match json_view(json) {
        JsonData::Obj(mm) => mm,
        _ => Map::empty(),
    });
    let name = match value_get(&json, "name") {
        Some(field) => {
            match value_as_str(field) {
                Some(s) => s.to_string(),
                None => {
                    return None;
                },
            }
        },
        None => {
            return None;
        },
    };
    let tags = list_field(&json, "tags", Ghost(m));
    let categories = list_field(&json, "categories", Ghost(m));
    Some(AssetInfo { name, tags, categories })
}

} // verus!
