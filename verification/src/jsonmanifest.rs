use vstd::prelude::*;

verus! {

// ---------------------------------------------------------------------------
// The JSON-backed manifests (package.json, composer.json), read and written
// through serde_json.  The document is held as text; the two names below
// describe what serde_json reads out of that text, and every wrapper's
// contract speaks in terms of them.
// ---------------------------------------------------------------------------
/// The string-valued entries of the object stored under the top-level key
/// `section` of the JSON document `text`.  A text that does not parse, a
/// missing section, or a section that is not an object all read as the
/// empty map, matching the load-with-default behaviour of the operations.
pub uninterp spec fn json_section_of(text: Seq<char>, section: Seq<char>) -> Map<
    Seq<char>,
    Seq<char>,
>;

/// The top-level fields of the JSON document `text` other than `section`,
/// each mapped to the serialized text of its value.  `None` when the text
/// parses to a non-object root, or when the section entry is present but
/// is not an object — the cases in which the mutating operations refuse
/// to touch the document.  An unparseable text reads as the empty object.
pub uninterp spec fn json_rest_of(text: Seq<char>, section: Seq<char>) -> Option<
    Map<Seq<char>, Seq<char>>,
>;

/// The pairs list exactly the entries of `m`, each name once.
pub open spec fn entries_match_map(
    pairs: Seq<(Seq<char>, Seq<char>)>,
    m: Map<Seq<char>, Seq<char>>,
) -> bool {
    &&& forall|i: int|
        0 <= i < pairs.len() ==> m.contains_key(#[trigger] pairs[i].0) && m[pairs[i].0]
            == pairs[i].1
    &&& forall|i: int, j: int| 0 <= i < j < pairs.len() ==> pairs[i].0 != pairs[j].0
    &&& forall|k: Seq<char>|
        #[trigger] m.contains_key(k) ==> exists|i: int|
            0 <= i < pairs.len() && (#[trigger] pairs[i]).0 == k
}

/// Relies on serde_json::from_str, Value::get, Value::as_object and
/// Value::as_str: collects the string-valued entries of the named section,
/// which is what `json_section_of` denotes.
#[verifier::external_body]
pub fn json_section_entries(text: &str, section: &str) -> (r: Vec<(String, String)>)
    ensures
        entries_match_map(r.deep_view(), json_section_of(text@, section@)),
{
    let mut out: Vec<(String, String)> = Vec::new();
    if let Ok(v) = serde_json::from_str::<serde_json::Value>(text) {
        if let Some(obj) = v.get(section).and_then(|d| d.as_object()) {
            for (k, val) in obj {
                if let Some(s) = val.as_str() {
                    out.push((k.clone(), s.to_string()));
                }
            }
        }
    }
    out
}

/// Relies on serde_json::from_str, Value::as_object_mut, Map::entry,
/// Map::insert and serde_json::to_string_pretty: writes `name = version`
/// into the named section and re-serializes the whole document, leaving
/// every other top-level field as it was.  An unparseable text starts
/// from an empty object, as a missing manifest is read.
#[verifier::external_body]
pub fn json_upsert_entry(text: &str, section: &str, name: &str, version: &str) -> (r: Option<
    String,
>)
    ensures
        r is Some <==> json_rest_of(text@, section@) is Some,
        r matches Some(out) ==> {
            &&& json_section_of(out@, section@) == json_section_of(text@, section@).insert(
                name@,
                version@,
            )
            &&& json_rest_of(out@, section@) == json_rest_of(text@, section@)
        },
{
    let mut v: serde_json::Value = serde_json::from_str(text).unwrap_or_else(
        |_| serde_json::Value::Object(serde_json::Map::new()),
    );
    let obj = v.as_object_mut()?;
    let entry = obj.entry(section.to_string()).or_insert_with(
        || serde_json::Value::Object(serde_json::Map::new()),
    );
    let map = entry.as_object_mut()?;
    map.insert(name.to_string(), serde_json::Value::String(version.to_string()));
    serde_json::to_string_pretty(&v).ok()
}

/// Relies on serde_json::from_str, Value::as_object_mut, Map::get_mut,
/// Map::remove and serde_json::to_string_pretty: drops `name` from the
/// named section and re-serializes, leaving every other top-level field
/// as it was.
#[verifier::external_body]
pub fn json_remove_entry(text: &str, section: &str, name: &str) -> (r: Option<String>)
    ensures
        r is Some <==> json_rest_of(text@, section@) is Some,
        r matches Some(out) ==> {
            &&& json_section_of(out@, section@) == json_section_of(text@, section@).remove(name@)
            &&& json_rest_of(out@, section@) == json_rest_of(text@, section@)
        },
{
    let mut v: serde_json::Value = serde_json::from_str(text).unwrap_or_else(
        |_| serde_json::Value::Object(serde_json::Map::new()),
    );
    let obj = v.as_object_mut()?;
    if let Some(sec) = obj.get_mut(section) {
        let map = sec.as_object_mut()?;
        map.remove(name);
    }
    serde_json::to_string_pretty(&v).ok()
}

// ---------------------------------------------------------------------------
// What a mutation cycle leaves untouched
// ---------------------------------------------------------------------------
/// Add a dependency and then delete it again.  Every top-level field
/// outside the section reads back exactly as before, and when the name
/// was not in the section to begin with, the section itself also reads
/// back unchanged.
pub fn json_add_then_delete(text: &str, section: &str, name: &str, version: &str) -> (r: Option<
    String,
>)
    ensures
        r is Some <==> json_rest_of(text@, section@) is Some,
        r matches Some(out) ==> {
            &&& json_rest_of(out@, section@) == json_rest_of(text@, section@)
            &&& !json_section_of(text@, section@).contains_key(name@) ==> json_section_of(
                out@,
                section@,
            ) =~= json_section_of(text@, section@)
        },
{
    let added = match json_upsert_entry(text, section, name, version) {
        Some(a) => a,
        None => {
            return None;
        },
    };
    let removed = match json_remove_entry(added.as_str(), section, name) {
        Some(b) => b,
        None => {
            return None;
        },
    };
    proof {
        let before = json_section_of(text@, section@);
        let after = json_section_of(removed@, section@);
        assert(after =~= before.insert(name@, version@).remove(name@));
        if !before.contains_key(name@) {
            assert(before.insert(name@, version@).remove(name@) =~= before);
        }
    }
    Some(removed)
}

} // verus!
