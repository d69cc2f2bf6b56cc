use vstd::prelude::*;

use crate::jsonmanifest::entries_match_map;

verus! {

// ---------------------------------------------------------------------------
// The Cargo.toml manifest, read and written through toml_edit, which
// preserves the formatting of everything the edit does not touch.  The
// document is held as text; the two names below describe what toml_edit
// reads out of it, and the wrappers' contracts speak in terms of them.
// ---------------------------------------------------------------------------
/// The entries of the `[dev-dependencies]` table of the TOML text: each
/// dependency name mapped to its version value — the content of a string
/// value, or the trimmed raw text of any other value, or empty for an
/// entry that is itself a table.  `None` when a top-level
/// `dev-dependencies` item exists but is not a table — the one case the
/// operations refuse.  A text that does not parse, or has no such table,
/// reads as `Some` of the empty map.
pub uninterp spec fn toml_dev_deps_of(text: Seq<char>) -> Option<Map<Seq<char>, Seq<char>>>;

/// The top-level items of the TOML text other than `dev-dependencies`,
/// each mapped to its raw text.  An unparseable text reads as the empty
/// map.
pub uninterp spec fn toml_rest_of(text: Seq<char>) -> Map<Seq<char>, Seq<char>>;

/// Relies on toml_edit::DocumentMut::from_str, Table::get, Item::as_table,
/// Table::iter, Item::as_value and Value::as_str: collects the
/// `[dev-dependencies]` entries that `toml_dev_deps_of` denotes.
#[verifier::external_body]
pub fn toml_list_dev_deps(text: &str) -> (r: Vec<(String, String)>)
    ensures
        match toml_dev_deps_of(text@) {
            Some(m) => entries_match_map(r.deep_view(), m),
            None => r@.len() == 0,
        },
{
    let doc: toml_edit::DocumentMut = text.parse().unwrap_or_default();
    let mut out: Vec<(String, String)> = Vec::new();
    if let Some(table) = doc.get("dev-dependencies").and_then(|t| t.as_table()) {
        for (k, item) in table.iter() {
            let ver = match item.as_value() {
                Some(toml_edit::Value::String(f)) => f.value().clone(),
                Some(other) => other.to_string().trim().to_string(),
                None => String::new(),
            };
            out.push((k.to_string(), ver));
        }
    }
    out
}

/// Relies on toml_edit::DocumentMut::from_str, Table::entry,
/// Entry::or_insert, Item::as_table_mut, Table::insert, toml_edit::value
/// and DocumentMut::to_string: writes `name = "version"` into the
/// `[dev-dependencies]` table, creating it if absent, and serializes the
/// document back with every other item's text preserved.  An unparseable
/// text starts from an empty document, as a missing manifest is read.
#[verifier::external_body]
pub fn toml_upsert_dev_dep(text: &str, name: &str, version: &str) -> (r: Option<String>)
    ensures
        r is Some <==> toml_dev_deps_of(text@) is Some,
        r matches Some(out) ==> {
            &&& toml_dev_deps_of(out@) == Some(
                toml_dev_deps_of(text@).unwrap().insert(name@, version@),
            )
            &&& toml_rest_of(out@) == toml_rest_of(text@)
        },
{
    let mut doc: toml_edit::DocumentMut = text.parse().unwrap_or_default();
    let item = doc.as_table_mut().entry("dev-dependencies").or_insert(
        toml_edit::Item::Table(toml_edit::Table::new()),
    );
    let table = item.as_table_mut()?;
    table.insert(name, toml_edit::value(version));
    Some(doc.to_string())
}

/// Relies on toml_edit::DocumentMut::from_str, Table::get_mut,
/// Item::as_table_mut, Table::remove and DocumentMut::to_string: drops
/// `name` from the `[dev-dependencies]` table and serializes the document
/// back with every other item's text preserved.
#[verifier::external_body]
pub fn toml_remove_dev_dep(text: &str, name: &str) -> (r: Option<String>)
    ensures
        r is Some <==> toml_dev_deps_of(text@) is Some,
        r matches Some(out) ==> {
            &&& toml_dev_deps_of(out@) == Some(toml_dev_deps_of(text@).unwrap().remove(name@))
            &&& toml_rest_of(out@) == toml_rest_of(text@)
        },
{
    let mut doc: toml_edit::DocumentMut = text.parse().unwrap_or_default();
    match doc.as_table_mut().get_mut("dev-dependencies") {
        Some(item) => {
            let table = item.as_table_mut()?;
            table.remove(name);
        },
        None => {},
    }
    Some(doc.to_string())
}

/// Add a dependency and then delete it again.  Every top-level item other
/// than the dev-dependency table keeps its exact text, and when the name
/// was not in the table to begin with, the table itself also reads back
/// unchanged.
pub fn toml_add_then_delete(text: &str, name: &str, version: &str) -> (r: Option<String>)
    ensures
        r is Some <==> toml_dev_deps_of(text@) is Some,
        r matches Some(out) ==> {
            &&& toml_rest_of(out@) == toml_rest_of(text@)
            &&& (toml_dev_deps_of(text@) is Some && !toml_dev_deps_of(
                text@,
            ).unwrap().contains_key(name@)) ==> (toml_dev_deps_of(out@) is Some
                && toml_dev_deps_of(out@).unwrap() =~= toml_dev_deps_of(text@).unwrap())
        },
{
    let added = match toml_upsert_dev_dep(text, name, version) {
        Some(a) => a,
        None => {
            return None;
        },
    };
    let removed = match toml_remove_dev_dep(added.as_str(), name) {
        Some(b) => b,
        None => {
            return None;
        },
    };
    proof {
        let before = toml_dev_deps_of(text@).unwrap();
        let after = toml_dev_deps_of(removed@).unwrap();
        assert(after =~= before.insert(name@, version@).remove(name@));
        if !before.contains_key(name@) {
            assert(before.insert(name@, version@).remove(name@) =~= before);
        }
    }
    Some(removed)
}

} // verus!
