use vstd::prelude::*;
use vstd::string::StringExecFns;

use crate::maven::spec_extract_between;
use crate::maven::extract_between;
use crate::text::string_from_chars;
use crate::text::subrange_chars;
use crate::text::to_chars;

verus! {

// ---------------------------------------------------------------------------
// Endpoint templates.  Building the URL is pure; performing the request is
// the caller's business, and the response body comes back here as text.
// ---------------------------------------------------------------------------
pub fn npm_latest_url(name: &str) -> (r: String)
    ensures
        r@ == "https://registry.npmjs.org/"@ + name@ + "/latest"@,
{
    let mut r = String::new();
    r.append("https://registry.npmjs.org/");
    r.append(name);
    r.append("/latest");
    r
}

pub fn crates_latest_url(name: &str) -> (r: String)
    ensures
        r@ == "https://crates.io/api/v1/crates/"@ + name@,
{
    let mut r = String::new();
    r.append("https://crates.io/api/v1/crates/");
    r.append(name);
    r
}

pub fn pypi_latest_url(name: &str) -> (r: String)
    ensures
        r@ == "https://pypi.org/pypi/"@ + name@ + "/json"@,
{
    let mut r = String::new();
    r.append("https://pypi.org/pypi/");
    r.append(name);
    r.append("/json");
    r
}

pub fn go_latest_url(name: &str) -> (r: String)
    ensures
        r@ == "https://proxy.golang.org/"@ + name@ + "/@latest"@,
{
    let mut r = String::new();
    r.append("https://proxy.golang.org/");
    r.append(name);
    r.append("/@latest");
    r
}

pub fn packagist_latest_url(name: &str) -> (r: String)
    ensures
        r@ == "https://repo.packagist.org/p2/"@ + name@ + ".json"@,
{
    let mut r = String::new();
    r.append("https://repo.packagist.org/p2/");
    r.append(name);
    r.append(".json");
    r
}

pub fn rubygems_latest_url(name: &str) -> (r: String)
    ensures
        r@ == "https://rubygems.org/api/v1/gems/"@ + name@ + ".json"@,
{
    let mut r = String::new();
    r.append("https://rubygems.org/api/v1/gems/");
    r.append(name);
    r.append(".json");
    r
}

/// A character sequence with every `from` replaced by `to`.
pub open spec fn spec_replace_char(s: Seq<char>, from: char, to: char) -> Seq<char> {
    Seq::new(s.len(), |i: int| if s[i] == from { to } else { s[i] })
}

/// Replace every occurrence of one character.
pub fn replace_char(v: &Vec<char>, from: char, to: char) -> (r: Vec<char>)
    ensures
        r@ == spec_replace_char(v@, from, to),
{
    let mut r: Vec<char> = Vec::new();
    let mut i: usize = 0;
    while i < v.len()
        invariant
            i <= v@.len(),
            r@ == spec_replace_char(v@, from, to).take(i as int),
        decreases v@.len() - i,
    {
        let c = v[i];
        if c == from {
            r.push(to);
        } else {
            r.push(c);
        }
        i = i + 1;
        proof {
            let w = spec_replace_char(v@, from, to);
            assert(w.take(i as int) =~= w.take(i as int - 1).push(w[i as int - 1]));
        }
    }
    proof {
        let w = spec_replace_char(v@, from, to);
        assert(w.take(w.len() as int) =~= w);
    }
    r
}

/// The Maven metadata URL: the group with dots as slashes, then the artifact.
pub fn maven_metadata_url(group: &str, artifact: &str) -> (r: String)
    ensures
        r@ == "https://repo1.maven.org/maven2/"@ + spec_replace_char(group@, '.', '/') + "/"@
            + artifact@ + "/maven-metadata.xml"@,
{
    let gv = to_chars(group);
    let path = replace_char(&gv, '.', '/');
    let paths = string_from_chars(&path);
    let mut r = String::new();
    r.append("https://repo1.maven.org/maven2/");
    r.append(paths.as_str());
    r.append("/");
    r.append(artifact);
    r.append("/maven-metadata.xml");
    r
}

// ---------------------------------------------------------------------------
// Reading registry responses.  The JSON bodies are read through serde_json
// behind the named wrappers below; the Maven XML is read by delimiter
// search, fully in house.
// ---------------------------------------------------------------------------
/// The string at the top-level key `key` of the JSON document `text`,
/// absent when the text does not parse, the key is missing, or its value
/// is not a string.
pub uninterp spec fn json_str_field_of(text: Seq<char>, key: Seq<char>) -> Option<Seq<char>>;

/// Relies on serde_json::from_str, Value::get and Value::as_str; its
/// result is what `json_str_field_of` denotes.
#[verifier::external_body]
fn json_str_field(text: &str, key: &str) -> (r: Option<String>)
    ensures
        match r {
            Some(s) => json_str_field_of(text@, key@) == Some(s@),
            None => json_str_field_of(text@, key@) is None,
        },
{
    let v: serde_json::Value = match serde_json::from_str(text) {
        Ok(v) => v,
        Err(_) => {
            return None;
        },
    };
    v.get(key).and_then(|f| f.as_str()).map(|s| s.to_string())
}

/// The string at the key path `key1.key2` of the JSON document `text`,
/// absent when the text does not parse, a key is missing, or the final
/// value is not a string.
pub uninterp spec fn json_str_field2_of(text: Seq<char>, key1: Seq<char>, key2: Seq<char>) -> Option<
    Seq<char>,
>;

/// Relies on serde_json::from_str, Value::get and Value::as_str; its
/// result is what `json_str_field2_of` denotes.
#[verifier::external_body]
fn json_str_field2(text: &str, key1: &str, key2: &str) -> (r: Option<String>)
    ensures
        match r {
            Some(s) => json_str_field2_of(text@, key1@, key2@) == Some(s@),
            None => json_str_field2_of(text@, key1@, key2@) is None,
        },
{
    let v: serde_json::Value = match serde_json::from_str(text) {
        Ok(v) => v,
        Err(_) => {
            return None;
        },
    };
    v.get(key1).and_then(|f| f.get(key2)).and_then(|f| f.as_str()).map(|s| s.to_string())
}

/// The string at `packages.{name}[0].version` of the Packagist response
/// `text`, absent when the text does not parse or the path is missing.
pub uninterp spec fn packagist_version_of(text: Seq<char>, name: Seq<char>) -> Option<Seq<char>>;

/// Relies on serde_json::from_str, Value::get (by key and by index) and
/// Value::as_str; its result is what `packagist_version_of` denotes.
#[verifier::external_body]
fn packagist_version_field(text: &str, name: &str) -> (r: Option<String>)
    ensures
        match r {
            Some(s) => packagist_version_of(text@, name@) == Some(s@),
            None => packagist_version_of(text@, name@) is None,
        },
{
    let v: serde_json::Value = match serde_json::from_str(text) {
        Ok(v) => v,
        Err(_) => {
            return None;
        },
    };
    v.get("packages")
        .and_then(|p| p.get(name))
        .and_then(|p| p.get(0))
        .and_then(|p| p.get("version"))
        .and_then(|p| p.as_str())
        .map(|s| s.to_string())
}

// ---------------------------------------------------------------------------
// The per-ecosystem resolvers over a response body.  A missing body — an
// unreachable endpoint or a non-success response — always reads as absent,
// never as a failure.
// ---------------------------------------------------------------------------
/// npm: the `version` field of the `/latest` document.
pub fn npm_latest(body: Option<&String>) -> (r: Option<String>)
    ensures
        body is None ==> r is None,
        body matches Some(b) ==> match r {
            Some(s) => json_str_field_of(b@, "version"@) == Some(s@),
            None => json_str_field_of(b@, "version"@) is None,
        },
{
    match body {
        None => None,
        Some(b) => json_str_field(b.as_str(), "version"),
    }
}

/// crates.io: the `crate.max_stable_version` field.
pub fn crates_latest(body: Option<&String>) -> (r: Option<String>)
    ensures
        body is None ==> r is None,
        body matches Some(b) ==> match r {
            Some(s) => json_str_field2_of(b@, "crate"@, "max_stable_version"@) == Some(s@),
            None => json_str_field2_of(b@, "crate"@, "max_stable_version"@) is None,
        },
{
    match body {
        None => None,
        Some(b) => json_str_field2(b.as_str(), "crate", "max_stable_version"),
    }
}

/// PyPI: the `info.version` field.
pub fn pypi_latest(body: Option<&String>) -> (r: Option<String>)
    ensures
        body is None ==> r is None,
        body matches Some(b) ==> match r {
            Some(s) => json_str_field2_of(b@, "info"@, "version"@) == Some(s@),
            None => json_str_field2_of(b@, "info"@, "version"@) is None,
        },
{
    match body {
        None => None,
        Some(b) => json_str_field2(b.as_str(), "info", "version"),
    }
}

/// The Go module proxy: the `Version` field of the `@latest` document.
pub fn go_latest(body: Option<&String>) -> (r: Option<String>)
    ensures
        body is None ==> r is None,
        body matches Some(b) ==> match r {
            Some(s) => json_str_field_of(b@, "Version"@) == Some(s@),
            None => json_str_field_of(b@, "Version"@) is None,
        },
{
    match body {
        None => None,
        Some(b) => json_str_field(b.as_str(), "Version"),
    }
}

/// RubyGems: the `version` field of the gem document.
pub fn rubygems_latest(body: Option<&String>) -> (r: Option<String>)
    ensures
        body is None ==> r is None,
        body matches Some(b) ==> match r {
            Some(s) => json_str_field_of(b@, "version"@) == Some(s@),
            None => json_str_field_of(b@, "version"@) is None,
        },
{
    match body {
        None => None,
        Some(b) => json_str_field(b.as_str(), "version"),
    }
}

/// Index of the first character that is not `c`.
pub open spec fn skip_char_idx(s: Seq<char>, c: char, i: int) -> int
    decreases s.len() - i,
{
    if 0 <= i < s.len() && s[i] == c {
        skip_char_idx(s, c, i + 1)
    } else {
        i
    }
}

/// The sequence with every leading `c` removed.
pub open spec fn spec_strip_leading(s: Seq<char>, c: char) -> Seq<char> {
    s.subrange(skip_char_idx(s, c, 0), s.len() as int)
}

/// Remove every leading occurrence of one character.
pub fn strip_leading(v: &Vec<char>, c: char) -> (r: Vec<char>)
    ensures
        r@ == spec_strip_leading(v@, c),
{
    let mut a: usize = 0;
    while a < v.len() && v[a] == c
        invariant
            0 <= a <= v@.len(),
            skip_char_idx(v@, c, 0) == skip_char_idx(v@, c, a as int),
        decreases v@.len() - a,
    {
        a = a + 1;
    }
    assert(skip_char_idx(v@, c, a as int) == a);
    subrange_chars(v, a, v.len())
}

/// Packagist: the first package's `version`, with leading `v` markers
/// stripped.
pub fn packagist_latest(body: Option<&String>, name: &str) -> (r: Option<String>)
    ensures
        body is None ==> r is None,
        body matches Some(b) ==> match r {
            Some(s) => packagist_version_of(b@, name@) matches Some(raw) && s@
                == spec_strip_leading(raw, 'v'),
            None => packagist_version_of(b@, name@) is None,
        },
{
    match body {
        None => None,
        Some(b) => {
            match packagist_version_field(b.as_str(), name) {
                None => None,
                Some(raw) => {
                    let rv = to_chars(raw.as_str());
                    let stripped = strip_leading(&rv, 'v');
                    Some(string_from_chars(&stripped))
                },
            }
        },
    }
}

/// Maven: the `<release>` tag of the metadata document, else `<latest>`.
pub fn maven_latest(body: Option<&String>) -> (r: Option<String>)
    ensures
        body is None ==> r is None,
        body matches Some(b) ==> {
            let first = spec_extract_between(b@, "<release>"@, "</release>"@);
            let second = spec_extract_between(b@, "<latest>"@, "</latest>"@);
            match r {
                Some(s) => first == Some(s@) || (first is None && second == Some(s@)),
                None => first is None && second is None,
            }
        },
{
    match body {
        None => None,
        Some(b) => {
            let bv = to_chars(b.as_str());
            let r_open = to_chars("<release>");
            let r_close = to_chars("</release>");
            match extract_between(&bv, &r_open, &r_close) {
                Some(p) => Some(string_from_chars(&p)),
                None => {
                    let l_open = to_chars("<latest>");
                    let l_close = to_chars("</latest>");
                    match extract_between(&bv, &l_open, &l_close) {
                        Some(p) => Some(string_from_chars(&p)),
                        None => None,
                    }
                },
            }
        },
    }
}

} // verus!
