use vstd::prelude::*;
use vstd::string::StringExecFns;

use crate::cargotoml::toml_dev_deps_of;
use crate::cargotoml::toml_list_dev_deps;
use crate::cargotoml::toml_remove_dev_dep;
use crate::cargotoml::toml_rest_of;
use crate::cargotoml::toml_upsert_dev_dep;
use crate::gemfile::parse_gemfile;
use crate::gemfile::spec_parse_gemfile;
use crate::gomod::parse_go_mod;
use crate::gomod::spec_parse_go_mod;
use crate::gradle::parse_gradle_deps;
use crate::gradle::spec_parse_gradle_deps;
use crate::jsonmanifest::entries_match_map;
use crate::jsonmanifest::json_remove_entry;
use crate::jsonmanifest::json_rest_of;
use crate::jsonmanifest::json_section_of;
use crate::jsonmanifest::json_upsert_entry;
use crate::maven::Triple;
use crate::maven::parse_maven_deps;
use crate::maven::spec_parse_maven_deps;
use crate::omap::Entry;
use crate::requirements::parse_requirements;
use crate::requirements::requirements_add;
use crate::requirements::requirements_delete;
use crate::requirements::requirements_update;
use crate::requirements::apply_resolved;
use crate::requirements::spec_parse_requirements;
use crate::requirements::spec_write_requirements;
use crate::requirements::star;
use crate::omap::entries_insert;
use crate::omap::entries_remove;
use crate::stack::Stack;
use crate::text::first_idx;
use crate::text::lemma_first_idx_bounds;
use crate::text::scan_char;
use crate::text::string_from_chars;
use crate::text::subrange_chars;
use crate::text::to_chars;

verus! {

// ---------------------------------------------------------------------------
// The entries each manifest dialect declares
// ---------------------------------------------------------------------------
/// Where the Node manifest lives, relative to the project root.
pub fn node_package_json() -> (r: String)
    ensures
        r@ == "package.json"@,
{
    "package.json".to_owned()
}

/// Where the Rust manifest lives, relative to the project root.
pub fn cargo_toml() -> (r: String)
    ensures
        r@ == "Cargo.toml"@,
{
    "Cargo.toml".to_owned()
}

/// Where the Python requirements live: the dev file when present, else
/// the plain one.
pub fn requirements_path(has_dev_file: bool) -> (r: String)
    ensures
        has_dev_file ==> r@ == "requirements-dev.txt"@,
        !has_dev_file ==> r@ == "requirements.txt"@,
{
    if has_dev_file {
        "requirements-dev.txt".to_owned()
    } else {
        "requirements.txt".to_owned()
    }
}

/// Where the Go manifest lives, relative to the project root.
pub fn go_mod_path() -> (r: String)
    ensures
        r@ == "go.mod"@,
{
    "go.mod".to_owned()
}

/// Where the Maven manifest lives, relative to the project root.
pub fn pom_xml_path() -> (r: String)
    ensures
        r@ == "pom.xml"@,
{
    "pom.xml".to_owned()
}

/// Where the Gradle build script lives: the Kotlin one when present,
/// else the Groovy one.
pub fn gradle_build_path(has_kts: bool) -> (r: String)
    ensures
        has_kts ==> r@ == "build.gradle.kts"@,
        !has_kts ==> r@ == "build.gradle"@,
{
    if has_kts {
        "build.gradle.kts".to_owned()
    } else {
        "build.gradle".to_owned()
    }
}

/// Where the PHP manifest lives, relative to the project root.
pub fn composer_json_path() -> (r: String)
    ensures
        r@ == "composer.json"@,
{
    "composer.json".to_owned()
}

/// Where the Ruby manifest lives, relative to the project root.
pub fn gemfile_path() -> (r: String)
    ensures
        r@ == "Gemfile"@,
{
    "Gemfile".to_owned()
}

/// A coordinate list as name/version pairs, the name being `group:artifact`.
pub open spec fn triple_pairs(ts: Seq<Triple>) -> Seq<Entry> {
    ts.map_values(|t: Triple| (t.0 + seq![':'] + t.1, t.2))
}

/// Turn a coordinate list into name/version pairs.
fn triples_to_pairs(ts: &Vec<(String, String, String)>) -> (r: Vec<(String, String)>)
    ensures
        r.deep_view() == triple_pairs(ts.deep_view()),
{
    let mut r: Vec<(String, String)> = Vec::new();
    proof {
        assert(r.deep_view() =~~= triple_pairs(ts.deep_view()).take(0));
    }
    let mut i: usize = 0;
    while i < ts.len()
        invariant
            i <= ts@.len(),
            r.deep_view() == triple_pairs(ts.deep_view()).take(i as int),
        decreases ts@.len() - i,
    {
        let mut name = ts[i].0.clone();
        name.append(":");
        name.append(ts[i].1.as_str());
        let ver = ts[i].2.clone();
        let ghost before = r.deep_view();
        r.push((name, ver));
        proof {
            reveal_strlit(":");
            assert(":"@ =~= seq![':']);
            assert(ts.deep_view()[i as int] == (ts@[i as int].0@, ts@[i as int].1@, ts@[
                i as int].2@));
            assert(r.deep_view() =~~= before.push(
                (ts@[i as int].0@ + seq![':'] + ts@[i as int].1@, ts@[i as int].2@),
            ));
            assert(before.push(triple_pairs(ts.deep_view())[i as int]) =~~= triple_pairs(
                ts.deep_view(),
            ).take(i + 1));
        }
        i = i + 1;
    }
    proof {
        let w = triple_pairs(ts.deep_view());
        assert(w.take(w.len() as int) =~~= w);
    }
    r
}

/// List the development dependencies a manifest text declares, as
/// name/version pairs in the dialect's own order.
pub fn list(stack: Stack, text: &str) -> (r: Vec<(String, String)>)
    ensures
        match stack {
            Stack::Node => entries_match_map(r.deep_view(), json_section_of(text@, "devDependencies"@)),
            Stack::Php => entries_match_map(r.deep_view(), json_section_of(text@, "require-dev"@)),
            Stack::Rust => match toml_dev_deps_of(text@) {
                Some(m) => entries_match_map(r.deep_view(), m),
                None => r@.len() == 0,
            },
            Stack::Python => r.deep_view() == spec_parse_requirements(text@),
            Stack::Go => r.deep_view() == spec_parse_go_mod(text@),
            Stack::Maven => r.deep_view() == triple_pairs(spec_parse_maven_deps(text@)),
            Stack::Gradle => r.deep_view() == triple_pairs(spec_parse_gradle_deps(text@)),
            Stack::Ruby => r.deep_view() == spec_parse_gemfile(text@),
            Stack::Unknown => r@.len() == 0,
        },
{
    match stack {
        Stack::Node => crate::jsonmanifest::json_section_entries(text, "devDependencies"),
        Stack::Php => crate::jsonmanifest::json_section_entries(text, "require-dev"),
        Stack::Rust => toml_list_dev_deps(text),
        Stack::Python => parse_requirements(text).to_pairs(),
        Stack::Go => parse_go_mod(text).to_pairs(),
        Stack::Maven => triples_to_pairs(&parse_maven_deps(text)),
        Stack::Gradle => triples_to_pairs(&parse_gradle_deps(text)),
        Stack::Ruby => parse_gemfile(text).to_pairs(),
        Stack::Unknown => Vec::new(),
    }
}

/// The version an `add` writes when none is given.
pub open spec fn version_or_star(version: Option<&str>) -> Seq<char> {
    match version {
        Some(v) => v@,
        None => star(),
    }
}

fn version_str<'a>(version: Option<&'a str>) -> (r: &'a str)
    ensures
        r@ == version_or_star(version),
{
    match version {
        Some(v) => v,
        None => {
            proof {
                reveal_strlit("*");
                assert("*"@ =~= star());
            }
            "*"
        },
    }
}

/// Add a dependency to a manifest text, returning the new text.  The
/// ecosystems whose manifests this library does not mutate, and an
/// unknown stack, answer `None`; so does a JSON or TOML document whose
/// relevant part is not the expected shape.
pub fn add(stack: Stack, text: &str, name: &str, version: Option<&str>) -> (r: Option<String>)
    ensures
        match stack {
            Stack::Node => {
                &&& r is Some <==> json_rest_of(text@, "devDependencies"@) is Some
                &&& r matches Some(out) ==> json_section_of(out@, "devDependencies"@)
                    == json_section_of(text@, "devDependencies"@).insert(
                    name@,
                    version_or_star(version),
                ) && json_rest_of(out@, "devDependencies"@) == json_rest_of(
                    text@,
                    "devDependencies"@,
                )
            },
            Stack::Php => {
                &&& r is Some <==> json_rest_of(text@, "require-dev"@) is Some
                &&& r matches Some(out) ==> json_section_of(out@, "require-dev"@)
                    == json_section_of(text@, "require-dev"@).insert(
                    name@,
                    version_or_star(version),
                ) && json_rest_of(out@, "require-dev"@) == json_rest_of(text@, "require-dev"@)
            },
            Stack::Rust => {
                &&& r is Some <==> toml_dev_deps_of(text@) is Some
                &&& r matches Some(out) ==> toml_dev_deps_of(out@) == Some(
                    toml_dev_deps_of(text@).unwrap().insert(name@, version_or_star(version)),
                ) && toml_rest_of(out@) == toml_rest_of(text@)
            },
            Stack::Python => r matches Some(out) && out@ == spec_write_requirements(
                entries_insert(spec_parse_requirements(text@), name@, version_or_star(version)),
            ),
            _ => r is None,
        },
{
    match stack {
        Stack::Node => json_upsert_entry(text, "devDependencies", name, version_str(version)),
        Stack::Php => json_upsert_entry(text, "require-dev", name, version_str(version)),
        Stack::Rust => toml_upsert_dev_dep(text, name, version_str(version)),
        Stack::Python => Some(requirements_add(text, name, version)),
        _ => None,
    }
}

/// Fold resolved versions into a name-to-version map, left to right.
pub open spec fn map_apply_resolved(
    m: Map<Seq<char>, Seq<char>>,
    resolved: Seq<Entry>,
) -> Map<Seq<char>, Seq<char>>
    decreases resolved.len(),
{
    if resolved.len() == 0 {
        m
    } else {
        map_apply_resolved(m, resolved.drop_last()).insert(
            resolved.last().0,
            resolved.last().1,
        )
    }
}

/// Rewrite each resolved name to its resolved version in a JSON manifest.
fn json_update_entries(text: &str, section: &str, resolved: &Vec<(String, String)>) -> (r: Option<
    String,
>)
    ensures
        r is None ==> json_rest_of(text@, section@) is None,
        r matches Some(out) ==> {
            &&& json_section_of(out@, section@) == map_apply_resolved(
                json_section_of(text@, section@),
                resolved.deep_view(),
            )
            &&& json_rest_of(out@, section@) == json_rest_of(text@, section@)
        },
{
    let mut cur = text.to_owned();
    let ghost rs = resolved.deep_view();
    proof {
        assert(rs.take(0) =~= Seq::<Entry>::empty());
    }
    let mut i: usize = 0;
    while i < resolved.len()
        invariant
            i <= resolved@.len(),
            rs == resolved.deep_view(),
            json_section_of(cur@, section@) == map_apply_resolved(
                json_section_of(text@, section@),
                rs.take(i as int),
            ),
            json_rest_of(cur@, section@) == json_rest_of(text@, section@),
        decreases resolved@.len() - i,
    {
        assert(rs[i as int] == (resolved@[i as int].0@, resolved@[i as int].1@));
        match json_upsert_entry(
            cur.as_str(),
            section,
            resolved[i].0.as_str(),
            resolved[i].1.as_str(),
        ) {
            Some(nxt) => {
                cur = nxt;
            },
            None => {
                return None;
            },
        }
        proof {
            assert(rs.take(i + 1).drop_last() =~= rs.take(i as int));
            assert(rs.take(i + 1).last() == rs[i as int]);
        }
        i = i + 1;
    }
    proof {
        assert(rs.take(rs.len() as int) =~= rs);
    }
    Some(cur)
}

/// Rewrite each resolved name to its resolved version in a Cargo manifest.
fn toml_update_entries(text: &str, resolved: &Vec<(String, String)>) -> (r: Option<String>)
    ensures
        r is None ==> toml_dev_deps_of(text@) is None,
        r matches Some(out) ==> {
            &&& toml_dev_deps_of(text@) is Some ==> toml_dev_deps_of(out@) == Some(
                map_apply_resolved(toml_dev_deps_of(text@).unwrap(), resolved.deep_view()),
            )
            &&& toml_rest_of(out@) == toml_rest_of(text@)
            &&& toml_dev_deps_of(text@) is None ==> out@ == text@
        },
{
    let ghost rs = resolved.deep_view();
    if resolved.len() == 0 {
        return Some(text.to_owned());
    }
    assert(rs[0] == (resolved@[0].0@, resolved@[0].1@));
    let mut cur = match toml_upsert_dev_dep(text, resolved[0].0.as_str(), resolved[0].1.as_str()) {
        Some(n) => n,
        None => {
            return None;
        },
    };
    proof {
        assert(rs.take(1).drop_last() =~= Seq::<Entry>::empty());
        assert(rs.take(1).last() == rs[0]);
        let m = toml_dev_deps_of(text@).unwrap();
        assert(map_apply_resolved(m, rs.take(1)) == map_apply_resolved(
            m,
            rs.take(1).drop_last(),
        ).insert(rs.take(1).last().0, rs.take(1).last().1));
        assert(map_apply_resolved(m, Seq::<Entry>::empty()) == m);
    }
    let mut i: usize = 1;
    while i < resolved.len()
        invariant
            1 <= i <= resolved@.len(),
            rs == resolved.deep_view(),
            toml_dev_deps_of(text@) is Some,
            toml_dev_deps_of(cur@) == Some(
                map_apply_resolved(toml_dev_deps_of(text@).unwrap(), rs.take(i as int)),
            ),
            toml_rest_of(cur@) == toml_rest_of(text@),
        decreases resolved@.len() - i,
    {
        assert(rs[i as int] == (resolved@[i as int].0@, resolved@[i as int].1@));
        match toml_upsert_dev_dep(cur.as_str(), resolved[i].0.as_str(), resolved[i].1.as_str()) {
            Some(nxt) => {
                cur = nxt;
            },
            None => {
                return None;
            },
        }
        proof {
            assert(rs.take(i + 1).drop_last() =~= rs.take(i as int));
            assert(rs.take(i + 1).last() == rs[i as int]);
        }
        i = i + 1;
    }
    proof {
        assert(rs.take(rs.len() as int) =~= rs);
    }
    Some(cur)
}

/// Rewrite the resolved names to their resolved versions, returning the
/// new manifest text.  Ecosystems whose manifests this library does not
/// mutate answer `None`.
pub fn update(stack: Stack, text: &str, resolved: &Vec<(String, String)>) -> (r: Option<String>)
    ensures
        match stack {
            Stack::Node => {
                &&& r is None ==> json_rest_of(text@, "devDependencies"@) is None
                &&& r matches Some(out) ==> json_section_of(out@, "devDependencies"@)
                    == map_apply_resolved(
                    json_section_of(text@, "devDependencies"@),
                    resolved.deep_view(),
                ) && json_rest_of(out@, "devDependencies"@) == json_rest_of(
                    text@,
                    "devDependencies"@,
                )
            },
            Stack::Php => {
                &&& r is None ==> json_rest_of(text@, "require-dev"@) is None
                &&& r matches Some(out) ==> json_section_of(out@, "require-dev"@)
                    == map_apply_resolved(
                    json_section_of(text@, "require-dev"@),
                    resolved.deep_view(),
                ) && json_rest_of(out@, "require-dev"@) == json_rest_of(text@, "require-dev"@)
            },
            Stack::Rust => {
                &&& r is None ==> toml_dev_deps_of(text@) is None
                &&& r matches Some(out) ==> (toml_dev_deps_of(text@) is Some
                    ==> toml_dev_deps_of(out@) == Some(
                    map_apply_resolved(toml_dev_deps_of(text@).unwrap(), resolved.deep_view()),
                )) && toml_rest_of(out@) == toml_rest_of(text@)
            },
            Stack::Python => r matches Some(out) && out@ == spec_write_requirements(
                apply_resolved(spec_parse_requirements(text@), resolved.deep_view()),
            ),
            _ => r is None,
        },
{
    match stack {
        Stack::Node => json_update_entries(text, "devDependencies", resolved),
        Stack::Php => json_update_entries(text, "require-dev", resolved),
        Stack::Rust => toml_update_entries(text, resolved),
        Stack::Python => Some(requirements_update(text, resolved)),
        _ => None,
    }
}

/// Remove a dependency from a manifest text, returning the new text; a
/// name that is absent leaves the dependency section as it was.
pub fn delete(stack: Stack, text: &str, name: &str) -> (r: Option<String>)
    ensures
        match stack {
            Stack::Node => {
                &&& r is Some <==> json_rest_of(text@, "devDependencies"@) is Some
                &&& r matches Some(out) ==> json_section_of(out@, "devDependencies"@)
                    == json_section_of(text@, "devDependencies"@).remove(name@) && json_rest_of(
                    out@,
                    "devDependencies"@,
                ) == json_rest_of(text@, "devDependencies"@)
            },
            Stack::Php => {
                &&& r is Some <==> json_rest_of(text@, "require-dev"@) is Some
                &&& r matches Some(out) ==> json_section_of(out@, "require-dev"@)
                    == json_section_of(text@, "require-dev"@).remove(name@) && json_rest_of(
                    out@,
                    "require-dev"@,
                ) == json_rest_of(text@, "require-dev"@)
            },
            Stack::Rust => {
                &&& r is Some <==> toml_dev_deps_of(text@) is Some
                &&& r matches Some(out) ==> toml_dev_deps_of(out@) == Some(
                    toml_dev_deps_of(text@).unwrap().remove(name@),
                ) && toml_rest_of(out@) == toml_rest_of(text@)
            },
            Stack::Python => r matches Some(out) && out@ == spec_write_requirements(
                entries_remove(spec_parse_requirements(text@), name@),
            ),
            _ => r is None,
        },
{
    match stack {
        Stack::Node => json_remove_entry(text, "devDependencies", name),
        Stack::Php => json_remove_entry(text, "require-dev", name),
        Stack::Rust => toml_remove_dev_dep(text, name),
        Stack::Python => Some(requirements_delete(text, name)),
        _ => None,
    }
}

// ---------------------------------------------------------------------------
// The aggregated view of one dependency
// ---------------------------------------------------------------------------
/// One dependency with its resolved state and the display helpers the
/// report embeds.
pub struct DependencyInfo {
    pub name: String,
    pub current_version: String,
    pub latest_version: Option<String>,
    pub update_command: String,
    pub url: String,
}

impl DependencyInfo {
    /// The Markdown link to the package's registry page.
    pub fn link(&self) -> (r: String)
        ensures
            r@ == "["@ + self.name@ + "]("@ + self.url@ + ")"@,
    {
        let mut r = String::new();
        r.append("[");
        r.append(self.name.as_str());
        r.append("](");
        r.append(self.url.as_str());
        r.append(")");
        r
    }
}

/// The group part of a `group:artifact` name: everything before the
/// first colon.
pub open spec fn name_group(n: Seq<char>) -> Seq<char> {
    n.take(first_idx(n, ':'))
}

/// The artifact part: everything after the first colon, empty without one.
pub open spec fn name_artifact(n: Seq<char>) -> Seq<char> {
    if first_idx(n, ':') < n.len() {
        n.subrange(first_idx(n, ':') + 1, n.len() as int)
    } else {
        Seq::empty()
    }
}

/// The shell command that would apply the update, per ecosystem.
pub open spec fn spec_update_command(stack: Stack, name: Seq<char>, latest: Option<Seq<char>>) -> Seq<
    char,
> {
    match stack {
        Stack::Node => "npm install "@ + name + "@latest -D"@,
        Stack::Rust => "cargo update -p "@ + name + " --precise "@ + match latest {
            Some(l) => l,
            None => Seq::empty(),
        },
        Stack::Python => "pip install -U "@ + name,
        Stack::Go => "go get "@ + name + "@latest"@,
        Stack::Maven => "mvn dependency:get -Dartifact="@ + name + ":LATEST"@,
        Stack::Gradle => "./gradlew --refresh-dependencies"@,
        Stack::Php => "composer update "@ + name,
        Stack::Ruby => "bundle update "@ + name,
        Stack::Unknown => Seq::empty(),
    }
}

/// The package's registry page, per ecosystem.
pub open spec fn spec_dep_url(stack: Stack, name: Seq<char>) -> Seq<char> {
    match stack {
        Stack::Node => "https://www.npmjs.com/package/"@ + name,
        Stack::Rust => "https://crates.io/crates/"@ + name,
        Stack::Python => "https://pypi.org/project/"@ + name + "/"@,
        Stack::Go => "https://pkg.go.dev/"@ + name,
        Stack::Maven => "https://search.maven.org/artifact/"@ + name_group(name) + "/"@
            + name_artifact(name),
        Stack::Gradle => "https://search.maven.org/artifact/"@ + name_group(name) + "/"@
            + name_artifact(name),
        Stack::Php => "https://packagist.org/packages/"@ + name,
        Stack::Ruby => "https://rubygems.org/gems/"@ + name,
        Stack::Unknown => Seq::empty(),
    }
}

fn update_command_for(stack: Stack, name: &str, latest: &Option<String>) -> (r: String)
    ensures
        r@ == spec_update_command(stack, name@, latest.deep_view()),
{
    let mut r = String::new();
    match stack {
        Stack::Node => {
            r.append("npm install ");
            r.append(name);
            r.append("@latest -D");
        },
        Stack::Rust => {
            r.append("cargo update -p ");
            r.append(name);
            r.append(" --precise ");
            match latest {
                Some(l) => r.append(l.as_str()),
                None => {},
            }
        },
        Stack::Python => {
            r.append("pip install -U ");
            r.append(name);
        },
        Stack::Go => {
            r.append("go get ");
            r.append(name);
            r.append("@latest");
        },
        Stack::Maven => {
            r.append("mvn dependency:get -Dartifact=");
            r.append(name);
            r.append(":LATEST");
        },
        Stack::Gradle => {
            r.append("./gradlew --refresh-dependencies");
        },
        Stack::Php => {
            r.append("composer update ");
            r.append(name);
        },
        Stack::Ruby => {
            r.append("bundle update ");
            r.append(name);
        },
        Stack::Unknown => {},
    }
    r
}

fn dep_url_for(stack: Stack, name: &str) -> (r: String)
    ensures
        r@ == spec_dep_url(stack, name@),
{
    let mut r = String::new();
    match stack {
        Stack::Node => {
            r.append("https://www.npmjs.com/package/");
            r.append(name);
        },
        Stack::Rust => {
            r.append("https://crates.io/crates/");
            r.append(name);
        },
        Stack::Python => {
            r.append("https://pypi.org/project/");
            r.append(name);
            r.append("/");
        },
        Stack::Go => {
            r.append("https://pkg.go.dev/");
            r.append(name);
        },
        Stack::Maven => {
            maven_url_parts(&mut r, name);
        },
        Stack::Gradle => {
            maven_url_parts(&mut r, name);
        },
        Stack::Php => {
            r.append("https://packagist.org/packages/");
            r.append(name);
        },
        Stack::Ruby => {
            r.append("https://rubygems.org/gems/");
            r.append(name);
        },
        Stack::Unknown => {},
    }
    r
}

fn maven_url_parts(r: &mut String, name: &str)
    requires
        old(r)@ == Seq::<char>::empty(),
    ensures
        final(r)@ == "https://search.maven.org/artifact/"@ + name_group(name@) + "/"@
            + name_artifact(name@),
{
    let nv = to_chars(name);
    let cpos = scan_char(&nv, 0, ':');
    proof {
        assert(nv@.subrange(0, nv@.len() as int) =~= nv@);
        lemma_first_idx_bounds(nv@, ':');
    }
    let group = subrange_chars(&nv, 0, cpos);
    proof {
        assert(group@ =~= name_group(name@));
    }
    let groups = string_from_chars(&group);
    r.append("https://search.maven.org/artifact/");
    r.append(groups.as_str());
    r.append("/");
    if cpos < nv.len() {
        let artifact = subrange_chars(&nv, cpos + 1, nv.len());
        proof {
            assert(artifact@ =~= name_artifact(name@));
        }
        let artifacts = string_from_chars(&artifact);
        r.append(artifacts.as_str());
    } else {
        proof {
            assert(name_artifact(name@) =~= Seq::<char>::empty());
        }
    }
}

/// Join listed entries with their resolved latest versions, one
/// `DependencyInfo` per entry, in the entries' own order.
pub fn get_dependencies(
    stack: Stack,
    entries: &Vec<(String, String)>,
    latests: &Vec<Option<String>>,
) -> (r: Vec<DependencyInfo>)
    requires
        latests@.len() == entries@.len(),
    ensures
        r@.len() == entries@.len(),
        forall|i: int|
            0 <= i < r@.len() ==> {
                &&& (#[trigger] r@[i]).name@ == entries.deep_view()[i].0
                &&& r@[i].current_version@ == entries.deep_view()[i].1
                &&& r@[i].latest_version.deep_view() == latests@[i].deep_view()
                &&& r@[i].update_command@ == spec_update_command(
                    stack,
                    entries.deep_view()[i].0,
                    latests@[i].deep_view(),
                )
                &&& r@[i].url@ == spec_dep_url(stack, entries.deep_view()[i].0)
            },
{
    let mut r: Vec<DependencyInfo> = Vec::new();
    let mut i: usize = 0;
    while i < entries.len()
        invariant
            i <= entries@.len(),
            latests@.len() == entries@.len(),
            r@.len() == i,
            forall|j: int|
                0 <= j < i ==> {
                    &&& (#[trigger] r@[j]).name@ == entries.deep_view()[j].0
                    &&& r@[j].current_version@ == entries.deep_view()[j].1
                    &&& r@[j].latest_version.deep_view() == latests@[j].deep_view()
                    &&& r@[j].update_command@ == spec_update_command(
                        stack,
                        entries.deep_view()[j].0,
                        latests@[j].deep_view(),
                    )
                    &&& r@[j].url@ == spec_dep_url(stack, entries.deep_view()[j].0)
                },
        decreases entries@.len() - i,
    {
        let name = entries[i].0.clone();
        let current = entries[i].1.clone();
        let latest = match &latests[i] {
            Some(l) => Some(l.clone()),
            None => None,
        };
        let cmd = update_command_for(stack, name.as_str(), &latest);
        let url = dep_url_for(stack, name.as_str());
        proof {
            assert(entries.deep_view()[i as int] == (entries@[i as int].0@, entries@[
                i as int].1@));
        }
        r.push(
            DependencyInfo {
                name,
                current_version: current,
                latest_version: latest,
                update_command: cmd,
                url,
            },
        );
        i = i + 1;
    }
    r
}

/// The resolved latest version recorded for `name`: the first matching
/// answer, or absent when the resolver was not asked or did not answer.
pub open spec fn lookup_first(
    rs: Seq<(Seq<char>, Option<Seq<char>>)>,
    name: Seq<char>,
) -> Option<Seq<char>>
    decreases rs.len(),
{
    if rs.len() == 0 {
        None
    } else if rs[0].0 == name {
        rs[0].1
    } else {
        lookup_first(rs.drop_first(), name)
    }
}

fn lookup_resolved(resolved: &Vec<(String, Option<String>)>, name: &str) -> (r: Option<String>)
    ensures
        r.deep_view() == lookup_first(resolved.deep_view(), name@),
{
    let nv = to_chars(name);
    let ghost rs = resolved.deep_view();
    proof {
        assert(rs.skip(0) =~= rs);
    }
    let mut i: usize = 0;
    loop
        invariant
            i <= resolved@.len(),
            rs == resolved.deep_view(),
            nv@ == name@,
            lookup_first(rs, name@) == lookup_first(rs.skip(i as int), name@),
        decreases resolved@.len() - i,
    {
        let ghost rest = rs.skip(i as int);
        if i == resolved.len() {
            return None;
        }
        assert(rest[0] == rs[i as int]);
        let ec = to_chars(resolved[i].0.as_str());
        if crate::text::chars_eq(&nv, &ec) {
            let out = match &resolved[i].1 {
                Some(l) => Some(l.clone()),
                None => None,
            };
            proof {
                assert(rs[i as int] == (resolved@[i as int].0@, resolved@[
                    i as int].1.deep_view()));
            }
            return out;
        }
        proof {
            assert(rest.drop_first() =~= rs.skip(i + 1));
            assert(rs[i as int] == (resolved@[i as int].0@, resolved@[i as int].1.deep_view()));
        }
        i = i + 1;
    }
}

/// Join listed entries with resolver answers recorded by name: each entry
/// is paired with the first answer recorded for its name, absent answers
/// and unlisted names reading as "latest unknown".
pub fn gather_with_latest(
    stack: Stack,
    entries: &Vec<(String, String)>,
    resolved: &Vec<(String, Option<String>)>,
) -> (r: Vec<DependencyInfo>)
    ensures
        r@.len() == entries@.len(),
        forall|i: int|
            0 <= i < r@.len() ==> {
                &&& (#[trigger] r@[i]).name@ == entries.deep_view()[i].0
                &&& r@[i].current_version@ == entries.deep_view()[i].1
                &&& r@[i].latest_version.deep_view() == lookup_first(
                    resolved.deep_view(),
                    entries.deep_view()[i].0,
                )
                &&& r@[i].update_command@ == spec_update_command(
                    stack,
                    entries.deep_view()[i].0,
                    lookup_first(resolved.deep_view(), entries.deep_view()[i].0),
                )
                &&& r@[i].url@ == spec_dep_url(stack, entries.deep_view()[i].0)
            },
{
    let mut latests: Vec<Option<String>> = Vec::new();
    let mut i: usize = 0;
    while i < entries.len()
        invariant
            i <= entries@.len(),
            latests@.len() == i,
            forall|j: int|
                0 <= j < i ==> (#[trigger] latests@[j]).deep_view() == lookup_first(
                    resolved.deep_view(),
                    entries.deep_view()[j].0,
                ),
        decreases entries@.len() - i,
    {
        proof {
            assert(entries.deep_view()[i as int] == (entries@[i as int].0@, entries@[
                i as int].1@));
        }
        let l = lookup_resolved(resolved, entries[i].0.as_str());
        latests.push(l);
        i = i + 1;
    }
    get_dependencies(stack, entries, &latests)
}

} // verus!
