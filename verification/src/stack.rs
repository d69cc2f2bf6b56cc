use vstd::prelude::*;

verus! {

/// The ecosystems whose dependency manifests this library understands.
#[derive(Clone, Copy, Debug, PartialEq, Eq, Structural)]
pub enum Stack {
    Node,
    Rust,
    Python,
    Go,
    Maven,
    Gradle,
    Php,
    Ruby,
    Unknown,
}

/// Which of the canonical marker files are present in a project directory.
/// Callers fill this in from the filesystem; detection itself is pure.
#[derive(Clone, Copy, Debug, PartialEq, Eq, Structural)]
pub struct Markers {
    pub package_json: bool,
    pub cargo_toml: bool,
    pub requirements_dev_txt: bool,
    pub requirements_txt: bool,
    pub pyproject_toml: bool,
    pub go_mod: bool,
    pub pom_xml: bool,
    pub build_gradle: bool,
    pub build_gradle_kts: bool,
    pub composer_json: bool,
    pub gemfile: bool,
}

/// The fixed priority order of marker files: the first ecosystem whose
/// marker is present wins; no marker at all means `Unknown`.
pub open spec fn spec_detect(m: Markers) -> Stack {
    if m.package_json {
        Stack::Node
    } else if m.cargo_toml {
        Stack::Rust
    } else if m.requirements_dev_txt || m.requirements_txt || m.pyproject_toml {
        Stack::Python
    } else if m.go_mod {
        Stack::Go
    } else if m.pom_xml {
        Stack::Maven
    } else if m.build_gradle || m.build_gradle_kts {
        Stack::Gradle
    } else if m.composer_json {
        Stack::Php
    } else if m.gemfile {
        Stack::Ruby
    } else {
        Stack::Unknown
    }
}

/// True when at least one marker of the given ecosystem is present.
pub open spec fn marker_present(m: Markers, s: Stack) -> bool {
    match s {
        Stack::Node => m.package_json,
        Stack::Rust => m.cargo_toml,
        Stack::Python => m.requirements_dev_txt || m.requirements_txt || m.pyproject_toml,
        Stack::Go => m.go_mod,
        Stack::Maven => m.pom_xml,
        Stack::Gradle => m.build_gradle || m.build_gradle_kts,
        Stack::Php => m.composer_json,
        Stack::Ruby => m.gemfile,
        Stack::Unknown => false,
    }
}

impl Stack {
    /// Decide the ecosystem from the marker files found in a directory.
    pub fn detect(m: &Markers) -> (s: Stack)
        ensures
            s == spec_detect(*m),
    {
        if m.package_json {
            Stack::Node
        } else if m.cargo_toml {
            Stack::Rust
        } else if m.requirements_dev_txt || m.requirements_txt || m.pyproject_toml {
            Stack::Python
        } else if m.go_mod {
            Stack::Go
        } else if m.pom_xml {
            Stack::Maven
        } else if m.build_gradle || m.build_gradle_kts {
            Stack::Gradle
        } else if m.composer_json {
            Stack::Php
        } else if m.gemfile {
            Stack::Ruby
        } else {
            Stack::Unknown
        }
    }
}

/// When no marker file is present, detection reports `Unknown`.
pub proof fn lemma_detect_no_marker(m: Markers)
    requires
        forall|s: Stack| !marker_present(m, s),
    ensures
        spec_detect(m) == Stack::Unknown,
{
    assert(!marker_present(m, Stack::Node));
    assert(!marker_present(m, Stack::Rust));
    assert(!marker_present(m, Stack::Python));
    assert(!marker_present(m, Stack::Go));
    assert(!marker_present(m, Stack::Maven));
    assert(!marker_present(m, Stack::Gradle));
    assert(!marker_present(m, Stack::Php));
    assert(!marker_present(m, Stack::Ruby));
}

/// When markers of exactly one ecosystem are present, detection reports
/// that ecosystem: with a unique match the priority order cannot deflect it.
pub proof fn lemma_detect_unique_marker(m: Markers, s: Stack)
    requires
        s != Stack::Unknown,
        marker_present(m, s),
        forall|t: Stack| t != s ==> !marker_present(m, t),
    ensures
        spec_detect(m) == s,
{
    assert(s != Stack::Node ==> !marker_present(m, Stack::Node));
    assert(s != Stack::Rust ==> !marker_present(m, Stack::Rust));
    assert(s != Stack::Python ==> !marker_present(m, Stack::Python));
    assert(s != Stack::Go ==> !marker_present(m, Stack::Go));
    assert(s != Stack::Maven ==> !marker_present(m, Stack::Maven));
    assert(s != Stack::Gradle ==> !marker_present(m, Stack::Gradle));
    assert(s != Stack::Php ==> !marker_present(m, Stack::Php));
    assert(s != Stack::Ruby ==> !marker_present(m, Stack::Ruby));
}

} // verus!
