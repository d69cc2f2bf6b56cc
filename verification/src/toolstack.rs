use vstd::prelude::*;
use vstd::string::StringExecFns;

use crate::text::spec_starts_with;
use crate::text::starts_with;
use crate::text::to_chars;

verus! {

/// The build tool a project uses, as the configuration store and the
/// test watcher see it.  Unlike the manifest engine's detection this
/// one checks the Rust marker first.
#[derive(Clone, Copy, Debug, PartialEq, Eq, Structural)]
pub enum Stack {
    Rust,
    Node,
    Python,
    Go,
    JavaMaven,
    JavaGradle,
    Unknown,
}

/// Which of the build-tool marker files are present in the directory.
#[derive(Clone, Copy, Debug, PartialEq, Eq, Structural)]
pub struct ToolMarkers {
    pub cargo_toml: bool,
    pub package_json: bool,
    pub pyproject_toml: bool,
    pub requirements_txt: bool,
    pub go_mod: bool,
    pub pom_xml: bool,
    pub build_gradle: bool,
    pub build_gradle_kts: bool,
}

pub open spec fn spec_tool_detect(m: ToolMarkers) -> Stack {
    if m.cargo_toml {
        Stack::Rust
    } else if m.package_json {
        Stack::Node
    } else if m.pyproject_toml || m.requirements_txt {
        Stack::Python
    } else if m.go_mod {
        Stack::Go
    } else if m.pom_xml {
        Stack::JavaMaven
    } else if m.build_gradle || m.build_gradle_kts {
        Stack::JavaGradle
    } else {
        Stack::Unknown
    }
}

/// The command and arguments that run the stack's tests, if any; Gradle
/// prefers the project wrapper when one is present.
pub open spec fn spec_test_command(s: Stack, has_gradlew: bool) -> Option<(Seq<char>, Seq<Seq<char>>)> {
    match s {
        Stack::Rust => Some(("cargo"@, seq!["test"@])),
        Stack::Node => Some(("npm"@, seq!["test"@])),
        Stack::Python => Some(("python"@, seq!["-m"@, "pytest"@])),
        Stack::Go => Some(("go"@, seq!["test"@, "./..."@])),
        Stack::JavaMaven => Some(("mvn"@, seq!["test"@])),
        Stack::JavaGradle => if has_gradlew {
            Some(("./gradlew"@, seq!["test"@]))
        } else {
            Some(("gradle"@, seq!["test"@]))
        },
        Stack::Unknown => None,
    }
}

pub open spec fn spec_display_name(s: Stack) -> Seq<char> {
    match s {
        Stack::Rust => "Rust"@,
        Stack::Node => "Node.js"@,
        Stack::Python => "Python"@,
        Stack::Go => "Go"@,
        Stack::JavaMaven => "Java (Maven)"@,
        Stack::JavaGradle => "Java (Gradle)"@,
        Stack::Unknown => "Desconhecida"@,
    }
}

impl Stack {
    /// Decide the build tool from the marker files found.
    pub fn detect(m: &ToolMarkers) -> (s: Stack)
        ensures
            s == spec_tool_detect(*m),
    {
        if m.cargo_toml {
            Stack::Rust
        } else if m.package_json {
            Stack::Node
        } else if m.pyproject_toml || m.requirements_txt {
            Stack::Python
        } else if m.go_mod {
            Stack::Go
        } else if m.pom_xml {
            Stack::JavaMaven
        } else if m.build_gradle || m.build_gradle_kts {
            Stack::JavaGradle
        } else {
            Stack::Unknown
        }
    }

    /// The command that runs the project's tests, if the stack has one.
    pub fn test_command(self, has_gradlew: bool) -> (r: Option<(String, Vec<String>)>)
        ensures
            match r {
                Some(c) => spec_test_command(self, has_gradlew) matches Some(sc) && c.0@ == sc.0
                    && c.1.deep_view() == sc.1,
                None => spec_test_command(self, has_gradlew) is None,
            },
    {
        match self {
            Stack::Rust => {
                let args: Vec<String> = vec!["test".to_owned()];
                proof {
                    assert(args.deep_view() =~~= seq!["test"@]);
                }
                Some(("cargo".to_owned(), args))
            },
            Stack::Node => {
                let args: Vec<String> = vec!["test".to_owned()];
                proof {
                    assert(args.deep_view() =~~= seq!["test"@]);
                }
                Some(("npm".to_owned(), args))
            },
            Stack::Python => {
                let args: Vec<String> = vec!["-m".to_owned(), "pytest".to_owned()];
                proof {
                    assert(args.deep_view() =~~= seq!["-m"@, "pytest"@]);
                }
                Some(("python".to_owned(), args))
            },
            Stack::Go => {
                let args: Vec<String> = vec!["test".to_owned(), "./...".to_owned()];
                proof {
                    assert(args.deep_view() =~~= seq!["test"@, "./..."@]);
                }
                Some(("go".to_owned(), args))
            },
            Stack::JavaMaven => {
                let args: Vec<String> = vec!["test".to_owned()];
                proof {
                    assert(args.deep_view() =~~= seq!["test"@]);
                }
                Some(("mvn".to_owned(), args))
            },
            Stack::JavaGradle => {
                let args: Vec<String> = vec!["test".to_owned()];
                proof {
                    assert(args.deep_view() =~~= seq!["test"@]);
                }
                if has_gradlew {
                    Some(("./gradlew".to_owned(), args))
                } else {
                    Some(("gradle".to_owned(), args))
                }
            },
            Stack::Unknown => None,
        }
    }

    /// The human-readable stack name the commands print.
    pub fn display_name(self) -> (r: String)
        ensures
            r@ == spec_display_name(self),
    {
        match self {
            Stack::Rust => "Rust".to_owned(),
            Stack::Node => "Node.js".to_owned(),
            Stack::Python => "Python".to_owned(),
            Stack::Go => "Go".to_owned(),
            Stack::JavaMaven => "Java (Maven)".to_owned(),
            Stack::JavaGradle => "Java (Gradle)".to_owned(),
            Stack::Unknown => "Desconhecida".to_owned(),
        }
    }
}

/// A path component the watcher ignores: hidden, build output, or
/// installed modules.
pub open spec fn spec_ignored_component(c: Seq<char>) -> bool {
    spec_starts_with(c, "."@) || c == "target"@ || c == "node_modules"@
}

/// Should a changed path be ignored?  It should when any of its
/// components is hidden or a build-output directory.
pub fn should_ignore(components: &Vec<String>) -> (r: bool)
    ensures
        r == exists|i: int|
            0 <= i < components.deep_view().len() && spec_ignored_component(
                #[trigger] components.deep_view()[i],
            ),
{
    let ghost cs = components.deep_view();
    let dot = to_chars(".");
    let target_pat = to_chars("target");
    let nm_pat = to_chars("node_modules");
    let mut i: usize = 0;
    while i < components.len()
        invariant
            i <= components@.len(),
            cs == components.deep_view(),
            dot@ == "."@,
            target_pat@ == "target"@,
            nm_pat@ == "node_modules"@,
            forall|m: int| 0 <= m < i ==> !spec_ignored_component(#[trigger] cs[m]),
        decreases components@.len() - i,
    {
        assert(cs[i as int] == components@[i as int]@);
        let cv = to_chars(components[i].as_str());
        if starts_with(&cv, &dot) || crate::text::chars_eq(&cv, &target_pat)
            || crate::text::chars_eq(&cv, &nm_pat) {
            return true;
        }
        i = i + 1;
    }
    false
}

} // verus!
